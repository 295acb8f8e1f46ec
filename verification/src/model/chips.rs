//! The action chips offered under a selected message.
use crate::model::message::MessageCaps;
use vstd::prelude::*;

verus! {

#[derive(Debug, Clone, Copy, PartialEq, Eq, Structural)]
pub enum Chip {
    Reply,
    Forward,
    React,
    Copy,
    Edit,
    Download,
    Open,
    Delete,
    Resend,
}

impl Chip {
    pub open spec fn letter(self) -> char {
        match self {
            Chip::Reply => 'r',
            Chip::Forward => 'f',
            Chip::React => 'e',
            Chip::Copy => 'c',
            Chip::Edit => 'd',
            Chip::Download => 'l',
            Chip::Open => 'o',
            Chip::Delete => 'x',
            Chip::Resend => 's',
        }
    }

    /// The letter that invokes the chip.
    pub fn shortcut(self) -> (c: char)
        ensures
            c == self.letter(),
    {
        match self {
            Chip::Reply => 'r',
            Chip::Forward => 'f',
            Chip::React => 'e',
            Chip::Copy => 'c',
            Chip::Edit => 'd',
            Chip::Download => 'l',
            Chip::Open => 'o',
            Chip::Delete => 'x',
            Chip::Resend => 's',
        }
    }
}

/// Whether `chip` is offered for a message with these facts.
pub open spec fn offered(
    chip: Chip,
    caps: MessageCaps,
    is_outgoing: bool,
    has_file: bool,
    downloaded: bool,
    send_failed: bool,
) -> bool {
    if send_failed {
        chip == Chip::Resend || chip == Chip::Delete
    } else {
        match chip {
            Chip::Reply | Chip::React => true,
            Chip::Forward => caps.can_be_forwarded,
            Chip::Copy => caps.can_be_saved,
            Chip::Edit => caps.can_be_edited && is_outgoing,
            Chip::Download => has_file && !downloaded,
            Chip::Open => has_file && downloaded,
            Chip::Delete => caps.can_be_deleted_only_for_self || caps.can_be_deleted_for_all_users,
            Chip::Resend => false,
        }
    }
}

/// All chips, in the order in which a row shows them.
pub open spec fn chip_order() -> Seq<Chip> {
    seq![
        Chip::Resend,
        Chip::Reply,
        Chip::Forward,
        Chip::React,
        Chip::Copy,
        Chip::Edit,
        Chip::Download,
        Chip::Open,
        Chip::Delete,
    ]
}

/// The chips of `order` that are offered, in that order.
pub open spec fn offered_of(
    order: Seq<Chip>,
    caps: MessageCaps,
    is_outgoing: bool,
    has_file: bool,
    downloaded: bool,
    send_failed: bool,
) -> Seq<Chip>
    decreases order.len(),
{
    if order.len() == 0 {
        Seq::empty()
    } else {
        let rest = offered_of(
            order.drop_last(),
            caps,
            is_outgoing,
            has_file,
            downloaded,
            send_failed,
        );
        if offered(order.last(), caps, is_outgoing, has_file, downloaded, send_failed) {
            rest.push(order.last())
        } else {
            rest
        }
    }
}

/// The chip row of a message with these facts.
pub open spec fn chip_row(
    caps: MessageCaps,
    is_outgoing: bool,
    has_file: bool,
    downloaded: bool,
    send_failed: bool,
) -> Seq<Chip> {
    offered_of(chip_order(), caps, is_outgoing, has_file, downloaded, send_failed)
}

fn is_offered(
    chip: Chip,
    caps: &MessageCaps,
    is_outgoing: bool,
    has_file: bool,
    downloaded: bool,
    send_failed: bool,
) -> (r: bool)
    ensures
        r == offered(chip, *caps, is_outgoing, has_file, downloaded, send_failed),
{
    if send_failed {
        return matches!(chip, Chip::Resend | Chip::Delete);
    }
    match chip {
        Chip::Reply | Chip::React => true,
        Chip::Forward => caps.can_be_forwarded,
        Chip::Copy => caps.can_be_saved,
        Chip::Edit => caps.can_be_edited && is_outgoing,
        Chip::Download => has_file && !downloaded,
        Chip::Open => has_file && downloaded,
        Chip::Delete => caps.can_be_deleted_only_for_self || caps.can_be_deleted_for_all_users,
        Chip::Resend => false,
    }
}

/// Exactly the chips that TDLib will accept for a message. One that failed to
/// send does not exist on the server: it can only be resent or dropped.
pub fn chips_for(
    caps: &MessageCaps,
    is_outgoing: bool,
    has_file: bool,
    downloaded: bool,
    send_failed: bool,
) -> (chips: Vec<Chip>)
    ensures
        chips@ == chip_row(*caps, is_outgoing, has_file, downloaded, send_failed),
{
    let order: [Chip; 9] = [
        Chip::Resend,
        Chip::Reply,
        Chip::Forward,
        Chip::React,
        Chip::Copy,
        Chip::Edit,
        Chip::Download,
        Chip::Open,
        Chip::Delete,
    ];
    assert(order@ =~= chip_order());
    let mut chips: Vec<Chip> = Vec::new();
    let mut i: usize = 0;
    while i < 9
        invariant
            i <= 9,
            order@ == chip_order(),
            order@.len() == 9,
            chips@ == offered_of(
                order@.take(i as int),
                *caps,
                is_outgoing,
                has_file,
                downloaded,
                send_failed,
            ),
        decreases 9 - i,
    {
        assert(order@.take(i + 1).drop_last() =~= order@.take(i as int));
        if is_offered(order[i], caps, is_outgoing, has_file, downloaded, send_failed) {
            chips.push(order[i]);
        }
        i = i + 1;
    }
    assert(order@.take(9) =~= order@);
    chips
}

/// A row holds exactly the chips that are offered.
pub proof fn row_holds_what_is_offered(
    order: Seq<Chip>,
    caps: MessageCaps,
    is_outgoing: bool,
    has_file: bool,
    downloaded: bool,
    send_failed: bool,
    chip: Chip,
)
    ensures
        offered_of(order, caps, is_outgoing, has_file, downloaded, send_failed).contains(chip)
            <==> (order.contains(chip) && offered(
            chip,
            caps,
            is_outgoing,
            has_file,
            downloaded,
            send_failed,
        )),
    decreases order.len(),
{
    if order.len() > 0 {
        let last = order.last();
        let init = order.drop_last();
        row_holds_what_is_offered(
            init,
            caps,
            is_outgoing,
            has_file,
            downloaded,
            send_failed,
            chip,
        );
        let rest = offered_of(init, caps, is_outgoing, has_file, downloaded, send_failed);
        assert(order =~= init.push(last));
        assert(order.contains(chip) <==> (init.contains(chip) || chip == last)) by {
            if init.contains(chip) {
                let p = choose|p: int| 0 <= p < init.len() && init[p] == chip;
                assert(order[p] == chip);
            }
            if order.contains(chip) && chip != last {
                let p = choose|p: int| 0 <= p < order.len() && order[p] == chip;
                assert(init[p] == chip);
            }
            assert(order[order.len() - 1] == last);
        }
        assert(rest.push(last).contains(chip) <==> (rest.contains(chip) || chip == last)) by {
            if rest.contains(chip) {
                let p = choose|p: int| 0 <= p < rest.len() && rest[p] == chip;
                assert(rest.push(last)[p] == chip);
            }
            if rest.push(last).contains(chip) && chip != last {
                let p = choose|p: int| 0 <= p < rest.push(last).len() && rest.push(last)[p] == chip;
                assert(rest[p] == chip);
            }
            assert(rest.push(last)[rest.len() as int] == last);
        }
    }
}

/// The chip row is the truth about what is possible: a chip stands in it if
/// and only if it is offered.
pub proof fn chip_row_is_exact(
    caps: MessageCaps,
    is_outgoing: bool,
    has_file: bool,
    downloaded: bool,
    send_failed: bool,
    chip: Chip,
)
    ensures
        chip_row(caps, is_outgoing, has_file, downloaded, send_failed).contains(chip) <==> offered(
            chip,
            caps,
            is_outgoing,
            has_file,
            downloaded,
            send_failed,
        ),
{
    row_holds_what_is_offered(
        chip_order(),
        caps,
        is_outgoing,
        has_file,
        downloaded,
        send_failed,
        chip,
    );
    let o = chip_order();
    assert(o[0] == Chip::Resend && o[1] == Chip::Reply && o[2] == Chip::Forward && o[3]
        == Chip::React && o[4] == Chip::Copy && o[5] == Chip::Edit && o[6] == Chip::Download
        && o[7] == Chip::Open && o[8] == Chip::Delete);
    assert(o.contains(chip));
}

} // verus!
