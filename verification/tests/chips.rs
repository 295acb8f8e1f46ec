use tgt_core::model::chips::{chips_for, Chip};
use tgt_core::model::message::MessageCaps;

#[test]
fn a_plain_message_offers_what_needs_no_permission() {
    assert_eq!(
        chips_for(&MessageCaps::default(), false, false, false, false),
        vec![Chip::Reply, Chip::React]
    );
}

#[test]
fn a_permission_adds_its_chip() {
    let caps = MessageCaps {
        can_be_edited: true,
        can_be_deleted_for_all_users: false,
        can_be_deleted_only_for_self: true,
        can_be_forwarded: true,
        can_be_saved: true,
    };
    assert_eq!(
        chips_for(&caps, true, true, false, false),
        vec![
            Chip::Reply,
            Chip::Forward,
            Chip::React,
            Chip::Copy,
            Chip::Edit,
            Chip::Download,
            Chip::Delete,
        ]
    );
    // Only one's own messages can be edited.
    assert!(!chips_for(&caps, false, true, true, false).contains(&Chip::Edit));
    assert!(chips_for(&caps, false, true, true, false).contains(&Chip::Open));
}

#[test]
fn a_failed_message_can_only_be_resent_or_dropped() {
    let row = chips_for(&MessageCaps::default(), true, false, false, true);
    assert!(row.contains(&Chip::Resend));
    assert!(!row.contains(&Chip::Reply));
    assert!(!row.contains(&Chip::React));
}

#[test]
fn no_two_chips_share_a_shortcut() {
    let all = [
        Chip::Reply,
        Chip::Forward,
        Chip::React,
        Chip::Copy,
        Chip::Edit,
        Chip::Download,
        Chip::Open,
        Chip::Delete,
        Chip::Resend,
    ];
    for (i, a) in all.iter().enumerate() {
        for b in &all[i + 1..] {
            assert_ne!(a.shortcut(), b.shortcut());
        }
    }
}
