//! What selecting a message and invoking its chips do.
use crate::app::AppSpec;
use crate::effect::EffectSpec;
use crate::model::chips::{chip_order, chip_row, chip_row_is_exact, offered_of, Chip};
use crate::model::ids::{ChatId, FileId, MessageId};
use crate::model::key::Key;
use crate::model::message::{ContentSpec, MessageCaps, MessageSpec, ReplySpec};
use crate::state::auth::InputSpec;
use crate::state::composer::ComposerSpec;
use crate::state::conversation::{ConversationSpec, Scroll};
use crate::state::focus::{Focus, ModalKind};
use crate::state::selection::{
    caps_answered, chip_for_letter, entered_at, entered_newest, excerpt, excerpt_filled, exited,
    filling_an_excerpt_moves_nothing, invoked, key_handled, selected, with_row, SelectionSpec,
};
use crate::state::window::{has_id, index_of_id, index_of_id_is, is_first};
use crate::td::error::TdError;
use crate::td::request::RequestSpec;
use crate::text::{byte_len, first_line, shortened, trimmed};
use vstd::prelude::*;

verus! {

proof fn first_of(w: Seq<MessageSpec>, i: int)
    requires
        0 <= i < w.len(),
        forall|j: int| 0 <= j < i ==> (#[trigger] w[j]).id != w[i].id,
    ensures
        index_of_id(w, w[i].id) == Some(i),
{
    assert(is_first(w, w[i].id, i));
    index_of_id_is(w, w[i].id, i);
}

/// The file that a content is about.
pub open spec fn attached(content: ContentSpec) -> Option<FileId> {
    match content {
        ContentSpec::Photo { file_id, .. } => Some(file_id),
        ContentSpec::Video { file_id, .. } => Some(file_id),
        ContentSpec::Audio { file_id, .. } => Some(file_id),
        ContentSpec::Document { file_id, .. } => Some(file_id),
        ContentSpec::Text(_) => None,
        ContentSpec::Sticker { .. } => None,
        ContentSpec::Unsupported { .. } => None,
    }
}

/// Every request that a chip sends about a message names the selected message
/// and the chat it is selected in, whatever the message holds or replies to.
pub proof fn a_chip_is_about_the_selected_message(
    a: AppSpec,
    chat_id: ChatId,
    i: int,
    chip: Chip,
    k: int,
)
    requires
        a.conversations.contains_key(chat_id),
        0 <= i < a.conversations[chat_id].messages.len(),
        forall|j: int|
            0 <= j < i ==> (#[trigger] a.conversations[chat_id].messages[j]).id
                != a.conversations[chat_id].messages[i].id,
        0 <= k < invoked(a, chat_id, a.conversations[chat_id].messages[i].id, chip).1.len(),
    ensures
        ({
            let m = a.conversations[chat_id].messages[i];
            match invoked(a, chat_id, m.id, chip).1[k] {
                EffectSpec::Td(RequestSpec::ToggleReaction { chat_id: c, message_id, .. }) => c
                    == chat_id && message_id == m.id && chip == Chip::React,
                EffectSpec::Td(
                    RequestSpec::ForwardMessages { to_chat_id, from_chat_id, message_ids },
                ) => from_chat_id == chat_id && message_ids == seq![m.id]
                    && a.chat_list.selected == Some(to_chat_id) && chip == Chip::Forward,
                EffectSpec::Td(RequestSpec::DownloadFile { file_id, priority }) => attached(
                    m.content,
                ) == Some(file_id) && priority == 32 && chip == Chip::Download,
                EffectSpec::Td(RequestSpec::SendMessageText { chat_id: c, reply_to, text }) => c
                    == chat_id && m.content == ContentSpec::Text(text) && (m.reply_to is None
                    ==> reply_to is None) && (m.reply_to matches Some(r) ==> reply_to == Some(
                    r.message_id,
                )) && chip == Chip::Resend,
                EffectSpec::CopyToClipboard { text } => chip == Chip::Copy && match m.content {
                    ContentSpec::Text(t) => text == t.text,
                    ContentSpec::Video { file_name, .. } => text == file_name,
                    ContentSpec::Audio { file_name, .. } => text == file_name,
                    ContentSpec::Document { file_name, .. } => text == file_name,
                    _ => text.len() == 0,
                },
                EffectSpec::OpenExternal { path } => chip == Chip::Open && (attached(
                    m.content,
                ) matches Some(f) && a.media.files.contains_key(f) && a.media.files[f].local_path
                    == Some(path)),
                _ => false,
            }
        }),
{
    first_of(a.conversations[chat_id].messages, i);
}

/// What each chip does to the state and how much it sends: a reply and an edit
/// arm the composer, a deletion asks first, a resend takes the failed entry out,
/// and the others leave the state alone.
pub proof fn each_chip_does_its_own(a: AppSpec, chat_id: ChatId, i: int, chip: Chip)
    requires
        a.conversations.contains_key(chat_id),
        0 <= i < a.conversations[chat_id].messages.len(),
        forall|j: int|
            0 <= j < i ==> (#[trigger] a.conversations[chat_id].messages[j]).id
                != a.conversations[chat_id].messages[i].id,
    ensures
        ({
            let c = a.conversations[chat_id];
            let m = c.messages[i];
            let (b, e) = invoked(a, chat_id, m.id, chip);
            match chip {
                Chip::Reply => e.len() == 0 && b == (AppSpec {
                    composer: ComposerSpec { reply_to: Some(m.id), ..a.composer },
                    ..a
                }),
                Chip::Edit => e.len() == 0 && match m.content {
                    ContentSpec::Text(t) => b == (AppSpec {
                        composer: ComposerSpec {
                            editing: Some(m.id),
                            input: InputSpec { text: t.text, cursor: byte_len(t.text) as int },
                            ..a.composer
                        },
                        ..a
                    }),
                    _ => b == a,
                },
                Chip::Delete => e.len() == 0 && b == (AppSpec {
                    focus: a.focus.push(
                        Focus::Modal(
                            ModalKind::ConfirmDelete {
                                chat_id,
                                message_id: m.id,
                                can_revoke: m.caps.can_be_deleted_for_all_users,
                            },
                        ),
                    ),
                    ..a
                }),
                Chip::Forward => b == a && (e.len() == 1 <==> a.chat_list.selected is Some)
                    && e.len() <= 1,
                Chip::React => b == a && e.len() == 1,
                Chip::Copy => b == a && e.len() == 1,
                Chip::Download => b == a && e.len() <= 1 && (e.len() == 1 <==> attached(
                    m.content,
                ) is Some),
                Chip::Open => b == a && e.len() <= 1 && (e.len() == 1 <==> (attached(
                    m.content,
                ) matches Some(f) && a.media.files.contains_key(f)
                    && a.media.files[f].local_path is Some)),
                Chip::Resend => match m.content {
                    ContentSpec::Text(_) => {
                        let after = b.conversations[chat_id];
                        &&& e.len() == 1
                        &&& after.messages == c.messages.filter(|x: MessageSpec| x.id != m.id)
                        &&& after == (ConversationSpec {
                            messages: after.messages,
                            selection: after.selection,
                            ..c
                        })
                        &&& b == (AppSpec {
                            conversations: a.conversations.insert(chat_id, after),
                            ..a
                        })
                    },
                    _ => b == a && e.len() == 0,
                },
            }
        }),
{
    first_of(a.conversations[chat_id].messages, i);
}

/// A message that is not loaded cannot be acted on.
pub proof fn a_chip_needs_its_message(a: AppSpec, chat_id: ChatId, id: MessageId, chip: Chip)
    requires
        !a.conversations.contains_key(chat_id) || forall|i: int|
            0 <= i < a.conversations[chat_id].messages.len() ==> (
            #[trigger] a.conversations[chat_id].messages[i]).id != id,
    ensures
        invoked(a, chat_id, id, chip) == (a, Seq::<EffectSpec>::empty()),
{
    if a.conversations.contains_key(chat_id) {
        assert(!has_id(a.conversations[chat_id].messages, id));
    }
}

/// The letters of the chips.
pub open spec fn letter_of(chip: Chip) -> char {
    match chip {
        Chip::Reply => 'r',
        Chip::Forward => 'f',
        Chip::React => 'e',
        Chip::Copy => 'c',
        Chip::Edit => 'd',
        Chip::Download => 'l',
        Chip::Open => 'o',
        Chip::Delete => 'x',
        Chip::Resend => 's',
    }
}

proof fn letter_found(chips: Seq<Chip>, c: char)
    ensures
        chip_for_letter(chips, c) matches Some(chip) ==> letter_of(chip) == c && chips.contains(
            chip,
        ),
        chip_for_letter(chips, c) is None ==> forall|k: int|
            0 <= k < chips.len() ==> letter_of(#[trigger] chips[k]) != c,
    decreases chips.len(),
{
    if chips.len() > 0 && letter_of(chips[0]) != c {
        let rest = chips.drop_first();
        letter_found(rest, c);
        if let Some(chip) = chip_for_letter(rest, c) {
            assert(chips[rest.index_of(chip) + 1] == chip);
        } else {
            assert forall|k: int| 0 <= k < chips.len() implies letter_of(#[trigger] chips[k])
                != c by {
                if k > 0 {
                    assert(letter_of(rest[k - 1]) != c);
                }
            }
        }
    } else if chips.len() > 0 {
        assert(chips.contains(chips[0]));
    }
}

/// In selection mode a letter invokes the chip of the row that it belongs to, and
/// `Enter` the one under the cursor, both on the selected message. A letter of no
/// chip in the row is not claimed.
pub proof fn keys_invoke_the_chips(a: AppSpec, chat_id: ChatId, s: SelectionSpec, chip: Chip)
    requires
        a.open_chat == Some(chat_id),
        a.focus.last() == Focus::Selection,
        a.conversations.contains_key(chat_id),
        a.conversations[chat_id].selection == Some(s),
    ensures
        s.chips.contains(chip) ==> key_handled(a, Key::Char(letter_of(chip))) == Some(
            invoked(a, chat_id, s.message_id, chip),
        ),
        !s.chips.contains(chip) ==> key_handled(a, Key::Char(letter_of(chip))) is None,
        s.chip_cursor < s.chips.len() ==> key_handled(a, Key::Enter) == Some(
            invoked(a, chat_id, s.message_id, s.chips[s.chip_cursor as int]),
        ),
        s.chip_cursor >= s.chips.len() ==> key_handled(a, Key::Enter) is None,
        key_handled(a, Key::Esc) is None,
{
    letter_found(s.chips, letter_of(chip));
    if s.chips.contains(chip) {
        let k = s.chips.index_of(chip);
        assert(letter_of(s.chips[k]) == letter_of(chip));
    }
}

/// Outside selection mode no key is claimed for it.
pub proof fn keys_need_selection_mode(a: AppSpec, key: Key)
    requires
        a.focus.last() != Focus::Selection || a.open_chat is None || !a.conversations.contains_key(
            a.open_chat->0,
        ) || a.conversations[a.open_chat->0].selection is None,
    ensures
        key_handled(a, key) is None,
{
}

/// `Left` and `Right` move the cursor by one chip, not past either end, and
/// change nothing but it and the part of the row in view.
pub proof fn arrows_move_over_the_row(a: AppSpec, chat_id: ChatId, s: SelectionSpec)
    requires
        a.open_chat == Some(chat_id),
        a.focus.last() == Focus::Selection,
        a.conversations.contains_key(chat_id),
        a.conversations[chat_id].selection == Some(s),
        s.chip_cursor < s.chips.len() <= usize::MAX,
    ensures
        ({
            let left = (key_handled(a, Key::Left)->0).0.conversations[chat_id].selection->0;
            let right = (key_handled(a, Key::Right)->0).0.conversations[chat_id].selection->0;
            &&& key_handled(a, Key::Left) matches Some((b, e)) && e.len() == 0 && b == (AppSpec {
                conversations: a.conversations.insert(
                    chat_id,
                    ConversationSpec { selection: Some(left), ..a.conversations[chat_id] },
                ),
                ..a
            })
            &&& key_handled(a, Key::Right) matches Some((b, e)) && e.len() == 0 && b == (AppSpec {
                conversations: a.conversations.insert(
                    chat_id,
                    ConversationSpec { selection: Some(right), ..a.conversations[chat_id] },
                ),
                ..a
            })
            &&& s.chip_cursor > 0 ==> left.chip_cursor == s.chip_cursor - 1
            &&& s.chip_cursor == 0 ==> left.chip_cursor == 0
            &&& s.chip_cursor + 1 < s.chips.len() ==> right.chip_cursor == s.chip_cursor + 1
            &&& s.chip_cursor + 1 >= s.chips.len() ==> right.chip_cursor == s.chip_cursor
            &&& left.chips == s.chips && left.message_id == s.message_id
            &&& right.chips == s.chips && right.message_id == s.message_id
            &&& right.chip_scroll <= right.chip_cursor < right.chip_scroll + 5
            &&& left.chip_scroll <= left.chip_cursor < left.chip_scroll + 5
            &&& right.chip_scroll == (if right.chip_cursor < s.chip_scroll {
                right.chip_cursor as int
            } else if right.chip_cursor >= s.chip_scroll + 5 {
                right.chip_cursor - 4
            } else {
                s.chip_scroll as int
            })
            &&& left.chip_scroll == (if left.chip_cursor < s.chip_scroll {
                left.chip_cursor as int
            } else if left.chip_cursor >= s.chip_scroll + 5 {
                left.chip_cursor - 4
            } else {
                s.chip_scroll as int
            })
            &&& s.focused() == Some(s.chips[s.chip_cursor as int])
        }),
{
}

/// `Up` and `Down` select the next older and the next newer message, and stop at
/// the ends.
pub proof fn arrows_walk_the_messages(a: AppSpec, chat_id: ChatId, s: SelectionSpec, i: int)
    requires
        a.open_chat == Some(chat_id),
        a.focus.last() == Focus::Selection,
        a.conversations.contains_key(chat_id),
        a.conversations[chat_id].selection == Some(s),
        0 <= i < a.conversations[chat_id].messages.len(),
        a.conversations[chat_id].messages[i].id == s.message_id,
        forall|j: int, k: int|
            0 <= j < k < a.conversations[chat_id].messages.len() ==> (
            #[trigger] a.conversations[chat_id].messages[j]).id != (
            #[trigger] a.conversations[chat_id].messages[k]).id,
    ensures
        ({
            let w = a.conversations[chat_id].messages;
            let up = key_handled(a, Key::Up);
            let down = key_handled(a, Key::Down);
            &&& up matches Some((b, _)) && (i > 0 ==> (b.conversations[chat_id].selection matches Some(
                t,
            ) && t.message_id == w[i - 1].id)) && (i == 0 ==> b == a)
            &&& down matches Some((b, _)) && (i < w.len() - 1 ==> (
            b.conversations[chat_id].selection matches Some(t) && t.message_id == w[i + 1].id)) && (i
                == w.len() - 1 ==> b == a)
        }),
{
    let w = a.conversations[chat_id].messages;
    first_of(w, i);
    if i > 0 {
        first_of(w, i - 1);
    }
    if i < w.len() - 1 {
        first_of(w, i + 1);
    }
}

/// Selecting a loaded message puts the cursor on the first of the chips that it
/// offers, brings it into view, and asks TDLib what it can be asked for, unless
/// it failed to send. No other message changes.
pub proof fn selecting_shows_the_message(a: AppSpec, chat_id: ChatId, i: int)
    requires
        a.conversations.contains_key(chat_id),
        0 <= i < a.conversations[chat_id].messages.len(),
        forall|j: int, k: int|
            0 <= j < k < a.conversations[chat_id].messages.len() ==> (
            #[trigger] a.conversations[chat_id].messages[j]).id != (
            #[trigger] a.conversations[chat_id].messages[k]).id,
    ensures
        ({
            let c = a.conversations[chat_id];
            let m = c.messages[i];
            let (b, e) = selected(a, chat_id, m.id);
            let after = b.conversations[chat_id];
            let file = attached(m.content);
            &&& after.selection == Some(
                SelectionSpec {
                    message_id: m.id,
                    chips: chip_row(
                        m.caps,
                        m.is_outgoing,
                        file is Some,
                        file matches Some(f) && a.media.files.contains_key(f)
                            && a.media.files[f].is_completed,
                        m.send_state is Failed,
                    ),
                    chip_cursor: 0,
                    chip_scroll: 0,
                },
            )
            &&& after.scroll == (if i == c.messages.len() - 1 {
                Scroll::Bottom
            } else {
                Scroll::At { message_id: m.id, line_offset: 0 }
            })
            &&& !(m.send_state is Failed) ==> e.len() > 0 && e[0] == EffectSpec::Td(
                RequestSpec::GetMessageProperties { chat_id, message_id: m.id },
            )
            &&& after.messages.len() == c.messages.len()
            &&& forall|j: int|
                0 <= j < c.messages.len() && j != i ==> #[trigger] after.messages[j]
                    == c.messages[j]
            &&& after.messages[i] == (MessageSpec { reply_to: after.messages[i].reply_to, ..m })
            &&& m.reply_to is None ==> after.messages[i].reply_to is None
            &&& m.reply_to matches Some(r) ==> (after.messages[i].reply_to matches Some(q)
                && q.message_id == r.message_id && (r.excerpt.len() > 0 ==> q.excerpt == r.excerpt)
                && (r.sender_name.len() > 0 ==> q.sender_name == r.sender_name))
        }),
{
    let c = a.conversations[chat_id];
    first_of(c.messages, i);
    let m = c.messages[i];
    assert(m.content.file() == attached(m.content));
    if i < c.messages.len() - 1 {
        assert(m.id != c.messages[c.messages.len() - 1].id);
    }
    let w = excerpt_filled(c.messages, m.id);
    filling_an_excerpt_moves_nothing(c.messages, m.id, m.id);
    assert(w.len() == c.messages.len());
    assert(w.last().id == c.messages.last().id);
    let e1 = seq![
        EffectSpec::Td(RequestSpec::GetMessageProperties { chat_id, message_id: m.id }),
    ];
    let (b, e) = selected(a, chat_id, m.id);
    if !(m.send_state is Failed) {
        let (c1, first) = crate::state::selection::selected_in(
            c,
            chat_id,
            m.id,
            a.media.files,
            a.now,
        );
        assert(first[0] == e1[0]);
        assert(e[0] == first[0]);
    }
}

/// An empty reply header is completed from the quoted message, if it is loaded:
/// its first line and its sender.
pub proof fn a_reply_header_is_completed(w: Seq<MessageSpec>, i: int, j: int, r: ReplySpec)
    requires
        0 <= i < w.len(),
        0 <= j < w.len(),
        forall|k: int, n: int|
            0 <= k < n < w.len() ==> (#[trigger] w[k]).id != (#[trigger] w[n]).id,
        w[i].reply_to == Some(r),
        w[j].id == r.message_id,
    ensures
        ({
            let q = excerpt_filled(w, w[i].id)[i].reply_to->0;
            &&& r.excerpt.len() == 0 ==> q.excerpt == excerpt(w[j].content)
            &&& r.excerpt.len() > 0 ==> q.excerpt == r.excerpt
            &&& r.sender_name.len() == 0 ==> q.sender_name == w[j].sender_name
            &&& r.sender_name.len() > 0 ==> q.sender_name == r.sender_name
            &&& q.message_id == r.message_id
            &&& excerpt_filled(w, w[i].id) == w.update(
                i,
                MessageSpec { reply_to: Some(q), ..w[i] },
            )
        }),
{
    first_of(w, i);
    first_of(w, j);
}

/// What stands for a quoted message: the first line of its text or caption, trimmed and cut
/// to ninety-six characters; without these its file's name, or what kind of thing it is.
pub proof fn an_excerpt_is_of_what_is_quoted(content: ContentSpec)
    ensures
        ({
            let line = match content {
                ContentSpec::Text(t) => t.text,
                ContentSpec::Photo { caption, .. } => if caption.text.len() == 0 {
                    "Photo"@
                } else {
                    caption.text
                },
                ContentSpec::Video { caption, file_name, .. } => if caption.text.len() == 0 {
                    file_name
                } else {
                    caption.text
                },
                ContentSpec::Document { caption, file_name, .. } => if caption.text.len() == 0 {
                    file_name
                } else {
                    caption.text
                },
                ContentSpec::Audio { file_name, .. } => file_name,
                ContentSpec::Sticker { emoji } => emoji,
                ContentSpec::Unsupported { description } => description,
            };
            excerpt(content) == shortened(trimmed(first_line(line)), 96)
        }),
{
}

/// A new row keeps the cursor where it is, or on the last chip if the row is shorter, or at
/// the start of an empty one; and the cursor stays in view.
pub proof fn a_new_row_keeps_the_cursor(s: SelectionSpec, chips: Seq<Chip>)
    requires
        chips.len() <= usize::MAX,
    ensures
        ({
            let t = with_row(s, chips);
            &&& t.chips == chips && t.message_id == s.message_id
            &&& s.chip_cursor < chips.len() ==> t.chip_cursor == s.chip_cursor
            &&& s.chip_cursor >= chips.len() > 0 ==> t.chip_cursor == chips.len() - 1
            &&& chips.len() == 0 ==> t.chip_cursor == 0
            &&& t.chip_scroll <= t.chip_cursor < t.chip_scroll + 5
            &&& s.chip_scroll <= t.chip_cursor < s.chip_scroll + 5 ==> t.chip_scroll
                == s.chip_scroll
            &&& t == (SelectionSpec {
                chips,
                chip_cursor: t.chip_cursor,
                chip_scroll: t.chip_scroll,
                ..s
            })
        }),
{
}

/// Selection mode starts at the newest loaded message of the open chat, and
/// leaving it drops the selection and nothing else.
pub proof fn selection_mode_starts_at_the_newest(a: AppSpec, chat_id: ChatId)
    requires
        a.open_chat == Some(chat_id),
        a.conversations.contains_key(chat_id),
    ensures
        ({
            let c = a.conversations[chat_id];
            &&& c.messages.len() == 0 ==> entered_newest(a) == (a, Seq::<EffectSpec>::empty())
            &&& c.messages.len() > 0 ==> entered_newest(a) == selected(
                a,
                chat_id,
                c.messages[c.messages.len() - 1].id,
            )
            &&& forall|id: MessageId| #[trigger] entered_at(a, id) == selected(a, chat_id, id)
            &&& exited(a) == (AppSpec {
                conversations: a.conversations.insert(
                    chat_id,
                    ConversationSpec { selection: None, ..c },
                ),
                ..a
            })
        }),
{
}

/// What TDLib says a message can be asked for is recorded with it, and the row
/// under a selected message follows. An error changes nothing.
pub proof fn capabilities_are_recorded(
    a: AppSpec,
    chat_id: ChatId,
    i: int,
    caps: MessageCaps,
    error: TdError,
)
    requires
        a.conversations.contains_key(chat_id),
        0 <= i < a.conversations[chat_id].messages.len(),
        forall|j: int|
            0 <= j < i ==> (#[trigger] a.conversations[chat_id].messages[j]).id
                != a.conversations[chat_id].messages[i].id,
    ensures
        ({
            let c = a.conversations[chat_id];
            let m = c.messages[i];
            let b = caps_answered(a, chat_id, m.id, Ok(caps));
            let after = b.conversations[chat_id];
            let file = attached(m.content);
            &&& after.messages == c.messages.update(i, MessageSpec { caps, ..m })
            &&& after == (ConversationSpec {
                messages: after.messages,
                selection: after.selection,
                ..c
            })
            &&& b == (AppSpec { conversations: a.conversations.insert(chat_id, after), ..a })
            &&& c.selection matches Some(s) ==> (s.message_id != m.id ==> after.selection
                == c.selection)
            &&& c.selection is None ==> after.selection is None
            &&& c.selection matches Some(s) ==> (s.message_id == m.id ==> (after.selection matches Some(
                t,
            ) && t.message_id == m.id && t.chips == chip_row(
                caps,
                m.is_outgoing,
                file is Some,
                file matches Some(f) && a.media.files.contains_key(f)
                    && a.media.files[f].is_completed,
                m.send_state is Failed,
            ) && (s.chip_cursor < t.chips.len() ==> t.chip_cursor == s.chip_cursor)))
            &&& caps_answered(a, chat_id, m.id, Err(error)) == a
        }),
{
    first_of(a.conversations[chat_id].messages, i);
    let m = a.conversations[chat_id].messages[i];
    assert(m.content.file() == attached(m.content));
}

/// What a row offers: a failed message can be sent again or dropped; any other
/// can be replied and reacted to, and whatever else TDLib allows.
pub proof fn the_row_offers_what_is_possible(
    caps: MessageCaps,
    is_outgoing: bool,
    has_file: bool,
    downloaded: bool,
    send_failed: bool,
)
    ensures
        ({
            let row = chip_row(caps, is_outgoing, has_file, downloaded, send_failed);
            &&& row.contains(Chip::Resend) <==> send_failed
            &&& row.contains(Chip::Reply) <==> !send_failed
            &&& row.contains(Chip::React) <==> !send_failed
            &&& row.contains(Chip::Forward) <==> !send_failed && caps.can_be_forwarded
            &&& row.contains(Chip::Copy) <==> !send_failed && caps.can_be_saved
            &&& row.contains(Chip::Edit) <==> !send_failed && caps.can_be_edited && is_outgoing
            &&& row.contains(Chip::Download) <==> !send_failed && has_file && !downloaded
            &&& row.contains(Chip::Open) <==> !send_failed && has_file && downloaded
            &&& row.contains(Chip::Delete) <==> send_failed || caps.can_be_deleted_only_for_self
                || caps.can_be_deleted_for_all_users
        }),
{
    chip_row_is_exact(caps, is_outgoing, has_file, downloaded, send_failed, Chip::Resend);
    chip_row_is_exact(caps, is_outgoing, has_file, downloaded, send_failed, Chip::Reply);
    chip_row_is_exact(caps, is_outgoing, has_file, downloaded, send_failed, Chip::React);
    chip_row_is_exact(caps, is_outgoing, has_file, downloaded, send_failed, Chip::Forward);
    chip_row_is_exact(caps, is_outgoing, has_file, downloaded, send_failed, Chip::Copy);
    chip_row_is_exact(caps, is_outgoing, has_file, downloaded, send_failed, Chip::Edit);
    chip_row_is_exact(caps, is_outgoing, has_file, downloaded, send_failed, Chip::Download);
    chip_row_is_exact(caps, is_outgoing, has_file, downloaded, send_failed, Chip::Open);
    chip_row_is_exact(caps, is_outgoing, has_file, downloaded, send_failed, Chip::Delete);
}

/// Where a chip stands among the others.
pub open spec fn stand(chip: Chip) -> int {
    match chip {
        Chip::Resend => 0,
        Chip::Reply => 1,
        Chip::Forward => 2,
        Chip::React => 3,
        Chip::Copy => 4,
        Chip::Edit => 5,
        Chip::Download => 6,
        Chip::Open => 7,
        Chip::Delete => 8,
    }
}

/// A row always shows its chips in the same order, none twice.
pub proof fn the_row_is_in_order(
    caps: MessageCaps,
    is_outgoing: bool,
    has_file: bool,
    downloaded: bool,
    send_failed: bool,
)
    ensures
        ({
            let row = chip_row(caps, is_outgoing, has_file, downloaded, send_failed);
            forall|i: int, j: int|
                0 <= i < j < row.len() ==> stand(#[trigger] row[i]) < stand(#[trigger] row[j])
        }),
{
    let order = chip_order();
    assert forall|i: int, j: int| 0 <= i < j < order.len() implies stand(#[trigger] order[i])
        < stand(#[trigger] order[j]) by {}
    offered_in_order(order, caps, is_outgoing, has_file, downloaded, send_failed);
}

proof fn offered_in_order(
    order: Seq<Chip>,
    caps: MessageCaps,
    is_outgoing: bool,
    has_file: bool,
    downloaded: bool,
    send_failed: bool,
)
    requires
        forall|i: int, j: int|
            0 <= i < j < order.len() ==> stand(#[trigger] order[i]) < stand(#[trigger] order[j]),
    ensures
        ({
            let row = offered_of(order, caps, is_outgoing, has_file, downloaded, send_failed);
            &&& forall|i: int, j: int|
                0 <= i < j < row.len() ==> stand(#[trigger] row[i]) < stand(#[trigger] row[j])
            &&& forall|i: int| 0 <= i < row.len() ==> order.contains(#[trigger] row[i])
        }),
    decreases order.len(),
{
    if order.len() > 0 {
        let front = order.drop_last();
        assert forall|i: int, j: int| 0 <= i < j < front.len() implies stand(#[trigger] front[i])
            < stand(#[trigger] front[j]) by {
            assert(stand(order[i]) < stand(order[j]));
        }
        offered_in_order(front, caps, is_outgoing, has_file, downloaded, send_failed);
        let rest = offered_of(front, caps, is_outgoing, has_file, downloaded, send_failed);
        assert forall|i: int| 0 <= i < rest.len() implies stand(#[trigger] rest[i]) < stand(
            order.last(),
        ) && order.contains(rest[i]) by {
            let k = front.index_of(rest[i]);
            assert(order[k] == rest[i]);
            assert(stand(order[k]) < stand(order[order.len() - 1]));
        }
        assert(order.contains(order[order.len() - 1]));
    }
}

} // verus!
