//! Selection mode: the message cursor and its capability chips.
//!
//! One message of the open conversation is selected, and the chip row under it
//! offers exactly the actions that TDLib will accept for it. What TDLib allows
//! is fetched each time the cursor lands on a message; until the answer comes,
//! the row is what the message itself already says. A message that failed to
//! send does not exist on the server, so there is nothing to fetch for it.
//!
//! Focus belongs to the router: [`enter`] is called after `Focus::Selection`
//! was pushed, [`exit`] after it was popped, and `Esc` stays unclaimed.
use crate::app::{models_insert, AppSpec, AppState};
use crate::collections::{filter_take_none, filter_take_step};
use crate::effect::{extend, no_effects, none, one, request, views, Effect, EffectSpec};
use crate::model::chips::{chip_row, chips_for, Chip};
use crate::model::entity::FormattedText;
use crate::model::ids::{ChatId, FileId, MessageId};
use crate::model::key::Key;
use crate::model::message::{
    ContentSpec, FileSnapshot, MessageCaps, MessageContent, MessageSpec, MessageView, ReplySpec,
    SendState,
};
use crate::model::time::Millis;
use crate::state::auth::{InputField, InputSpec};
use crate::state::composer::ComposerSpec;
use crate::state::conversation::{
    anchor_to, anchored_to, clamp, clamped_step, drop_selection_if_gone, on_conversation,
    selection_checked, window, ConversationSpec, ConversationState,
};
use crate::state::focus::{Focus, ModalKind};
use crate::state::media::{
    auto_download_photos, auto_downloaded, completed, path_of, MediaState,
};
use crate::state::window::{
    has_id, index_of, index_of_id, index_of_id_exists, index_of_id_is, is_first, newest, newest_id,
    take_at, window_insert,
};
use crate::td::error::TdError;
use crate::td::request::{RequestSpec, TdRequest};
use crate::text::{
    byte_len, first_line, first_line_is_one, len_bytes, one_line, shortened, trimmed,
    trimming_adds_nothing,
};
use std::collections::VecDeque;
use vstd::prelude::*;

verus! {

/// The reaction that the `React` chip toggles.
pub const DEFAULT_REACTION: &'static str = "👍";

/// How many chips a row is taken to show at once.
pub const CHIP_VISIBLE_MAX: usize = 5;

/// Excerpts are cut to one line of this many characters.
pub const REPLY_EXCERPT_MAX_CHARS: usize = 96;

/// Priority of a download that the user asked for.
pub const DOWNLOAD_PRIORITY: i8 = 32;

#[derive(Debug, Clone, PartialEq)]
pub struct SelectionState {
    pub message_id: MessageId,
    pub chips: Vec<Chip>,
    pub chip_cursor: usize,
    /// First visible chip.
    pub chip_scroll: usize,
}

#[verifier::ext_equal]
pub ghost struct SelectionSpec {
    pub message_id: MessageId,
    pub chips: Seq<Chip>,
    pub chip_cursor: usize,
    pub chip_scroll: usize,
}

impl View for SelectionState {
    type V = SelectionSpec;

    open spec fn view(&self) -> SelectionSpec {
        SelectionSpec {
            message_id: self.message_id,
            chips: self.chips@,
            chip_cursor: self.chip_cursor,
            chip_scroll: self.chip_scroll,
        }
    }
}

impl SelectionSpec {
    pub open spec fn focused(self) -> Option<Chip> {
        if self.chip_cursor < self.chips.len() {
            Some(self.chips[self.chip_cursor as int])
        } else {
            None
        }
    }
}

impl SelectionState {
    /// The chip that `Enter` would invoke, if the row is not empty.
    pub fn focused_chip(&self) -> (r: Option<Chip>)
        ensures
            r == self@.focused(),
    {
        if self.chip_cursor < self.chips.len() {
            Some(self.chips[self.chip_cursor])
        } else {
            None
        }
    }
}

// --- chips ------------------------------------------------------------------------

/// The chip row of a message: TDLib's capabilities and the facts that only the
/// client knows.
pub open spec fn chips_of(m: MessageSpec, files: Map<FileId, FileSnapshot>) -> Seq<Chip> {
    chip_row(
        m.caps,
        m.is_outgoing,
        m.content.file() is Some,
        m.content.file() matches Some(f) && completed(files, f),
        m.send_state is Failed,
    )
}

pub fn chips_for_message(msg: &MessageView, media: &MediaState) -> (r: Vec<Chip>)
    ensures
        r@ == chips_of(msg@, media@.files),
{
    let file: Option<FileId> = msg.content.file();
    let downloaded: bool = match &file {
        Some(f) => media.is_completed(f),
        None => false,
    };
    let send_failed: bool = matches!(msg.send_state, SendState::Failed(_));
    chips_for(&msg.caps, msg.is_outgoing, file.is_some(), downloaded, send_failed)
}

/// The chip window moved by the least that brings the cursor into view.
pub open spec fn scroll_clamped(s: SelectionSpec) -> SelectionSpec {
    if s.chip_cursor < s.chip_scroll {
        SelectionSpec { chip_scroll: s.chip_cursor, ..s }
    } else if s.chip_cursor - s.chip_scroll >= CHIP_VISIBLE_MAX {
        SelectionSpec { chip_scroll: (s.chip_cursor + 1 - CHIP_VISIBLE_MAX) as usize, ..s }
    } else {
        s
    }
}

fn clamp_chip_scroll(sel: &mut SelectionState)
    ensures
        final(sel)@ == scroll_clamped(old(sel)@),
{
    if sel.chip_cursor < sel.chip_scroll {
        sel.chip_scroll = sel.chip_cursor;
    } else if sel.chip_cursor - sel.chip_scroll >= CHIP_VISIBLE_MAX {
        sel.chip_scroll = sel.chip_cursor - (CHIP_VISIBLE_MAX - 1);
    }
}

pub open spec fn chip_moved(s: SelectionSpec, delta: int) -> SelectionSpec {
    if s.chips.len() == 0 {
        s
    } else {
        scroll_clamped(
            SelectionSpec {
                chip_cursor: clamp(s.chip_cursor + delta, 0, s.chips.len() - 1) as usize,
                ..s
            },
        )
    }
}

/// `c` with its selection, if it has one, changed by `f`.
pub open spec fn on_selection(
    c: ConversationSpec,
    f: spec_fn(SelectionSpec) -> SelectionSpec,
) -> ConversationSpec {
    match c.selection {
        Some(s) => ConversationSpec { selection: Some(f(s)), ..c },
        None => c,
    }
}

/// Left and right over the chip row, with the visible part following.
fn move_chip_cursor(app: &mut AppState, chat_id: ChatId, delta: isize)
    ensures
        final(app)@ == on_conversation(
            old(app)@,
            chat_id,
            |c: ConversationSpec|
                on_selection(c, |s: SelectionSpec| chip_moved(s, delta as int)),
        ),
{
    let ghost convs = app.conversations@;
    if let Some(convo) = app.conversations.get_mut(&chat_id) {
        if let Some(sel) = convo.selection.as_mut() {
            if sel.chips.len() > 0 {
                sel.chip_cursor = clamped_step(sel.chip_cursor, delta, sel.chips.len() - 1);
                clamp_chip_scroll(sel);
            }
        }
    }
    proof {
        models_insert(convs, chat_id, app.conversations@[chat_id]);
    }
}

/// A selection with a new row: the cursor stays as close as the row allows.
pub open spec fn with_row(s: SelectionSpec, chips: Seq<Chip>) -> SelectionSpec {
    scroll_clamped(
        SelectionSpec {
            chips,
            chip_cursor: if s.chip_cursor < chips.len() {
                s.chip_cursor
            } else if chips.len() == 0 {
                0
            } else {
                (chips.len() - 1) as usize
            },
            ..s
        },
    )
}

fn set_row(sel: &mut SelectionState, chips: Vec<Chip>)
    ensures
        final(sel)@ == with_row(old(sel)@, chips@),
{
    if sel.chip_cursor >= chips.len() {
        sel.chip_cursor = if chips.len() == 0 {
            0
        } else {
            chips.len() - 1
        };
    }
    sel.chips = chips;
    clamp_chip_scroll(sel);
}

// --- reply excerpts -----------------------------------------------------------------

/// What stands for a message's content in one line.
pub open spec fn summary(content: ContentSpec) -> Seq<char> {
    match content {
        ContentSpec::Text(t) => t.text,
        ContentSpec::Photo { caption, .. } => if caption.text.len() > 0 {
            caption.text
        } else {
            "Photo"@
        },
        ContentSpec::Video { caption, file_name, .. } => if caption.text.len() > 0 {
            caption.text
        } else {
            file_name
        },
        ContentSpec::Audio { file_name, .. } => file_name,
        ContentSpec::Document { caption, file_name, .. } => if caption.text.len() > 0 {
            caption.text
        } else {
            file_name
        },
        ContentSpec::Sticker { emoji } => emoji,
        ContentSpec::Unsupported { description } => description,
    }
}

pub open spec fn excerpt(content: ContentSpec) -> Seq<char> {
    shortened(trimmed(first_line(summary(content))), REPLY_EXCERPT_MAX_CHARS as int)
}

fn first_non_empty<'a>(a: &'a String, b: &'a String) -> (r: &'a str)
    ensures
        r@ == if a@.len() > 0 {
            a@
        } else {
            b@
        },
{
    if a.as_str().is_empty() {
        b.as_str()
    } else {
        a.as_str()
    }
}

/// One line of a message's content, cut to [`REPLY_EXCERPT_MAX_CHARS`]
/// characters.
pub fn excerpt_of(content: &MessageContent) -> (r: String)
    ensures
        r@ == excerpt(content@),
{
    let raw: &str = match content {
        MessageContent::Text(f) => f.text.as_str(),
        MessageContent::Photo { caption, .. } => {
            if caption.text.as_str().is_empty() {
                "Photo"
            } else {
                caption.text.as_str()
            }
        },
        MessageContent::Video { caption, file_name, .. } => first_non_empty(
            &caption.text,
            file_name,
        ),
        MessageContent::Audio { file_name, .. } => file_name.as_str(),
        MessageContent::Document { caption, file_name, .. } => first_non_empty(
            &caption.text,
            file_name,
        ),
        MessageContent::Sticker { emoji } => emoji.as_str(),
        MessageContent::Unsupported { description } => description.as_str(),
    };
    one_line(raw, REPLY_EXCERPT_MAX_CHARS)
}

/// `r` with what it lacks taken from the message that it quotes.
pub open spec fn completed_reply(r: ReplySpec, source: MessageSpec) -> ReplySpec {
    ReplySpec {
        message_id: r.message_id,
        excerpt: if r.excerpt.len() == 0 {
            excerpt(source.content)
        } else {
            r.excerpt
        },
        sender_name: if r.sender_name.len() == 0 {
            source.sender_name
        } else {
            r.sender_name
        },
    }
}

/// The window with the reply header of `id` completed, where the quoted
/// message is loaded.
pub open spec fn excerpt_filled(w: Seq<MessageSpec>, id: MessageId) -> Seq<MessageSpec> {
    match index_of_id(w, id) {
        None => w,
        Some(i) => match w[i].reply_to {
            None => w,
            Some(r) => match index_of_id(w, r.message_id) {
                None => w,
                Some(j) => w.update(
                    i,
                    MessageSpec { reply_to: Some(completed_reply(r, w[j])), ..w[i] },
                ),
            },
        },
    }
}

/// TDLib leaves the excerpt empty for replies within a chat. Selecting a
/// message is the moment to fill it from the window; nothing is invented.
fn fill_reply_excerpt(messages: &mut VecDeque<MessageView>, message_id: MessageId)
    ensures
        window(final(messages)@) == excerpt_filled(window(old(messages)@), message_id),
        final(messages)@.len() == old(messages)@.len(),
{
    let ghost w = window(messages@);
    let idx: usize = match index_of(messages, message_id) {
        Some(idx) => idx,
        None => {
            return;
        },
    };
    assert(w[idx as int] == messages@[idx as int]@);
    let replied_id: MessageId = match &messages[idx].reply_to {
        Some(reply) => {
            if !reply.excerpt.as_str().is_empty() && !reply.sender_name.as_str().is_empty() {
                proof {
                    if index_of_id(w, reply.message_id) is Some {
                        let j = index_of_id(w, reply.message_id)->0;
                        assert(completed_reply(reply@, w[j]) == reply@);
                        assert(w.update(
                            idx as int,
                            MessageSpec { reply_to: Some(reply@), ..w[idx as int] },
                        ) =~= w);
                    }
                }
                return;
            }
            reply.message_id
        },
        None => {
            return;
        },
    };
    let src_idx: usize = match index_of(messages, replied_id) {
        Some(idx) => idx,
        None => {
            return;
        },
    };
    assert(w[src_idx as int] == messages@[src_idx as int]@);
    let excerpt = excerpt_of(&messages[src_idx].content);
    let sender_name = messages[src_idx].sender_name.clone();
    let mut m = take_at(messages, idx);
    if let Some(reply) = m.reply_to.as_mut() {
        if reply.excerpt.as_str().is_empty() {
            reply.excerpt = excerpt;
        }
        if reply.sender_name.as_str().is_empty() {
            reply.sender_name = sender_name;
        }
    }
    proof {
        window_insert(messages@, idx as int, m);
    }
    messages.insert(idx, m);
    assert(window(messages@) =~= excerpt_filled(w, message_id));
}

// --- selecting ------------------------------------------------------------------------

pub open spec fn properties_request(chat_id: ChatId, message_id: MessageId) -> EffectSpec {
    EffectSpec::Td(RequestSpec::GetMessageProperties { chat_id, message_id })
}

/// A conversation once `id` is selected in it.
pub open spec fn selected_in(
    c: ConversationSpec,
    chat_id: ChatId,
    id: MessageId,
    files: Map<FileId, FileSnapshot>,
    now: Millis,
) -> (ConversationSpec, Seq<EffectSpec>) {
    let m = c.messages[index_of_id(c.messages, id)->0];
    let (c1, e) = anchored_to(
        ConversationSpec {
            messages: excerpt_filled(c.messages, id),
            selection: Some(
                SelectionSpec {
                    message_id: id,
                    chips: chips_of(m, files),
                    chip_cursor: 0,
                    chip_scroll: 0,
                },
            ),
            ..c
        },
        chat_id,
        id,
        false,
        now,
    );
    (
        c1,
        if m.send_state is Failed {
            no_effects()
        } else {
            seq![properties_request(chat_id, id)]
        } + e,
    )
}

/// The state once `id` is selected in `chat_id`. Nothing happens if it is not
/// loaded.
pub open spec fn selected(a: AppSpec, chat_id: ChatId, id: MessageId) -> (
    AppSpec,
    Seq<EffectSpec>,
) {
    if !a.conversations.contains_key(chat_id) || index_of_id(
        a.conversations[chat_id].messages,
        id,
    ) is None {
        (a, no_effects())
    } else {
        let (c, e1) = selected_in(
            a.conversations[chat_id],
            chat_id,
            id,
            a.media.files,
            a.now,
        );
        let (a2, e2) = auto_downloaded(a.with_conversation(chat_id, c), chat_id);
        (a2, e1 + e2)
    }
}

fn select_in(
    convo: &mut ConversationState,
    chat_id: ChatId,
    message_id: MessageId,
    idx: usize,
    media: &MediaState,
    now: Millis,
) -> (r: Vec<Effect>)
    requires
        index_of_id(old(convo)@.messages, message_id) == Some(idx as int),
        idx < old(convo)@.messages.len(),
    ensures
        (final(convo)@, views(r@)) == selected_in(
            old(convo)@,
            chat_id,
            message_id,
            media@.files,
            now,
        ),
{
    let msg: &MessageView = &convo.messages[idx];
    assert(old(convo)@.messages[idx as int] == msg@);
    let chips = chips_for_message(msg, media);
    let send_failed: bool = matches!(msg.send_state, SendState::Failed(_));
    fill_reply_excerpt(&mut convo.messages, message_id);
    convo.selection = Some(
        SelectionState { message_id, chips, chip_cursor: 0, chip_scroll: 0 },
    );
    let mut effects: Vec<Effect> = if send_failed {
        none()
    } else {
        request(TdRequest::GetMessageProperties { chat_id, message_id })
    };
    let paging = anchor_to(convo, chat_id, message_id, now);
    extend(&mut effects, paging);
    effects
}

/// Points the selection at `message_id`: completes its reply header, derives
/// the chip row, drags the anchor along and asks for the capabilities.
fn select(app: &mut AppState, chat_id: ChatId, message_id: MessageId) -> (r: Vec<Effect>)
    ensures
        (final(app)@, views(r@)) == selected(old(app)@, chat_id, message_id),
{
    let now = app.now;
    let ghost convs = app.conversations@;
    let idx: usize = match app.conversations.get(&chat_id) {
        Some(convo) => match index_of(&convo.messages, message_id) {
            Some(idx) => idx,
            None => {
                return none();
            },
        },
        None => {
            return none();
        },
    };
    let mut effects: Vec<Effect> = match app.conversations.get_mut(&chat_id) {
        Some(convo) => select_in(convo, chat_id, message_id, idx, &app.media, now),
        None => none(),
    };
    proof {
        models_insert(convs, chat_id, app.conversations@[chat_id]);
    }
    let downloads = auto_download_photos(app, chat_id);
    extend(&mut effects, downloads);
    effects
}

/// What entering selection mode at `id` does: nothing unless a chat is open
/// and the message is loaded there.
pub open spec fn entered_at(a: AppSpec, id: MessageId) -> (AppSpec, Seq<EffectSpec>) {
    match a.open_chat {
        Some(chat_id) => selected(a, chat_id, id),
        None => (a, no_effects()),
    }
}

/// What entering selection mode does: it starts at the newest loaded message.
pub open spec fn entered_newest(a: AppSpec) -> (AppSpec, Seq<EffectSpec>) {
    match a.open_chat {
        Some(chat_id) if a.conversations.contains_key(chat_id) => match newest(
            a.conversations[chat_id].messages,
        ) {
            Some(id) => entered_at(a, id),
            None => (a, no_effects()),
        },
        _ => (a, no_effects()),
    }
}

/// Enters selection mode on the newest loaded message of the open chat.
pub fn enter(app: &mut AppState) -> (r: Vec<Effect>)
    ensures
        (final(app)@, views(r@)) == entered_newest(old(app)@),
{
    let chat_id: ChatId = match app.open_chat {
        Some(chat_id) => chat_id,
        None => {
            return none();
        },
    };
    let newest: Option<MessageId> = match app.conversations.get(&chat_id) {
        Some(convo) => newest_id(&convo.messages),
        None => {
            return none();
        },
    };
    match newest {
        Some(id) => enter_at(app, id),
        None => none(),
    }
}

/// Enters selection mode on `message_id`, or moves an active selection there.
pub fn enter_at(app: &mut AppState, message_id: MessageId) -> (r: Vec<Effect>)
    ensures
        (final(app)@, views(r@)) == entered_at(old(app)@, message_id),
{
    match app.open_chat {
        Some(chat_id) => select(app, chat_id, message_id),
        None => none(),
    }
}

pub open spec fn exited(a: AppSpec) -> AppSpec {
    match a.open_chat {
        Some(chat_id) => on_conversation(
            a,
            chat_id,
            |c: ConversationSpec| ConversationSpec { selection: None, ..c },
        ),
        None => a,
    }
}

/// Leaves selection mode: drops the selection of the open chat.
pub fn exit(app: &mut AppState)
    ensures
        final(app)@ == exited(old(app)@),
{
    let ghost convs = app.conversations@;
    if let Some(chat_id) = app.open_chat {
        if let Some(convo) = app.conversations.get_mut(&chat_id) {
            convo.selection = None;
        }
        proof {
            models_insert(convs, chat_id, app.conversations@[chat_id]);
        }
    }
}

/// One message older or newer, clamped at both ends. Where that is the same
/// message, nothing happens.
pub open spec fn selection_moved(a: AppSpec, chat_id: ChatId, delta: int) -> (
    AppSpec,
    Seq<EffectSpec>,
) {
    if !a.conversations.contains_key(chat_id) {
        (a, no_effects())
    } else {
        let c = a.conversations[chat_id];
        match c.selection {
            None => (a, no_effects()),
            Some(s) => match index_of_id(c.messages, s.message_id) {
                None => (a, no_effects()),
                Some(i) => {
                    let target = clamp(i + delta, 0, c.messages.len() - 1);
                    if target == i {
                        (a, no_effects())
                    } else {
                        selected(a, chat_id, c.messages[target].id)
                    }
                },
            },
        }
    }
}

fn move_selection(app: &mut AppState, chat_id: ChatId, delta: isize) -> (r: Vec<Effect>)
    ensures
        (final(app)@, views(r@)) == selection_moved(old(app)@, chat_id, delta as int),
{
    let target_id: MessageId = match app.conversations.get(&chat_id) {
        None => {
            return none();
        },
        Some(convo) => match &convo.selection {
            None => {
                return none();
            },
            Some(sel) => match index_of(&convo.messages, sel.message_id) {
                None => {
                    return none();
                },
                Some(idx) => {
                    let target: usize = clamped_step(idx, delta, convo.messages.len() - 1);
                    if target == idx {
                        return none();
                    }
                    assert(convo@.messages[target as int] == convo.messages@[target as int]@);
                    convo.messages[target].id
                },
            },
        },
    };
    select(app, chat_id, target_id)
}

// --- capabilities ---------------------------------------------------------------------

pub open spec fn with_caps(
    c: ConversationSpec,
    id: MessageId,
    caps: MessageCaps,
    files: Map<FileId, FileSnapshot>,
) -> ConversationSpec {
    match index_of_id(c.messages, id) {
        None => c,
        Some(i) => {
            let m = MessageSpec { caps, ..c.messages[i] };
            ConversationSpec {
                messages: c.messages.update(i, m),
                selection: match c.selection {
                    Some(s) if s.message_id == id => Some(with_row(s, chips_of(m, files))),
                    other => other,
                },
                ..c
            }
        },
    }
}

fn set_caps(convo: &mut ConversationState, message_id: MessageId, caps: MessageCaps, media: &MediaState)
    ensures
        final(convo)@ == with_caps(old(convo)@, message_id, caps, media@.files),
{
    let idx: usize = match index_of(&convo.messages, message_id) {
        Some(idx) => idx,
        None => {
            return;
        },
    };
    assert(convo@.messages[idx as int] == convo.messages@[idx as int]@);
    let mut m = take_at(&mut convo.messages, idx);
    m.caps = caps;
    let chips = chips_for_message(&m, media);
    proof {
        window_insert(convo.messages@, idx as int, m);
    }
    convo.messages.insert(idx, m);
    if let Some(sel) = convo.selection.as_mut() {
        if sel.message_id == message_id {
            set_row(sel, chips);
        }
    }
    assert(convo@.messages =~= with_caps(
        old(convo)@,
        message_id,
        caps,
        media@.files,
    ).messages);
}

/// The state once TDLib has answered what a message can be asked for.
pub open spec fn caps_answered(
    a: AppSpec,
    chat_id: ChatId,
    message_id: MessageId,
    outcome: Result<MessageCaps, TdError>,
) -> AppSpec {
    match outcome {
        Ok(caps) => on_conversation(
            a,
            chat_id,
            |c: ConversationSpec| with_caps(c, message_id, caps, a.media.files),
        ),
        Err(_) => a,
    }
}

/// Takes in the capabilities of a message and, if it is still selected,
/// re-derives its row. An error changes nothing: the row that the user looks
/// at keeps working.
pub fn handle_td_result(
    app: &mut AppState,
    chat_id: ChatId,
    message_id: MessageId,
    outcome: &Result<MessageCaps, TdError>,
) -> (r: Vec<Effect>)
    ensures
        final(app)@ == caps_answered(old(app)@, chat_id, message_id, *outcome),
        views(r@) == no_effects(),
{
    let ghost convs = app.conversations@;
    if let Ok(caps) = outcome {
        if let Some(convo) = app.conversations.get_mut(&chat_id) {
            set_caps(convo, message_id, *caps, &app.media);
        }
        proof {
            models_insert(convs, chat_id, app.conversations@[chat_id]);
        }
    }
    none()
}

// --- invoking a chip --------------------------------------------------------------------

/// What `Copy` puts on the clipboard: the text, or a file's name.
pub open spec fn copied(content: ContentSpec) -> Seq<char> {
    match content {
        ContentSpec::Text(t) => t.text,
        ContentSpec::Video { file_name, .. } => file_name,
        ContentSpec::Audio { file_name, .. } => file_name,
        ContentSpec::Document { file_name, .. } => file_name,
        _ => Seq::empty(),
    }
}

fn copy_text(content: &MessageContent) -> (r: String)
    ensures
        r@ == copied(content@),
{
    match content {
        MessageContent::Text(f) => f.text.clone(),
        MessageContent::Video { file_name, .. } => file_name.clone(),
        MessageContent::Audio { file_name, .. } => file_name.clone(),
        MessageContent::Document { file_name, .. } => file_name.clone(),
        _ => String::new(),
    }
}

pub open spec fn without_message(c: ConversationSpec, id: MessageId) -> ConversationSpec {
    selection_checked(
        ConversationSpec { messages: c.messages.filter(|m: MessageSpec| m.id != id), ..c },
    )
}

/// Sends a failed text again and drops the failed entry, which the retry
/// replaces. Files cannot be sent again: their entry is left alone.
pub open spec fn resent(a: AppSpec, chat_id: ChatId, m: MessageSpec) -> (AppSpec, Seq<EffectSpec>) {
    match m.content {
        ContentSpec::Text(text) => (
            on_conversation(a, chat_id, |c: ConversationSpec| without_message(c, m.id)),
            seq![
                EffectSpec::Td(
                    RequestSpec::SendMessageText {
                        chat_id,
                        reply_to: match m.reply_to {
                            Some(r) => Some(r.message_id),
                            None => None,
                        },
                        text,
                    },
                ),
            ],
        ),
        _ => (a, no_effects()),
    }
}

/// What a chip does with message `m`, which has the id `id`.
pub open spec fn invoked_on(a: AppSpec, chat_id: ChatId, id: MessageId, m: MessageSpec, chip: Chip)
    -> (AppSpec, Seq<EffectSpec>) {
    match chip {
        Chip::Reply => (
            AppSpec { composer: ComposerSpec { reply_to: Some(id), ..a.composer }, ..a },
            no_effects(),
        ),
        Chip::Edit => match m.content {
            ContentSpec::Text(body) => (
                AppSpec {
                    composer: ComposerSpec {
                        editing: Some(id),
                        input: InputSpec { text: body.text, cursor: byte_len(body.text) as int },
                        ..a.composer
                    },
                    ..a
                },
                no_effects(),
            ),
            _ => (a, no_effects()),
        },
        Chip::Forward => (
            a,
            match a.chat_list.selected {
                Some(to_chat_id) => seq![
                    EffectSpec::Td(
                        RequestSpec::ForwardMessages {
                            to_chat_id,
                            from_chat_id: chat_id,
                            message_ids: seq![id],
                        },
                    ),
                ],
                None => no_effects(),
            },
        ),
        Chip::React => (
            a,
            seq![
                EffectSpec::Td(
                    RequestSpec::ToggleReaction {
                        chat_id,
                        message_id: id,
                        emoji: DEFAULT_REACTION@,
                    },
                ),
            ],
        ),
        Chip::Copy => (a, seq![EffectSpec::CopyToClipboard { text: copied(m.content) }]),
        Chip::Delete => (
            AppSpec {
                focus: a.focus.push(
                    Focus::Modal(
                        ModalKind::ConfirmDelete {
                            chat_id,
                            message_id: id,
                            can_revoke: m.caps.can_be_deleted_for_all_users,
                        },
                    ),
                ),
                ..a
            },
            no_effects(),
        ),
        Chip::Download => (
            a,
            match m.content.file() {
                Some(file_id) => seq![
                    EffectSpec::Td(
                        RequestSpec::DownloadFile { file_id, priority: DOWNLOAD_PRIORITY },
                    ),
                ],
                None => no_effects(),
            },
        ),
        Chip::Open => (
            a,
            match m.content.file() {
                Some(f) => match path_of(a.media.files, f) {
                    Some(path) => seq![EffectSpec::OpenExternal { path }],
                    None => no_effects(),
                },
                None => no_effects(),
            },
        ),
        Chip::Resend => resent(a, chat_id, m),
    }
}

pub open spec fn invoked(a: AppSpec, chat_id: ChatId, id: MessageId, chip: Chip) -> (
    AppSpec,
    Seq<EffectSpec>,
) {
    if !a.conversations.contains_key(chat_id) {
        (a, no_effects())
    } else {
        let w = a.conversations[chat_id].messages;
        match index_of_id(w, id) {
            Some(i) => invoked_on(a, chat_id, id, w[i], chip),
            None => (a, no_effects()),
        }
    }
}

/// Chip to effects. Reply and Edit only arm the composer. Edit does so for
/// text alone: an empty buffer would destroy a caption. Delete asks first.
/// Forward goes to the chat that the list's cursor is on.
fn invoke(app: &mut AppState, chat_id: ChatId, message_id: MessageId, chip: Chip) -> (r: Vec<
    Effect,
>)
    ensures
        (final(app)@, views(r@)) == invoked(old(app)@, chat_id, message_id, chip),
{
    let msg: MessageView = match app.conversations.get(&chat_id) {
        Some(convo) => match index_of(&convo.messages, message_id) {
            Some(idx) => {
                assert(convo@.messages[idx as int] == convo.messages@[idx as int]@);
                convo.messages[idx].clone()
            },
            None => {
                return none();
            },
        },
        None => {
            return none();
        },
    };
    match chip {
        Chip::Reply => {
            app.composer.reply_to = Some(message_id);
            none()
        },
        Chip::Edit => {
            if let MessageContent::Text(body) = &msg.content {
                app.composer.editing = Some(message_id);
                app.composer.input = InputField {
                    cursor: len_bytes(body.text.as_str()),
                    text: body.text.clone(),
                };
            }
            none()
        },
        Chip::Forward => match app.chat_list.selected {
            Some(to_chat_id) => {
                let message_ids = vec![message_id];
                assert(message_ids@ =~= seq![message_id]);
                request(
                    TdRequest::ForwardMessages { to_chat_id, from_chat_id: chat_id, message_ids },
                )
            },
            None => none(),
        },
        Chip::React => request(
            TdRequest::ToggleReaction { chat_id, message_id, emoji: DEFAULT_REACTION.to_owned() },
        ),
        Chip::Copy => one(Effect::CopyToClipboard { text: copy_text(&msg.content) }),
        Chip::Delete => {
            app.focus.push(
                Focus::Modal(
                    ModalKind::ConfirmDelete {
                        chat_id,
                        message_id,
                        can_revoke: msg.caps.can_be_deleted_for_all_users,
                    },
                ),
            );
            none()
        },
        Chip::Download => match msg.content.file() {
            Some(file_id) => request(
                TdRequest::DownloadFile { file_id, priority: DOWNLOAD_PRIORITY },
            ),
            None => none(),
        },
        Chip::Open => match msg.content.file() {
            Some(f) => match app.media.local_path(&f) {
                Some(path) => one(Effect::OpenExternal { path }),
                None => none(),
            },
            None => none(),
        },
        Chip::Resend => resend(app, chat_id, &msg),
    }
}

fn drop_message(convo: &mut ConversationState, id: MessageId)
    ensures
        final(convo)@ == without_message(old(convo)@, id),
{
    let ghost all = convo@.messages;
    let ghost keep = |m: MessageSpec| m.id != id;
    let n: usize = convo.messages.len();
    let mut i: usize = 0;
    proof {
        filter_take_none(all, keep);
    }
    assert(convo@.messages =~= all.skip(0) + all.take(0).filter(keep));
    while i < n
        invariant
            i <= n,
            n == all.len(),
            keep == (|m: MessageSpec| m.id != id),
            convo@ == (ConversationSpec { messages: convo@.messages, ..old(convo)@ }),
            convo@.messages == all.skip(i as int) + all.take(i as int).filter(keep),
        decreases n - i,
    {
        proof {
            filter_take_step(all, keep, i as int);
            assert(convo@.messages[0] == all[i as int]);
        }
        let ghost before = convo@.messages;
        if let Some(m) = convo.messages.pop_front() {
            assert(m@ == all[i as int]);
            assert(convo@.messages =~= before.skip(1));
            if m.id != id {
                let ghost mid = convo@.messages;
                convo.messages.push_back(m);
                assert(convo@.messages =~= mid.push(m@));
            }
        }
        assert(convo@.messages =~= all.skip(i + 1) + all.take(i + 1).filter(keep));
        i = i + 1;
    }
    assert(all.skip(n as int) + all.take(n as int).filter(keep) =~= all.take(n as int).filter(keep));
    assert(all.take(n as int) =~= all);
    drop_selection_if_gone(convo);
}

fn resend(app: &mut AppState, chat_id: ChatId, msg: &MessageView) -> (r: Vec<Effect>)
    ensures
        (final(app)@, views(r@)) == resent(old(app)@, chat_id, msg@),
{
    let text: &FormattedText = match &msg.content {
        MessageContent::Text(text) => text,
        _ => {
            return none();
        },
    };
    let reply_to: Option<MessageId> = match &msg.reply_to {
        Some(r) => Some(r.message_id),
        None => None,
    };
    let ghost convs = app.conversations@;
    if let Some(convo) = app.conversations.get_mut(&chat_id) {
        drop_message(convo, msg.id);
    }
    proof {
        models_insert(convs, chat_id, app.conversations@[chat_id]);
    }
    request(TdRequest::SendMessageText { chat_id, reply_to, text: text.clone() })
}

// --- keys -------------------------------------------------------------------------------

/// The first chip of the row that answers to a letter.
pub open spec fn chip_for_letter(chips: Seq<Chip>, c: char) -> Option<Chip>
    decreases chips.len(),
{
    if chips.len() == 0 {
        None
    } else if chips[0].letter() == c {
        Some(chips[0])
    } else {
        chip_for_letter(chips.drop_first(), c)
    }
}

fn find_chip(chips: &Vec<Chip>, c: char) -> (r: Option<Chip>)
    ensures
        r == chip_for_letter(chips@, c),
{
    let mut i: usize = 0;
    assert(chips@.skip(0) =~= chips@);
    while i < chips.len()
        invariant
            i <= chips@.len(),
            chip_for_letter(chips@, c) == chip_for_letter(chips@.skip(i as int), c),
        decreases chips@.len() - i,
    {
        assert(chips@.skip(i as int).drop_first() =~= chips@.skip(i + 1));
        if chips[i].shortcut() == c {
            return Some(chips[i]);
        }
        i = i + 1;
    }
    None
}

/// The selection that keys go to: in the open chat, while selection mode has
/// focus.
pub open spec fn active(a: AppSpec) -> Option<(ChatId, SelectionSpec)> {
    match a.open_chat {
        Some(chat_id) => if a.focus.last() is Selection && a.conversations.contains_key(chat_id) {
            match a.conversations[chat_id].selection {
                Some(s) => Some((chat_id, s)),
                None => None,
            }
        } else {
            None
        },
        None => None,
    }
}

/// What a key does in selection mode, or `None` if it is not claimed.
pub open spec fn key_handled(a: AppSpec, key: Key) -> Option<(AppSpec, Seq<EffectSpec>)> {
    match active(a) {
        None => None,
        Some((chat_id, s)) => match key {
            Key::Up => Some(selection_moved(a, chat_id, -1)),
            Key::Down => Some(selection_moved(a, chat_id, 1)),
            Key::Left => Some(
                (
                    on_conversation(
                        a,
                        chat_id,
                        |c: ConversationSpec|
                            on_selection(c, |s: SelectionSpec| chip_moved(s, -1)),
                    ),
                    no_effects(),
                ),
            ),
            Key::Right => Some(
                (
                    on_conversation(
                        a,
                        chat_id,
                        |c: ConversationSpec|
                            on_selection(c, |s: SelectionSpec| chip_moved(s, 1)),
                    ),
                    no_effects(),
                ),
            ),
            Key::Enter => match s.focused() {
                Some(chip) => Some(invoked(a, chat_id, s.message_id, chip)),
                None => None,
            },
            Key::Char(c) => match chip_for_letter(s.chips, c) {
                Some(chip) => Some(invoked(a, chat_id, s.message_id, chip)),
                None => None,
            },
            _ => None,
        },
    }
}

/// Selection-mode keys. A letter that no chip of the row answers to stays
/// unclaimed: the row is the truth about what is possible.
pub fn handle_key(app: &mut AppState, key: Key) -> (r: Option<Vec<Effect>>)
    ensures
        match key_handled(old(app)@, key) {
            Some((a, effects)) => r matches Some(e) && final(app)@ == a && views(e@) == effects,
            None => r is None && final(app)@ == old(app)@,
        },
{
    if !matches!(app.focus.current(), Focus::Selection) {
        return None;
    }
    let chat_id: ChatId = match app.open_chat {
        Some(chat_id) => chat_id,
        None => {
            return None;
        },
    };
    let (selected, chip): (MessageId, Option<Chip>) = match app.conversations.get(&chat_id) {
        None => {
            return None;
        },
        Some(convo) => match &convo.selection {
            None => {
                return None;
            },
            Some(sel) => (
                sel.message_id,
                match key {
                    Key::Enter => sel.focused_chip(),
                    Key::Char(c) => find_chip(&sel.chips, c),
                    _ => None,
                },
            ),
        },
    };
    match key {
        Key::Up => Some(move_selection(app, chat_id, -1)),
        Key::Down => Some(move_selection(app, chat_id, 1)),
        Key::Left => {
            move_chip_cursor(app, chat_id, -1);
            Some(none())
        },
        Key::Right => {
            move_chip_cursor(app, chat_id, 1);
            Some(none())
        },
        Key::Enter | Key::Char(_) => match chip {
            Some(chip) => Some(invoke(app, chat_id, selected, chip)),
            None => None,
        },
        _ => None,
    }
}

// --- laws -------------------------------------------------------------------------------

/// The cursor is on a chip of the row, and that chip is in view.
pub open spec fn cursor_in_view(s: SelectionSpec) -> bool {
    &&& s.chip_cursor < s.chips.len()
    &&& s.chip_scroll <= s.chip_cursor < s.chip_scroll + CHIP_VISIBLE_MAX
}

/// Moving over the row, or replacing it by another that is not empty, leaves
/// the cursor on a chip in view, wherever it was before.
pub proof fn the_chip_cursor_stays_in_view(s: SelectionSpec, delta: int, chips: Seq<Chip>)
    requires
        chips.len() <= usize::MAX,
        s.chips.len() <= usize::MAX,
    ensures
        s.chips.len() > 0 ==> cursor_in_view(chip_moved(s, delta)),
        chips.len() > 0 ==> cursor_in_view(with_row(s, chips)),
{
}

/// Completing a reply header changes neither which messages are loaded nor
/// where they stand.
pub proof fn filling_an_excerpt_moves_nothing(w: Seq<MessageSpec>, id: MessageId, other: MessageId)
    ensures
        excerpt_filled(w, id).len() == w.len(),
        forall|i: int| 0 <= i < w.len() ==> (#[trigger] excerpt_filled(w, id)[i]).id == w[i].id,
        index_of_id(excerpt_filled(w, id), other) == index_of_id(w, other),
{
    let f = excerpt_filled(w, id);
    if has_id(w, id) {
        index_of_id_exists(w, id);
    }
    assert forall|i: int| 0 <= i < w.len() implies (#[trigger] f[i]).id == w[i].id by {}
    if has_id(w, other) {
        index_of_id_exists(w, other);
        let k = index_of_id(w, other)->0;
        assert(is_first(f, other, k)) by {
            assert forall|j: int| 0 <= j < k implies (#[trigger] f[j]).id != other by {
                assert(w[j].id != other);
            }
        }
        index_of_id_is(f, other, k);
    } else if has_id(f, other) {
        let k = choose|k: int| 0 <= k < f.len() && (#[trigger] f[k]).id == other;
        assert(w[k].id == other);
    }
}

/// Selecting a loaded message leaves a selection that names a loaded message,
/// with the row of that message.
pub proof fn a_selection_names_a_loaded_message(
    c: ConversationSpec,
    chat_id: ChatId,
    id: MessageId,
    files: Map<FileId, FileSnapshot>,
    now: Millis,
)
    requires
        index_of_id(c.messages, id) is Some,
    ensures
        ({
            let c1 = selected_in(c, chat_id, id, files, now).0;
            &&& c1.selection matches Some(s)
            &&& s.message_id == id
            &&& index_of_id(c1.messages, id) is Some
            &&& s.chips == chips_of(c1.messages[index_of_id(c1.messages, id)->0], files)
        }),
{
    filling_an_excerpt_moves_nothing(c.messages, id, id);
    index_of_id_exists(c.messages, id);
}

/// A message that failed to send has no capabilities to ask for.
pub proof fn a_failed_message_is_not_asked_about(
    c: ConversationSpec,
    chat_id: ChatId,
    id: MessageId,
    files: Map<FileId, FileSnapshot>,
    now: Millis,
)
    requires
        index_of_id(c.messages, id) matches Some(i) && c.messages[i].send_state is Failed,
    ensures
        selected_in(c, chat_id, id, files, now).1 == anchored_to(
            ConversationSpec {
                messages: excerpt_filled(c.messages, id),
                selection: selected_in(c, chat_id, id, files, now).0.selection,
                ..c
            },
            chat_id,
            id,
            false,
            now,
        ).1,
{
    let e = selected_in(c, chat_id, id, files, now).1;
    let p = anchored_to(
        ConversationSpec {
            messages: excerpt_filled(c.messages, id),
            selection: selected_in(c, chat_id, id, files, now).0.selection,
            ..c
        },
        chat_id,
        id,
        false,
        now,
    ).1;
    assert(no_effects() + p =~= p);
}

/// No chip deletes by itself: `Delete` only asks, and offers to delete for
/// everyone only where TDLib allows it.
pub proof fn deleting_is_confirmed_first(
    a: AppSpec,
    chat_id: ChatId,
    id: MessageId,
    m: MessageSpec,
    chip: Chip,
)
    ensures
        forall|k: int|
            0 <= k < invoked_on(a, chat_id, id, m, chip).1.len() ==> !(#[trigger] invoked_on(
                a,
                chat_id,
                id,
                m,
                chip,
            ).1[k] matches EffectSpec::Td(RequestSpec::DeleteMessages { .. })),
        chip == Chip::Delete ==> invoked_on(a, chat_id, id, m, chip).0.focus.last() == Focus::Modal(
            ModalKind::ConfirmDelete {
                chat_id,
                message_id: id,
                can_revoke: m.caps.can_be_deleted_for_all_users,
            },
        ),
{
}

/// An excerpt is one line of bounded length.
pub proof fn an_excerpt_is_short(content: ContentSpec)
    ensures
        excerpt(content).len() <= REPLY_EXCERPT_MAX_CHARS,
        !excerpt(content).contains('\n'),
{
    let line = first_line(summary(content));
    first_line_is_one(summary(content));
    let e = excerpt(content);
    if e.contains('\n') {
        let i = e.index_of('\n');
        assert(trimmed(line)[i] == '\n');
        trimming_adds_nothing(line, '\n');
    }
}

} // verus!
