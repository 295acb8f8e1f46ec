//! The message composer.
//!
//! A send takes the text out of the field and holds it until the answer: a
//! failure puts it back, so that typed text is never discarded.
use crate::action::TdResult;
use crate::app::{AppSpec, AppState, Screen};
use crate::effect::{no_effects, none, request, views, Effect, EffectSpec};
use crate::model::entity::{FormattedText, TextSpec};
use crate::model::ids::{ChatId, MessageId};
use crate::model::key::Key;
use crate::state::auth::{edit_field, edited, InputField, InputSpec};
use crate::state::focus::Focus;
use crate::td::request::{RequestSpec, TdRequest};
use crate::td::update::TdUpdate;
use crate::text::{
    byte_len, ends_on_boundary, last_line_start, last_line_start_in_range, len_bytes, line_start,
    split_at_boundary,
};
use std::path::PathBuf;
use vstd::prelude::*;

verus! {

#[derive(Debug)]
pub struct ComposerState {
    /// Multi-line buffer; `alt+enter` inserts a line break.
    pub input: InputField,
    pub reply_to: Option<MessageId>,
    /// When set, Enter submits an edit instead of a send.
    pub editing: Option<MessageId>,
    /// Text held while a send is in flight, put back on failure.
    pub pending_send: Option<String>,
    /// A pasted bare path that exists on disk: offer to send as file.
    pub pending_path_offer: Option<PathBuf>,
}

pub ghost struct ComposerSpec {
    pub input: InputSpec,
    pub reply_to: Option<MessageId>,
    pub editing: Option<MessageId>,
    pub pending_send: Option<Seq<char>>,
    pub pending_path_offer: Option<PathBuf>,
}

impl View for ComposerState {
    type V = ComposerSpec;

    open spec fn view(&self) -> ComposerSpec {
        ComposerSpec {
            input: self.input@,
            reply_to: self.reply_to,
            editing: self.editing,
            pending_send: match self.pending_send {
                Some(t) => Some(t@),
                None => None,
            },
            pending_path_offer: self.pending_path_offer,
        }
    }
}

impl Default for ComposerState {
    fn default() -> (r: ComposerState)
        ensures
            r@ == (ComposerSpec {
                input: InputSpec::blank(),
                reply_to: None,
                editing: None,
                pending_send: None,
                pending_path_offer: None,
            }),
            r@.input.wf(),
    {
        ComposerState {
            input: InputField::default(),
            reply_to: None,
            editing: None,
            pending_send: None,
            pending_path_offer: None,
        }
    }
}

pub open spec fn with_composer(a: AppSpec, composer: ComposerSpec) -> AppSpec {
    AppSpec { composer, ..a }
}

pub open spec fn with_input(a: AppSpec, input: InputSpec) -> AppSpec {
    with_composer(a, ComposerSpec { input, ..a.composer })
}

/// How many characters stand before the cursor once it has gone up a line: to
/// the start of the previous line, or of the first if there is none.
pub open spec fn one_line_up(left: Seq<char>) -> int {
    let start = last_line_start(left);
    if start == 0 {
        0
    } else {
        last_line_start(left.take(start - 1))
    }
}

pub open spec fn moved_up(f: InputSpec) -> InputSpec {
    InputSpec { cursor: byte_len(f.left().take(one_line_up(f.left()))) as int, ..f }
}

/// Moves the cursor to the start of the previous line, or of the buffer.
pub fn move_cursor_up(field: &mut InputField)
    requires
        old(field)@.wf(),
    ensures
        final(field)@ == moved_up(old(field)@),
        final(field)@.wf(),
{
    let ghost left = field@.left();
    let start: usize = line_start(field.text.as_str(), field.cursor);
    proof {
        split_at_boundary(field.text@, start as int);
        last_line_start_in_range(left);
        ends_on_boundary(field.text@);
    }
    if start == 0 {
        proof {
            crate::text::byte_len_positive(left.take(last_line_start(left)));
            assert(left.take(0) =~= left.take(last_line_start(left)));
        }
        field.cursor = 0;
        return;
    }
    let prev_line_end: usize = crate::text::prev_char_boundary(field.text.as_str(), start);
    proof {
        crate::text::byte_len_positive(left.take(last_line_start(left)));
        crate::text::boundary_one_back(field.text@, start as int, prev_line_end as int);
        assert(left.take(last_line_start(left)).drop_last() =~= left.take(
            last_line_start(left) - 1,
        ));
        last_line_start_in_range(left.take(last_line_start(left) - 1));
    }
    let up: usize = line_start(field.text.as_str(), prev_line_end);
    proof {
        split_at_boundary(field.text@, up as int);
        let before = left.take(last_line_start(left) - 1);
        assert(before.take(last_line_start(before)) =~= left.take(last_line_start(before)));
    }
    field.cursor = up;
}

pub open spec fn plain(text: Seq<char>) -> TextSpec {
    TextSpec { text, entities: Seq::empty() }
}

/// `Enter`: an edit if one is armed, else a send, whose text is held. Nothing
/// is sent from an empty field.
pub open spec fn submitted(a: AppSpec, chat_id: ChatId) -> (AppSpec, Seq<EffectSpec>) {
    let c = a.composer;
    let text = c.input.text;
    if text.len() == 0 {
        (a, no_effects())
    } else {
        match c.editing {
            Some(message_id) => (
                with_composer(a, ComposerSpec { input: InputSpec::blank(), editing: None, ..c }),
                seq![
                    EffectSpec::Td(
                        RequestSpec::EditMessageText { chat_id, message_id, text: plain(text) },
                    ),
                ],
            ),
            None => (
                with_composer(
                    a,
                    ComposerSpec {
                        input: InputSpec::blank(),
                        reply_to: None,
                        pending_send: Some(text),
                        ..c
                    },
                ),
                seq![
                    EffectSpec::Td(
                        RequestSpec::SendMessageText {
                            chat_id,
                            reply_to: c.reply_to,
                            text: plain(text),
                        },
                    ),
                ],
            ),
        }
    }
}

fn plain_text(text: String) -> (r: FormattedText)
    ensures
        r@ == plain(text@),
{
    let r = FormattedText { text, entities: Vec::new() };
    assert(r@ =~= plain(text@));
    r
}

fn submit(app: &mut AppState, chat_id: ChatId) -> (r: Vec<Effect>)
    requires
        old(app)@.composer.input.wf(),
    ensures
        (final(app)@, views(r@)) == submitted(old(app)@, chat_id),
        final(app)@.composer.input.wf(),
{
    if app.composer.input.text.as_str().is_empty() {
        return none();
    }
    let mut taken = InputField::default();
    std::mem::swap(&mut taken, &mut app.composer.input);
    let text: String = taken.text;
    match app.composer.editing.take() {
        Some(message_id) => request(
            TdRequest::EditMessageText { chat_id, message_id, text: plain_text(text) },
        ),
        None => {
            let reply_to = app.composer.reply_to.take();
            app.composer.pending_send = Some(text.clone());
            request(TdRequest::SendMessageText { chat_id, reply_to, text: plain_text(text) })
        },
    }
}

/// The composer has the keys: on the main screen, with a chat open, on top of
/// the focus stack.
pub open spec fn claims(a: AppSpec) -> Option<ChatId> {
    if a.screen == Screen::Main && a.focus.last() is Composer {
        a.open_chat
    } else {
        None
    }
}

/// What a key does in the composer, or `None` if it is not claimed. `Down` is
/// left to whoever claims it next.
pub open spec fn key_handled(a: AppSpec, chat_id: ChatId, key: Key) -> Option<
    (AppSpec, Seq<EffectSpec>),
> {
    let f = a.composer.input;
    match key {
        Key::Enter => Some(submitted(a, chat_id)),
        Key::AltEnter => Some((with_input(a, f.typed('\n')), no_effects())),
        Key::Up => Some(
            (
                if f.text.len() == 0 {
                    AppSpec { focus: a.focus.push(Focus::Selection), ..a }
                } else {
                    with_input(a, moved_up(f))
                },
                no_effects(),
            ),
        ),
        _ => match edited(f, key) {
            Some(g) => Some((with_input(a, g), no_effects())),
            None => None,
        },
    }
}

pub fn handle_key(app: &mut AppState, key: Key) -> (r: Option<Vec<Effect>>)
    requires
        old(app)@.composer.input.wf(),
    ensures
        match claims(old(app)@) {
            Some(chat_id) => match key_handled(old(app)@, chat_id, key) {
                Some((a, effects)) => r matches Some(e) && final(app)@ == a && views(e@) == effects,
                None => r is None && final(app)@ == old(app)@,
            },
            None => r is None && final(app)@ == old(app)@,
        },
        final(app)@.composer.input.wf(),
{
    if app.screen != Screen::Main {
        return None;
    }
    let chat_id: ChatId = match app.open_chat {
        Some(chat_id) => chat_id,
        None => {
            return None;
        },
    };
    if !matches!(app.focus.current(), Focus::Composer) {
        return None;
    }
    match key {
        Key::Enter => Some(submit(app, chat_id)),
        Key::AltEnter => {
            app.composer.input.insert_char('\n');
            Some(none())
        },
        Key::Up => {
            if app.composer.input.text.as_str().is_empty() {
                app.focus.push(Focus::Selection);
            } else {
                move_cursor_up(&mut app.composer.input);
            }
            Some(none())
        },
        _ => {
            if edit_field(&mut app.composer.input, key) {
                Some(none())
            } else {
                None
            }
        },
    }
}

/// Held text goes back into the field, with the cursor at its end.
pub open spec fn restored(c: ComposerSpec) -> ComposerSpec {
    match c.pending_send {
        Some(text) => ComposerSpec {
            input: InputSpec { text, cursor: byte_len(text) as int },
            pending_send: None,
            ..c
        },
        None => c,
    }
}

fn restore_pending(composer: &mut ComposerState)
    ensures
        final(composer)@ == restored(old(composer)@),
        old(composer)@.input.wf() ==> final(composer)@.input.wf(),
{
    if let Some(text) = composer.pending_send.take() {
        let cursor: usize = len_bytes(text.as_str());
        proof {
            ends_on_boundary(text@);
        }
        composer.input = InputField { text, cursor };
    }
}

/// The state once a send was answered.
pub open spec fn send_answered(a: AppSpec, result: TdResult) -> AppSpec {
    match result {
        TdResult::MessageSent { outcome: Ok(_), .. } => with_composer(
            a,
            ComposerSpec { pending_send: None, ..a.composer },
        ),
        TdResult::MessageSent { outcome: Err(_), .. } => with_composer(a, restored(a.composer)),
    }
}

/// Takes in the answer to a send: the held text is dropped on success and put
/// back on failure.
pub fn handle_td_result(app: &mut AppState, result: &TdResult) -> (r: Vec<Effect>)
    ensures
        final(app)@ == send_answered(old(app)@, *result),
        old(app)@.composer.input.wf() ==> final(app)@.composer.input.wf(),
        views(r@) == no_effects(),
{
    match result {
        TdResult::MessageSent { outcome, .. } => match outcome {
            Ok(_) => {
                app.composer.pending_send = None;
            },
            Err(_) => {
                restore_pending(&mut app.composer);
            },
        },
    }
    none()
}

/// The state once an update was looked at for a failed send.
pub open spec fn failure_reported(a: AppSpec, upd: TdUpdate) -> AppSpec {
    match upd {
        TdUpdate::MessageSendFailed { .. } => with_composer(a, restored(a.composer)),
        _ => a,
    }
}

/// Takes in a send failure that TDLib reports later. Whichever of this and
/// [`handle_td_result`] comes first puts the text back; the other finds nothing
/// left to do.
pub fn handle_td(app: &mut AppState, upd: &TdUpdate) -> (r: Vec<Effect>)
    ensures
        final(app)@ == failure_reported(old(app)@, *upd),
        old(app)@.composer.input.wf() ==> final(app)@.composer.input.wf(),
        views(r@) == no_effects(),
{
    if let TdUpdate::MessageSendFailed { .. } = upd {
        restore_pending(&mut app.composer);
    }
    none()
}

// --- laws -----------------------------------------------------------------------------

/// A send that fails gives back what was typed, in full, with the cursor at
/// the end.
pub proof fn a_failed_send_discards_nothing(a: AppSpec, chat_id: ChatId)
    requires
        a.composer.editing is None,
        a.composer.input.text.len() > 0,
    ensures
        ({
            let sent = submitted(a, chat_id).0;
            &&& sent.composer.input == InputSpec::blank()
            &&& restored(sent.composer).input.text == a.composer.input.text
            &&& restored(sent.composer).input == a.composer.input.at_end()
        }),
{
}

/// Two reports of the same failure restore the text once.
pub proof fn a_second_failure_report_changes_nothing(c: ComposerSpec)
    ensures
        restored(restored(c)) == restored(c),
{
}

/// What is submitted is what was typed.
pub proof fn what_is_sent_is_what_was_typed(a: AppSpec, chat_id: ChatId)
    requires
        a.composer.input.text.len() > 0,
    ensures
        submitted(a, chat_id).1.len() == 1,
        match submitted(a, chat_id).1[0] {
            EffectSpec::Td(RequestSpec::SendMessageText { chat_id: c, text, .. }) => c == chat_id
                && text.text == a.composer.input.text && a.composer.editing is None,
            EffectSpec::Td(RequestSpec::EditMessageText { chat_id: c, message_id, text }) => c
                == chat_id && text.text == a.composer.input.text && a.composer.editing == Some(
                message_id,
            ),
            _ => false,
        },
{
}

} // verus!
