//! What is typed, and what becomes of it.
use crate::action::TdResult;
use crate::app::{AppSpec, Screen};
use crate::effect::{no_effects, EffectSpec};
use crate::model::entity::TextSpec;
use crate::model::ids::ChatId;
use crate::model::key::Key;
use crate::state::auth::{sides_of_at, InputSpec};
use crate::state::composer::{
    claims, failure_reported, key_handled, one_line_up, send_answered, ComposerSpec,
};
use crate::state::focus::Focus;
use crate::td::request::RequestSpec;
use crate::td::update::TdUpdate;
use crate::text::{byte_len, last_line_start};
use vstd::prelude::*;

verus! {

/// `Enter` sends what was typed, as it was typed, to the open chat and in answer to
/// the message that the reply is to. The field is empty then, the reply is no
/// longer armed, and the text is held until the send is answered.
pub proof fn enter_sends_the_text(a: AppSpec, chat_id: ChatId)
    requires
        a.composer.input.text.len() > 0,
        a.composer.editing is None,
    ensures
        key_handled(a, chat_id, Key::Enter) == Some(
            (
                AppSpec {
                    composer: ComposerSpec {
                        input: InputSpec { text: Seq::empty(), cursor: 0 },
                        reply_to: None,
                        editing: None,
                        pending_send: Some(a.composer.input.text),
                        pending_path_offer: a.composer.pending_path_offer,
                    },
                    ..a
                },
                seq![
                    EffectSpec::Td(
                        RequestSpec::SendMessageText {
                            chat_id,
                            reply_to: a.composer.reply_to,
                            text: TextSpec {
                                text: a.composer.input.text,
                                entities: Seq::empty(),
                            },
                        },
                    ),
                ],
            ),
        ),
{
}

/// While a message is being edited, `Enter` puts what was typed in its place and ends
/// the edit. A reply that is armed stays so, and nothing is held.
pub proof fn enter_edits_the_message(a: AppSpec, chat_id: ChatId)
    requires
        a.composer.input.text.len() > 0,
        a.composer.editing is Some,
    ensures
        key_handled(a, chat_id, Key::Enter) == Some(
            (
                AppSpec {
                    composer: ComposerSpec {
                        input: InputSpec { text: Seq::empty(), cursor: 0 },
                        editing: None,
                        reply_to: a.composer.reply_to,
                        pending_send: a.composer.pending_send,
                        pending_path_offer: a.composer.pending_path_offer,
                    },
                    ..a
                },
                seq![
                    EffectSpec::Td(
                        RequestSpec::EditMessageText {
                            chat_id,
                            message_id: a.composer.editing->0,
                            text: TextSpec {
                                text: a.composer.input.text,
                                entities: Seq::empty(),
                            },
                        },
                    ),
                ],
            ),
        ),
{
}

/// An empty field sends nothing. `Up` in it goes to the messages.
pub proof fn an_empty_field_sends_nothing(a: AppSpec, chat_id: ChatId)
    requires
        a.composer.input.text.len() == 0,
    ensures
        key_handled(a, chat_id, Key::Enter) == Some((a, no_effects())),
        key_handled(a, chat_id, Key::Up) == Some(
            (AppSpec { focus: a.focus.push(Focus::Selection), ..a }, no_effects()),
        ),
{
}

/// Each edit happens at the cursor, with `l` left of it and `r` right of it, and
/// sends nothing; `AltEnter` types a line feed. `Down`, `Esc` and `Tab` are left to
/// others.
pub proof fn typing_edits_the_draft(
    a: AppSpec,
    chat_id: ChatId,
    l: Seq<char>,
    r: Seq<char>,
    c: char,
)
    requires
        a.composer.input == (InputSpec { text: l + r, cursor: byte_len(l) as int }),
    ensures
        ({
            let with = |x: Seq<char>, y: Seq<char>|
                Some(
                    (
                        AppSpec {
                            composer: ComposerSpec {
                                input: InputSpec { text: x + y, cursor: byte_len(x) as int },
                                ..a.composer
                            },
                            ..a
                        },
                        no_effects(),
                    ),
                );
            let same = Some((a, no_effects()));
            &&& key_handled(a, chat_id, Key::Char(c)) == with(l.push(c), r)
            &&& key_handled(a, chat_id, Key::AltEnter) == with(l.push('\n'), r)
            &&& l.len() > 0 ==> key_handled(a, chat_id, Key::Backspace) == with(l.drop_last(), r)
            &&& l.len() == 0 ==> key_handled(a, chat_id, Key::Backspace) == same
            &&& r.len() > 0 ==> key_handled(a, chat_id, Key::Delete) == with(l, r.drop_first())
            &&& r.len() == 0 ==> key_handled(a, chat_id, Key::Delete) == same
            &&& l.len() > 0 ==> key_handled(a, chat_id, Key::Left) == with(
                l.drop_last(),
                seq![l.last()] + r,
            )
            &&& r.len() > 0 ==> key_handled(a, chat_id, Key::Right) == with(
                l.push(r[0]),
                r.drop_first(),
            )
            &&& key_handled(a, chat_id, Key::Down) is None
            &&& key_handled(a, chat_id, Key::Esc) is None
            &&& key_handled(a, chat_id, Key::Tab) is None
        }),
{
    sides_of_at(l, r);
}

proof fn line_starts_after(before: Seq<char>, line: Seq<char>)
    requires
        forall|i: int| 0 <= i < line.len() ==> #[trigger] line[i] != '\n',
        before.len() == 0 || before.last() == '\n',
    ensures
        last_line_start(before + line) == before.len(),
    decreases line.len(),
{
    let t = before + line;
    if line.len() == 0 {
        assert(t =~= before);
    } else {
        assert(t.last() == line[line.len() - 1]);
        assert(t.drop_last() =~= before + line.drop_last());
        line_starts_after(before, line.drop_last());
    }
}

/// `Up` goes to the start of the line above the cursor's, and on the first line to its
/// start. Here `above` is that line, `before` all that comes before it, and `line`
/// what stands left of the cursor in its own line.
pub proof fn up_goes_to_the_line_above(
    a: AppSpec,
    chat_id: ChatId,
    before: Seq<char>,
    above: Seq<char>,
    line: Seq<char>,
    r: Seq<char>,
    first: bool,
)
    requires
        forall|i: int| 0 <= i < above.len() ==> #[trigger] above[i] != '\n',
        forall|i: int| 0 <= i < line.len() ==> #[trigger] line[i] != '\n',
        before.len() == 0 || before.last() == '\n',
        first ==> before.len() == 0 && above.len() == 0,
        ({
            let l = if first {
                line
            } else {
                before + above + seq!['\n'] + line
            };
            &&& a.composer.input == (InputSpec { text: l + r, cursor: byte_len(l) as int })
            &&& (l + r).len() > 0
        }),
    ensures
        key_handled(a, chat_id, Key::Up) == Some(
            (
                AppSpec {
                    composer: ComposerSpec {
                        input: InputSpec {
                            text: a.composer.input.text,
                            cursor: byte_len(before) as int,
                        },
                        ..a.composer
                    },
                    ..a
                },
                no_effects(),
            ),
        ),
{
    let l = if first {
        line
    } else {
        before + above + seq!['\n'] + line
    };
    sides_of_at(l, r);
    assert(a.composer.input.left() == l);
    if first {
        assert(Seq::<char>::empty() + line =~= line);
        line_starts_after(Seq::empty(), line);
        assert(l.take(0) =~= before);
    } else {
        let top = before + above + seq!['\n'];
        assert(top.last() == '\n');
        assert(l =~= top + line);
        line_starts_after(top, line);
        assert(l.take(top.len() - 1) =~= before + above);
        line_starts_after(before, above);
        assert(l.take(before.len() as int) =~= before);
    }
    assert(one_line_up(l) == before.len());
}

/// The composer has the keys exactly on the main screen, with a chat open, and with
/// the composer on top of the focus stack.
pub proof fn the_composer_claims_its_keys(a: AppSpec, chat_id: ChatId)
    ensures
        claims(a) == Some(chat_id) <==> {
            &&& a.screen == Screen::Main
            &&& a.focus.last() == Focus::Composer
            &&& a.open_chat == Some(chat_id)
        },
{
}

/// Once a send went through, what was held is dropped; once it failed, however that was
/// reported, it is back in the field with the cursor behind it. Whatever else was
/// going on stays.
pub proof fn a_held_text_comes_back_on_failure(
    a: AppSpec,
    text: Seq<char>,
    result: TdResult,
    upd: TdUpdate,
)
    requires
        a.composer.pending_send == Some(text),
    ensures
        ({
            let back = AppSpec {
                composer: ComposerSpec {
                    input: InputSpec { text, cursor: byte_len(text) as int },
                    pending_send: None,
                    ..a.composer
                },
                ..a
            };
            let dropped = AppSpec {
                composer: ComposerSpec { pending_send: None, ..a.composer },
                ..a
            };
            &&& result matches TdResult::MessageSent { outcome: Ok(_), .. } ==> send_answered(
                a,
                result,
            ) == dropped
            &&& result matches TdResult::MessageSent { outcome: Err(_), .. } ==> send_answered(
                a,
                result,
            ) == back
            &&& upd is MessageSendFailed ==> failure_reported(a, upd) == back
            &&& !(upd is MessageSendFailed) ==> failure_reported(a, upd) == a
        }),
{
}

/// With nothing held, no answer and no report changes what is being typed.
pub proof fn with_nothing_held_the_draft_stays(a: AppSpec, result: TdResult, upd: TdUpdate)
    requires
        a.composer.pending_send is None,
    ensures
        send_answered(a, result) == a,
        failure_reported(a, upd) == a,
{
}

} // verus!
