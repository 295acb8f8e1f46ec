//! Lines, trimming, numbers and scripts.
use crate::model::path::paths_equal;
use crate::td::error::TdError;
use crate::td::fake::{
    after_updates, answered, expects, leading_updates, numbered, split_lines, RequestMatcher,
    RespondWith, ScriptSpec, ScriptStep,
};
use crate::td::request::{RequestSpec, TdResponse};
use crate::td::update::TdUpdate;
use crate::text::{
    decimal, first_break, first_line, integer, integer_i32, is_white_space, occurs_at, occurs_in,
    shortened, trim_end, trim_start, trimmed,
};
use vstd::prelude::*;

verus! {

/// Whether a text is white space and nothing else.
pub open spec fn is_blank(t: Seq<char>) -> bool {
    forall|i: int| 0 <= i < t.len() ==> is_white_space(#[trigger] t[i])
}

/// Whether a text starts and ends with something to see.
pub open spec fn is_tight(t: Seq<char>) -> bool {
    t.len() > 0 ==> !is_white_space(t[0]) && !is_white_space(t[t.len() - 1])
}

/// Whether a text is on one line.
pub open spec fn has_no_break(t: Seq<char>) -> bool {
    forall|i: int| 0 <= i < t.len() ==> #[trigger] t[i] != '\n'
}

proof fn start_goes(a: Seq<char>, rest: Seq<char>)
    requires
        is_blank(a),
        rest.len() > 0 ==> !is_white_space(rest[0]),
    ensures
        trim_start(a + rest) == rest,
    decreases a.len(),
{
    if a.len() > 0 {
        let b = a.drop_first();
        assert((a + rest)[0] == a[0]);
        assert((a + rest).drop_first() =~= b + rest);
        assert forall|i: int| 0 <= i < b.len() implies is_white_space(#[trigger] b[i]) by {
            assert(is_white_space(a[i + 1]));
        }
        start_goes(b, rest);
    } else {
        assert(a + rest =~= rest);
    }
}

proof fn end_goes(rest: Seq<char>, b: Seq<char>)
    requires
        is_blank(b),
        rest.len() > 0 ==> !is_white_space(rest[rest.len() - 1]),
    ensures
        trim_end(rest + b) == rest,
    decreases b.len(),
{
    if b.len() > 0 {
        let c = b.drop_last();
        assert((rest + b).last() == b[b.len() - 1]);
        assert((rest + b).drop_last() =~= rest + c);
        assert forall|i: int| 0 <= i < c.len() implies is_white_space(#[trigger] c[i]) by {
            assert(is_white_space(b[i]));
        }
        end_goes(rest, c);
    } else {
        assert(rest + b =~= rest);
    }
}

/// Trimming takes the white space off both ends and nothing else.
pub proof fn trimming_takes_both_ends(a: Seq<char>, middle: Seq<char>, b: Seq<char>)
    requires
        is_blank(a),
        is_tight(middle),
        is_blank(b),
    ensures
        trimmed(a + middle + b) == middle,
{
    if middle.len() > 0 {
        assert(a + middle + b =~= a + (middle + b));
        start_goes(a, middle + b);
        end_goes(middle, b);
    } else {
        let all = a + middle + b;
        assert forall|i: int| 0 <= i < all.len() implies is_white_space(#[trigger] all[i]) by {
            if i < a.len() {
                assert(is_white_space(a[i]));
            } else {
                assert(is_white_space(b[i - a.len()]));
            }
        }
        assert(all + Seq::<char>::empty() =~= all);
        start_goes(all, Seq::empty());
        assert(middle =~= Seq::empty());
    }
}

proof fn break_comes_first(line: Seq<char>, rest: Seq<char>)
    requires
        has_no_break(line),
        rest.len() > 0 ==> rest[0] == '\n',
    ensures
        first_break(line + rest) == line.len(),
    decreases line.len(),
{
    let t = line + rest;
    if line.len() > 0 {
        let more = line.drop_first();
        assert(t[0] == line[0]);
        assert(t.drop_first() =~= more + rest);
        assert forall|i: int| 0 <= i < more.len() implies #[trigger] more[i] != '\n' by {
            assert(line[i + 1] != '\n');
        }
        break_comes_first(more, rest);
    } else {
        assert(t =~= rest);
    }
}

/// The first line ends before the first line feed, or before the carriage return that stands
/// right before it; without a line feed it is the whole text.
pub proof fn the_first_line_ends_at_the_break(line: Seq<char>, rest: Seq<char>)
    requires
        has_no_break(line),
    ensures
        line.len() == 0 || line[line.len() - 1] != '\r' ==> first_line(line + seq!['\n'] + rest)
            == line,
        first_line(line + seq!['\r', '\n'] + rest) == line,
        first_line(line) == line,
{
    let t = line + seq!['\n'] + rest;
    assert(t =~= line + (seq!['\n'] + rest));
    break_comes_first(line, seq!['\n'] + rest);
    assert(t.take(line.len() as int) =~= line);
    let u = line + seq!['\r', '\n'] + rest;
    let l1 = line.push('\r');
    assert(u =~= l1 + (seq!['\n'] + rest));
    assert forall|i: int| 0 <= i < l1.len() implies #[trigger] l1[i] != '\n' by {
        if i < line.len() {
            assert(line[i] != '\n');
        }
    }
    break_comes_first(l1, seq!['\n'] + rest);
    assert(u.take(line.len() as int) =~= line);
    assert(line + Seq::<char>::empty() =~= line);
    break_comes_first(line, Seq::empty());
    assert(line.take(line.len() as int) =~= line);
}

/// A text that fits is left alone. One that does not is cut to what fits, with an ellipsis
/// for its last character.
pub proof fn a_long_text_ends_in_an_ellipsis(t: Seq<char>, max: int)
    requires
        max > 0,
    ensures
        t.len() <= max ==> shortened(t, max) == t,
        t.len() > max ==> {
            &&& shortened(t, max).len() == max
            &&& shortened(t, max)[max - 1] == '\u{2026}'
            &&& forall|i: int| 0 <= i < max - 1 ==> #[trigger] shortened(t, max)[i] == t[i]
        },
{
}

/// A text occurs in another exactly if that one is something, the text, and something more.
pub proof fn a_text_occurs_between_others(needle: Seq<char>, hay: Seq<char>, a: Seq<char>, b: Seq<char>)
    ensures
        hay == a + needle + b ==> occurs_in(needle, hay),
        occurs_in(needle, hay) ==> exists|i: int|
            0 <= i && i + needle.len() <= hay.len() && hay =~= #[trigger] hay.take(i) + needle
                + hay.skip(i + needle.len()),
{
    if hay == a + needle + b {
        let i = a.len() as int;
        assert(hay.subrange(i, i + needle.len()) =~= needle);
        assert(occurs_at(needle, hay, i));
    }
    if occurs_in(needle, hay) {
        let i = choose|i: int| occurs_at(needle, hay, i);
        assert(hay =~= hay.take(i) + hay.subrange(i, i + needle.len()) + hay.skip(
            i + needle.len(),
        ));
    }
}

/// Digits write a number one after the other, each worth ten times less than the one before;
/// a sign may stand in front. What does not fit, what holds anything else and what
/// holds no digit is no number.
pub proof fn digits_write_a_number(m: Seq<char>, d: char, t: Seq<char>, i: int)
    requires
        '0' <= d <= '9',
        forall|j: int| 0 <= j < m.len() ==> '0' <= #[trigger] m[j] <= '9',
    ensures
        ({
            let n = integer(m.push(d));
            let v = d as int - '0' as int;
            &&& n is Some
            &&& m.len() == 0 ==> n == Some(v)
            &&& m.len() > 0 ==> (integer(m) matches Some(k) && n == Some(10 * k + v))
            &&& integer(seq!['+'] + m.push(d)) == n
            &&& integer(seq!['-'] + m.push(d)) == Some(-n->0)
        }),
        integer(Seq::empty()) is None,
        integer(seq!['+']) is None,
        integer(seq!['-']) is None,
        0 <= i < t.len() && !('0' <= t[i] <= '9') && (i > 0 || (t[0] != '+' && t[0] != '-'))
            ==> integer(t) is None,
        integer_i32(t) matches Some(k) ==> integer(t) == Some(k as int),
        integer_i32(t) is None ==> (integer(t) matches Some(k) ==> k < -0x8000_0000 || k
            > 0x7fff_ffff),
{
    let w = m.push(d);
    assert(forall|j: int| 0 <= j < w.len() ==> '0' <= #[trigger] w[j] <= '9');
    assert(w[0] != '+' && w[0] != '-');
    assert(w.drop_last() =~= m);
    if m.len() > 0 {
        assert('0' <= m[0] <= '9');
    }
    let p = seq!['+'] + w;
    let q = seq!['-'] + w;
    assert(p.skip(1) =~= w);
    assert(q.skip(1) =~= w);
    assert(p[0] == '+' && q[0] == '-');
    assert(seq!['+'].skip(1).len() == 0);
    assert(seq!['-'].skip(1).len() == 0);
    if 0 <= i < t.len() && !('0' <= t[i] <= '9') && (i > 0 || (t[0] != '+' && t[0] != '-')) {
        if t[0] == '+' || t[0] == '-' {
            assert(t.skip(1)[i - 1] == t[i]);
        }
    }
    reveal_with_fuel(decimal, 2);
}

/// A fixture gives its lines in order, trimmed and numbered one by one; a blank line counts but
/// gives nothing.
pub proof fn a_fixture_gives_its_lines(line: Seq<char>, rest: Seq<char>, n: int)
    requires
        has_no_break(line),
    ensures
        ({
            let here = if trimmed(line).len() == 0 {
                Seq::<(int, Seq<char>)>::empty()
            } else {
                seq![(n, trimmed(line))]
            };
            &&& numbered(split_lines(line), n) == here
            &&& numbered(split_lines(line + seq!['\n'] + rest), n) == here + numbered(
                split_lines(rest),
                n + 1,
            )
        }),
{
    assert(line + Seq::<char>::empty() =~= line);
    break_comes_first(line, Seq::empty());
    assert(split_lines(line) == seq![line]);
    assert(seq![line].drop_first() =~= Seq::<Seq<char>>::empty());
    assert(numbered(seq![line].drop_first(), n + 1) =~= Seq::<(int, Seq<char>)>::empty());
    let here = if trimmed(line).len() == 0 {
        Seq::<(int, Seq<char>)>::empty()
    } else {
        seq![(n, trimmed(line))]
    };
    assert(numbered(split_lines(line), n) =~= here);
    let t = line + seq!['\n'] + rest;
    assert(t =~= line + (seq!['\n'] + rest));
    break_comes_first(line, seq!['\n'] + rest);
    assert(t.take(line.len() as int) =~= line);
    assert(t.skip(line.len() as int + 1) =~= rest);
    assert(split_lines(t) == seq![line] + split_lines(rest));
    assert(split_lines(t).drop_first() =~= split_lines(rest));
    assert(split_lines(t)[0] == line);
    assert(numbered(split_lines(t), n) =~= here + numbered(split_lines(rest), n + 1));
}

/// A script pushes the updates that it starts with, one by one and in their order, up to the
/// first thing it waits for.
pub proof fn a_script_pushes_up_to_its_wait(updates: Seq<TdUpdate>, rest: Seq<ScriptStep>)
    requires
        rest.len() > 0 ==> rest[0] is Await,
    ensures
        ({
            let steps = updates.map_values(|u: TdUpdate| ScriptStep::Emit(u)) + rest;
            &&& leading_updates(steps) == updates
            &&& after_updates(steps) == rest
        }),
    decreases updates.len(),
{
    let emit = |u: TdUpdate| ScriptStep::Emit(u);
    let steps = updates.map_values(emit) + rest;
    if updates.len() > 0 {
        let more = updates.drop_first();
        assert(steps.drop_first() =~= more.map_values(emit) + rest);
        assert(steps[0] == ScriptStep::Emit(updates[0]));
        a_script_pushes_up_to_its_wait(more, rest);
        assert(seq![updates[0]] + more =~= updates);
    } else {
        assert(steps =~= rest);
        assert(leading_updates(rest) =~= updates);
    }
}

/// A request that the script waits for gets the scripted answer, and the updates behind it
/// follow; any other is answered with `Done`, and the script goes on waiting. Every
/// request is recorded.
pub proof fn a_script_answers_what_it_waits_for(
    matcher: RequestMatcher,
    respond: RespondWith,
    updates: Seq<TdUpdate>,
    rest: Seq<ScriptStep>,
    received: Seq<RequestSpec>,
    req: RequestSpec,
)
    requires
        rest.len() > 0 ==> rest[0] is Await,
    ensures
        ({
            let wait = ScriptStep::Await { expect: matcher, respond };
            let steps = seq![wait] + updates.map_values(|u: TdUpdate| ScriptStep::Emit(u)) + rest;
            let s = ScriptSpec { steps, received };
            &&& s.awaits(req) <==> expects(matcher, req)
            &&& answered(s, req, true) == (
                ScriptSpec { steps: rest, received: received.push(req) },
                match respond {
                    RespondWith::Answer(response) => Ok(response),
                    RespondWith::Fail(error) => Err(error),
                },
                updates,
            )
            &&& answered(s, req, false) == (
                ScriptSpec { steps, received: received.push(req) },
                Ok::<TdResponse, TdError>(TdResponse::Done),
                Seq::<TdUpdate>::empty(),
            )
            &&& answered(
                ScriptSpec { steps: Seq::empty(), received },
                req,
                true,
            ) == (
                ScriptSpec { steps: Seq::empty(), received: received.push(req) },
                Ok::<TdResponse, TdError>(TdResponse::Done),
                Seq::<TdUpdate>::empty(),
            )
        }),
{
    let wait = ScriptStep::Await { expect: matcher, respond };
    let emits = updates.map_values(|u: TdUpdate| ScriptStep::Emit(u));
    let steps = seq![wait] + emits + rest;
    assert(steps.drop_first() =~= emits + rest);
    assert(steps[0] == wait);
    a_script_pushes_up_to_its_wait(updates, rest);
}

/// What a script waits for: anything, a request of the named kind, or one that is equal in
/// every part, where paths are compared as paths.
pub proof fn a_script_waits_for_what_it_names(matcher: RequestMatcher, req: RequestSpec)
    ensures
        matcher is Any ==> expects(matcher, req),
        matcher matches RequestMatcher::Kind(kind) ==> (expects(matcher, req) <==> kind@
            == req.kind_name()),
        matcher matches RequestMatcher::Exact(e) ==> {
            &&& !(req is SetTdlibParameters) && !(req is SendMessageFile) ==> (expects(matcher, req)
                <==> e@ == req)
            &&& req matches RequestSpec::SendMessageFile { chat_id, path, kind, caption } ==> (
            expects(matcher, req) <==> (e@ matches RequestSpec::SendMessageFile {
                chat_id: c,
                path: p,
                kind: k,
                caption: t,
            } && c == chat_id && k == kind && t == caption && paths_equal(p, path)))
            &&& req is SetTdlibParameters && !(e@ is SetTdlibParameters) ==> !expects(matcher, req)
        },
{
}

} // verus!
