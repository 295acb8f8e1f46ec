//! A scripted stand-in for TDLib.
//!
//! A script is a list of steps. `Emit` steps push an update; an `Await` step
//! blocks the script until a request arrives that it expects, and answers it.
//! Leading `Emit` steps are pushed at once, and so are those behind an `Await`
//! as soon as it is answered. A request that is not expected is answered with
//! `Done` and does not move the script.
//!
//! A fixture holds one step per line; blank lines are skipped.
use crate::model::entity::FormattedText;
use crate::model::ids::MessageId;
use crate::model::path::{paths_equal, same_path};
use crate::td::error::TdError;
use crate::td::request::{
    ParamsSpec, RequestSpec, TdRequest, TdResponse, TdlibParams,
};
use crate::td::update::TdUpdate;
use crate::text::{chars_of, first_break, string_of, trim_range, trimmed};
use std::collections::VecDeque;
use vstd::prelude::*;

verus! {

#[derive(Debug, Clone)]
pub enum ScriptStep {
    /// Push this update at once.
    Emit(TdUpdate),
    /// Wait for a request that matches `expect`, then answer it.
    Await { expect: RequestMatcher, respond: RespondWith },
}

#[derive(Debug, Clone)]
pub enum RequestMatcher {
    Any,
    /// Matches by the variant's name alone.
    Kind(String),
    Exact(TdRequest),
}

#[derive(Debug, Clone)]
pub enum RespondWith {
    Answer(TdResponse),
    Fail(TdError),
}

// --- fixtures ---------------------------------------------------------------------------

/// The lines of `t`, without their line feeds.
pub open spec fn split_lines(t: Seq<char>) -> Seq<Seq<char>>
    decreases t.len(),
    via split_shrinks
{
    let n = first_break(t);
    if n < t.len() {
        seq![t.take(n)] + split_lines(t.skip(n + 1))
    } else {
        seq![t]
    }
}

#[via_fn]
proof fn split_shrinks(t: Seq<char>) {
    break_in_range(t);
}

proof fn break_in_range(t: Seq<char>)
    ensures
        0 <= first_break(t) <= t.len(),
    decreases t.len(),
{
    if t.len() > 0 {
        break_in_range(t.drop_first());
    }
}

/// The lines that are not blank, trimmed, each with its number; `lines` starts
/// with line `from`.
pub open spec fn numbered(lines: Seq<Seq<char>>, from: int) -> Seq<(int, Seq<char>)>
    decreases lines.len(),
{
    if lines.len() == 0 {
        Seq::empty()
    } else {
        let rest = numbered(lines.drop_first(), from + 1);
        if trimmed(lines[0]).len() == 0 {
            rest
        } else {
            seq![(from, trimmed(lines[0]))] + rest
        }
    }
}

/// Numbered lines by their views.
pub open spec fn line_views(lines: Seq<(usize, String)>) -> Seq<(int, Seq<char>)> {
    lines.map_values(|l: (usize, String)| (l.0 as int, l.1@))
}

/// The steps of a fixture as text: its lines, trimmed, without the blank ones,
/// each with its line number, counted from 1.
pub fn fixture_lines(fixture: &str) -> (r: Vec<(usize, String)>)
    ensures
        line_views(r@) == numbered(split_lines(fixture@), 1),
{
    let v = chars_of(fixture);
    let ghost t = v@;
    let n: usize = v.len();
    let mut r: Vec<(usize, String)> = Vec::new();
    let mut start: usize = 0;
    let mut line: usize = 0;
    proof {
        assert(t.skip(0) =~= t);
        assert(line_views(r@) =~= Seq::empty());
        assert(Seq::<(int, Seq<char>)>::empty() + numbered(split_lines(t), 1) =~= numbered(
            split_lines(t),
            1,
        ));
    }
    loop
        invariant
            n == v@.len(),
            t == v@,
            t == fixture@,
            line <= start <= n,
            line_views(r@) + numbered(split_lines(t.skip(start as int)), line + 1) == numbered(
                split_lines(t),
                1,
            ),
        decreases n - start,
    {
        let ghost rest = t.skip(start as int);
        let mut end: usize = start;
        assert(t.skip(end as int) =~= rest);
        while end < n && v[end] != '\n'
            invariant
                start <= end <= n,
                n == v@.len(),
                t == v@,
                rest == t.skip(start as int),
                first_break(rest) == end - start + first_break(t.skip(end as int)),
            decreases n - end,
        {
            assert(t.skip(end as int).drop_first() =~= t.skip(end + 1));
            end = end + 1;
        }
        let ghost here = t.subrange(start as int, end as int);
        let ghost done = line_views(r@);
        let (from, to): (usize, usize) = trim_range(&v, start, end);
        if from < to {
            let text = string_of(&v, from, to);
            r.push((line + 1, text));
            assert(line_views(r@) =~= done.push((line + 1, trimmed(here))));
        }
        proof {
            assert(first_break(rest) == end - start);
            let lines = split_lines(rest);
            if end < n {
                assert(rest.take(end - start) =~= here);
                assert(rest.skip(end - start + 1) =~= t.skip(end + 1));
                assert(lines.drop_first() =~= split_lines(t.skip(end + 1)));
                assert(lines[0] == here);
            } else {
                assert(rest =~= here);
                assert(lines.drop_first() =~= Seq::empty());
                assert(lines[0] == here);
                assert(numbered(lines.drop_first(), line + 2) =~= Seq::empty());
            }
            let tail = numbered(lines.drop_first(), line + 2);
            assert(line_views(r@) + tail =~= done + numbered(lines, line + 1));
        }
        if end >= n {
            assert(line_views(r@) =~= numbered(split_lines(t), 1));
            return r;
        }
        start = end + 1;
        line = line + 1;
    }
}

// --- matching -----------------------------------------------------------------------------

/// Whether two sets of parameters are equal.
pub open spec fn params_equal(a: ParamsSpec, b: ParamsSpec) -> bool {
    &&& paths_equal(a.database_directory, b.database_directory)
    &&& (ParamsSpec { database_directory: b.database_directory, ..a }) == b
}

/// Whether two requests are equal. The paths in them are compared as paths.
pub open spec fn requests_equal(a: RequestSpec, b: RequestSpec) -> bool {
    match (a, b) {
        (RequestSpec::SetTdlibParameters(p), RequestSpec::SetTdlibParameters(q)) => params_equal(
            p,
            q,
        ),
        (
            RequestSpec::SendMessageFile { chat_id: c, path: p, kind: m, caption: t },
            RequestSpec::SendMessageFile { chat_id: d, path: q, kind: k, caption: u },
        ) => c == d && paths_equal(p, q) && m == k && t == u,
        _ => a == b,
    }
}

fn same_ids(a: &Vec<MessageId>, b: &Vec<MessageId>) -> (r: bool)
    ensures
        r == (a@ == b@),
{
    if a.len() != b.len() {
        return false;
    }
    let mut i: usize = 0;
    while i < a.len()
        invariant
            i <= a@.len(),
            a@.len() == b@.len(),
            forall|j: int| 0 <= j < i ==> a@[j] == b@[j],
        decreases a@.len() - i,
    {
        if a[i] != b[i] {
            return false;
        }
        i = i + 1;
    }
    assert(a@ =~= b@);
    true
}

fn same_bytes(a: &Vec<u8>, b: &Vec<u8>) -> (r: bool)
    ensures
        r == (a@ == b@),
{
    if a.len() != b.len() {
        return false;
    }
    let mut i: usize = 0;
    while i < a.len()
        invariant
            i <= a@.len(),
            a@.len() == b@.len(),
            forall|j: int| 0 <= j < i ==> a@[j] == b@[j],
        decreases a@.len() - i,
    {
        if a[i] != b[i] {
            return false;
        }
        i = i + 1;
    }
    assert(a@ =~= b@);
    true
}

fn same_text(a: &FormattedText, b: &FormattedText) -> (r: bool)
    ensures
        r == (a@ == b@),
{
    if a.text != b.text || a.entities.len() != b.entities.len() {
        return false;
    }
    let mut i: usize = 0;
    while i < a.entities.len()
        invariant
            i <= a.entities@.len(),
            a.text@ == b.text@,
            a.entities@.len() == b.entities@.len(),
            forall|j: int| 0 <= j < i ==> a.entities@[j] == b.entities@[j],
        decreases a.entities@.len() - i,
    {
        if a.entities[i] != b.entities[i] {
            return false;
        }
        i = i + 1;
    }
    assert(a.entities@ =~= b.entities@);
    true
}

fn same_caption(a: &Option<FormattedText>, b: &Option<FormattedText>) -> (r: bool)
    ensures
        r == match (*a, *b) {
            (Some(x), Some(y)) => x@ == y@,
            (None, None) => true,
            _ => false,
        },
{
    match (a, b) {
        (Some(x), Some(y)) => same_text(x, y),
        (None, None) => true,
        _ => false,
    }
}

fn same_params(a: &TdlibParams, b: &TdlibParams) -> (r: bool)
    ensures
        r == params_equal(a@, b@),
        a@ == b@ ==> r,
{
    a.api_id == b.api_id && a.api_hash == b.api_hash && same_path(
        &a.database_directory,
        &b.database_directory,
    ) && same_bytes(&a.database_encryption_key, &b.database_encryption_key)
        && a.use_message_database == b.use_message_database && a.use_chat_info_database
        == b.use_chat_info_database && a.use_file_database == b.use_file_database
        && a.use_secret_chats == b.use_secret_chats && a.system_language_code
        == b.system_language_code && a.device_model == b.device_model && a.application_version
        == b.application_version
}

fn same_request(a: &TdRequest, b: &TdRequest) -> (r: bool)
    ensures
        r == requests_equal(a@, b@),
        a@ == b@ ==> r,
{
    match (a, b) {
        (TdRequest::SetTdlibParameters(p), TdRequest::SetTdlibParameters(q)) => same_params(p, q),
        (
            TdRequest::SetAuthenticationPhoneNumber { phone: p },
            TdRequest::SetAuthenticationPhoneNumber { phone: q },
        ) => *p == *q,
        (
            TdRequest::CheckAuthenticationCode { code: p },
            TdRequest::CheckAuthenticationCode { code: q },
        ) => *p == *q,
        (
            TdRequest::CheckAuthenticationPassword { password: p },
            TdRequest::CheckAuthenticationPassword { password: q },
        ) => *p == *q,
        (TdRequest::RequestQrCodeAuthentication, TdRequest::RequestQrCodeAuthentication) => true,
        (TdRequest::LogOut, TdRequest::LogOut) => true,
        (
            TdRequest::LoadChats { list: l, limit: n },
            TdRequest::LoadChats { list: m, limit: k },
        ) => *l == *m && *n == *k,
        (TdRequest::OpenChat { chat_id: p }, TdRequest::OpenChat { chat_id: q }) => *p == *q,
        (TdRequest::CloseChat { chat_id: p }, TdRequest::CloseChat { chat_id: q }) => *p == *q,
        (
            TdRequest::GetChatHistory { chat_id: c, from_message_id: m, limit: n, only_local: o },
            TdRequest::GetChatHistory { chat_id: d, from_message_id: k, limit: p, only_local: q },
        ) => *c == *d && *m == *k && *n == *p && *o == *q,
        (
            TdRequest::GetMessageProperties { chat_id: c, message_id: m },
            TdRequest::GetMessageProperties { chat_id: d, message_id: k },
        ) => *c == *d && *m == *k,
        (
            TdRequest::ViewMessages { chat_id: c, message_ids: m },
            TdRequest::ViewMessages { chat_id: d, message_ids: k },
        ) => *c == *d && same_ids(m, k),
        (
            TdRequest::SendMessageText { chat_id: c, reply_to: m, text: t },
            TdRequest::SendMessageText { chat_id: d, reply_to: k, text: u },
        ) => *c == *d && same_reply(*m, *k) && same_text(t, u),
        (
            TdRequest::SendMessageFile { chat_id: c, path: p, kind: m, caption: t },
            TdRequest::SendMessageFile { chat_id: d, path: q, kind: k, caption: u },
        ) => *c == *d && same_path(p, q) && *m == *k && same_caption(t, u),
        (
            TdRequest::EditMessageText { chat_id: c, message_id: m, text: t },
            TdRequest::EditMessageText { chat_id: d, message_id: k, text: u },
        ) => *c == *d && *m == *k && same_text(t, u),
        (
            TdRequest::DeleteMessages { chat_id: c, message_ids: m, revoke: p },
            TdRequest::DeleteMessages { chat_id: d, message_ids: k, revoke: q },
        ) => *c == *d && same_ids(m, k) && *p == *q,
        (
            TdRequest::ForwardMessages { to_chat_id: c, from_chat_id: f, message_ids: m },
            TdRequest::ForwardMessages { to_chat_id: d, from_chat_id: g, message_ids: k },
        ) => *c == *d && *f == *g && same_ids(m, k),
        (
            TdRequest::ToggleReaction { chat_id: c, message_id: m, emoji: e },
            TdRequest::ToggleReaction { chat_id: d, message_id: k, emoji: f },
        ) => *c == *d && *m == *k && *e == *f,
        (
            TdRequest::DownloadFile { file_id: f, priority: p },
            TdRequest::DownloadFile { file_id: g, priority: q },
        ) => *f == *g && *p == *q,
        (
            TdRequest::CancelDownloadFile { file_id: f },
            TdRequest::CancelDownloadFile { file_id: g },
        ) => *f == *g,
        (
            TdRequest::SearchChatMessages { chat_id: c, query: s, from_message_id: m, limit: n },
            TdRequest::SearchChatMessages { chat_id: d, query: u, from_message_id: k, limit: p },
        ) => *c == *d && *s == *u && *m == *k && *n == *p,
        _ => false,
    }
}

fn same_reply(a: Option<MessageId>, b: Option<MessageId>) -> (r: bool)
    ensures
        r == (a == b),
{
    match (a, b) {
        (Some(x), Some(y)) => x == y,
        (None, None) => true,
        _ => false,
    }
}

/// `matcher` expects `req`.
pub open spec fn expects(matcher: RequestMatcher, req: RequestSpec) -> bool {
    match matcher {
        RequestMatcher::Any => true,
        RequestMatcher::Kind(kind) => req.kind_name() == kind@,
        RequestMatcher::Exact(expected) => requests_equal(expected@, req),
    }
}

fn matches_request(matcher: &RequestMatcher, req: &TdRequest) -> (r: bool)
    ensures
        r == expects(*matcher, req@),
        matcher matches RequestMatcher::Exact(expected) ==> (expected@ == req@ ==> r),
{
    match matcher {
        RequestMatcher::Any => true,
        RequestMatcher::Kind(kind) => {
            let name: String = req.kind().to_owned();
            name == *kind
        },
        RequestMatcher::Exact(expected) => same_request(expected, req),
    }
}

// --- the script -----------------------------------------------------------------------------

/// What is left of a script, and every request that came in.
#[derive(Debug)]
pub struct Script {
    pub steps: VecDeque<ScriptStep>,
    pub received: Vec<TdRequest>,
}

pub ghost struct ScriptSpec {
    pub steps: Seq<ScriptStep>,
    pub received: Seq<RequestSpec>,
}

/// The requests by their models.
pub open spec fn request_views(requests: Seq<TdRequest>) -> Seq<RequestSpec> {
    requests.map_values(|r: TdRequest| r@)
}

impl View for Script {
    type V = ScriptSpec;

    open spec fn view(&self) -> ScriptSpec {
        ScriptSpec { steps: self.steps@, received: request_views(self.received@) }
    }
}

/// The updates of the `Emit` steps that `steps` starts with.
pub open spec fn leading_updates(steps: Seq<ScriptStep>) -> Seq<TdUpdate>
    decreases steps.len(),
{
    if steps.len() == 0 {
        Seq::empty()
    } else {
        match steps[0] {
            ScriptStep::Emit(update) => seq![update] + leading_updates(steps.drop_first()),
            ScriptStep::Await { .. } => Seq::empty(),
        }
    }
}

/// `steps` from the first `Await` on.
pub open spec fn after_updates(steps: Seq<ScriptStep>) -> Seq<ScriptStep>
    decreases steps.len(),
{
    if steps.len() == 0 {
        steps
    } else {
        match steps[0] {
            ScriptStep::Emit(_) => after_updates(steps.drop_first()),
            ScriptStep::Await { .. } => steps,
        }
    }
}

/// What the script does with a request that it does or does not expect: the
/// script afterwards, the answer, and the updates that it pushes.
pub open spec fn answered(s: ScriptSpec, req: RequestSpec, expected: bool) -> (
    ScriptSpec,
    Result<TdResponse, TdError>,
    Seq<TdUpdate>,
) {
    let received = s.received.push(req);
    if s.steps.len() > 0 && expected {
        match s.steps[0] {
            ScriptStep::Await { respond, .. } => (
                ScriptSpec { steps: after_updates(s.steps.drop_first()), received },
                match respond {
                    RespondWith::Answer(response) => Ok(response),
                    RespondWith::Fail(error) => Err(error),
                },
                leading_updates(s.steps.drop_first()),
            ),
            ScriptStep::Emit(_) => (
                ScriptSpec { received, ..s },
                Ok(TdResponse::Done),
                Seq::empty(),
            ),
        }
    } else {
        (ScriptSpec { received, ..s }, Ok(TdResponse::Done), Seq::empty())
    }
}

impl ScriptSpec {
    /// The script waits for `req`.
    pub open spec fn awaits(self, req: RequestSpec) -> bool {
        self.steps.len() > 0 && match self.steps[0] {
            ScriptStep::Await { expect, .. } => expects(expect, req),
            ScriptStep::Emit(_) => false,
        }
    }

    /// The script waits for this very request.
    pub open spec fn awaits_exactly(self, req: RequestSpec) -> bool {
        self.steps.len() > 0 && match self.steps[0] {
            ScriptStep::Await { expect: RequestMatcher::Exact(expected), .. } => expected@ == req,
            _ => false,
        }
    }
}

impl Script {
    /// A script at its first `Await`, and the updates that come before it.
    pub fn start(steps: Vec<ScriptStep>) -> (r: (Script, Vec<TdUpdate>))
        ensures
            r.0@ == (ScriptSpec { steps: after_updates(steps@), received: Seq::empty() }),
            r.1@ == leading_updates(steps@),
    {
        let mut queue: VecDeque<ScriptStep> = VecDeque::new();
        let ghost all = steps@;
        let mut left = steps;
        while left.len() > 0
            invariant
                all =~= left@ + queue@,
            decreases left@.len(),
        {
            if let Some(step) = left.pop() {
                queue.push_front(step);
            }
        }
        let mut script = Script { steps: queue, received: Vec::new() };
        assert(script@.received =~= Seq::empty());
        assert(script.steps@ =~= all);
        let updates = script.drain_emits();
        (script, updates)
    }

    /// Takes the leading `Emit` steps off the script.
    fn drain_emits(&mut self) -> (updates: Vec<TdUpdate>)
        ensures
            final(self).steps@ == after_updates(old(self).steps@),
            final(self).received == old(self).received,
            updates@ == leading_updates(old(self).steps@),
    {
        let mut updates: Vec<TdUpdate> = Vec::new();
        let ghost all = self.steps@;
        assert(updates@ + leading_updates(all) =~= leading_updates(all));
        while self.steps.len() > 0 && matches!(self.steps[0], ScriptStep::Emit(_))
            invariant
                self.received == old(self).received,
                after_updates(self.steps@) == after_updates(all),
                updates@ + leading_updates(self.steps@) == leading_updates(all),
            decreases self.steps@.len(),
        {
            let ghost before = updates@;
            let ghost here = self.steps@;
            if let Some(ScriptStep::Emit(update)) = self.steps.pop_front() {
                updates.push(update);
                assert(self.steps@ =~= here.drop_first());
                assert(updates@ + leading_updates(self.steps@) =~= before + leading_updates(here));
            }
        }
        assert(updates@ + Seq::<TdUpdate>::empty() =~= updates@);
        updates
    }

    /// Whether the script waits for `req`.
    pub fn is_waiting_for(&self, req: &TdRequest) -> (r: bool)
        ensures
            r == self@.awaits(req@),
            self@.awaits_exactly(req@) ==> r,
    {
        if self.steps.len() == 0 {
            return false;
        }
        match &self.steps[0] {
            ScriptStep::Await { expect, .. } => matches_request(expect, req),
            ScriptStep::Emit(_) => false,
        }
    }

    /// Records a request and answers it. An expected one gets the scripted
    /// answer and moves the script on to the next `Await`; any other gets
    /// `Done` and moves nothing.
    pub fn answer(&mut self, req: TdRequest, expected: bool) -> (r: (
        Result<TdResponse, TdError>,
        Vec<TdUpdate>,
    ))
        ensures
            (final(self)@, r.0, r.1@) == answered(old(self)@, req@, expected),
    {
        let ghost before = self.received@;
        self.received.push(req);
        assert(request_views(self.received@) =~= request_views(before).push(req@));
        let ready: bool = expected && self.steps.len() > 0 && matches!(
            self.steps[0],
            ScriptStep::Await { .. }
        );
        if !ready {
            return (Ok(TdResponse::Done), Vec::new());
        }
        let ghost steps = self.steps@;
        match self.steps.pop_front() {
            Some(ScriptStep::Await { respond, .. }) => {
                assert(self.steps@ =~= steps.drop_first());
                let updates = self.drain_emits();
                match respond {
                    RespondWith::Answer(response) => (Ok(response), updates),
                    RespondWith::Fail(error) => (Err(error), updates),
                }
            },
            _ => (Ok(TdResponse::Done), Vec::new()),
        }
    }

    /// What the script does with a request.
    pub fn request(&mut self, req: TdRequest) -> (r: (Result<TdResponse, TdError>, Vec<TdUpdate>))
        ensures
            (final(self)@, r.0, r.1@) == answered(old(self)@, req@, old(self)@.awaits(req@)),
            old(self)@.awaits_exactly(req@) ==> (final(self)@, r.0, r.1@) == answered(
                old(self)@,
                req@,
                true,
            ),
    {
        let expected: bool = self.is_waiting_for(&req);
        self.answer(req, expected)
    }
}

// --- laws -----------------------------------------------------------------------------------

/// A script at rest waits or is over: no update is left lying at its front.
pub proof fn a_script_rests_on_a_wait(steps: Seq<ScriptStep>)
    ensures
        leading_updates(after_updates(steps)) == Seq::<TdUpdate>::empty(),
        after_updates(after_updates(steps)) == after_updates(steps),
    decreases steps.len(),
{
    if steps.len() > 0 && steps[0] is Emit {
        a_script_rests_on_a_wait(steps.drop_first());
    }
}

/// Every request is recorded, in the order of arrival, whether it was expected
/// or not; and one that was not leaves the script as it was.
pub proof fn every_request_is_recorded(s: ScriptSpec, req: RequestSpec, expected: bool)
    ensures
        answered(s, req, expected).0.received == s.received.push(req),
        answered(s, req, false).0.steps == s.steps,
        answered(s, req, false).1 == Ok::<TdResponse, TdError>(TdResponse::Done),
        answered(s, req, false).2 == Seq::<TdUpdate>::empty(),
{
}

} // verus!
