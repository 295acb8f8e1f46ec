use std::path::PathBuf;
use tgt_core::model::chat::ChatListId;
use tgt_core::model::ids::ChatId;
use tgt_core::td::error::TdError;
use tgt_core::td::fake::{fixture_lines, RequestMatcher, RespondWith, Script, ScriptStep};
use tgt_core::td::request::{OutgoingFileKind, TdRequest, TdResponse};
use tgt_core::td::update::{ConnectionPhase, TdUpdate};

fn load_chats() -> TdRequest {
    TdRequest::LoadChats {
        list: ChatListId::Main,
        limit: 50,
    }
}

#[test]
fn emit_steps_arrive_in_order() {
    let steps = vec![
        ScriptStep::Emit(TdUpdate::Connection(ConnectionPhase::Connecting)),
        ScriptStep::Emit(TdUpdate::Connection(ConnectionPhase::Ready)),
    ];
    let (_script, updates) = Script::start(steps);

    assert_eq!(
        updates,
        vec![
            TdUpdate::Connection(ConnectionPhase::Connecting),
            TdUpdate::Connection(ConnectionPhase::Ready),
        ]
    );
}

#[test]
fn await_matches_kind_and_responds() {
    let steps = vec![
        ScriptStep::Emit(TdUpdate::Connection(ConnectionPhase::Connecting)),
        ScriptStep::Await {
            expect: RequestMatcher::Kind("LoadChats".to_string()),
            respond: RespondWith::Answer(TdResponse::Chats {
                chat_ids: vec![ChatId(1)],
            }),
        },
        ScriptStep::Emit(TdUpdate::Connection(ConnectionPhase::Ready)),
    ];
    let (mut script, updates) = Script::start(steps);

    // The trailing Emit must not have arrived yet.
    assert_eq!(
        updates,
        vec![TdUpdate::Connection(ConnectionPhase::Connecting)]
    );

    let (resp, updates) = script.request(load_chats());
    assert_eq!(
        resp.unwrap(),
        TdResponse::Chats {
            chat_ids: vec![ChatId(1)]
        }
    );
    assert_eq!(updates, vec![TdUpdate::Connection(ConnectionPhase::Ready)]);
}

#[test]
fn await_exact_mismatch_gets_default_ok_and_is_recorded() {
    let target = TdRequest::OpenChat { chat_id: ChatId(1) };
    let steps = vec![ScriptStep::Await {
        expect: RequestMatcher::Exact(target.clone()),
        respond: RespondWith::Answer(TdResponse::Chats {
            chat_ids: vec![ChatId(99)],
        }),
    }];
    let (mut script, _) = Script::start(steps);

    let mismatched = TdRequest::OpenChat { chat_id: ChatId(2) };
    let (resp, updates) = script.request(mismatched.clone());
    assert_eq!(resp.unwrap(), TdResponse::Done);
    assert!(updates.is_empty());
    assert_eq!(script.received, vec![mismatched]);

    // The script is unmoved: the answer still fires for the matching request.
    let (resp, _) = script.request(target.clone());
    assert_eq!(
        resp.unwrap(),
        TdResponse::Chats {
            chat_ids: vec![ChatId(99)]
        }
    );
    assert_eq!(
        script.received,
        vec![TdRequest::OpenChat { chat_id: ChatId(2) }, target]
    );
}

#[test]
fn malformed_jsonl_line_reports_line_number() {
    let lines = fixture_lines("{}\n\nnot valid json");
    assert_eq!(
        lines,
        vec![(1, "{}".to_string()), (3, "not valid json".to_string())]
    );
}

#[test]
fn fixture_lines_are_trimmed_and_blank_ones_skipped() {
    assert!(fixture_lines("").is_empty());
    assert!(fixture_lines("\n \t\n\r\n").is_empty());
    assert_eq!(
        fixture_lines("  a b \r\n\u{3000}c\n"),
        vec![(1, "a b".to_string()), (2, "c".to_string())]
    );
}

#[test]
fn a_scripted_failure_is_returned() {
    let (mut script, _) = Script::start(vec![ScriptStep::Await {
        expect: RequestMatcher::Any,
        respond: RespondWith::Fail(TdError::Offline),
    }]);
    let (resp, _) = script.request(TdRequest::LogOut);
    assert_eq!(resp, Err(TdError::Offline));

    // The script is over: everything else is answered by default.
    let (resp, updates) = script.request(load_chats());
    assert_eq!(resp, Ok(TdResponse::Done));
    assert!(updates.is_empty());
    assert_eq!(script.received.len(), 2);
}

#[test]
fn a_kind_that_does_not_match_leaves_the_script_waiting() {
    let (mut script, _) = Script::start(vec![
        ScriptStep::Await {
            expect: RequestMatcher::Kind("OpenChat".to_string()),
            respond: RespondWith::Answer(TdResponse::Done),
        },
        ScriptStep::Emit(TdUpdate::Connection(ConnectionPhase::Updating)),
    ]);
    let (_, updates) = script.request(load_chats());
    assert!(updates.is_empty());
    let (_, updates) = script.request(TdRequest::OpenChat { chat_id: ChatId(7) });
    assert_eq!(
        updates,
        vec![TdUpdate::Connection(ConnectionPhase::Updating)]
    );
}

#[test]
fn an_exact_match_compares_paths() {
    let send = |path: &str| TdRequest::SendMessageFile {
        chat_id: ChatId(1),
        path: PathBuf::from(path),
        kind: OutgoingFileKind::Document,
        caption: None,
    };
    let (mut script, _) = Script::start(vec![ScriptStep::Await {
        expect: RequestMatcher::Exact(send("/tmp/a")),
        respond: RespondWith::Fail(TdError::NetTimeout),
    }]);
    assert_eq!(script.request(send("/tmp/b")).0, Ok(TdResponse::Done));
    assert_eq!(script.request(send("/tmp/a")).0, Err(TdError::NetTimeout));
}

#[test]
fn answer_follows_the_verdict_it_is_given() {
    let step = || ScriptStep::Await {
        expect: RequestMatcher::Any,
        respond: RespondWith::Fail(TdError::Unauthorized),
    };
    let (mut script, _) = Script::start(vec![step()]);
    assert!(script.is_waiting_for(&TdRequest::LogOut));
    let (resp, _) = script.answer(TdRequest::LogOut, false);
    assert_eq!(resp, Ok(TdResponse::Done));
    let (resp, _) = script.answer(TdRequest::LogOut, true);
    assert_eq!(resp, Err(TdError::Unauthorized));
    assert!(!script.is_waiting_for(&TdRequest::LogOut));
}
