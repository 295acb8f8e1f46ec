//! What is downloaded on its own, and what file updates do.
use crate::app::AppSpec;
use crate::effect::EffectSpec;
use crate::model::chips::chip_row;
use crate::model::ids::{ChatId, FileId, MessageId};
use crate::model::message::{ContentSpec, FileSnapshot, MessageSpec};
use crate::state::conversation::{ConversationSpec, Scroll};
use crate::state::media::{
    a_trigger_is_no_storm, anchor_index, asked_for, auto_downloaded, completed,
    download_answered, downloads, file_pushed, path_of, priority, is_owner, near_photo,
    nothing_wanted_is_left, owns, rechipped, upload_advanced, upload_completed, upload_started,
    with_file, with_progress, MediaSpec, UploadProgress,
};
use crate::state::window::{index_of_id_is, is_first};
use crate::td::error::TdError;
use crate::td::request::RequestSpec;
use crate::td::update::TdUpdate;
use std::path::PathBuf;
use vstd::prelude::*;

verus! {

/// Whether a file was not asked for yet, has not failed twice, and is neither
/// there nor on its way.
pub open spec fn is_missing(m: MediaSpec, f: FileId) -> bool {
    &&& !m.requested.contains(f)
    &&& !m.failures.contains_key(f) || m.failures[f] < 2
    &&& !m.files.contains_key(f) || (!m.files[f].is_completed && !m.files[f].is_downloading)
}

/// Whether message `i` of a window is an incoming photo of `f`, at most twenty
/// messages from `anchor` on either side.
pub open spec fn shows_photo(w: Seq<MessageSpec>, anchor: int, i: int, f: FileId) -> bool {
    &&& 0 <= i < w.len()
    &&& !w[i].is_outgoing
    &&& -20 <= i - anchor <= 20
    &&& w[i].content matches ContentSpec::Photo { file_id, .. } && file_id == f
}

/// Whether `anchor` is where a chat is looked at: the message that its view
/// names, or the newest.
pub open spec fn looks_at(c: ConversationSpec, anchor: int) -> bool {
    &&& 0 <= anchor < c.messages.len()
    &&& match c.scroll {
        Scroll::Bottom => anchor == c.messages.len() - 1,
        Scroll::At { message_id, .. } => c.messages[anchor].id == message_id,
        Scroll::AtTop { message_id } => c.messages[anchor].id == message_id,
    }
    &&& !(c.scroll is Bottom) ==> forall|j: int|
        0 <= j < anchor ==> (#[trigger] c.messages[j]).id != c.messages[anchor].id
}

/// A request to download a file.
pub open spec fn fetches(e: EffectSpec, f: FileId) -> bool {
    e matches EffectSpec::Td(RequestSpec::DownloadFile { file_id, .. }) && file_id == f
}

proof fn anchor_is(c: ConversationSpec, anchor: int)
    requires
        looks_at(c, anchor),
    ensures
        anchor_index(c) == Some(anchor),
{
    if !(c.scroll is Bottom) {
        assert(is_first(c.messages, c.messages[anchor].id, anchor));
        index_of_id_is(c.messages, c.messages[anchor].id, anchor);
    }
}

proof fn what_is_new_was_asked(m: MediaSpec, w: Seq<MessageSpec>, anchor: int, n: nat, f: FileId)
    requires
        n <= w.len(),
        downloads(m, w, anchor, n).0.requested.contains(f),
        !m.requested.contains(f),
    ensures
        exists|k: int|
            0 <= k < downloads(m, w, anchor, n).1.len() && fetches(
                #[trigger] downloads(m, w, anchor, n).1[k],
                f,
            ),
    decreases n,
{
    if n > 0 {
        let (m0, e0) = downloads(m, w, anchor, (n - 1) as nat);
        let (m1, e1) = downloads(m, w, anchor, n);
        if m0.requested.contains(f) {
            what_is_new_was_asked(m, w, anchor, (n - 1) as nat, f);
            let k = choose|k: int| 0 <= k < e0.len() && fetches(#[trigger] e0[k], f);
            assert(e1[k] == e0[k]);
        } else {
            assert(fetches(e1[e1.len() - 1], f));
        }
    }
}

/// Whether a request is for a photo near `anchor`: at high priority if it is at most
/// five messages away, at medium priority further out.
pub open spec fn fetches_near(e: EffectSpec, w: Seq<MessageSpec>, anchor: int) -> bool {
    exists|i: int, f: FileId| #[trigger]
        shows_photo(w, anchor, i, f) && e == EffectSpec::Td(
            RequestSpec::DownloadFile {
                file_id: f,
                priority: if -5 <= i - anchor <= 5 {
                    32
                } else {
                    16
                },
            },
        )
}

proof fn each_request_is_near(m: MediaSpec, w: Seq<MessageSpec>, anchor: int, n: nat, k: int)
    requires
        n <= w.len(),
        0 <= k < downloads(m, w, anchor, n).1.len(),
    ensures
        fetches_near(downloads(m, w, anchor, n).1[k], w, anchor),
    decreases n,
{
    if n > 0 {
        let e0 = downloads(m, w, anchor, (n - 1) as nat).1;
        let e1 = downloads(m, w, anchor, n).1;
        if k < e0.len() {
            each_request_is_near(m, w, anchor, (n - 1) as nat, k);
            assert(e1[k] == e0[k]);
        } else {
            assert(shows_photo(w, anchor, n - 1, near_photo(w, anchor, n - 1)->0));
        }
    }
}

/// A trigger misses nothing: unless it sent as much as it may, it asked for every
/// missing photo of an incoming message that is at most twenty messages from
/// where the chat is looked at, above it or below.
pub proof fn a_trigger_misses_no_photo(
    a: AppSpec,
    chat_id: ChatId,
    anchor: int,
    i: int,
    f: FileId,
)
    requires
        a.media.auto_download_photos,
        a.conversations.contains_key(chat_id),
        looks_at(a.conversations[chat_id], anchor),
        shows_photo(a.conversations[chat_id].messages, anchor, i, f),
        is_missing(a.media, f),
        auto_downloaded(a, chat_id).1.len() < 8,
    ensures
        exists|k: int|
            0 <= k < auto_downloaded(a, chat_id).1.len() && fetches(
                #[trigger] auto_downloaded(a, chat_id).1[k],
                f,
            ),
{
    let c = a.conversations[chat_id];
    anchor_is(c, anchor);
    let w = c.messages;
    assert(near_photo(w, anchor, i) == Some(f));
    nothing_wanted_is_left(a.media, w, anchor, w.len(), i as nat, f);
    a_trigger_is_no_storm(a.media, w, anchor, w.len());
    what_is_new_was_asked(a.media, w, anchor, w.len(), f);
}

/// A trigger asks for nothing else: at most eight downloads, each of a missing
/// photo near where the chat is looked at, the nearest at high priority, none
/// twice. It remembers what it asked for and changes nothing more.
pub proof fn a_trigger_asks_for_missing_photos(a: AppSpec, chat_id: ChatId, anchor: int)
    requires
        a.media.auto_download_photos,
        a.conversations.contains_key(chat_id),
        looks_at(a.conversations[chat_id], anchor),
    ensures
        ({
            let w = a.conversations[chat_id].messages;
            let (b, e) = auto_downloaded(a, chat_id);
            &&& e.len() <= 8
            &&& forall|k: int|
                0 <= k < e.len() ==> fetches_near(#[trigger] e[k], w, anchor)
            &&& forall|k: int, f: FileId|
                0 <= k < e.len() && #[trigger] fetches(e[k], f) ==> is_missing(a.media, f)
                    && b.media.requested.contains(f)
            &&& forall|j: int, k: int, f: FileId|
                0 <= j < k < e.len() && #[trigger] fetches(e[j], f) ==> !#[trigger] fetches(
                    e[k],
                    f,
                )
            &&& forall|f: FileId| #[trigger]
                b.media.requested.contains(f) && !a.media.requested.contains(f) ==> exists|k: int|
                    0 <= k < e.len() && fetches(#[trigger] e[k], f)
            &&& forall|f: FileId| #[trigger]
                a.media.requested.contains(f) ==> b.media.requested.contains(f)
            &&& b == (AppSpec {
                media: MediaSpec { requested: b.media.requested, ..a.media },
                ..a
            })
        }),
{
    let c = a.conversations[chat_id];
    anchor_is(c, anchor);
    let w = c.messages;
    let (b, e) = auto_downloaded(a, chat_id);
    a_trigger_is_no_storm(a.media, w, anchor, w.len());
    assert forall|k: int| 0 <= k < e.len() implies fetches_near(#[trigger] e[k], w, anchor) by {
        each_request_is_near(a.media, w, anchor, w.len(), k);
    }
    assert forall|k: int, f: FileId|
        0 <= k < e.len() && #[trigger] fetches(e[k], f) implies is_missing(a.media, f)
        && b.media.requested.contains(f) by {
        assert(asked_for(e[k]) == Some(f));
    }
    assert forall|j: int, k: int, f: FileId|
        0 <= j < k < e.len() && #[trigger] fetches(e[j], f) implies !#[trigger] fetches(
        e[k],
        f,
    ) by {
        assert(asked_for(e[j]) != asked_for(e[k]));
    }
    assert forall|f: FileId| #[trigger]
        b.media.requested.contains(f) && !a.media.requested.contains(f) implies exists|k: int|
        0 <= k < e.len() && fetches(#[trigger] e[k], f) by {
        what_is_new_was_asked(a.media, w, anchor, w.len(), f);
    }
}

/// With automatic downloads off, or in a chat that is not tracked or has nothing
/// loaded, nothing is asked for.
pub proof fn no_trigger_without_the_setting(a: AppSpec, chat_id: ChatId)
    requires
        !a.media.auto_download_photos || !a.conversations.contains_key(chat_id)
            || a.conversations[chat_id].messages.len() == 0,
    ensures
        auto_downloaded(a, chat_id).1 == Seq::<EffectSpec>::empty(),
        auto_downloaded(a, chat_id).0 == a,
{
    if a.media.auto_download_photos && a.conversations.contains_key(chat_id) {
        let c = a.conversations[chat_id];
        if !(c.scroll is Bottom) && anchor_index(c) is Some {
            let id = crate::state::window::anchor_of(c.scroll)->0;
            crate::state::window::index_of_id_exists(c.messages, id);
        }
    }
}

/// What TDLib reports of a file is what the file table then holds. No message
/// changes, and no other file; only the chips under a message with this file, and
/// the progress of an upload of it, may.
pub proof fn a_file_report_is_recorded(a: AppSpec, snapshot: FileSnapshot, chat_id: ChatId)
    ensures
        ({
            let b = with_file(a, snapshot);
            &&& b.media.files == a.media.files.insert(snapshot.id, snapshot)
            &&& b.media.requested == a.media.requested
            &&& b.media.failures == a.media.failures
            &&& b.media.auto_download_photos == a.media.auto_download_photos
            &&& snapshot.uploaded_size == 0 ==> b.media.uploads == a.media.uploads
            &&& b == (AppSpec { media: b.media, conversations: b.conversations, ..a })
            &&& b.conversations.contains_key(chat_id) == a.conversations.contains_key(chat_id)
            &&& a.conversations.contains_key(chat_id) ==> {
                let c = a.conversations[chat_id];
                let after = b.conversations[chat_id];
                &&& after == (ConversationSpec { selection: after.selection, ..c })
                &&& c.selection is None ==> after.selection is None
                &&& c.selection matches Some(s) ==> (after.selection matches Some(t) && t.message_id
                    == s.message_id)
            }
        }),
{
    let a1 = AppSpec {
        media: MediaSpec { files: a.media.files.insert(snapshot.id, snapshot), ..a.media },
        ..a
    };
    let b = with_file(a, snapshot);
    let a2 = upload_advanced(a1, snapshot.id, snapshot.uploaded_size);
    assert(a2.conversations == a.conversations);
    if a.conversations.contains_key(chat_id) {
        assert(b.conversations[chat_id] == rechipped(
            a.conversations[chat_id],
            a2.media,
            snapshot.id,
        ));
    }
}

/// The chips under a selected message follow its file, and under any other they
/// stay.
pub proof fn chips_follow_the_file(
    a: AppSpec,
    snapshot: FileSnapshot,
    chat_id: ChatId,
    i: int,
)
    requires
        a.conversations.contains_key(chat_id),
        a.conversations[chat_id].selection is Some,
        0 <= i < a.conversations[chat_id].messages.len(),
        a.conversations[chat_id].messages[i].id == a.conversations[chat_id].selection->0.message_id,
        forall|j: int|
            0 <= j < i ==> (#[trigger] a.conversations[chat_id].messages[j]).id
                != a.conversations[chat_id].messages[i].id,
    ensures
        ({
            let c = a.conversations[chat_id];
            let m = c.messages[i];
            let s = c.selection->0;
            let t = with_file(a, snapshot).conversations[chat_id].selection->0;
            let hit = match m.content {
                ContentSpec::Photo { file_id, .. } => file_id == snapshot.id,
                ContentSpec::Video { file_id, .. } => file_id == snapshot.id,
                ContentSpec::Audio { file_id, .. } => file_id == snapshot.id,
                ContentSpec::Document { file_id, .. } => file_id == snapshot.id,
                _ => false,
            };
            &&& !hit ==> t == s
            &&& hit ==> t.chips == chip_row(
                m.caps,
                m.is_outgoing,
                true,
                snapshot.is_completed,
                m.send_state is Failed,
            )
            &&& hit && s.chip_cursor < t.chips.len() ==> t.chip_cursor == s.chip_cursor
            &&& hit && s.chip_cursor >= t.chips.len() > 0 ==> t.chip_cursor == t.chips.len() - 1
            &&& hit && t.chips.len() == 0 ==> t.chip_cursor == 0
            &&& hit ==> t.chip_scroll == s.chip_scroll && t.message_id == s.message_id
        }),
{
    let c = a.conversations[chat_id];
    assert(is_first(c.messages, c.messages[i].id, i));
    index_of_id_is(c.messages, c.messages[i].id, i);
    let a1 = AppSpec {
        media: MediaSpec { files: a.media.files.insert(snapshot.id, snapshot), ..a.media },
        ..a
    };
    let a2 = upload_advanced(a1, snapshot.id, snapshot.uploaded_size);
    assert(a2.conversations == a.conversations);
    assert(a2.media.files == a1.media.files);
    assert(with_file(a, snapshot).conversations[chat_id] == rechipped(c, a2.media, snapshot.id));
}

/// A failed download is no longer on its way, and counts; the first failure lets
/// the file be asked for again, the second does not. An answer without an error
/// is a report on the file.
pub proof fn a_failed_download_counts(
    a: AppSpec,
    f: FileId,
    other: FileId,
    error: TdError,
    snapshot: FileSnapshot,
)
    requires
        other != f,
        a.media.failures.contains_key(f) ==> a.media.failures[f] < u8::MAX,
    ensures
        ({
            let b = download_answered(a, f, Err(error)).media;
            let before: int = if a.media.failures.contains_key(f) {
                a.media.failures[f] as int
            } else {
                0
            };
            &&& b.failures.contains_key(f) && b.failures[f] == before + 1
            &&& before + 1 < 2 ==> !b.requested.contains(f)
            &&& before + 1 >= 2 ==> b.requested.contains(f) == a.media.requested.contains(f)
            &&& b.requested.contains(other) == a.media.requested.contains(other)
            &&& b.failures.contains_key(other) == a.media.failures.contains_key(other)
            &&& a.media.failures.contains_key(other) ==> b.failures[other]
                == a.media.failures[other]
            &&& a.media.files.contains_key(f) ==> b.files.contains_key(f) && b.files[f] == (
            FileSnapshot { is_downloading: false, ..a.media.files[f] })
            &&& a.media.files.contains_key(other) ==> b.files[other] == a.media.files[other]
            &&& b.uploads == a.media.uploads
            &&& download_answered(a, f, Err(error)) == (AppSpec { media: b, ..a })
            &&& download_answered(a, f, Ok(snapshot)) == with_file(a, snapshot)
        }),
{
}

/// An upload is tracked from its start with nothing sent, grows up to its total
/// and no further, and is forgotten when it is complete. No other upload moves.
pub proof fn an_upload_is_tracked(
    a: AppSpec,
    id: MessageId,
    other: MessageId,
    chat_id: ChatId,
    total: u64,
    uploaded: u64,
)
    requires
        other != id,
    ensures
        ({
            let started = upload_started(a, id, chat_id, total);
            let on = with_progress(started, id, uploaded);
            &&& started.media.uploads.contains_key(id)
            &&& started.media.uploads[id] == (UploadProgress { chat_id, uploaded: 0, total })
            &&& on.media.uploads[id] == (UploadProgress {
                chat_id,
                uploaded: if uploaded <= total {
                    uploaded
                } else {
                    total
                },
                total,
            })
            &&& a.media.uploads.contains_key(other) ==> on.media.uploads[other]
                == a.media.uploads[other]
            &&& upload_completed(on, id).media.uploads == a.media.uploads.remove(id)
            &&& started == (AppSpec {
                media: MediaSpec { uploads: started.media.uploads, ..a.media },
                ..a
            })
            &&& on == (AppSpec { media: MediaSpec { uploads: on.media.uploads, ..a.media }, ..a })
            &&& upload_completed(a, id) == (AppSpec {
                media: MediaSpec { uploads: a.media.uploads.remove(id), ..a.media },
                ..a
            })
            &&& !a.media.uploads.contains_key(id) ==> with_progress(a, id, uploaded) == a
        }),
{
    let started = upload_started(a, id, chat_id, total);
    let on = with_progress(started, id, uploaded);
    assert(upload_completed(on, id).media.uploads =~= a.media.uploads.remove(id));
}

/// A report of uploaded bytes moves the upload of that file: the one tracked
/// upload whose message carries it.
pub proof fn a_report_moves_its_upload(
    a: AppSpec,
    snapshot: FileSnapshot,
    id: MessageId,
    i: int,
)
    requires
        snapshot.uploaded_size > 0,
        a.media.uploads.contains_key(id),
        a.conversations.contains_key(a.media.uploads[id].chat_id),
        ({
            let w = a.conversations[a.media.uploads[id].chat_id].messages;
            &&& 0 <= i < w.len()
            &&& w[i].id == id
            &&& forall|j: int| 0 <= j < i ==> (#[trigger] w[j]).id != id
            &&& match w[i].content {
                ContentSpec::Photo { file_id, .. } => file_id == snapshot.id,
                ContentSpec::Video { file_id, .. } => file_id == snapshot.id,
                ContentSpec::Audio { file_id, .. } => file_id == snapshot.id,
                ContentSpec::Document { file_id, .. } => file_id == snapshot.id,
                _ => false,
            }
        }),
        forall|other: MessageId| #[trigger]
            a.media.uploads.contains_key(other) && other != id ==> !owns(a, other, snapshot.id),
    ensures
        ({
            let p = a.media.uploads[id];
            let b = with_file(a, snapshot).media.uploads;
            &&& b == a.media.uploads.insert(
                id,
                UploadProgress {
                    uploaded: if snapshot.uploaded_size <= p.total {
                        snapshot.uploaded_size
                    } else {
                        p.total
                    },
                    ..p
                },
            )
        }),
{
    let w = a.conversations[a.media.uploads[id].chat_id].messages;
    assert(is_first(w, id, i));
    index_of_id_is(w, id, i);
    let a1 = AppSpec {
        media: MediaSpec { files: a.media.files.insert(snapshot.id, snapshot), ..a.media },
        ..a
    };
    assert(owns(a1, id, snapshot.id));
    assert forall|other: MessageId| #[trigger] owns(a1, other, snapshot.id) implies other == id by {
        if other != id {
            assert(a.media.uploads.contains_key(other));
            assert(!owns(a, other, snapshot.id));
        }
    }
    assert(is_owner(a1, snapshot.id, id));
    let chosen = choose|k: MessageId| is_owner(a1, snapshot.id, k);
    assert(is_owner(a1, snapshot.id, chosen));
    assert(owns(a1, chosen, snapshot.id));
}

/// A pushed file is recorded as a reported one is, and no other update touches the files. A
/// file is where its last report says, and is there once that says so. What is nearer to
/// the view is fetched first.
pub proof fn a_pushed_file_is_recorded(
    a: AppSpec,
    snapshot: FileSnapshot,
    upd: TdUpdate,
    f: FileId,
    d: int,
)
    ensures
        ({
            let b = file_pushed(a, TdUpdate::File(snapshot));
            &&& b == download_answered(a, f, Ok(snapshot))
            &&& path_of(b.media.files, snapshot.id) == snapshot.local_path
            &&& completed(b.media.files, snapshot.id) == snapshot.is_completed
        }),
        !(upd is File) ==> file_pushed(a, upd) == a,
        !a.media.files.contains_key(f) ==> path_of(a.media.files, f) == None::<PathBuf>
            && !completed(a.media.files, f),
        d <= 5 ==> priority(d) == 32,
        5 < d <= 20 ==> priority(d) == 16,
        20 < d ==> priority(d) == 4,
{
}

} // verus!
