//! Download and upload tracking.
//!
//! Photos near the scroll anchor download on their own. Every event that can
//! change what is near the anchor triggers this, again and again for the same
//! messages, so that a file is asked for at most once: it is remembered from
//! the moment of the request, before any answer can prove that it is on its
//! way. A failed download earns the file another attempt, up to
//! `MAX_AUTO_DOWNLOAD_ATTEMPTS`, and one trigger never sends more than
//! `MAX_AUTO_DOWNLOAD_REQUESTS_PER_TRIGGER` requests.
use crate::app::{models_insert, AppSpec, AppState};
use crate::collections::{in_rank_order, SortedMap, SortedSet};
use crate::effect::{no_effects, none, views, views_push, Effect, EffectSpec};
use crate::model::ids::{ChatId, FileId, MessageId};
use crate::model::message::{
    ContentSpec, FileSnapshot, MessageContent, MessageSpec, MessageView,
};
use crate::state::conversation::{
    window, ConversationSpec, ConversationState, Scroll,
};
use crate::state::history::PAGE_TRIGGER_MESSAGES;
use crate::state::selection::{chips_for_message, chips_of, SelectionSpec};
use crate::state::window::{anchor_of, index_of, index_of_id};
use crate::td::error::TdError;
use crate::td::request::{RequestSpec, TdRequest};
use crate::td::update::TdUpdate;
use std::collections::VecDeque;
use std::path::PathBuf;
use vstd::prelude::*;

verus! {

/// Only photos within this many messages of the anchor download on their own.
pub const AUTO_DOWNLOAD_WINDOW_MESSAGES: usize = PAGE_TRIGGER_MESSAGES;

/// Ceiling on the requests of one trigger.
pub const MAX_AUTO_DOWNLOAD_REQUESTS_PER_TRIGGER: usize = 8;

/// How many failures it takes to leave a file alone for good.
pub const MAX_AUTO_DOWNLOAD_ATTEMPTS: u8 = 2;

#[derive(Debug)]
pub struct MediaState {
    pub files: SortedMap<FileId, FileSnapshot>,
    /// Outgoing uploads keyed by the optimistic message id.
    pub uploads: SortedMap<MessageId, UploadProgress>,
    /// Whether photos near the anchor download on their own.
    pub auto_download_photos: bool,
    /// Files that were already asked for automatically.
    auto_download_requested: SortedSet<FileId>,
    /// How often the download of a file has failed.
    auto_download_failures: SortedMap<FileId, u8>,
}

#[derive(Debug, Clone, Copy, PartialEq, Eq, Structural)]
pub struct UploadProgress {
    pub chat_id: ChatId,
    pub uploaded: u64,
    pub total: u64,
}

#[verifier::ext_equal]
pub ghost struct MediaSpec {
    pub files: Map<FileId, FileSnapshot>,
    pub uploads: Map<MessageId, UploadProgress>,
    pub auto_download_photos: bool,
    pub requested: Set<FileId>,
    pub failures: Map<FileId, u8>,
}

impl View for MediaState {
    type V = MediaSpec;

    closed spec fn view(&self) -> MediaSpec {
        MediaSpec {
            files: self.files@,
            uploads: self.uploads@,
            auto_download_photos: self.auto_download_photos,
            requested: self.auto_download_requested@,
            failures: self.auto_download_failures@,
        }
    }
}

pub open spec fn fresh_media(auto_download_photos: bool) -> MediaSpec {
    MediaSpec {
        files: Map::empty(),
        uploads: Map::empty(),
        auto_download_photos,
        requested: Set::empty(),
        failures: Map::empty(),
    }
}

impl Default for MediaState {
    fn default() -> (r: MediaState)
        ensures
            r@ == fresh_media(true),
    {
        MediaState::new(true)
    }
}

impl MediaState {
    /// Nothing tracked yet, with the setting as configured.
    pub fn new(auto_download_photos: bool) -> (r: Self)
        ensures
            r@ == fresh_media(auto_download_photos),
    {
        MediaState {
            files: SortedMap::new(),
            uploads: SortedMap::new(),
            auto_download_photos,
            auto_download_requested: SortedSet::new(),
            auto_download_failures: SortedMap::new(),
        }
    }

    pub fn local_path(&self, f: &FileId) -> (r: Option<PathBuf>)
        ensures
            r == path_of(self@.files, *f),
    {
        match self.files.get(f) {
            Some(snapshot) => snapshot.local_path.clone(),
            None => None,
        }
    }

    /// Whether the download of `f` is complete.
    pub fn is_completed(&self, f: &FileId) -> (r: bool)
        ensures
            r == completed(self@.files, *f),
    {
        match self.files.get(f) {
            Some(snapshot) => snapshot.is_completed,
            None => false,
        }
    }
}

/// Where a file is on disk, if it is known.
pub open spec fn path_of(files: Map<FileId, FileSnapshot>, f: FileId) -> Option<PathBuf> {
    if files.contains_key(f) {
        files[f].local_path
    } else {
        None
    }
}

pub open spec fn completed(files: Map<FileId, FileSnapshot>, f: FileId) -> bool {
    files.contains_key(f) && files[f].is_completed
}

pub open spec fn priority(anchor_distance: int) -> i8 {
    if anchor_distance <= 5 {
        32
    } else if anchor_distance <= 20 {
        16
    } else {
        4
    }
}

/// Download priority by distance from the anchor: the user's viewport, what is
/// about to scroll into view, and the rest.
pub fn priority_for(anchor_distance: usize) -> (r: i8)
    ensures
        r == priority(anchor_distance as int),
{
    if anchor_distance <= 5 {
        32
    } else if anchor_distance <= 20 {
        16
    } else {
        4
    }
}

// --- automatic downloads ------------------------------------------------------

/// Whether `f` may still be asked for: not asked for before, not given up, and
/// neither downloading nor complete.
pub open spec fn wanted(m: MediaSpec, f: FileId) -> bool {
    &&& !m.requested.contains(f)
    &&& !(m.failures.contains_key(f) && m.failures[f] >= MAX_AUTO_DOWNLOAD_ATTEMPTS)
    &&& !(m.files.contains_key(f) && (m.files[f].is_completed || m.files[f].is_downloading))
}

pub open spec fn distance(i: int, anchor: int) -> int {
    if i >= anchor {
        i - anchor
    } else {
        anchor - i
    }
}

/// The photo of message `i`, if it is an incoming one near the anchor.
pub open spec fn near_photo(w: Seq<MessageSpec>, anchor: int, i: int) -> Option<FileId> {
    if !w[i].is_outgoing && distance(i, anchor) <= AUTO_DOWNLOAD_WINDOW_MESSAGES {
        match w[i].content {
            ContentSpec::Photo { file_id, .. } => Some(file_id),
            _ => None,
        }
    } else {
        None
    }
}

pub open spec fn download(f: FileId, priority: i8) -> EffectSpec {
    EffectSpec::Td(RequestSpec::DownloadFile { file_id: f, priority })
}

/// What the first `n` messages of the window cause to be requested.
pub open spec fn downloads(m: MediaSpec, w: Seq<MessageSpec>, anchor: int, n: nat) -> (
    MediaSpec,
    Seq<EffectSpec>,
)
    decreases n,
{
    if n == 0 {
        (m, no_effects())
    } else {
        let (m1, e1) = downloads(m, w, anchor, (n - 1) as nat);
        match near_photo(w, anchor, n - 1) {
            Some(f) => if e1.len() < MAX_AUTO_DOWNLOAD_REQUESTS_PER_TRIGGER && wanted(m1, f) {
                (
                    MediaSpec { requested: m1.requested.insert(f), ..m1 },
                    e1.push(download(f, priority(distance(n - 1, anchor)))),
                )
            } else {
                (m1, e1)
            },
            None => (m1, e1),
        }
    }
}

/// The index that the view is anchored at: the newest message, or the one that
/// the anchor names if it is loaded.
pub open spec fn anchor_index(c: ConversationSpec) -> Option<int> {
    match anchor_of(c.scroll) {
        None => if c.messages.len() > 0 {
            Some(c.messages.len() - 1)
        } else {
            None
        },
        Some(id) => index_of_id(c.messages, id),
    }
}

/// What a trigger does for `chat_id`.
pub open spec fn auto_downloaded(a: AppSpec, chat_id: ChatId) -> (AppSpec, Seq<EffectSpec>) {
    if !a.media.auto_download_photos || !a.conversations.contains_key(chat_id) {
        (a, no_effects())
    } else {
        let c = a.conversations[chat_id];
        match anchor_index(c) {
            None => (a, no_effects()),
            Some(anchor) => {
                let (m, e) = downloads(a.media, c.messages, anchor, c.messages.len());
                (AppSpec { media: m, ..a }, e)
            },
        }
    }
}

fn should_auto_request(media: &MediaState, file_id: FileId) -> (r: bool)
    ensures
        r == wanted(media@, file_id),
{
    if media.auto_download_requested.contains(&file_id) {
        return false;
    }
    if let Some(attempts) = media.auto_download_failures.get(&file_id) {
        if *attempts >= MAX_AUTO_DOWNLOAD_ATTEMPTS {
            return false;
        }
    }
    match media.files.get(&file_id) {
        Some(snapshot) => !(snapshot.is_completed || snapshot.is_downloading),
        None => true,
    }
}

fn request_photos(messages: &VecDeque<MessageView>, anchor: usize, media: &mut MediaState) -> (r:
    Vec<Effect>)
    ensures
        (final(media)@, views(r@)) == downloads(
            old(media)@,
            window(messages@),
            anchor as int,
            messages@.len(),
        ),
{
    let ghost w = window(messages@);
    let mut effects: Vec<Effect> = none();
    let mut i: usize = 0;
    while i < messages.len()
        invariant
            i <= messages@.len(),
            w == window(messages@),
            (media@, views(effects@)) == downloads(old(media)@, w, anchor as int, i as nat),
        decreases messages@.len() - i,
    {
        let msg: &MessageView = &messages[i];
        assert(w[i as int] == msg@);
        assert(views(effects@).len() == effects@.len());
        let gap: usize = if i >= anchor {
            i - anchor
        } else {
            anchor - i
        };
        if !msg.is_outgoing && gap <= AUTO_DOWNLOAD_WINDOW_MESSAGES {
            if let MessageContent::Photo { file_id, .. } = &msg.content {
                if effects.len() < MAX_AUTO_DOWNLOAD_REQUESTS_PER_TRIGGER && should_auto_request(
                    media,
                    *file_id,
                ) {
                    media.auto_download_requested.insert(*file_id);
                    let e = Effect::Td(
                        TdRequest::DownloadFile { file_id: *file_id, priority: priority_for(gap) },
                    );
                    proof {
                        views_push(effects@, e);
                    }
                    effects.push(e);
                }
            }
        }
        i = i + 1;
    }
    effects
}

/// Asks for the photos near `chat_id`'s scroll anchor. Nothing happens when
/// the setting is off, the chat is not tracked, or the anchor names a message
/// that is not loaded.
pub fn auto_download_photos(app: &mut AppState, chat_id: ChatId) -> (r: Vec<Effect>)
    ensures
        (final(app)@, views(r@)) == auto_downloaded(old(app)@, chat_id),
{
    if !app.media.auto_download_photos {
        return none();
    }
    let convo: &ConversationState = match app.conversations.get(&chat_id) {
        Some(convo) => convo,
        None => {
            return none();
        },
    };
    let anchor: Option<usize> = match convo.scroll {
        Scroll::Bottom => if convo.messages.len() > 0 {
            Some(convo.messages.len() - 1)
        } else {
            None
        },
        Scroll::At { message_id, .. } => index_of(&convo.messages, message_id),
        Scroll::AtTop { message_id } => index_of(&convo.messages, message_id),
    };
    match anchor {
        None => none(),
        Some(anchor_idx) => request_photos(&convo.messages, anchor_idx, &mut app.media),
    }
}

/// `f` after one more failure.
pub open spec fn failed(m: MediaSpec, f: FileId) -> MediaSpec {
    let before: u8 = if m.failures.contains_key(f) {
        m.failures[f]
    } else {
        0
    };
    let now: u8 = if before == u8::MAX {
        u8::MAX
    } else {
        (before + 1) as u8
    };
    MediaSpec {
        failures: m.failures.insert(f, now),
        requested: if now < MAX_AUTO_DOWNLOAD_ATTEMPTS {
            m.requested.remove(f)
        } else {
            m.requested
        },
        ..m
    }
}

/// A failure earns the file another attempt, unless it has had them all.
fn record_auto_download_failure(media: &mut MediaState, file_id: FileId)
    ensures
        final(media)@ == failed(old(media)@, file_id),
{
    let attempts: u8 = match media.auto_download_failures.get(&file_id) {
        Some(n) => n.saturating_add(1),
        None => 1,
    };
    media.auto_download_failures.insert(file_id, attempts);
    if attempts < MAX_AUTO_DOWNLOAD_ATTEMPTS {
        media.auto_download_requested.remove(&file_id);
    }
}

// --- the file table -------------------------------------------------------------

/// A selection re-derived after file `f` changed: only if the selected message
/// refers to it.
pub open spec fn rechipped(c: ConversationSpec, m: MediaSpec, f: FileId) -> ConversationSpec {
    match c.selection {
        Some(s) => match index_of_id(c.messages, s.message_id) {
            Some(i) => if c.messages[i].content.file() == Some(f) {
                let chips = chips_of(c.messages[i], m.files);
                ConversationSpec {
                    selection: Some(
                        SelectionSpec {
                            chips,
                            chip_cursor: if s.chip_cursor < chips.len() {
                                s.chip_cursor
                            } else if chips.len() == 0 {
                                0
                            } else {
                                (chips.len() - 1) as usize
                            },
                            ..s
                        },
                    ),
                    ..c
                }
            } else {
                c
            },
            None => c,
        },
        None => c,
    }
}

pub open spec fn all_rechipped(
    conversations: Map<ChatId, ConversationSpec>,
    m: MediaSpec,
    f: FileId,
) -> Map<ChatId, ConversationSpec> {
    conversations.map_values(|c: ConversationSpec| rechipped(c, m, f))
}

/// Whether the upload under `id` is of file `f`: the message says so.
pub open spec fn owns(a: AppSpec, id: MessageId, f: FileId) -> bool {
    &&& a.media.uploads.contains_key(id)
    &&& a.conversations.contains_key(a.media.uploads[id].chat_id)
    &&& {
        let w = a.conversations[a.media.uploads[id].chat_id].messages;
        index_of_id(w, id) matches Some(i) && w[i].content.file() == Some(f)
    }
}

pub open spec fn is_owner(a: AppSpec, f: FileId, id: MessageId) -> bool {
    &&& owns(a, id, f)
    &&& forall|other: MessageId| #[trigger] owns(a, other, f) ==> id.0 <= other.0
}

pub open spec fn progressed(p: UploadProgress, uploaded: u64) -> UploadProgress {
    UploadProgress {
        uploaded: if uploaded < p.total {
            uploaded
        } else {
            p.total
        },
        ..p
    }
}

/// The upload of file `f`, if one is tracked, has come to `uploaded` bytes.
pub open spec fn upload_advanced(a: AppSpec, f: FileId, uploaded: u64) -> AppSpec {
    if uploaded == 0 || !(exists|id: MessageId| owns(a, id, f)) {
        a
    } else {
        let id = choose|id: MessageId| is_owner(a, f, id);
        with_progress(a, id, uploaded)
    }
}

pub open spec fn with_progress(a: AppSpec, id: MessageId, uploaded: u64) -> AppSpec {
    if a.media.uploads.contains_key(id) {
        AppSpec {
            media: MediaSpec {
                uploads: a.media.uploads.insert(id, progressed(a.media.uploads[id], uploaded)),
                ..a.media
            },
            ..a
        }
    } else {
        a
    }
}

/// The state after TDLib reported on a file.
pub open spec fn with_file(a: AppSpec, snapshot: FileSnapshot) -> AppSpec {
    let a1 = AppSpec {
        media: MediaSpec { files: a.media.files.insert(snapshot.id, snapshot), ..a.media },
        ..a
    };
    let a2 = upload_advanced(a1, snapshot.id, snapshot.uploaded_size);
    AppSpec { conversations: all_rechipped(a2.conversations, a2.media, snapshot.id), ..a2 }
}

/// The state after an update was looked at for a file.
pub open spec fn file_pushed(a: AppSpec, upd: TdUpdate) -> AppSpec {
    match upd {
        TdUpdate::File(snapshot) => with_file(a, snapshot),
        _ => a,
    }
}

/// Takes in what TDLib pushes about a file.
pub fn handle_td(app: &mut AppState, upd: &TdUpdate) -> (r: Vec<Effect>)
    ensures
        final(app)@ == file_pushed(old(app)@, *upd),
        views(r@) == no_effects(),
{
    if let TdUpdate::File(snapshot) = upd {
        upsert_file(app, snapshot.clone());
    }
    none()
}

/// The state after the request to download `f` was answered.
pub open spec fn download_answered(
    a: AppSpec,
    f: FileId,
    outcome: Result<FileSnapshot, TdError>,
) -> AppSpec {
    match outcome {
        Ok(snapshot) => with_file(a, snapshot),
        Err(_) => {
            let files = if a.media.files.contains_key(f) {
                a.media.files.insert(
                    f,
                    FileSnapshot { is_downloading: false, ..a.media.files[f] },
                )
            } else {
                a.media.files
            };
            AppSpec { media: failed(MediaSpec { files, ..a.media }, f), ..a }
        },
    }
}

/// Takes in the answer to a `DownloadFile` request.
pub fn handle_td_result(
    app: &mut AppState,
    file_id: FileId,
    outcome: &Result<FileSnapshot, TdError>,
) -> (r: Vec<Effect>)
    ensures
        final(app)@ == download_answered(old(app)@, file_id, *outcome),
        views(r@) == no_effects(),
{
    match outcome {
        Ok(snapshot) => upsert_file(app, snapshot.clone()),
        Err(_) => {
            if let Some(existing) = app.media.files.get_mut(&file_id) {
                existing.is_downloading = false;
            }
            record_auto_download_failure(&mut app.media, file_id);
        },
    }
    none()
}

/// The request that stops a download.
pub fn cancel_effect(file_id: FileId) -> (r: Effect)
    ensures
        r@ == EffectSpec::Td(RequestSpec::CancelDownloadFile { file_id }),
{
    Effect::Td(TdRequest::CancelDownloadFile { file_id })
}

/// The state once an upload is tracked.
pub open spec fn upload_started(a: AppSpec, id: MessageId, chat_id: ChatId, total: u64) -> AppSpec {
    AppSpec {
        media: MediaSpec {
            uploads: a.media.uploads.insert(id, UploadProgress { chat_id, uploaded: 0, total }),
            ..a.media
        },
        ..a
    }
}

/// The state once an upload is no longer tracked.
pub open spec fn upload_completed(a: AppSpec, id: MessageId) -> AppSpec {
    AppSpec { media: MediaSpec { uploads: a.media.uploads.remove(id), ..a.media }, ..a }
}

/// Starts tracking an outgoing upload.
pub fn start_upload(app: &mut AppState, message_id: MessageId, chat_id: ChatId, total: u64)
    ensures
        final(app)@ == upload_started(old(app)@, message_id, chat_id, total),
{
    app.media.uploads.insert(message_id, UploadProgress { chat_id, uploaded: 0, total });
}

/// Updates a tracked upload, never beyond its total. Nothing happens if it is
/// not tracked: its completion may have come first.
pub fn progress_upload(app: &mut AppState, message_id: MessageId, uploaded: u64)
    ensures
        final(app)@ == with_progress(old(app)@, message_id, uploaded),
{
    if let Some(progress) = app.media.uploads.get_mut(&message_id) {
        progress.uploaded = if uploaded < progress.total {
            uploaded
        } else {
            progress.total
        };
    }
}

/// Stops tracking an upload.
pub fn complete_upload(app: &mut AppState, message_id: MessageId)
    ensures
        final(app)@ == upload_completed(old(app)@, message_id),
{
    app.media.uploads.remove(&message_id);
}

fn upsert_file(app: &mut AppState, snapshot: FileSnapshot)
    ensures
        final(app)@ == with_file(old(app)@, snapshot),
{
    let file_id = snapshot.id;
    let uploaded: u64 = snapshot.uploaded_size;
    app.media.files.insert(file_id, snapshot);
    advance_upload_for_file(app, file_id, uploaded);
    recompute_selection_chips_for_file(app, file_id);
}

fn is_upload_of(app: &AppState, message_id: &MessageId, file_id: FileId) -> (r: bool)
    ensures
        r == owns(app@, *message_id, file_id),
{
    match app.media.uploads.get(message_id) {
        None => false,
        Some(progress) => match app.conversations.get(&progress.chat_id) {
            None => false,
            Some(convo) => match index_of(&convo.messages, *message_id) {
                None => false,
                Some(idx) => match convo.messages[idx].content.file() {
                    Some(f) => f == file_id,
                    None => false,
                },
            },
        },
    }
}

/// Moves the progress of whichever upload is of `file_id`. TDLib reports by
/// file while uploads are tracked by message: the message's content joins the
/// two.
fn advance_upload_for_file(app: &mut AppState, file_id: FileId, uploaded: u64)
    ensures
        final(app)@ == upload_advanced(old(app)@, file_id, uploaded),
{
    if uploaded == 0 {
        return;
    }
    let n: usize = app.media.uploads.len();
    let ghost keys = in_rank_order(app@.media.uploads.dom());
    let mut i: usize = 0;
    while i < n
        invariant
            i <= n,
            n == keys.len(),
            app == old(app),
            keys == in_rank_order(app.media.uploads@.dom()),
            app@.media.uploads == app.media.uploads@,
            forall|j: int, k: int| 0 <= j < k < keys.len() ==> (#[trigger] keys[j]).0 < (#[trigger] keys[k]).0,
            keys.to_set() == app@.media.uploads.dom(),
            forall|j: int| 0 <= j < i ==> !owns(app@, #[trigger] keys[j], file_id),
            uploaded != 0,
        decreases n - i,
    {
        let id: MessageId = *app.media.uploads.key_at(i);
        if is_upload_of(app, &id, file_id) {
            proof {
                assert forall|other: MessageId| #[trigger] owns(
                    app@,
                    other,
                    file_id,
                ) implies id.0 <= other.0 by {
                    assert(keys.to_set().contains(other));
                    let k = choose|k: int| 0 <= k < keys.len() && keys[k] == other;
                    if k < i {
                        assert(!owns(app@, keys[k], file_id));
                    }
                }
                assert(is_owner(app@, file_id, id));
                let chosen = choose|q: MessageId| is_owner(app@, file_id, q);
                assert(chosen.0 <= id.0 && id.0 <= chosen.0);
            }
            progress_upload(app, id, uploaded);
            return;
        }
        i = i + 1;
    }
    proof {
        if exists|id: MessageId| owns(app@, id, file_id) {
            let id = choose|id: MessageId| owns(app@, id, file_id);
            assert(keys.to_set().contains(id));
            let k = choose|k: int| 0 <= k < keys.len() && keys[k] == id;
            assert(!owns(app@, keys[k], file_id));
        }
    }
}

fn rechip(convo: &mut ConversationState, media: &MediaState, file_id: FileId)
    ensures
        final(convo)@ == rechipped(old(convo)@, media@, file_id),
{
    let selected: MessageId = match &convo.selection {
        Some(sel) => sel.message_id,
        None => {
            return;
        },
    };
    let idx: usize = match index_of(&convo.messages, selected) {
        Some(idx) => idx,
        None => {
            return;
        },
    };
    let refers: bool = match convo.messages[idx].content.file() {
        Some(f) => f == file_id,
        None => false,
    };
    if !refers {
        return;
    }
    let chips = chips_for_message(&convo.messages[idx], media);
    if let Some(sel) = convo.selection.as_mut() {
        if sel.chip_cursor >= chips.len() {
            sel.chip_cursor = if chips.len() == 0 {
                0
            } else {
                chips.len() - 1
            };
        }
        sel.chips = chips;
    }
}

/// Re-derives the chip row of every selection whose message refers to
/// `file_id`, in whatever chat: a download can complete in the background.
fn recompute_selection_chips_for_file(app: &mut AppState, file_id: FileId)
    ensures
        final(app)@ == (AppSpec {
            conversations: all_rechipped(old(app)@.conversations, old(app)@.media, file_id),
            ..old(app)@
        }),
{
    let ghost before = app@.conversations;
    let ghost m = app@.media;
    let n: usize = app.conversations.len();
    let ghost keys = in_rank_order(app.conversations@.dom());
    let mut i: usize = 0;
    while i < n
        invariant
            i <= n,
            n == keys.len(),
            app@ == (AppSpec { conversations: app@.conversations, ..old(app)@ }),
            m == app@.media,
            app@.conversations.dom() == before.dom(),
            app.conversations@.dom() == before.dom(),
            keys == in_rank_order(app.conversations@.dom()),
            keys.to_set() == before.dom(),
            forall|j: int, k: int| 0 <= j < k < keys.len() ==> (#[trigger] keys[j]).0 < (#[trigger] keys[k]).0,
            forall|j: int|
                0 <= j < i ==> app@.conversations[#[trigger] keys[j]] == rechipped(
                    before[keys[j]],
                    m,
                    file_id,
                ),
            forall|j: int|
                i <= j < n ==> app@.conversations[#[trigger] keys[j]] == before[keys[j]],
        decreases n - i,
    {
        let id: ChatId = *app.conversations.key_at(i);
        let ghost convs = app.conversations@;
        if let Some(convo) = app.conversations.get_mut(&id) {
            rechip(convo, &app.media, file_id);
        }
        proof {
            models_insert(convs, id, app.conversations@[id]);
            assert(app.conversations@.dom() =~= before.dom());
            assert(app@.conversations.dom() =~= before.dom());
        }
        i = i + 1;
    }
    proof {
        assert forall|k: ChatId| before.contains_key(k) implies app@.conversations[k] == rechipped(
            before[k],
            m,
            file_id,
        ) by {
            assert(keys.to_set().contains(k));
            let j = choose|j: int| 0 <= j < keys.len() && keys[j] == k;
            assert(app@.conversations[keys[j]] == rechipped(before[keys[j]], m, file_id));
        }
        assert(app@.conversations =~= all_rechipped(before, m, file_id));
    }
}

// --- laws -------------------------------------------------------------------------

/// The file that an effect asks for, if it is a download.
pub open spec fn asked_for(e: EffectSpec) -> Option<FileId> {
    match e {
        EffectSpec::Td(RequestSpec::DownloadFile { file_id, .. }) => Some(file_id),
        _ => None,
    }
}

/// One trigger sends a bounded number of requests, each for a photo of an
/// incoming message near the anchor, none for a file that was asked for
/// before or twice; and it remembers every one.
pub proof fn a_trigger_is_no_storm(m: MediaSpec, w: Seq<MessageSpec>, anchor: int, n: nat)
    requires
        n <= w.len(),
    ensures
        ({
            let (m1, e) = downloads(m, w, anchor, n);
            &&& e.len() <= MAX_AUTO_DOWNLOAD_REQUESTS_PER_TRIGGER
            &&& forall|k: int|
                0 <= k < e.len() ==> (asked_for(#[trigger] e[k]) matches Some(f) && wanted(m, f)
                    && m1.requested.contains(f) && exists|i: int|
                    0 <= i < n && #[trigger] near_photo(w, anchor, i) == Some(f))
            &&& forall|j: int, k: int|
                0 <= j < k < e.len() ==> asked_for(#[trigger] e[j]) != asked_for(#[trigger] e[k])
            &&& m.requested.subset_of(m1.requested)
            &&& m1 == (MediaSpec { requested: m1.requested, ..m })
        }),
    decreases n,
{
    if n > 0 {
        a_trigger_is_no_storm(m, w, anchor, (n - 1) as nat);
        let (m0, e0) = downloads(m, w, anchor, (n - 1) as nat);
        let (m1, e1) = downloads(m, w, anchor, n);
        if let Some(f) = near_photo(w, anchor, n - 1) {
            if e0.len() < MAX_AUTO_DOWNLOAD_REQUESTS_PER_TRIGGER && wanted(m0, f) {
                let e = download(f, priority(distance(n - 1, anchor)));
                assert(e1 == e0.push(e));
                assert forall|k: int| 0 <= k < e1.len() implies (asked_for(#[trigger] e1[k]) matches Some(g)
                    && wanted(m, g) && m1.requested.contains(g) && exists|i: int|
                    0 <= i < n && #[trigger] near_photo(w, anchor, i) == Some(g)) by {
                    if k < e0.len() {
                        assert(e1[k] == e0[k]);
                        let g = asked_for(e0[k])->0;
                        let i = choose|i: int|
                            0 <= i < n - 1 && #[trigger] near_photo(w, anchor, i) == Some(g);
                        assert(near_photo(w, anchor, i) == Some(g));
                    } else {
                        assert(near_photo(w, anchor, n - 1) == Some(f));
                    }
                }
                assert forall|j: int, k: int| 0 <= j < k < e1.len() implies asked_for(
                    #[trigger] e1[j],
                ) != asked_for(#[trigger] e1[k]) by {
                    assert(e1[j] == e0[j]);
                    if k < e0.len() {
                        assert(e1[k] == e0[k]);
                    } else {
                        assert(m0.requested.contains(asked_for(e0[j])->0));
                    }
                }
            } else {
                assert forall|k: int| 0 <= k < e1.len() implies (asked_for(#[trigger] e1[k]) matches Some(g)
                    && wanted(m, g) && m1.requested.contains(g) && exists|i: int|
                    0 <= i < n && #[trigger] near_photo(w, anchor, i) == Some(g)) by {
                    let g = asked_for(e0[k])->0;
                    let i = choose|i: int|
                        0 <= i < n - 1 && #[trigger] near_photo(w, anchor, i) == Some(g);
                    assert(near_photo(w, anchor, i) == Some(g));
                }
            }
        } else {
            assert forall|k: int| 0 <= k < e1.len() implies (asked_for(#[trigger] e1[k]) matches Some(g)
                && wanted(m, g) && m1.requested.contains(g) && exists|i: int|
                0 <= i < n && #[trigger] near_photo(w, anchor, i) == Some(g)) by {
                let g = asked_for(e0[k])->0;
                let i = choose|i: int|
                    0 <= i < n - 1 && #[trigger] near_photo(w, anchor, i) == Some(g);
                assert(near_photo(w, anchor, i) == Some(g));
            }
        }
    }
}

/// A trigger that was not cut short leaves nothing for the next one to ask.
pub proof fn a_second_trigger_asks_for_nothing(
    m: MediaSpec,
    w: Seq<MessageSpec>,
    anchor: int,
    n: nat,
    k: nat,
)
    requires
        k <= n <= w.len(),
        downloads(m, w, anchor, n).1.len() < MAX_AUTO_DOWNLOAD_REQUESTS_PER_TRIGGER,
    ensures
        downloads(downloads(m, w, anchor, n).0, w, anchor, k) == (
            downloads(m, w, anchor, n).0,
            no_effects(),
        ),
    decreases k,
{
    if k > 0 {
        a_second_trigger_asks_for_nothing(m, w, anchor, n, (k - 1) as nat);
        if let Some(f) = near_photo(w, anchor, k - 1) {
            nothing_wanted_is_left(m, w, anchor, n, (k - 1) as nat, f);
        }
    }
}

pub proof fn nothing_wanted_is_left(
    m: MediaSpec,
    w: Seq<MessageSpec>,
    anchor: int,
    n: nat,
    i: nat,
    f: FileId,
)
    requires
        i < n <= w.len(),
        near_photo(w, anchor, i as int) == Some(f),
        downloads(m, w, anchor, n).1.len() < MAX_AUTO_DOWNLOAD_REQUESTS_PER_TRIGGER,
    ensures
        !wanted(downloads(m, w, anchor, n).0, f),
    decreases n,
{
    let (m0, e0) = downloads(m, w, anchor, (n - 1) as nat);
    if i < n - 1 {
        nothing_wanted_is_left(m, w, anchor, (n - 1) as nat, i, f);
    }
}

/// A file that has failed as often as it may is never asked for again, by any
/// number of further triggers and failures.
pub proof fn a_file_that_keeps_failing_is_left_alone(m: MediaSpec, f: FileId, g: FileId)
    requires
        m.failures.contains_key(f) && m.failures[f] >= MAX_AUTO_DOWNLOAD_ATTEMPTS,
    ensures
        !wanted(m, f),
        failed(m, g).failures.contains_key(f),
        failed(m, g).failures[f] >= MAX_AUTO_DOWNLOAD_ATTEMPTS,
{
}

/// One failure earns the file another attempt; the second does not.
pub proof fn failures_are_bounded(m: MediaSpec, f: FileId)
    requires
        !m.failures.contains_key(f),
        m.requested.contains(f),
    ensures
        !failed(m, f).requested.contains(f),
        !wanted(failed(failed(m, f), f), f),
{
}

/// Something that happens to the downloads of an app.
pub ghost enum DownloadStep {
    /// The photos of a chat are asked for.
    Trigger(ChatId),
    /// The request to download a file is answered.
    Answer(FileId, Result<FileSnapshot, TdError>),
    /// Anything else: all but what is remembered about the requests may change.
    Meanwhile(AppSpec),
}

/// The state after one step.
pub open spec fn stepped_once(a: AppSpec, step: DownloadStep) -> AppSpec {
    match step {
        DownloadStep::Trigger(chat_id) => auto_downloaded(a, chat_id).0,
        DownloadStep::Answer(f, outcome) => download_answered(a, f, outcome),
        DownloadStep::Meanwhile(b) => AppSpec {
            media: MediaSpec {
                requested: a.media.requested,
                failures: a.media.failures,
                ..b.media
            },
            ..b
        },
    }
}

/// The state after all of `steps`.
pub open spec fn after_steps(a: AppSpec, steps: Seq<DownloadStep>) -> AppSpec
    decreases steps.len(),
{
    if steps.len() == 0 {
        a
    } else {
        stepped_once(after_steps(a, steps.drop_last()), steps.last())
    }
}

/// What step `i` sends.
pub open spec fn sent_at(a: AppSpec, steps: Seq<DownloadStep>, i: int) -> Seq<EffectSpec> {
    match steps[i] {
        DownloadStep::Trigger(chat_id) => auto_downloaded(
            after_steps(a, steps.take(i)),
            chat_id,
        ).1,
        _ => no_effects(),
    }
}

/// Whether step `i` asks for `f`.
pub open spec fn asks_at(a: AppSpec, steps: Seq<DownloadStep>, i: int, f: FileId) -> bool {
    exists|k: int|
        0 <= k < sent_at(a, steps, i).len() && asked_for(#[trigger] sent_at(a, steps, i)[k])
            == Some(f)
}

/// Whether step `i` is a failure to download `f`.
pub open spec fn fails_at(steps: Seq<DownloadStep>, i: int, f: FileId) -> bool {
    steps[i] matches DownloadStep::Answer(g, Err(_)) && g == f
}

/// How often the download of `f` has failed.
pub open spec fn failure_count(m: MediaSpec, f: FileId) -> int {
    if m.failures.contains_key(f) {
        m.failures[f] as int
    } else {
        0
    }
}

/// Whether `f` is the photo of an incoming message near the anchor of a chat.
pub open spec fn is_photo_in_view(a: AppSpec, chat_id: ChatId, f: FileId) -> bool {
    &&& a.conversations.contains_key(chat_id)
    &&& anchor_index(a.conversations[chat_id]) matches Some(anchor) && exists|i: int|
        0 <= i < a.conversations[chat_id].messages.len() && #[trigger] near_photo(
            a.conversations[chat_id].messages,
            anchor,
            i,
        ) == Some(f)
}

proof fn a_trigger_remembers(a: AppSpec, chat_id: ChatId, f: FileId)
    ensures
        ({
            let (b, e) = auto_downloaded(a, chat_id);
            &&& e.len() <= MAX_AUTO_DOWNLOAD_REQUESTS_PER_TRIGGER
            &&& forall|j: int, k: int|
                0 <= j < k < e.len() ==> asked_for(#[trigger] e[j]) != asked_for(#[trigger] e[k])
            &&& forall|k: int|
                0 <= k < e.len() && asked_for(#[trigger] e[k]) == Some(f) ==> wanted(a.media, f)
                    && b.media.requested.contains(f)
            &&& forall|k: int|
                0 <= k < e.len() ==> (asked_for(#[trigger] e[k]) matches Some(g)
                    && is_photo_in_view(a, chat_id, g))
            &&& a.media.requested.contains(f) ==> b.media.requested.contains(f)
            &&& b.media.failures == a.media.failures
        }),
{
    if a.media.auto_download_photos && a.conversations.contains_key(chat_id) {
        let c = a.conversations[chat_id];
        if let Some(anchor) = anchor_index(c) {
            a_trigger_is_no_storm(a.media, c.messages, anchor, c.messages.len());
        }
    }
}

proof fn one_step(a: AppSpec, steps: Seq<DownloadStep>, i: int, f: FileId)
    requires
        0 <= i < steps.len(),
    ensures
        ({
            let before = after_steps(a, steps.take(i)).media;
            let after = after_steps(a, steps.take(i + 1)).media;
            &&& asks_at(a, steps, i, f) ==> wanted(before, f) && after.requested.contains(f)
            &&& before.requested.contains(f) && !fails_at(steps, i, f) ==> after.requested.contains(
                f,
            )
            &&& failure_count(after, f) == if fails_at(steps, i, f) && failure_count(before, f)
                < u8::MAX {
                failure_count(before, f) + 1
            } else {
                failure_count(before, f)
            }
        }),
{
    let before = after_steps(a, steps.take(i));
    assert(steps.take(i + 1).drop_last() =~= steps.take(i));
    assert(steps.take(i + 1).last() == steps[i]);
    match steps[i] {
        DownloadStep::Trigger(chat_id) => {
            a_trigger_remembers(before, chat_id, f);
        },
        DownloadStep::Answer(g, outcome) => {
            if let Ok(snapshot) = outcome {
                assert(with_file(before, snapshot).media.requested == before.media.requested);
                assert(with_file(before, snapshot).media.failures == before.media.failures);
            }
        },
        DownloadStep::Meanwhile(b) => {},
    }
}

proof fn a_request_is_remembered(
    a: AppSpec,
    steps: Seq<DownloadStep>,
    f: FileId,
    i: int,
    j: int,
)
    requires
        0 <= i <= j <= steps.len(),
        after_steps(a, steps.take(i)).media.requested.contains(f),
        forall|k: int| i <= k < j ==> !#[trigger] fails_at(steps, k, f),
    ensures
        after_steps(a, steps.take(j)).media.requested.contains(f),
    decreases j - i,
{
    if i < j {
        a_request_is_remembered(a, steps, f, i, j - 1);
        assert(!fails_at(steps, j - 1, f));
        one_step(a, steps, j - 1, f);
    }
}

proof fn failures_only_grow(a: AppSpec, steps: Seq<DownloadStep>, f: FileId, i: int, j: int)
    requires
        0 <= i <= j <= steps.len(),
    ensures
        0 <= failure_count(after_steps(a, steps.take(i)).media, f) <= failure_count(
            after_steps(a, steps.take(j)).media,
            f,
        ),
    decreases j - i,
{
    if i < j {
        failures_only_grow(a, steps, f, i, j - 1);
        one_step(a, steps, j - 1, f);
    }
}

/// However often the photos of however many chats are asked for, and whatever
/// else happens between: no trigger sends more than it may, each asks for photos
/// of incoming messages near the anchor and for none of them twice, and none
/// asks at all while automatic downloads are off.
pub proof fn no_trigger_is_a_storm(a: AppSpec, steps: Seq<DownloadStep>, i: int)
    requires
        0 <= i < steps.len(),
    ensures
        ({
            let e = sent_at(a, steps, i);
            &&& e.len() <= MAX_AUTO_DOWNLOAD_REQUESTS_PER_TRIGGER
            &&& forall|k: int|
                0 <= k < e.len() ==> (asked_for(#[trigger] e[k]) matches Some(f) && (
                steps[i] matches DownloadStep::Trigger(chat_id) && is_photo_in_view(
                    after_steps(a, steps.take(i)),
                    chat_id,
                    f,
                )))
            &&& forall|j: int, k: int|
                0 <= j < k < e.len() ==> asked_for(#[trigger] e[j]) != asked_for(#[trigger] e[k])
            &&& !after_steps(a, steps.take(i)).media.auto_download_photos ==> e == no_effects()
        }),
{
    if let DownloadStep::Trigger(chat_id) = steps[i] {
        a_trigger_remembers(after_steps(a, steps.take(i)), chat_id, FileId(0));
    }
}

/// A file is asked for again only after its download has failed since.
pub proof fn a_file_is_asked_for_once_per_failure(
    a: AppSpec,
    steps: Seq<DownloadStep>,
    f: FileId,
    i: int,
    j: int,
)
    requires
        0 <= i < j < steps.len(),
        asks_at(a, steps, i, f),
        asks_at(a, steps, j, f),
    ensures
        exists|k: int| i < k < j && #[trigger] fails_at(steps, k, f),
{
    if forall|k: int| i < k < j ==> !#[trigger] fails_at(steps, k, f) {
        one_step(a, steps, i, f);
        a_request_is_remembered(a, steps, f, i + 1, j);
        one_step(a, steps, j, f);
    }
}

/// A file whose download has failed twice is never asked for again.
pub proof fn the_second_failure_is_the_last(
    a: AppSpec,
    steps: Seq<DownloadStep>,
    f: FileId,
    first: int,
    second: int,
    i: int,
)
    requires
        0 <= first < second < i < steps.len(),
        fails_at(steps, first, f),
        fails_at(steps, second, f),
    ensures
        !asks_at(a, steps, i, f),
{
    failures_only_grow(a, steps, f, 0, first);
    one_step(a, steps, first, f);
    failures_only_grow(a, steps, f, first + 1, second);
    one_step(a, steps, second, f);
    failures_only_grow(a, steps, f, second + 1, i);
    one_step(a, steps, i, f);
}

/// Progress never exceeds the total.
pub proof fn progress_stays_within_the_total(p: UploadProgress, uploaded: u64)
    ensures
        progressed(p, uploaded).uploaded <= p.total,
        uploaded <= p.total ==> progressed(p, uploaded).uploaded == uploaded,
{
}

} // verus!
