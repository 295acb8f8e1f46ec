//! The whole application state.
use crate::action::Action;
use crate::collections::SortedMap;
use crate::effect::{no_effects, none, one, views, Effect, EffectSpec, TelemetryMode};
use crate::model::chat::ChatListId;
use crate::model::ids::ChatId;
use crate::model::key::{Key, KeyBindings};
use crate::model::time::Millis;
use crate::state::auth::{
    self, auth_key, AuthField, AuthSpec, AuthState, InputField, InputSpec,
};
use crate::state::chat_list::{ChatListSpec, ChatListState, ChatLoadPhase};
use crate::state::composer::{ComposerSpec, ComposerState};
use crate::state::consent::{self, consent_key, ConsentChoice, ConsentState};
use crate::state::conversation::{ConversationSpec, ConversationState};
use crate::state::focus::{Focus, FocusStack};
use crate::state::media::{fresh_media, MediaSpec, MediaState};
use crate::state::modal::ModalState;
use crate::state::palette::{PaletteSpec, PaletteState};
use crate::state::presence::{PresenceSpec, PresenceState};
use crate::state::search::{ChatSearchState, SearchSpec};
use crate::state::toasts::{ToastSpec, ToastState};
use crate::td::update::{AuthPhase, ConnectionPhase};
use vstd::prelude::*;

verus! {

#[derive(Debug, Clone, Copy, PartialEq, Eq, Structural)]
pub enum Screen {
    Consent,
    Auth,
    Main,
}

#[derive(Debug)]
pub struct AppState {
    pub screen: Screen,
    pub focus: FocusStack,
    pub connection: ConnectionPhase,
    pub consent: ConsentState,
    pub auth: AuthState,
    pub chat_list: ChatListState,
    pub conversations: SortedMap<ChatId, ConversationState>,
    pub open_chat: Option<ChatId>,
    pub composer: ComposerState,
    pub modal_ui: Option<ModalState>,
    pub palette: Option<PaletteState>,
    pub chat_search: Option<ChatSearchState>,
    pub toasts: ToastState,
    pub media: MediaState,
    pub presence: PresenceState,
    pub width: u16,
    pub height: u16,
    pub layout_breakpoint_cols: u16,
    pub theme_name: String,
    pub theme_generation: u64,
    pub bindings: KeyBindings,
    pub telemetry_mode: TelemetryMode,
    pub telemetry_salt: [u8; 32],
    pub now: Millis,
}

pub ghost struct AppSpec {
    pub screen: Screen,
    pub focus: Seq<Focus>,
    pub connection: ConnectionPhase,
    pub consent: ConsentState,
    pub auth: AuthSpec,
    pub chat_list: ChatListSpec,
    pub conversations: Map<ChatId, ConversationSpec>,
    pub open_chat: Option<ChatId>,
    pub composer: ComposerSpec,
    pub modal_ui: Option<ModalState>,
    pub palette: Option<PaletteSpec>,
    pub chat_search: Option<SearchSpec>,
    pub toasts: Seq<ToastSpec>,
    pub media: MediaSpec,
    pub presence: PresenceSpec,
    pub width: u16,
    pub height: u16,
    pub layout_breakpoint_cols: u16,
    pub theme_name: String,
    pub theme_generation: u64,
    pub bindings: KeyBindings,
    pub telemetry_mode: TelemetryMode,
    pub telemetry_salt: [u8; 32],
    pub now: Millis,
}

/// The models of all tracked conversations.
pub open spec fn conversation_models(m: Map<ChatId, ConversationState>) -> Map<
    ChatId,
    ConversationSpec,
> {
    m.map_values(|c: ConversationState| c@)
}

impl View for AppState {
    type V = AppSpec;

    open spec fn view(&self) -> AppSpec {
        AppSpec {
            screen: self.screen,
            focus: self.focus@,
            connection: self.connection,
            consent: self.consent,
            auth: self.auth@,
            chat_list: self.chat_list@,
            conversations: conversation_models(self.conversations@),
            open_chat: self.open_chat,
            composer: self.composer@,
            modal_ui: self.modal_ui,
            palette: match self.palette {
                Some(p) => Some(p@),
                None => None,
            },
            chat_search: match self.chat_search {
                Some(s) => Some(s@),
                None => None,
            },
            toasts: self.toasts@,
            media: self.media@,
            presence: self.presence@,
            width: self.width,
            height: self.height,
            layout_breakpoint_cols: self.layout_breakpoint_cols,
            theme_name: self.theme_name,
            theme_generation: self.theme_generation,
            bindings: self.bindings,
            telemetry_mode: self.telemetry_mode,
            telemetry_salt: self.telemetry_salt,
            now: self.now,
        }
    }
}

/// Whether the conversation pane is on screen: always beside the list in a
/// wide terminal, and in its place in a narrow one unless the list has focus.
pub open spec fn pane_visible(a: AppSpec) -> bool {
    a.width >= a.layout_breakpoint_cols || !(a.focus.last() is ChatList || a.focus.last() is ChatFilter)
}

pub fn conversation_pane_visible(app: &AppState) -> (r: bool)
    ensures
        r == pane_visible(app@),
{
    if app.width >= app.layout_breakpoint_cols {
        return true;
    }
    !matches!(app.focus.current(), Focus::ChatList | Focus::ChatFilter)
}

/// Storing a conversation stores its model.
pub proof fn models_insert(m: Map<ChatId, ConversationState>, id: ChatId, c: ConversationState)
    ensures
        conversation_models(m.insert(id, c)) == conversation_models(m).insert(id, c@),
{
    assert(conversation_models(m.insert(id, c)) =~= conversation_models(m).insert(id, c@));
}

impl AppSpec {
    /// The same state but for one conversation.
    pub open spec fn with_conversation(self, id: ChatId, c: ConversationSpec) -> AppSpec {
        AppSpec { conversations: self.conversations.insert(id, c), ..self }
    }
}

// --- the application ---------------------------------------------------------------------

/// What is known when the application starts.
#[derive(Debug)]
pub struct Boot {
    pub theme_name: String,
    pub bindings: KeyBindings,
    pub layout_breakpoint_cols: u16,
    pub telemetry_mode: TelemetryMode,
    pub telemetry_salt: [u8; 32],
    pub consent_needed: bool,
    pub has_credentials: bool,
    pub width: u16,
    pub height: u16,
    pub auto_download_photos: bool,
}

/// The state at the start. The consent screen comes before everything else if
/// consent was not given yet. The login starts with the credentials wizard if
/// there are no credentials.
pub open spec fn booted(boot: Boot) -> AppSpec {
    AppSpec {
        screen: if boot.consent_needed {
            Screen::Consent
        } else {
            Screen::Auth
        },
        focus: seq![Focus::ChatList],
        connection: ConnectionPhase::WaitingForNetwork,
        consent: ConsentState { selected: ConsentChoice::Enable, acknowledged: false },
        auth: AuthSpec {
            phase: AuthPhase::WaitTdlibParameters,
            method: None,
            api_id: InputSpec::blank(),
            api_hash: InputSpec::blank(),
            phone: InputSpec::blank(),
            code: InputSpec::blank(),
            password: InputSpec::blank(),
            active_field: if boot.has_credentials {
                AuthField::Phone
            } else {
                AuthField::ApiId
            },
            field_error: None,
            flood_wait_until: None,
            in_flight: false,
        },
        chat_list: ChatListSpec {
            chats: Map::empty(),
            orders: Map::empty(),
            active_list: ChatListId::Main,
            selected: None,
            filter: None,
            scroll_offset: 0,
            load: ChatLoadPhase::Idle,
        },
        conversations: Map::empty(),
        open_chat: None,
        composer: ComposerSpec {
            input: InputSpec::blank(),
            reply_to: None,
            editing: None,
            pending_send: None,
            pending_path_offer: None,
        },
        modal_ui: None,
        palette: None,
        chat_search: None,
        toasts: Seq::empty(),
        media: fresh_media(boot.auto_download_photos),
        presence: PresenceSpec { users: Map::empty(), typing: Map::empty() },
        width: boot.width,
        height: boot.height,
        layout_breakpoint_cols: boot.layout_breakpoint_cols,
        theme_name: boot.theme_name,
        theme_generation: 0,
        bindings: boot.bindings,
        telemetry_mode: boot.telemetry_mode,
        telemetry_salt: boot.telemetry_salt,
        now: Millis(0),
    }
}

/// What a key does before any pane sees it: the quit binding is reserved above
/// every screen, and the consent and login screens claim all the rest.
pub open spec fn screen_key(a: AppSpec, key: Key) -> (AppSpec, Seq<EffectSpec>) {
    if key == a.bindings.quit {
        (a, seq![EffectSpec::Quit])
    } else {
        match a.screen {
            Screen::Consent => consent_key(a, key),
            Screen::Auth => auth_key(a, key),
            Screen::Main => (a, no_effects()),
        }
    }
}

/// The application: its state, which is read freely and changed by actions.
#[derive(Debug)]
pub struct App {
    state: AppState,
}

impl View for App {
    type V = AppSpec;

    closed spec fn view(&self) -> AppSpec {
        self.state@
    }
}

impl App {
    pub fn new(boot: Boot) -> (r: App)
        ensures
            r@ == booted(boot),
            r@.auth.wf(),
    {
        let state = AppState {
            screen: if boot.consent_needed {
                Screen::Consent
            } else {
                Screen::Auth
            },
            focus: FocusStack::new(Focus::ChatList),
            connection: ConnectionPhase::WaitingForNetwork,
            consent: ConsentState { selected: ConsentChoice::Enable, acknowledged: false },
            auth: AuthState {
                phase: AuthPhase::WaitTdlibParameters,
                method: None,
                api_id: InputField::default(),
                api_hash: InputField::default(),
                phone: InputField::default(),
                code: InputField::default(),
                password: InputField::default(),
                active_field: if boot.has_credentials {
                    AuthField::Phone
                } else {
                    AuthField::ApiId
                },
                field_error: None,
                flood_wait_until: None,
                in_flight: false,
            },
            chat_list: ChatListState::default(),
            conversations: SortedMap::new(),
            open_chat: None,
            composer: ComposerState::default(),
            modal_ui: None,
            palette: None,
            chat_search: None,
            toasts: ToastState::default(),
            media: MediaState::new(boot.auto_download_photos),
            presence: PresenceState::default(),
            width: boot.width,
            height: boot.height,
            layout_breakpoint_cols: boot.layout_breakpoint_cols,
            theme_name: boot.theme_name,
            theme_generation: 0,
            bindings: boot.bindings,
            telemetry_mode: boot.telemetry_mode,
            telemetry_salt: boot.telemetry_salt,
            now: Millis(0),
        };
        proof {
            assert(state@.conversations =~= Map::empty());
        }
        App { state }
    }

    pub fn state(&self) -> (r: &AppState)
        ensures
            r@ == self@,
    {
        &self.state
    }

    /// Applies an action and returns the effects to perform. The panes of the
    /// main screen take their keys from the router.
    pub fn update(&mut self, action: Action) -> (r: Vec<Effect>)
        requires
            old(self)@.auth.wf(),
        ensures
            action matches Action::Key(key) ==> (final(self)@, views(r@)) == screen_key(
                old(self)@,
                key,
            ),
            final(self)@.auth.wf(),
    {
        match action {
            Action::Key(key) => {
                if key == self.state.bindings.quit {
                    return one(Effect::Quit);
                }
                if let Some(effects) = consent::handle_key(&mut self.state, key) {
                    return effects;
                }
                if let Some(effects) = auth::handle_key(&mut self.state, key) {
                    return effects;
                }
                none()
            },
        }
    }
}

/// Until consent is given or refused no key but `Enter` leaves the consent
/// screen, and none but it and the quit binding has an effect.
pub proof fn consent_blocks_every_other_screen(a: AppSpec, key: Key)
    requires
        a.screen == Screen::Consent,
        key != Key::Enter,
    ensures
        screen_key(a, key).0.screen == Screen::Consent,
        key != a.bindings.quit ==> screen_key(a, key).1 == no_effects(),
{
}

/// The quit binding quits from every screen and changes nothing.
pub proof fn the_quit_binding_is_reserved(a: AppSpec)
    ensures
        screen_key(a, a.bindings.quit) == (a, seq![EffectSpec::Quit]),
{
}

} // verus!
