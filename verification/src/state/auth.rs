//! Auth wizard: a projection of TDLib's authorization state.
//!
//! The credentials wizard is driven by `active_field`: while that is `ApiId`
//! or `ApiHash` the wizard is up, whatever the phase. It starts there if and
//! only if no credentials are configured. After it, the phase decides which
//! field is edited and what `Enter` submits.
//!
//! `WaitTdlibParameters` asks for nothing: the parameters hold secrets and
//! paths that only the surrounding application knows.
use crate::app::{AppSpec, AppState, Screen};
use crate::effect::{
    no_effects, none, one, request, views, ConfigPatch, ConfigSpec, Effect, EffectSpec,
};
use crate::model::chat::ChatListId;
use crate::model::key::Key;
use crate::model::time::Millis;
use crate::td::error::{ErrorSpec, TdError};
use crate::td::request::{RequestSpec, TdRequest};
use crate::td::update::{AuthPhase, TdUpdate};
use crate::text::{
    boundary_one_back, boundary_one_on, byte_len, byte_len_concat, byte_len_positive, chars_after,
    chars_before, ends_on_boundary, integer_i32, len_bytes, next_char_boundary, on_boundary,
    parse_i32, prev_char_boundary, split_at_boundary, split_of_concat,
};
use vstd::prelude::*;

verus! {

#[derive(Debug, Clone, Copy, PartialEq, Eq, Structural)]
pub enum LoginMethod {
    Phone,
    Qr,
}

// --- text fields ------------------------------------------------------------------

/// A text field.
#[derive(Debug, PartialEq, Eq)]
pub struct InputField {
    pub text: String,
    /// Byte offset into `text`, always between two characters.
    pub cursor: usize,
}

#[verifier::ext_equal]
pub ghost struct InputSpec {
    pub text: Seq<char>,
    pub cursor: int,
}

impl View for InputField {
    type V = InputSpec;

    open spec fn view(&self) -> InputSpec {
        InputSpec { text: self.text@, cursor: self.cursor as int }
    }
}

impl InputSpec {
    /// The cursor stands between two characters.
    pub open spec fn wf(self) -> bool {
        on_boundary(self.text, self.cursor)
    }

    /// What stands left of the cursor.
    pub open spec fn left(self) -> Seq<char> {
        chars_before(self.text, self.cursor)
    }

    /// What stands right of the cursor.
    pub open spec fn right(self) -> Seq<char> {
        chars_after(self.text, self.cursor)
    }

    /// The field with `l` left of the cursor and `r` right of it.
    pub open spec fn at(l: Seq<char>, r: Seq<char>) -> InputSpec {
        InputSpec { text: l + r, cursor: byte_len(l) as int }
    }

    pub open spec fn blank() -> InputSpec {
        InputSpec { text: Seq::empty(), cursor: 0 }
    }

    pub open spec fn typed(self, c: char) -> InputSpec {
        InputSpec::at(self.left().push(c), self.right())
    }

    pub open spec fn backspaced(self) -> InputSpec {
        if self.left().len() == 0 {
            self
        } else {
            InputSpec::at(self.left().drop_last(), self.right())
        }
    }

    pub open spec fn deleted(self) -> InputSpec {
        if self.right().len() == 0 {
            self
        } else {
            InputSpec::at(self.left(), self.right().drop_first())
        }
    }

    pub open spec fn moved_left(self) -> InputSpec {
        if self.left().len() == 0 {
            self
        } else {
            InputSpec::at(self.left().drop_last(), seq![self.left().last()] + self.right())
        }
    }

    pub open spec fn moved_right(self) -> InputSpec {
        if self.right().len() == 0 {
            self
        } else {
            InputSpec::at(self.left().push(self.right()[0]), self.right().drop_first())
        }
    }

    pub open spec fn at_start(self) -> InputSpec {
        InputSpec { cursor: 0, ..self }
    }

    pub open spec fn at_end(self) -> InputSpec {
        InputSpec { cursor: byte_len(self.text) as int, ..self }
    }
}

/// A field that is built from two sides has those sides.
pub proof fn sides_of_at(l: Seq<char>, r: Seq<char>)
    ensures
        InputSpec::at(l, r).wf(),
        InputSpec::at(l, r).left() == l,
        InputSpec::at(l, r).right() == r,
{
    split_of_concat(l, r);
}

/// A well-formed field is its two sides.
pub proof fn field_is_its_sides(f: InputSpec)
    requires
        f.wf(),
    ensures
        f == InputSpec::at(f.left(), f.right()),
{
    split_at_boundary(f.text, f.cursor);
    assert(f =~= InputSpec::at(f.left(), f.right()));
}

impl Default for InputField {
    fn default() -> (r: InputField)
        ensures
            r@ == InputSpec::blank(),
            r@.wf(),
    {
        let r = InputField { text: String::new(), cursor: 0 };
        proof {
            ends_on_boundary(r.text@);
            assert(r@ =~= InputSpec::blank());
        }
        r
    }
}

impl Clone for InputField {
    fn clone(&self) -> (r: InputField)
        ensures
            r == *self,
    {
        InputField { text: self.text.clone(), cursor: self.cursor }
    }
}

impl InputField {
    /// Inserts `c` at the cursor.
    pub fn insert_char(&mut self, c: char)
        requires
            old(self)@.wf(),
        ensures
            final(self)@ == old(self)@.typed(c),
            final(self)@.wf(),
    {
        proof {
            split_at_boundary(self.text@, self.cursor as int);
        }
        let ghost l = self@.left();
        let ghost r = self@.right();
        let after: usize = len_bytes(self.text.as_str()) - self.cursor;
        self.text.insert(self.cursor, c);
        proof {
            byte_len_concat(l.push(c), r);
            sides_of_at(l.push(c), r);
        }
        self.cursor = len_bytes(self.text.as_str()) - after;
    }

    /// Takes out the character left of the cursor.
    pub fn backspace(&mut self)
        requires
            old(self)@.wf(),
        ensures
            final(self)@ == old(self)@.backspaced(),
            final(self)@.wf(),
    {
        proof {
            split_at_boundary(self.text@, self.cursor as int);
            byte_len_positive(self@.left());
        }
        if self.cursor > 0 {
            let prev: usize = prev_char_boundary(self.text.as_str(), self.cursor);
            proof {
                boundary_one_back(self.text@, self.cursor as int, prev as int);
                split_at_boundary(self.text@, prev as int);
                let l = self@.left();
                let r = self@.right();
                assert((seq![l.last()] + r).drop_first() =~= r);
                sides_of_at(l.drop_last(), r);
            }
            let _ = self.text.remove(prev);
            self.cursor = prev;
        }
    }

    /// Takes out the character right of the cursor.
    pub fn delete(&mut self)
        requires
            old(self)@.wf(),
        ensures
            final(self)@ == old(self)@.deleted(),
            final(self)@.wf(),
    {
        proof {
            split_at_boundary(self.text@, self.cursor as int);
            byte_len_positive(self@.right());
            sides_of_at(self@.left(), self@.right().drop_first());
        }
        if self.cursor < len_bytes(self.text.as_str()) {
            let _ = self.text.remove(self.cursor);
        }
    }

    pub fn move_left(&mut self)
        requires
            old(self)@.wf(),
        ensures
            final(self)@ == old(self)@.moved_left(),
            final(self)@.wf(),
    {
        proof {
            split_at_boundary(self.text@, self.cursor as int);
            byte_len_positive(self@.left());
        }
        if self.cursor > 0 {
            let prev: usize = prev_char_boundary(self.text.as_str(), self.cursor);
            proof {
                boundary_one_back(self.text@, self.cursor as int, prev as int);
                split_at_boundary(self.text@, prev as int);
            }
            self.cursor = prev;
        }
    }

    pub fn move_right(&mut self)
        requires
            old(self)@.wf(),
        ensures
            final(self)@ == old(self)@.moved_right(),
            final(self)@.wf(),
    {
        proof {
            split_at_boundary(self.text@, self.cursor as int);
            byte_len_positive(self@.right());
        }
        if self.cursor < len_bytes(self.text.as_str()) {
            let next: usize = next_char_boundary(self.text.as_str(), self.cursor);
            proof {
                boundary_one_on(self.text@, self.cursor as int, next as int);
                split_at_boundary(self.text@, next as int);
            }
            self.cursor = next;
        }
    }

    pub fn home(&mut self)
        ensures
            final(self)@ == old(self)@.at_start(),
            final(self)@.wf(),
    {
        proof {
            ends_on_boundary(self.text@);
        }
        self.cursor = 0;
    }

    pub fn end(&mut self)
        ensures
            final(self)@ == old(self)@.at_end(),
            final(self)@.wf(),
    {
        proof {
            ends_on_boundary(self.text@);
        }
        self.cursor = len_bytes(self.text.as_str());
    }
}

/// A single-line edit, or `None` if the key is none.
pub open spec fn edited(f: InputSpec, key: Key) -> Option<InputSpec> {
    match key {
        Key::Char(c) => Some(f.typed(c)),
        Key::Backspace => Some(f.backspaced()),
        Key::Delete => Some(f.deleted()),
        Key::Left => Some(f.moved_left()),
        Key::Right => Some(f.moved_right()),
        Key::Home => Some(f.at_start()),
        Key::End => Some(f.at_end()),
        _ => None,
    }
}

pub open spec fn after_edit(f: InputSpec, key: Key) -> InputSpec {
    match edited(f, key) {
        Some(g) => g,
        None => f,
    }
}

/// Single-line text editing, shared by every field. Tells whether the key was
/// an edit.
pub fn edit_field(field: &mut InputField, key: Key) -> (r: bool)
    requires
        old(field)@.wf(),
    ensures
        r == edited(old(field)@, key) is Some,
        final(field)@ == after_edit(old(field)@, key),
        final(field)@.wf(),
{
    match key {
        Key::Char(c) => {
            field.insert_char(c);
            true
        },
        Key::Backspace => {
            field.backspace();
            true
        },
        Key::Delete => {
            field.delete();
            true
        },
        Key::Left => {
            field.move_left();
            true
        },
        Key::Right => {
            field.move_right();
            true
        },
        Key::Home => {
            field.home();
            true
        },
        Key::End => {
            field.end();
            true
        },
        _ => false,
    }
}

// --- the wizard ---------------------------------------------------------------------

#[derive(Debug, Clone, Copy, PartialEq, Eq, Structural)]
pub enum AuthField {
    ApiId,
    ApiHash,
    Phone,
    Code,
    Password,
}

#[derive(Debug, Clone, PartialEq)]
pub struct FieldError {
    pub field: AuthField,
    pub error: TdError,
}

/// A projection of TDLib's authorization state, never a second machine beside
/// it.
#[derive(Debug, Clone, PartialEq)]
pub struct AuthState {
    pub phase: AuthPhase,
    pub method: Option<LoginMethod>,
    pub api_id: InputField,
    pub api_hash: InputField,
    pub phone: InputField,
    pub code: InputField,
    pub password: InputField,
    pub active_field: AuthField,
    pub field_error: Option<FieldError>,
    /// When the wait that TDLib asked for ends.
    pub flood_wait_until: Option<Millis>,
    pub in_flight: bool,
}

pub ghost struct FieldErrorSpec {
    pub field: AuthField,
    pub error: ErrorSpec,
}

pub ghost struct AuthSpec {
    pub phase: AuthPhase,
    pub method: Option<LoginMethod>,
    pub api_id: InputSpec,
    pub api_hash: InputSpec,
    pub phone: InputSpec,
    pub code: InputSpec,
    pub password: InputSpec,
    pub active_field: AuthField,
    pub field_error: Option<FieldErrorSpec>,
    pub flood_wait_until: Option<Millis>,
    pub in_flight: bool,
}

impl View for AuthState {
    type V = AuthSpec;

    open spec fn view(&self) -> AuthSpec {
        AuthSpec {
            phase: self.phase,
            method: self.method,
            api_id: self.api_id@,
            api_hash: self.api_hash@,
            phone: self.phone@,
            code: self.code@,
            password: self.password@,
            active_field: self.active_field,
            field_error: match self.field_error {
                Some(e) => Some(FieldErrorSpec { field: e.field, error: e.error@ }),
                None => None,
            },
            flood_wait_until: self.flood_wait_until,
            in_flight: self.in_flight,
        }
    }
}

impl AuthSpec {
    /// Every cursor stands between two characters.
    pub open spec fn wf(self) -> bool {
        &&& self.api_id.wf()
        &&& self.api_hash.wf()
        &&& self.phone.wf()
        &&& self.code.wf()
        &&& self.password.wf()
    }

    pub open spec fn field(self, field: AuthField) -> InputSpec {
        match field {
            AuthField::ApiId => self.api_id,
            AuthField::ApiHash => self.api_hash,
            AuthField::Phone => self.phone,
            AuthField::Code => self.code,
            AuthField::Password => self.password,
        }
    }

    pub open spec fn with_field(self, field: AuthField, f: InputSpec) -> AuthSpec {
        match field {
            AuthField::ApiId => AuthSpec { api_id: f, ..self },
            AuthField::ApiHash => AuthSpec { api_hash: f, ..self },
            AuthField::Phone => AuthSpec { phone: f, ..self },
            AuthField::Code => AuthSpec { code: f, ..self },
            AuthField::Password => AuthSpec { password: f, ..self },
        }
    }

    pub open spec fn edited(self, field: AuthField, key: Key) -> AuthSpec {
        self.with_field(field, after_edit(self.field(field), key))
    }

    /// The credentials wizard is up.
    pub open spec fn in_wizard(self) -> bool {
        self.active_field == AuthField::ApiId || self.active_field == AuthField::ApiHash
    }
}

pub open spec fn with_auth(a: AppSpec, auth: AuthSpec) -> AppSpec {
    AppSpec { auth, ..a }
}

/// What an authorization state that TDLib reports does.
pub open spec fn phase_reached(a: AppSpec, phase: AuthPhase) -> (AppSpec, Seq<EffectSpec>) {
    let auth = AuthSpec {
        phase,
        in_flight: false,
        field_error: None,
        active_field: match phase {
            AuthPhase::WaitCode { .. } => AuthField::Code,
            AuthPhase::WaitPassword { .. } => AuthField::Password,
            _ => a.auth.active_field,
        },
        ..a.auth
    };
    if phase is Ready {
        (
            AppSpec { screen: Screen::Main, auth, ..a },
            seq![
                EffectSpec::Td(RequestSpec::LoadChats { list: ChatListId::Main, limit: 200 }),
            ],
        )
    } else {
        (with_auth(a, auth), no_effects())
    }
}

/// Projects an authorization update. Whatever was submitted is no longer in
/// flight, and an error belonged to the phase that was left.
pub fn handle_td(app: &mut AppState, upd: &TdUpdate) -> (r: Vec<Effect>)
    ensures
        match *upd {
            TdUpdate::Auth(phase) => (final(app)@, views(r@)) == phase_reached(old(app)@, phase),
            _ => final(app)@ == old(app)@ && views(r@) == no_effects(),
        },
{
    let phase: &AuthPhase = match upd {
        TdUpdate::Auth(phase) => phase,
        _ => {
            return none();
        },
    };
    app.auth.in_flight = false;
    app.auth.field_error = None;
    app.auth.phase = phase.clone();
    match phase {
        AuthPhase::WaitCode { .. } => {
            app.auth.active_field = AuthField::Code;
            none()
        },
        AuthPhase::WaitPassword { .. } => {
            app.auth.active_field = AuthField::Password;
            none()
        },
        AuthPhase::Ready => {
            app.screen = Screen::Main;
            request(TdRequest::LoadChats { list: ChatListId::Main, limit: 200 })
        },
        _ => none(),
    }
}

/// Nothing may be submitted: something is in flight, or TDLib asked to wait.
pub open spec fn blocked(a: AppSpec) -> bool {
    a.auth.in_flight || (a.auth.flood_wait_until matches Some(until) && until.0 > a.now.0)
}

fn is_submission_blocked(app: &AppState) -> (r: bool)
    ensures
        r == blocked(app@),
{
    if app.auth.in_flight {
        return true;
    }
    match app.auth.flood_wait_until {
        Some(until) => until.0 > app.now.0,
        None => false,
    }
}

pub open spec fn credentials_error() -> FieldErrorSpec {
    FieldErrorSpec {
        field: AuthField::ApiId,
        error: ErrorSpec::Other {
            code: 0,
            message: "api_id must be a number and api_hash must not be empty"@,
        },
    }
}

/// The credentials are saved if the id is a number and the hash is not empty.
pub open spec fn credentials_submitted(a: AppSpec) -> (AppSpec, Seq<EffectSpec>) {
    if blocked(a) {
        (a, no_effects())
    } else {
        match integer_i32(a.auth.api_id.text) {
            Some(api_id) if a.auth.api_hash.text.len() > 0 => (
                with_auth(
                    a,
                    AuthSpec { field_error: None, active_field: AuthField::Phone, ..a.auth },
                ),
                seq![
                    EffectSpec::SaveConfig(
                        ConfigSpec::Credentials { api_id, api_hash: a.auth.api_hash.text },
                    ),
                ],
            ),
            _ => (
                with_auth(a, AuthSpec { field_error: Some(credentials_error()), ..a.auth }),
                no_effects(),
            ),
        }
    }
}

fn submit_credentials(app: &mut AppState) -> (r: Vec<Effect>)
    ensures
        (final(app)@, views(r@)) == credentials_submitted(old(app)@),
{
    if is_submission_blocked(app) {
        return none();
    }
    let parsed: Option<i32> = parse_i32(app.auth.api_id.text.as_str());
    if let Some(api_id) = parsed {
        if !app.auth.api_hash.text.as_str().is_empty() {
            app.auth.field_error = None;
            app.auth.active_field = AuthField::Phone;
            let api_hash = app.auth.api_hash.text.clone();
            return one(Effect::SaveConfig(ConfigPatch::Credentials { api_id, api_hash }));
        }
    }
    app.auth.field_error = Some(
        FieldError {
            field: AuthField::ApiId,
            error: TdError::Other {
                code: 0,
                message: "api_id must be a number and api_hash must not be empty".to_owned(),
            },
        },
    );
    none()
}

/// A key in the credentials wizard: `Enter` on the first field moves on, on
/// the second it submits.
pub open spec fn wizard_key(a: AppSpec, key: Key) -> (AppSpec, Seq<EffectSpec>) {
    let first = a.auth.active_field == AuthField::ApiId;
    let at = |f: AuthField| with_auth(a, AuthSpec { active_field: f, ..a.auth });
    if first && (key == Key::Tab || key == Key::Down || key == Key::Enter) {
        (at(AuthField::ApiHash), no_effects())
    } else if a.auth.active_field == AuthField::ApiHash && (key == Key::BackTab || key == Key::Up) {
        (at(AuthField::ApiId), no_effects())
    } else if key == Key::Enter {
        credentials_submitted(a)
    } else {
        (with_auth(a, a.auth.edited(a.auth.active_field, key)), no_effects())
    }
}

fn edit(app: &mut AppState, field: AuthField, key: Key)
    requires
        old(app)@.auth.wf(),
    ensures
        final(app)@ == with_auth(old(app)@, old(app)@.auth.edited(field, key)),
        final(app)@.auth.wf(),
{
    let _ = match field {
        AuthField::ApiId => edit_field(&mut app.auth.api_id, key),
        AuthField::ApiHash => edit_field(&mut app.auth.api_hash, key),
        AuthField::Phone => edit_field(&mut app.auth.phone, key),
        AuthField::Code => edit_field(&mut app.auth.code, key),
        AuthField::Password => edit_field(&mut app.auth.password, key),
    };
}

fn handle_credentials_key(app: &mut AppState, key: Key) -> (r: Vec<Effect>)
    requires
        old(app)@.auth.wf(),
    ensures
        (final(app)@, views(r@)) == wizard_key(old(app)@, key),
        final(app)@.auth.wf(),
{
    let first: bool = app.auth.active_field == AuthField::ApiId;
    let second: bool = app.auth.active_field == AuthField::ApiHash;
    if first && matches!(key, Key::Tab | Key::Down | Key::Enter) {
        app.auth.active_field = AuthField::ApiHash;
        none()
    } else if second && matches!(key, Key::BackTab | Key::Up) {
        app.auth.active_field = AuthField::ApiId;
        none()
    } else if key == Key::Enter {
        submit_credentials(app)
    } else {
        let field = app.auth.active_field;
        edit(app, field, key);
        none()
    }
}

pub open spec fn with_method(a: AppSpec, m: LoginMethod) -> AppSpec {
    with_auth(a, AuthSpec { method: Some(m), ..a.auth })
}

pub open spec fn qr_requested(a: AppSpec) -> (AppSpec, Seq<EffectSpec>) {
    if blocked(a) {
        (a, no_effects())
    } else {
        (
            with_auth(a, AuthSpec { in_flight: true, ..a.auth }),
            seq![EffectSpec::Td(RequestSpec::RequestQrCodeAuthentication)],
        )
    }
}

fn request_qr_auth(app: &mut AppState) -> (r: Vec<Effect>)
    ensures
        (final(app)@, views(r@)) == qr_requested(old(app)@),
{
    if is_submission_blocked(app) {
        return none();
    }
    app.auth.in_flight = true;
    request(TdRequest::RequestQrCodeAuthentication)
}

/// A key while no login method is picked: `Enter` has nothing to confirm.
pub open spec fn choice_key(a: AppSpec, key: Key) -> AppSpec {
    match key {
        Key::Up | Key::Down | Key::Char('p') => with_method(a, LoginMethod::Phone),
        Key::Char('q') => with_method(a, LoginMethod::Qr),
        _ => a,
    }
}

fn handle_method_choice_key(app: &mut AppState, key: Key) -> (r: Vec<Effect>)
    requires
        old(app)@.auth.method is None,
    ensures
        final(app)@ == choice_key(old(app)@, key),
        views(r@) == no_effects(),
{
    match key {
        Key::Up | Key::Down | Key::Char('p') => {
            app.auth.method = Some(LoginMethod::Phone);
        },
        Key::Char('q') => {
            app.auth.method = Some(LoginMethod::Qr);
        },
        _ => {},
    }
    none()
}

/// A key while the QR login is picked but not confirmed: `Enter` fires the
/// request, up and down go back to the phone.
pub open spec fn qr_key(a: AppSpec, key: Key) -> (AppSpec, Seq<EffectSpec>) {
    match key {
        Key::Up | Key::Down | Key::Char('p') => (
            with_method(a, LoginMethod::Phone),
            no_effects(),
        ),
        Key::Enter => qr_requested(a),
        _ => (a, no_effects()),
    }
}

fn handle_qr_armed_key(app: &mut AppState, key: Key) -> (r: Vec<Effect>)
    ensures
        (final(app)@, views(r@)) == qr_key(old(app)@, key),
{
    match key {
        Key::Up | Key::Down | Key::Char('p') => {
            app.auth.method = Some(LoginMethod::Phone);
            none()
        },
        Key::Enter => request_qr_auth(app),
        _ => none(),
    }
}

/// The request that submits a field. The credentials are not submitted to
/// TDLib.
pub open spec fn submission(auth: AuthSpec, field: AuthField) -> Option<RequestSpec> {
    match field {
        AuthField::Phone => Some(
            RequestSpec::SetAuthenticationPhoneNumber { phone: auth.phone.text },
        ),
        AuthField::Code => Some(RequestSpec::CheckAuthenticationCode { code: auth.code.text }),
        AuthField::Password => Some(
            RequestSpec::CheckAuthenticationPassword { password: auth.password.text },
        ),
        _ => None,
    }
}

/// `Enter` submits the field, anything else edits it.
pub open spec fn field_key(a: AppSpec, key: Key, field: AuthField) -> (AppSpec, Seq<EffectSpec>) {
    if key == Key::Enter {
        match submission(a.auth, field) {
            Some(req) if !blocked(a) => (
                with_auth(a, AuthSpec { in_flight: true, field_error: None, ..a.auth }),
                seq![EffectSpec::Td(req)],
            ),
            _ => (a, no_effects()),
        }
    } else {
        (with_auth(a, a.auth.edited(field, key)), no_effects())
    }
}

fn submit_field(app: &mut AppState, field: AuthField) -> (r: Vec<Effect>)
    ensures
        (final(app)@, views(r@)) == field_key(old(app)@, Key::Enter, field),
{
    if is_submission_blocked(app) {
        return none();
    }
    let req: TdRequest = match field {
        AuthField::Phone => TdRequest::SetAuthenticationPhoneNumber {
            phone: app.auth.phone.text.clone(),
        },
        AuthField::Code => TdRequest::CheckAuthenticationCode { code: app.auth.code.text.clone() },
        AuthField::Password => TdRequest::CheckAuthenticationPassword {
            password: app.auth.password.text.clone(),
        },
        AuthField::ApiId | AuthField::ApiHash => {
            return none();
        },
    };
    app.auth.in_flight = true;
    app.auth.field_error = None;
    request(req)
}

fn handle_submit_field_key(app: &mut AppState, key: Key, field: AuthField) -> (r: Vec<Effect>)
    requires
        old(app)@.auth.wf(),
    ensures
        (final(app)@, views(r@)) == field_key(old(app)@, key, field),
        final(app)@.auth.wf(),
{
    match key {
        Key::Enter => submit_field(app, field),
        _ => {
            edit(app, field, key);
            none()
        },
    }
}

/// What a key does on the auth screen.
pub open spec fn auth_key(a: AppSpec, key: Key) -> (AppSpec, Seq<EffectSpec>) {
    if a.auth.in_wizard() {
        wizard_key(a, key)
    } else {
        match a.auth.phase {
            AuthPhase::WaitPhoneNumber => match a.auth.method {
                None => (choice_key(a, key), no_effects()),
                Some(LoginMethod::Qr) => qr_key(a, key),
                Some(LoginMethod::Phone) => field_key(a, key, AuthField::Phone),
            },
            AuthPhase::WaitCode { .. } => field_key(a, key, AuthField::Code),
            AuthPhase::WaitPassword { .. } => field_key(a, key, AuthField::Password),
            _ => (a, no_effects()),
        }
    }
}

/// Routes a key while the auth screen is up, which claims them all.
pub fn handle_key(app: &mut AppState, key: Key) -> (r: Option<Vec<Effect>>)
    requires
        old(app)@.auth.wf(),
    ensures
        if old(app)@.screen == Screen::Auth {
            r matches Some(e) && (final(app)@, views(e@)) == auth_key(old(app)@, key)
        } else {
            r is None && final(app)@ == old(app)@
        },
        final(app)@.auth.wf(),
{
    if app.screen != Screen::Auth {
        return None;
    }
    Some(route_auth_key(app, key))
}

fn route_auth_key(app: &mut AppState, key: Key) -> (r: Vec<Effect>)
    requires
        old(app)@.auth.wf(),
    ensures
        (final(app)@, views(r@)) == auth_key(old(app)@, key),
        final(app)@.auth.wf(),
{
    if matches!(app.auth.active_field, AuthField::ApiId | AuthField::ApiHash) {
        return handle_credentials_key(app, key);
    }
    let field: AuthField = match &app.auth.phase {
        AuthPhase::WaitPhoneNumber => match app.auth.method {
            None => {
                return handle_method_choice_key(app, key);
            },
            Some(LoginMethod::Qr) => {
                return handle_qr_armed_key(app, key);
            },
            Some(LoginMethod::Phone) => AuthField::Phone,
        },
        AuthPhase::WaitCode { .. } => AuthField::Code,
        AuthPhase::WaitPassword { .. } => AuthField::Password,
        _ => {
            return none();
        },
    };
    handle_submit_field_key(app, key, field)
}

/// The state after a submission was answered. A phase change, if there is one,
/// comes by itself.
pub open spec fn answered(a: AppSpec, outcome: Result<(), TdError>) -> AppSpec {
    let idle = AuthSpec { in_flight: false, ..a.auth };
    match outcome {
        Ok(_) => with_auth(a, idle),
        Err(TdError::FloodWait { seconds }) => with_auth(
            a,
            AuthSpec {
                flood_wait_until: Some(a.now.plus((seconds * 1_000) as u64)),
                ..idle
            },
        ),
        Err(e) => with_auth(
            a,
            AuthSpec {
                field_error: Some(FieldErrorSpec { field: a.auth.active_field, error: e@ }),
                ..idle
            },
        ),
    }
}

/// Takes in the answer to a submission: a wait becomes a countdown, any other
/// error is shown at the active field.
pub fn handle_td_result(app: &mut AppState, outcome: &Result<(), TdError>) -> (r: Vec<Effect>)
    ensures
        final(app)@ == answered(old(app)@, *outcome),
        views(r@) == no_effects(),
{
    app.auth.in_flight = false;
    match outcome {
        Ok(_) => {},
        Err(TdError::FloodWait { seconds }) => {
            app.auth.flood_wait_until = Some(app.now.saturating_add(*seconds as u64 * 1_000));
        },
        Err(e) => {
            app.auth.field_error = Some(
                FieldError { field: app.auth.active_field, error: e.clone() },
            );
        },
    }
    none()
}

/// The countdown once `now` has come.
pub open spec fn countdown(auth: AuthSpec, now: Millis) -> AuthSpec {
    match auth.flood_wait_until {
        Some(until) if now.0 >= until.0 => AuthSpec { flood_wait_until: None, ..auth },
        _ => auth,
    }
}

/// Clears a countdown that is over.
pub fn handle_tick(app: &mut AppState, now: Millis) -> (r: Vec<Effect>)
    ensures
        final(app)@ == with_auth(old(app)@, countdown(old(app)@.auth, now)),
        views(r@) == no_effects(),
{
    if let Some(until) = app.auth.flood_wait_until {
        if now.0 >= until.0 {
            app.auth.flood_wait_until = None;
        }
    }
    none()
}

// --- laws -----------------------------------------------------------------------------

/// Backspace undoes typing, and a step to the right undoes one to the left.
pub proof fn edits_undo_each_other(f: InputSpec, c: char)
    requires
        f.wf(),
    ensures
        f.typed(c).backspaced() == f,
        f.left().len() > 0 ==> f.moved_left().moved_right() == f,
        f.right().len() > 0 ==> f.moved_right().moved_left() == f,
        f.typed(c).moved_left().deleted() == f,
{
    field_is_its_sides(f);
    let l = f.left();
    let r = f.right();
    sides_of_at(l.push(c), r);
    assert(l.push(c).drop_last() =~= l);
    if l.len() > 0 {
        sides_of_at(l.drop_last(), seq![l.last()] + r);
        assert(l.drop_last().push(l.last()) =~= l);
        assert((seq![l.last()] + r).drop_first() =~= r);
    }
    if r.len() > 0 {
        sides_of_at(l.push(r[0]), r.drop_first());
        assert(l.push(r[0]).drop_last() =~= l);
        assert(seq![r[0]] + r.drop_first() =~= r);
    }
    sides_of_at(l, seq![c] + r);
    assert((seq![c] + r).drop_first() =~= r);
}

/// Moving the cursor never changes the text.
pub proof fn moving_keeps_the_text(f: InputSpec)
    requires
        f.wf(),
    ensures
        f.moved_left().text == f.text,
        f.moved_right().text == f.text,
        f.at_start().text == f.text,
        f.at_end().text == f.text,
{
    field_is_its_sides(f);
    let l = f.left();
    let r = f.right();
    if l.len() > 0 {
        assert(l.drop_last() + (seq![l.last()] + r) =~= l + r);
    }
    if r.len() > 0 {
        assert(l.push(r[0]) + r.drop_first() =~= l + r);
    }
}

/// While a submission is in flight, or TDLib asked to wait, no key sends
/// anything.
pub proof fn nothing_is_sent_while_blocked(a: AppSpec, key: Key)
    requires
        blocked(a),
    ensures
        auth_key(a, key).1 == no_effects(),
{
}

/// Every submission to TDLib marks itself in flight, so that the next waits
/// for the answer.
pub proof fn a_submission_is_in_flight(a: AppSpec, key: Key)
    requires
        auth_key(a, key).1.len() > 0,
    ensures
        auth_key(a, key).1.len() == 1,
        auth_key(a, key).1[0] is Td ==> blocked(auth_key(a, key).0),
{
}

/// A projected phase is TDLib's, verbatim.
pub proof fn the_phase_is_projected(a: AppSpec, phase: AuthPhase)
    ensures
        phase_reached(a, phase).0.auth.phase == phase,
        !phase_reached(a, phase).0.auth.in_flight,
        phase_reached(a, phase).0.auth.field_error is None,
        phase_reached(a, phase).0.auth.flood_wait_until == a.auth.flood_wait_until,
{
}

} // verus!
