//! What the state machines ask the outside to do.
use crate::td::request::{RequestSpec, TdRequest};
use std::path::PathBuf;
use vstd::prelude::*;

verus! {

#[derive(Debug, Clone, Copy, PartialEq, Eq, Structural)]
pub enum TelemetryMode {
    Off,
    Vendor,
    Custom,
}

/// A change to the configuration on disk.
#[derive(Debug, PartialEq)]
pub enum ConfigPatch {
    Credentials { api_id: i32, api_hash: String },
    ConsentAcknowledged { enabled: bool },
}

#[derive(Debug, PartialEq)]
pub enum Effect {
    Td(TdRequest),
    SaveConfig(ConfigPatch),
    CopyToClipboard { text: String },
    OpenExternal { path: PathBuf },
    /// Ring the terminal. Carries nothing, so that nothing can leak.
    Alert,
    Quit,
}

pub ghost enum ConfigSpec {
    Credentials { api_id: i32, api_hash: Seq<char> },
    ConsentAcknowledged { enabled: bool },
}

impl View for ConfigPatch {
    type V = ConfigSpec;

    open spec fn view(&self) -> ConfigSpec {
        match *self {
            ConfigPatch::Credentials { api_id, api_hash } => ConfigSpec::Credentials {
                api_id,
                api_hash: api_hash@,
            },
            ConfigPatch::ConsentAcknowledged { enabled } => ConfigSpec::ConsentAcknowledged {
                enabled,
            },
        }
    }
}

pub ghost enum EffectSpec {
    Td(RequestSpec),
    SaveConfig(ConfigSpec),
    CopyToClipboard { text: Seq<char> },
    OpenExternal { path: PathBuf },
    Alert,
    Quit,
}

impl View for Effect {
    type V = EffectSpec;

    open spec fn view(&self) -> EffectSpec {
        match *self {
            Effect::Td(r) => EffectSpec::Td(r@),
            Effect::SaveConfig(p) => EffectSpec::SaveConfig(p@),
            Effect::CopyToClipboard { text } => EffectSpec::CopyToClipboard { text: text@ },
            Effect::OpenExternal { path } => EffectSpec::OpenExternal { path },
            Effect::Alert => EffectSpec::Alert,
            Effect::Quit => EffectSpec::Quit,
        }
    }
}

/// The models of a list of effects, in order.
pub open spec fn views(effects: Seq<Effect>) -> Seq<EffectSpec> {
    effects.map_values(|e: Effect| e@)
}

pub open spec fn no_effects() -> Seq<EffectSpec> {
    Seq::empty()
}

pub proof fn views_empty(effects: Seq<Effect>)
    requires
        effects.len() == 0,
    ensures
        views(effects) == no_effects(),
{
    assert(views(effects) =~= no_effects());
}

pub proof fn views_push(effects: Seq<Effect>, e: Effect)
    ensures
        views(effects.push(e)) == views(effects).push(e@),
{
    assert(views(effects.push(e)) =~= views(effects).push(e@));
}

pub proof fn views_concat(a: Seq<Effect>, b: Seq<Effect>)
    ensures
        views(a + b) == views(a) + views(b),
{
    assert(views(a + b) =~= views(a) + views(b));
}

pub fn none() -> (r: Vec<Effect>)
    ensures
        views(r@) == no_effects(),
{
    let r: Vec<Effect> = Vec::new();
    proof {
        views_empty(r@);
    }
    r
}

pub fn one(e: Effect) -> (r: Vec<Effect>)
    ensures
        views(r@) == seq![e@],
{
    let mut r: Vec<Effect> = Vec::new();
    r.push(e);
    assert(views(r@) =~= seq![e@]);
    r
}

pub fn request(r: TdRequest) -> (effects: Vec<Effect>)
    ensures
        views(effects@) == seq![EffectSpec::Td(r@)],
{
    one(Effect::Td(r))
}

/// Appends `more` to `effects`.
pub fn extend(effects: &mut Vec<Effect>, more: Vec<Effect>)
    ensures
        views(final(effects)@) == views(old(effects)@) + views(more@),
{
    let mut more = more;
    proof {
        views_concat(effects@, more@);
    }
    effects.append(&mut more);
}

} // verus!
