//! Initialization and callback-chaining decisions.
//!
//! The host's entry point and the intercepted lifecycle callback perform
//! foreign calls the verifier cannot see: reading the version string,
//! loading the downstream binary, invoking function pointers. The caller
//! performs those and hands the outcomes here as plain values; every
//! decision taken on them is made and verified in this module.

use vstd::prelude::*;

use crate::cfg::{default_model, parse_cfg, parse_cfg_spec, Config, ConfigModel};
use crate::path::{build_plugin_path, plugin_path_spec};
use crate::version::{token_of, PyVersion};

verus! {

/// What the caller found when it tried to read the configuration file.
pub enum CfgSource {
    /// The file does not exist; the built-in defaults apply.
    Missing,
    /// The file was read; its full text.
    Content(String),
    /// The file exists but reading it failed.
    ReadError,
}

/// The configuration a given source resolves to.
pub open spec fn cfg_model_of(src: CfgSource) -> ConfigModel {
    match src {
        CfgSource::Missing => default_model(),
        CfgSource::Content(s) => parse_cfg_spec(s@),
        CfgSource::ReadError => default_model(),
    }
}

/// The decision the entry point acts on.
pub enum InitPlan {
    /// The runtime version is unsupported: report failure to the host.
    Unsupported,
    /// The configuration file could not be read: report failure.
    ConfigError,
    /// Load the downstream plugin at this path and forward the host's
    /// three argument pointers to its initialization symbol.
    Load(String),
}

/// Decides how initialization proceeds: an unsupported runtime or an
/// unreadable configuration is reported as failure, and otherwise the
/// downstream plugin path is resolved from the configuration and the
/// version token.
pub fn plan_init(version: &PyVersion, cfg_src: &CfgSource) -> (r: InitPlan)
    ensures
        *version is Unknown ==> r is Unsupported,
        !(*version is Unknown) && *cfg_src is ReadError ==> r is ConfigError,
        !(*version is Unknown) && !(*cfg_src is ReadError) ==> (r matches InitPlan::Load(p)
            && p@ == plugin_path_spec(cfg_model_of(*cfg_src), token_of(*version))),
{
    if let PyVersion::Unknown(_) = version {
        return InitPlan::Unsupported;
    }
    let cfg = match cfg_src {
        CfgSource::Missing => Config::default(),
        CfgSource::Content(s) => parse_cfg(s.as_str()),
        CfgSource::ReadError => {
            return InitPlan::ConfigError;
        },
    };
    let token = version.to_version();
    InitPlan::Load(build_plugin_path(&cfg, token))
}

/// Whether the downstream plugin's status means success, in which case the
/// callback table's "server initialised" slot is captured and rewritten.
pub fn should_intercept(status: u32) -> (b: bool)
    ensures
        b == (status == 1),
{
    status == 1
}

/// The result the intercepted lifecycle event reports: the captured
/// original callback's status when one was present, and success otherwise.
pub fn chain_server_init(original_result: Option<u8>) -> (r: u8)
    ensures
        original_result matches Some(v) ==> r == v,
        original_result is None ==> r == 1,
{
    match original_result {
        Some(v) => v,
        None => 1,
    }
}

} // verus!
