//! The process-wide configuration: the paths of the base and target
//! workspace files, read from a JSON settings file of the exact shape
//! `{"base": P, "target": Q}`, and the resolution of where that settings
//! file lives.

use vstd::prelude::*;
use vstd::string::StringExecFns;

use crate::codec::{p_char, p_member, skip_ws, skip_ws_exec, sp_char, sp_member_string};
use crate::workspace::WsError;

verus! {

/// The member name that holds the base workspace file's path.
pub open spec fn key_base() -> Seq<char> {
    "base"@
}

/// The member name that holds the target workspace file's path.
pub open spec fn key_target() -> Seq<char> {
    "target"@
}

/// The settings object: where the base and the target workspace files live.
/// Loaded once per process and never written by this system.
pub struct Config {
    pub base: String,
    pub target: String,
}

/// Mathematical view of the settings object.
#[verifier::ext_equal]
pub struct ConfigView {
    pub base: Seq<char>,
    pub target: Seq<char>,
}

impl View for Config {
    type V = ConfigView;

    open spec fn view(&self) -> ConfigView {
        ConfigView { base: self.base@, target: self.target@ }
    }
}

/// A configuration object: both members required, either order, nothing else.
pub open spec fn sp_config(s: Seq<char>) -> Option<(ConfigView, Seq<char>)> {
    match sp_char(s, '{') {
        None => None,
        Some(r1) => match sp_member_string(r1) {
            None => None,
            Some(m1r) => match sp_char(m1r.1, ',') {
                None => None,
                Some(r3) => match sp_member_string(r3) {
                    None => None,
                    Some(m2r) => match sp_char(m2r.1, '}') {
                        None => None,
                        Some(r5) => if m1r.0.0 == key_base() && m2r.0.0 == key_target() {
                            Some((ConfigView { base: m1r.0.1, target: m2r.0.1 }, r5))
                        } else if m1r.0.0 == key_target() && m2r.0.0 == key_base() {
                            Some((ConfigView { base: m2r.0.1, target: m1r.0.1 }, r5))
                        } else {
                            None
                        },
                    },
                },
            },
        },
    }
}

/// The configuration denoted by a complete text, or `None` when malformed.
pub open spec fn parse_config_spec(s: Seq<char>) -> Option<ConfigView> {
    match sp_config(s) {
        None => None,
        Some(cr) => if skip_ws(cr.1).len() == 0 {
            Some(cr.0)
        } else {
            None
        },
    }
}

/// Parse a complete configuration text. Returns the configuration exactly
/// when the text denotes one, and `MalformedData` exactly when it does not.
pub fn parse_config(text: &Vec<char>) -> (r: Result<Config, WsError>)
    ensures
        match r {
            Ok(c) => parse_config_spec(text@) == Some(c@),
            Err(e) => parse_config_spec(text@) is None && e == WsError::MalformedData,
        },
{
    proof {
        assert(text@.skip(0) =~= text@);
    }
    let parsed = p_config(text, 0);
    match parsed {
        None => Err(WsError::MalformedData),
        Some((c, j)) => {
            let j2 = skip_ws_exec(text, j);
            if j2 == text.len() {
                proof {
                    assert(text@.skip(j2 as int).len() == 0);
                }
                Ok(c)
            } else {
                proof {
                    assert(text@.skip(j2 as int).len() > 0);
                }
                Err(WsError::MalformedData)
            }
        },
    }
}

/// Parse a complete configuration from a string slice.
pub fn parse_config_str(s: &str) -> (r: Result<Config, WsError>)
    ensures
        match r {
            Ok(c) => parse_config_spec(s@) == Some(c@),
            Err(e) => parse_config_spec(s@) is None && e == WsError::MalformedData,
        },
{
    let v = crate::codec::chars_of(s);
    parse_config(&v)
}

/// Parse a configuration object.
fn p_config(text: &Vec<char>, i: usize) -> (r: Option<(Config, usize)>)
    requires
        i <= text@.len(),
    ensures
        match r {
            Some(v) => v.1 <= text@.len() && sp_config(text@.skip(i as int)) == Some(
                (v.0@, text@.skip(v.1 as int)),
            ),
            None => sp_config(text@.skip(i as int)) is None,
        },
{
    match p_char(text, i, '{') {
        None => None,
        Some(j1) => match p_member(text, j1) {
            None => None,
            Some((m1, j2)) => match p_char(text, j2, ',') {
                None => None,
                Some(j3) => match p_member(text, j3) {
                    None => None,
                    Some((m2, j4)) => match p_char(text, j4, '}') {
                        None => None,
                        Some(j5) => {
                            let base_key: String = "base".to_owned();
                            let target_key: String = "target".to_owned();
                            if m1.0.eq(&base_key) && m2.0.eq(&target_key) {
                                Some((Config { base: m1.1, target: m2.1 }, j5))
                            } else if m1.0.eq(&target_key) && m2.0.eq(&base_key) {
                                Some((Config { base: m2.1, target: m1.1 }, j5))
                            } else {
                                None
                            }
                        },
                    },
                },
            },
        },
    }
}

/// The settings file's place under a per-user configuration directory.
pub open spec fn settings_file_of(config_dir: Seq<char>) -> Seq<char> {
    config_dir + "/change-workspace/config.json"@
}

/// Relies on `dirs::config_dir`: the platform's per-user configuration
/// directory, if the platform defines one that is valid Unicode; its value
/// depends on the environment, so nothing is promised of it.
#[verifier::external_body]
fn config_dir_string() -> (r: Option<String>) {
    match dirs::config_dir() {
        Some(p) => match p.into_os_string().into_string() {
            Ok(s) => Some(s),
            Err(_) => None,
        },
        None => None,
    }
}

/// The settings file path under a given configuration directory.
pub fn settings_file_path(config_dir: String) -> (r: String)
    ensures
        r@ == settings_file_of(config_dir@),
{
    config_dir.concat("/change-workspace/config.json")
}

/// Resolve the settings file location for a normal run: the settings file
/// under the platform's per-user configuration directory, or `None` when
/// that directory cannot be determined (a fatal condition for the caller).
pub fn get_settings_file() -> (r: Option<String>)
    ensures
        r matches Some(p) ==> exists|d: Seq<char>| p@ == settings_file_of(d),
{
    match config_dir_string() {
        Some(d) => {
            let ghost dv = d@;
            let p = settings_file_path(d);
            proof {
                assert(p@ == settings_file_of(dv));
            }
            Some(p)
        },
        None => None,
    }
}

} // verus!
