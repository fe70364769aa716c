//! Locating the configuration: the config directory by precedence
//! (flag, environment, platform default), and the files a config is
//! read from (a base file and an optional `*.local.yaml` overlay).

use vstd::prelude::*;

use crate::fs_probe::path_is_dir;
use crate::paths::{join_path, path_join, path_key};
use crate::text::{extend_str, owned, string_of};

verus! {

/// Environment variable that overrides the default config location.
pub const CONFIG_ENV_VAR: &'static str = "RAVEL_LITE_CONFIG";

/// The user's configuration directory as `dirs::config_dir` reports it
/// (`$XDG_CONFIG_HOME` or `$HOME/.config` on Linux), as text. Nothing is
/// promised of the value: it depends on the environment.
#[verifier::external_body]
fn user_config_dir() -> (r: Option<String>) {
    dirs::config_dir().map(|p| p.to_string_lossy().to_string())
}

/// The first configured source in precedence order, with its label.
pub open spec fn config_candidate(
    explicit: Option<Seq<char>>,
    env: Option<Seq<char>>,
    default: Option<Seq<char>>,
) -> Option<(Seq<char>, Seq<char>)> {
    match explicit {
        Some(p) => Some(("--config flag"@, p)),
        None => match env {
            Some(p) => Some(("environment variable RAVEL_LITE_CONFIG"@, p)),
            None => match default {
                Some(p) => Some(("default location (dirs::config_dir()/ravel-lite)"@, p)),
                None => None,
            },
        },
    }
}

pub open spec fn no_config_text() -> Seq<char> {
    "Could not resolve Ravel-Lite config directory.\nNo --config flag, no RAVEL_LITE_CONFIG environment variable, and no user config dir available on this platform.\nCreate one with `ravel-lite init <dir>` and either pass --config <dir> or set RAVEL_LITE_CONFIG=<dir>."@
}

pub open spec fn not_a_dir_text(candidate: Seq<char>, source: Seq<char>) -> Seq<char> {
    "Ravel-Lite config directory "@ + candidate + " (from "@ + source
        + ") does not exist or is not a directory.\nCreate it with `ravel-lite init "@ + candidate + "`."@
}

pub open spec fn opt_view(o: Option<String>) -> Option<Seq<char>> {
    match o {
        Some(s) => Some(s@),
        None => None,
    }
}

/// The verdict on a candidate directory once its existence is known.
pub fn config_dir_verdict(candidate: String, source: &str, is_dir: bool) -> (r: Result<String, String>)
    ensures
        is_dir ==> (r matches Ok(c) && c@ == candidate@),
        !is_dir ==> (r matches Err(e) && e@ == not_a_dir_text(candidate@, source@)),
{
    if is_dir {
        return Ok(candidate);
    }
    let mut v: Vec<char> = Vec::new();
    extend_str(&mut v, "Ravel-Lite config directory ");
    extend_str(&mut v, candidate.as_str());
    extend_str(&mut v, " (from ");
    extend_str(&mut v, source);
    extend_str(&mut v, ") does not exist or is not a directory.\nCreate it with `ravel-lite init ");
    extend_str(&mut v, candidate.as_str());
    extend_str(&mut v, "`.");
    Err(string_of(&v))
}

/// Pick the first configured source (flag, then environment, then
/// platform default) and require it to be an existing directory.
pub fn select_config_dir(explicit: Option<String>, env: Option<String>, default: Option<String>) -> (r: Result<
    String,
    String,
>)
    ensures
        match config_candidate(opt_view(explicit), opt_view(env), opt_view(default)) {
            None => r matches Err(e) && e@ == no_config_text(),
            Some((source, c)) => (r matches Ok(d) && d@ == c) || (r matches Err(e) && e@ == not_a_dir_text(
                c,
                source,
            )),
        },
{
    let (source, candidate) = match explicit {
        Some(p) => (owned("--config flag"), p),
        None => match env {
            Some(p) => (owned("environment variable RAVEL_LITE_CONFIG"), p),
            None => match default {
                Some(p) => (owned("default location (dirs::config_dir()/ravel-lite)"), p),
                None => {
                    return Err(
                        owned(
                            "Could not resolve Ravel-Lite config directory.\nNo --config flag, no RAVEL_LITE_CONFIG environment variable, and no user config dir available on this platform.\nCreate one with `ravel-lite init <dir>` and either pass --config <dir> or set RAVEL_LITE_CONFIG=<dir>.",
                        ),
                    );
                },
            },
        },
    };
    let is_dir = path_is_dir(candidate.as_str());
    config_dir_verdict(candidate, source.as_str(), is_dir)
}

/// `<user_dir>/ravel-lite`, where there is a user config dir.
pub open spec fn default_location(user_dir: Option<Seq<char>>) -> Option<Seq<char>> {
    match user_dir {
        Some(d) => Some(path_join(d, "ravel-lite"@)),
        None => None,
    }
}

/// Resolve the config directory from the `--config` flag and the value
/// of `RAVEL_LITE_CONFIG`, falling back to `<user config dir>/ravel-lite`.
/// The user config dir comes from the environment, so the contract holds
/// for whatever it is (or its absence); whether a candidate is a
/// directory depends on the disk.
pub fn resolve_config_dir(explicit_flag: Option<String>, env_value: Option<String>) -> (r: Result<String, String>)
    ensures
        explicit_flag is Some || env_value is Some ==> match config_candidate(
            opt_view(explicit_flag),
            opt_view(env_value),
            None,
        ) {
            None => false,
            Some((source, c)) => (r matches Ok(d) && d@ == c) || (r matches Err(e) && e@ == not_a_dir_text(
                c,
                source,
            )),
        },
        exists|user_dir: Option<Seq<char>>|
            #![trigger default_location(user_dir)]
            match config_candidate(opt_view(explicit_flag), opt_view(env_value), default_location(user_dir)) {
                None => r matches Err(e) && e@ == no_config_text(),
                Some((source, c)) => (r matches Ok(d) && d@ == c) || (r matches Err(e) && e@ == not_a_dir_text(
                    c,
                    source,
                )),
            },
{
    let user_dir = user_config_dir();
    let default = config_location_in(user_dir);
    let ghost ud = opt_view(user_dir);
    assert(opt_view(default) == default_location(ud));
    select_config_dir(explicit_flag, env_value, default)
}

/// A config file and its optional overlay.
pub open spec fn with_overlay(dir: Seq<char>, stem: Seq<char>) -> (Seq<char>, Seq<char>) {
    (path_join(dir, stem + ".yaml"@), path_join(dir, stem + ".local.yaml"@))
}

fn overlay_pair(dir: &str, stem: &str) -> (r: (String, String))
    ensures
        (r.0@, r.1@) == with_overlay(dir@, stem@),
{
    let mut a: Vec<char> = Vec::new();
    extend_str(&mut a, stem);
    extend_str(&mut a, ".yaml");
    let mut b: Vec<char> = Vec::new();
    extend_str(&mut b, stem);
    extend_str(&mut b, ".local.yaml");
    (join_path(dir, string_of(&a).as_str()), join_path(dir, string_of(&b).as_str()))
}

/// `config.yaml` and `config.local.yaml` under the config root.
pub fn shared_config_files(config_root: &str) -> (r: (String, String))
    ensures
        (r.0@, r.1@) == with_overlay(config_root@, "config"@),
{
    overlay_pair(config_root, "config")
}

/// The directory of an agent's configuration: `agents/<agent>`.
pub open spec fn agent_dir(config_root: Seq<char>, agent: Seq<char>) -> Seq<char> {
    path_join(path_join(config_root, "agents"@), agent)
}

/// An agent's `config.yaml` and `config.local.yaml`.
pub fn agent_config_files(config_root: &str, agent_name: &str) -> (r: (String, String))
    ensures
        (r.0@, r.1@) == with_overlay(agent_dir(config_root@, agent_name@), "config"@),
{
    let d = join_path(join_path(config_root, "agents").as_str(), agent_name);
    overlay_pair(d.as_str(), "config")
}

/// An agent's `tokens.yaml` and `tokens.local.yaml`.
pub fn token_files(config_root: &str, agent_name: &str) -> (r: (String, String))
    ensures
        (r.0@, r.1@) == with_overlay(agent_dir(config_root@, agent_name@), "tokens"@),
{
    let d = join_path(join_path(config_root, "agents").as_str(), agent_name);
    overlay_pair(d.as_str(), "tokens")
}

/// What `init` prints to say how the new config will be found: nothing
/// to do when it was written to the default location, else the variable
/// to export or the flag to pass.
pub open spec fn guidance_lines(target_dir: Seq<char>, default_dir: Option<Seq<char>>) -> Seq<Seq<char>> {
    if default_dir matches Some(d) && path_key(d) == path_key(target_dir) {
        seq![seq![], "  Config is at the default location; ravel-lite will discover it automatically."@]
    } else {
        seq![
            seq![],
            "  To use this config as the default for ravel-lite, set:"@,
            "    export RAVEL_LITE_CONFIG="@ + target_dir,
            "  Or pass --config "@ + target_dir + " on each invocation."@,
        ]
    }
}

/// The guidance lines for a config written to `target_dir`, given the
/// default location (`<user config dir>/ravel-lite`, where there is one).
pub fn discovery_guidance(target_dir: &str, default_dir: Option<String>) -> (r: Vec<String>)
    ensures
        crate::order::views_of(r@) == guidance_lines(target_dir@, opt_view(default_dir)),
{
    let at_default = match &default_dir {
        Some(d) => {
            let a = crate::paths::normalized_path(d.as_str());
            let b = crate::paths::normalized_path(target_dir);
            crate::text::str_eq(a.as_str(), b.as_str())
        },
        None => false,
    };
    let mut v: Vec<String> = Vec::new();
    v.push(String::new());
    if at_default {
        v.push(owned("  Config is at the default location; ravel-lite will discover it automatically."));
    } else {
        v.push(owned("  To use this config as the default for ravel-lite, set:"));
        let mut a: Vec<char> = Vec::new();
        extend_str(&mut a, "    export RAVEL_LITE_CONFIG=");
        extend_str(&mut a, target_dir);
        v.push(string_of(&a));
        let mut b: Vec<char> = Vec::new();
        extend_str(&mut b, "  Or pass --config ");
        extend_str(&mut b, target_dir);
        extend_str(&mut b, " on each invocation.");
        v.push(string_of(&b));
    }
    assert(crate::order::views_of(v@) =~= guidance_lines(target_dir@, opt_view(default_dir)));
    v
}

/// The config location under a user config dir: `<dir>/ravel-lite`, or
/// none where there is no such dir.
pub fn config_location_in(user_dir: Option<String>) -> (r: Option<String>)
    ensures
        match user_dir {
            Some(d) => r matches Some(x) && x@ == path_join(d@, "ravel-lite"@),
            None => r is None,
        },
{
    match user_dir {
        Some(d) => Some(join_path(d.as_str(), "ravel-lite")),
        None => None,
    }
}

/// The default config location, `<user config dir>/ravel-lite`, where the
/// platform has a user config dir.
pub fn default_config_location() -> (r: Option<String>)
    ensures
        r matches Some(d) ==> exists|base: Seq<char>| d@ == path_join(base, "ravel-lite"@),
{
    config_location_in(user_config_dir())
}

} // verus!
