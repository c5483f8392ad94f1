//! Where the engine's files live: the configuration directory of the command-line tool
//! under the user's home, and the application's own directory beside it. Paths are texts
//! joined with `/`.

use vstd::prelude::*;
use crate::text::{chars_of, push_text, string_of};

verus! {

/// `base` and `seg` joined: `seg` alone under an empty base, else with one `/` between.
pub open spec fn joined(base: Seq<char>, seg: Seq<char>) -> Seq<char> {
    if base.len() == 0 {
        seg
    } else if base.last() == '/' {
        base + seg
    } else {
        base + seq!['/'] + seg
    }
}

/// `base` and `seg` joined with one `/` between.
pub fn join_path(base: &str, seg: &str) -> (r: String)
    ensures
        r@ == joined(base@, seg@),
{
    let mut out = chars_of(base);
    if out.len() > 0 && out[out.len() - 1] != '/' {
        out.push('/');
    }
    push_text(&mut out, seg);
    proof {
        if base@.len() == 0 {
            assert(out@ =~= seg@);
        }
    }
    string_of(out.as_slice())
}

/// Relies on `dirs::home_dir`: the user's home directory, if the platform names one.
#[verifier::external_body]
fn home_dir() -> (r: Option<String>) {
    dirs::home_dir().map(|p| p.to_string_lossy().into_owned())
}

/// The configuration directory of the command-line tool under the home directory `home`.
pub open spec fn codex_dir_in(home: Seq<char>) -> Seq<char> {
    joined(home, ".codex"@)
}

/// The configuration directory of the command-line tool, if the home directory is known.
pub fn get_codex_dir() -> (r: Option<String>)
    ensures
        r matches Some(d) ==> exists|h: Seq<char>| d@ == #[trigger] codex_dir_in(h),
{
    match home_dir() {
        Some(h) => {
            let d = join_path(h.as_str(), ".codex");
            assert(d@ == codex_dir_in(h@));
            Some(d)
        },
        None => None,
    }
}

/// The prompts directory, if the home directory is known.
pub fn get_prompts_dir() -> (r: Option<String>)
    ensures
        r matches Some(d) ==> exists|h: Seq<char>| d@ == joined(#[trigger] codex_dir_in(h), "prompts"@),
{
    match get_codex_dir() {
        Some(c) => Some(join_path(c.as_str(), "prompts")),
        None => None,
    }
}

/// The skills directory, if the home directory is known.
pub fn get_skills_dir() -> (r: Option<String>)
    ensures
        r matches Some(d) ==> exists|h: Seq<char>| d@ == joined(#[trigger] codex_dir_in(h), "skills"@),
{
    match get_codex_dir() {
        Some(c) => Some(join_path(c.as_str(), "skills")),
        None => None,
    }
}

/// The credential file that the command-line tool uses, if the home directory is known.
pub fn get_codex_auth_file() -> (r: Option<String>)
    ensures
        r matches Some(d) ==> exists|h: Seq<char>| d@ == joined(#[trigger] codex_dir_in(h), "auth.json"@),
{
    match get_codex_dir() {
        Some(c) => Some(join_path(c.as_str(), "auth.json")),
        None => None,
    }
}

/// The application's directory under the home directory `home`.
pub open spec fn app_dir_in(home: Seq<char>) -> Seq<char> {
    joined(home, ".myswitch"@)
}

/// The application's settings file, if the home directory is known.
pub fn get_config_file() -> (r: Option<String>)
    ensures
        r matches Some(d) ==> exists|h: Seq<char>| d@ == joined(#[trigger] app_dir_in(h), "config.json"@),
{
    match home_dir() {
        Some(h) => {
            let a = join_path(h.as_str(), ".myswitch");
            let d = join_path(a.as_str(), "config.json");
            assert(d@ == joined(app_dir_in(h@), "config.json"@));
            Some(d)
        },
        None => None,
    }
}

/// The accounts directory: the configured one if it exists, else `accounts` in the
/// application's directory, if the home directory is known.
pub fn get_accounts_dir(configured: Option<String>, configured_exists: bool) -> (r: Option<String>)
    ensures
        configured_exists && configured is Some ==> (r matches Some(d) && d@ == configured->0@),
        !(configured_exists && configured is Some) ==> (r matches Some(d) ==> exists|h: Seq<char>|
            d@ == joined(#[trigger] app_dir_in(h), "accounts"@)),
{
    if configured_exists {
        if let Some(d) = configured {
            return Some(d);
        }
    }
    match home_dir() {
        Some(h) => {
            let a = join_path(h.as_str(), ".myswitch");
            let d = join_path(a.as_str(), "accounts");
            assert(d@ == joined(app_dir_in(h@), "accounts"@));
            Some(d)
        },
        None => None,
    }
}

} // verus!
