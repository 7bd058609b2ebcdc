use vstd::prelude::*;

use crate::valid_pbuf::{push_path, pushed};

verus! {

/// Relies on home::home_dir: the caller's home directory, or none where it cannot be found.
/// It reads the environment and the user database, so nothing is promised of its value.
#[verifier::external_body]
pub(crate) fn home_dir() -> (r: Option<String>) {
    home::home_dir().map(|p| p.to_string_lossy().into_owned())
}

/// The shell's configuration directory under the home directory `home`.
pub open spec fn config_dir_of(home: Seq<char>) -> Seq<char> {
    pushed(pushed(home, ".config"@), "lambdashell"@)
}

/// The configuration script in the configuration directory `dir`.
pub open spec fn config_file_of(dir: Seq<char>) -> Seq<char> {
    pushed(dir, "init.luau"@)
}

/// The history file in the configuration directory `dir`.
pub open spec fn history_file_of(dir: Seq<char>) -> Seq<char> {
    pushed(dir, ".history"@)
}

/// The configuration directory under the home directory `home`.
pub fn config_dir_in(home: &str) -> (r: String)
    ensures
        r@ == config_dir_of(home@),
{
    let config = push_path(home, ".config");
    push_path(config.as_str(), "lambdashell")
}

/// The configuration directory of the caller, where a home directory is known.
pub fn config_dir() -> (r: Option<String>)
    ensures
        r matches Some(d) ==> exists|h: Seq<char>| d@ == config_dir_of(h),
{
    match home_dir() {
        Some(h) => Some(config_dir_in(h.as_str())),
        None => None,
    }
}

/// The configuration script in the directory `dir`.
pub fn config_file_in(dir: &str) -> (r: String)
    ensures
        r@ == config_file_of(dir@),
{
    push_path(dir, "init.luau")
}

/// The caller's configuration script, where a home directory is known.
pub fn config_file() -> (r: Option<String>)
    ensures
        r matches Some(f) ==> exists|h: Seq<char>| f@ == config_file_of(config_dir_of(h)),
{
    match config_dir() {
        Some(d) => Some(config_file_in(d.as_str())),
        None => None,
    }
}

/// The history file in the directory `dir`.
pub fn history_file_in(dir: &str) -> (r: String)
    ensures
        r@ == history_file_of(dir@),
{
    push_path(dir, ".history")
}

/// The caller's history file, where a home directory is known.
pub fn history_file() -> (r: Option<String>)
    ensures
        r matches Some(f) ==> exists|h: Seq<char>| f@ == history_file_of(config_dir_of(h)),
{
    match config_dir() {
        Some(d) => Some(history_file_in(d.as_str())),
        None => None,
    }
}

} // verus!
