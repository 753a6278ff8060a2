//! Where the daemon keeps its files, as text paths below the user's home
//! directory.

use directories::BaseDirs;
use vstd::prelude::*;
use vstd::string::StrSliceExecFns;
use vstd::string::StringExecFns;

verus! {

/// Makes `directories::BaseDirs` known as a type whose inside is not
/// looked at.
#[verifier::external_type_specification]
#[verifier::external_body]
pub struct ExBaseDirs(BaseDirs);

/// Calls `directories::BaseDirs::new`, which takes the user's home
/// directory and base directories from the environment and the password
/// database. Nothing is claimed of the answer.
#[verifier::external_body]
fn base_dirs() -> (dirs: Option<BaseDirs>) {
    BaseDirs::new()
}

/// Calls `directories::BaseDirs::home_dir` and gives the path as text, or
/// nothing where the path is not valid Unicode. Nothing is claimed of the
/// text.
#[verifier::external_body]
fn home_of(dirs: &BaseDirs) -> (home: Option<String>) {
    match dirs.home_dir().to_str() {
        Some(s) => Some(s.to_owned()),
        None => None,
    }
}

/// The path of `leaf` inside the directory `base`: the two joined by one
/// `/`, which is left out where `base` is empty or ends with one.
pub open spec fn joined(base: Seq<char>, leaf: Seq<char>) -> Seq<char> {
    if base.len() == 0 || base.last() == '/' {
        base + leaf
    } else {
        base + "/"@ + leaf
    }
}

/// The daemon's configuration directory below `home`.
pub open spec fn config_dir_of(home: Seq<char>) -> Seq<char> {
    joined(joined(home, ".config"@), "touchctl"@)
}

/// The directory of the profiles below `home`.
pub open spec fn profiles_dir_of(home: Seq<char>) -> Seq<char> {
    joined(config_dir_of(home), "profiles"@)
}

/// The file below `home` that names the active profile.
pub open spec fn active_ptr_of(home: Seq<char>) -> Seq<char> {
    joined(config_dir_of(home), "active"@)
}

/// The file of the profile `name` below `home`.
pub open spec fn profile_file_of(home: Seq<char>, name: Seq<char>) -> Seq<char> {
    joined(profiles_dir_of(home), name + ".toml"@)
}

/// The daemon's runtime directory below `home`.
pub open spec fn runtime_dir_of(home: Seq<char>) -> Seq<char> {
    joined(joined(home, ".local"@), "run"@)
}

/// The control socket below `home`.
pub open spec fn socket_of(home: Seq<char>) -> Seq<char> {
    joined(runtime_dir_of(home), "touchctl.sock"@)
}

/// Computes `joined`.
pub fn join(base: &str, leaf: &str) -> (p: String)
    ensures
        p@ == joined(base@, leaf@),
{
    let n = base.unicode_len();
    let mut p = String::from_str(base);
    if n > 0 && base.get_char(n - 1) != '/' {
        p.append("/");
    }
    p.append(leaf);
    p
}

/// The user's home directory, as the operating system gives it; nothing
/// where it gives none or one that is not text.
pub fn home_dir() -> (home: Option<String>) {
    match base_dirs() {
        Some(dirs) => home_of(&dirs),
        None => None,
    }
}

/// The daemon's configuration directory below `home`.
pub fn config_dir_in(home: &str) -> (p: String)
    ensures
        p@ == config_dir_of(home@),
{
    let a = join(home, ".config");
    join(a.as_str(), "touchctl")
}

/// The directory of the profiles below `home`.
pub fn profiles_dir_in(home: &str) -> (p: String)
    ensures
        p@ == profiles_dir_of(home@),
{
    let a = config_dir_in(home);
    join(a.as_str(), "profiles")
}

/// The file below `home` that names the active profile.
pub fn active_ptr_path_in(home: &str) -> (p: String)
    ensures
        p@ == active_ptr_of(home@),
{
    let a = config_dir_in(home);
    join(a.as_str(), "active")
}

/// The file of the profile `name` below `home`.
pub fn profile_file_in(home: &str, name: &str) -> (p: String)
    ensures
        p@ == profile_file_of(home@, name@),
{
    let dir = profiles_dir_in(home);
    let mut file = String::from_str(name);
    file.append(".toml");
    join(dir.as_str(), file.as_str())
}

/// The daemon's runtime directory below `home`.
pub fn runtime_dir_in(home: &str) -> (p: String)
    ensures
        p@ == runtime_dir_of(home@),
{
    let a = join(home, ".local");
    join(a.as_str(), "run")
}

/// The control socket below `home`.
pub fn socket_path_in(home: &str) -> (p: String)
    ensures
        p@ == socket_of(home@),
{
    let a = runtime_dir_in(home);
    join(a.as_str(), "touchctl.sock")
}

/// The daemon's configuration directory below the user's home directory;
/// nothing where the user has no home directory.
pub fn config_dir() -> (p: Option<String>)
    ensures
        p is Some ==> exists|home: Seq<char>| p->0@ == config_dir_of(home),
{
    match home_dir() {
        Some(home) => Some(config_dir_in(home.as_str())),
        None => None,
    }
}

/// The directory of the profiles below the user's home directory; nothing
/// where the user has no home directory.
pub fn profiles_dir() -> (p: Option<String>)
    ensures
        p is Some ==> exists|home: Seq<char>| p->0@ == profiles_dir_of(home),
{
    match home_dir() {
        Some(home) => Some(profiles_dir_in(home.as_str())),
        None => None,
    }
}

/// The file that names the active profile, below the user's home
/// directory; nothing where the user has no home directory.
pub fn active_ptr_path() -> (p: Option<String>)
    ensures
        p is Some ==> exists|home: Seq<char>| p->0@ == active_ptr_of(home),
{
    match home_dir() {
        Some(home) => Some(active_ptr_path_in(home.as_str())),
        None => None,
    }
}

/// The daemon's runtime directory below the user's home directory; nothing
/// where the user has no home directory. The directory is not created.
pub fn runtime_dir() -> (p: Option<String>)
    ensures
        p is Some ==> exists|home: Seq<char>| p->0@ == runtime_dir_of(home),
{
    match home_dir() {
        Some(home) => Some(runtime_dir_in(home.as_str())),
        None => None,
    }
}

/// The control socket below the user's home directory; nothing where the
/// user has no home directory.
pub fn socket_path() -> (p: Option<String>)
    ensures
        p is Some ==> exists|home: Seq<char>| p->0@ == socket_of(home),
{
    match home_dir() {
        Some(home) => Some(socket_path_in(home.as_str())),
        None => None,
    }
}

} // verus!
