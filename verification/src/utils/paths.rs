//! Where the configuration file is.
use std::path::PathBuf;
use vstd::prelude::*;

verus! {

#[verifier::external_type_specification]
#[verifier::external_body]
pub struct ExPathBuf(PathBuf);

/// The configuration path could not be found.
#[derive(Debug, PartialEq, Eq, Structural)]
pub enum PathError {
    NoHomeDirectory,
}

/// `dirs::home_dir`: the user's home directory, as the environment tells it;
/// nothing is known of it here.
#[verifier::external_body]
fn home_dir() -> Option<PathBuf> {
    dirs::home_dir()
}

/// The path `PathBuf::join` builds from `base` and `part`: `base` with `part`
/// appended as a further component (or `part` alone when it is absolute).
pub uninterp spec fn joined_path(base: PathBuf, part: Seq<char>) -> PathBuf;

/// `PathBuf::join`: a function of its two arguments alone, named by
/// `joined_path`; what the path holds is not spelled out here.
#[verifier::external_body]
fn join(base: &PathBuf, part: &str) -> (r: PathBuf)
    ensures
        r == joined_path(*base, part@),
{
    base.join(part)
}

/// `home/.atomberg/config`.
pub open spec fn config_file_under(home: PathBuf) -> PathBuf {
    joined_path(joined_path(home, ".atomberg"@), "config"@)
}

/// The configuration path under the home directory `home`, when there is one.
pub fn config_path_under(home: Option<PathBuf>) -> (r: Result<PathBuf, PathError>)
    ensures
        match home {
            Some(h) => r == Ok::<PathBuf, PathError>(config_file_under(h)),
            None => r == Err::<PathBuf, PathError>(PathError::NoHomeDirectory),
        },
{
    let home = match home {
        Some(h) => h,
        None => {
            return Err(PathError::NoHomeDirectory);
        },
    };
    let dir = join(&home, ".atomberg");
    Ok(join(&dir, "config"))
}

/// `PathBuf::clone`: an equal path.
#[verifier::external_body]
fn copy_path(p: &PathBuf) -> (r: PathBuf)
    ensures
        r == *p,
{
    p.clone()
}

/// `~/.atomberg/config`, under the home directory the environment gives; an
/// error when the environment gives none.
pub fn default_config_path() -> (r: Result<PathBuf, PathError>)
    ensures
        r matches Err(e) ==> e == PathError::NoHomeDirectory,
        r matches Ok(p) ==> exists|h: PathBuf| p == #[trigger] config_file_under(h),
{
    config_path_under(home_dir())
}

/// The configuration path: the one given, else the default.
pub fn resolve_path(path: &Option<PathBuf>) -> (r: Result<PathBuf, PathError>)
    ensures
        path matches Some(p) ==> r == Ok::<PathBuf, PathError>(*p),
        r matches Err(e) ==> path is None && e == PathError::NoHomeDirectory,
        path is None ==> (r matches Ok(p) ==> exists|h: PathBuf| p == #[trigger] config_file_under(h)),
{
    match path {
        Some(p) => Ok(copy_path(p)),
        None => default_config_path(),
    }
}

impl PathError {
    /// The text this error is reported with.
    pub fn message(&self) -> (r: &'static str)
        ensures
            r@ == "Could not determine home directory"@,
    {
        "Could not determine home directory"
    }
}

} // verus!
