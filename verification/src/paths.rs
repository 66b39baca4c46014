//! Where the configuration file is.
//!
//! A path is what the operating system takes it for: bytes, with `/` between the
//! names.

use crate::config::FILE_NAME;
use crate::config::STALE_FILE_NAME;
use vstd::prelude::*;
use vstd::string::StringSliceAdditionalSpecFns;

verus! {

/// `name` in the directory `dir`.
pub open spec fn joined(dir: Seq<u8>, name: Seq<u8>) -> Seq<u8> {
    if dir.len() > 0 && dir.last() != 0x2f {
        dir.push(0x2f) + name
    } else {
        dir + name
    }
}

/// `name`, which is a relative path, in the directory `dir`.
fn join(dir: &Vec<u8>, name: &str) -> (r: Vec<u8>)
    ensures
        r@ == joined(dir@, name.spec_bytes()),
{
    let mut path: Vec<u8> = dir.clone();
    if path.len() > 0 && path[path.len() - 1] != 0x2f {
        path.push(0x2f);
    }
    let ghost before = path@;
    path.extend_from_slice(name.as_bytes());
    assert(path@ =~= before + name.spec_bytes());
    path
}

/// How much of a path comes before its names: the `/` that it begins with, or the
/// `.` that stands for the working directory.
pub open spec fn lead(path: Seq<u8>) -> nat {
    if path.len() > 0 && (path[0] == 0x2f || path[0] == 0x2e && (path.len() == 1 || path[1]
        == 0x2f)) {
        1
    } else {
        0
    }
}

/// Whether a path ends in something that names nothing: a `/`, or a `.` that is a
/// whole name.
pub open spec fn ends_idle(path: Seq<u8>) -> bool {
    &&& path.len() > lead(path)
    &&& path.last() == 0x2f || path.last() == 0x2e && path.len() > 1 && path[path.len() - 2] == 0x2f
}

/// `dir` without what names nothing at its end.
pub open spec fn plain_dir(dir: Seq<u8>) -> Seq<u8>
    decreases dir.len(),
{
    if ends_idle(dir) {
        plain_dir(dir.drop_last())
    } else {
        dir
    }
}

/// `dir` without what names nothing at its end. This is the directory of the file
/// that [`join`] gives, as a path is taken apart.
fn plain(dir: &Vec<u8>) -> (r: Vec<u8>)
    ensures
        r@ == plain_dir(dir@),
{
    let mut path: Vec<u8> = dir.clone();
    loop
        invariant
            plain_dir(path@) == plain_dir(dir@),
        decreases path.len(),
    {
        let len: usize = path.len();
        let lead: usize = if len > 0 && (path[0] == 0x2f || (path[0] == 0x2e && (len == 1 || path[1]
            == 0x2f))) {
            1
        } else {
            0
        };
        if len <= lead || !(path[len - 1] == 0x2f || (path[len - 1] == 0x2e && len > 1 && path[len
            - 2] == 0x2f)) {
            return path;
        }
        let ghost before = path@;
        path.pop();
        assert(path@ =~= before.drop_last());
    }
}

/// The value of an environment variable; one that is set to nothing counts as
/// not set.
pub open spec fn var(value: Option<Vec<u8>>) -> Option<Seq<u8>> {
    match value {
        Some(bytes) => if bytes@.len() > 0 {
            Some(bytes@)
        } else {
            None
        },
        None => None,
    }
}

/// The directory of the configuration file: the project's own variable comes
/// first, then the one for configuration files in general, then the home
/// directory.
pub open spec fn config_dir(saola: Option<Seq<u8>>, xdg: Option<Seq<u8>>, home: Option<Seq<u8>>) -> Option<
    Seq<u8>,
> {
    match (saola, xdg, home) {
        (Some(dir), _, _) => Some(dir),
        (None, Some(dir), _) => Some(joined(dir, "saola".spec_bytes())),
        (None, None, Some(dir)) => Some(joined(dir, ".config/saola".spec_bytes())),
        (None, None, None) => None,
    }
}

/// The directory of the configuration file, where the variables
/// `SAOLA_CONFIG_DIR`, `XDG_CONFIG_HOME` and `HOME` have these values. There is
/// none where none of them is set.
pub fn config_dir_from(saola: Option<Vec<u8>>, xdg: Option<Vec<u8>>, home: Option<Vec<u8>>) -> (r:
    Option<Vec<u8>>)
    ensures
        match r {
            Some(dir) => config_dir(var(saola), var(xdg), var(home)) == Some(dir@),
            None => config_dir(var(saola), var(xdg), var(home)) is None,
        },
{
    if let Some(dir) = saola {
        if dir.len() > 0 {
            return Some(dir);
        }
    }
    if let Some(dir) = xdg {
        if dir.len() > 0 {
            return Some(join(&dir, "saola"));
        }
    }
    if let Some(dir) = home {
        if dir.len() > 0 {
            return Some(join(&dir, ".config/saola"));
        }
    }
    None
}

/// Where the configuration file is.
#[derive(Debug, Clone, PartialEq, Eq)]
pub struct ConfigPaths {
    /// The file.
    pub file: Vec<u8>,
    /// The file of an old version, which would be beside it: the same path with
    /// another last name.
    pub stale: Vec<u8>,
}

/// Where the configuration file is, where the variables `SAOLA_CONFIG_DIR`,
/// `XDG_CONFIG_HOME` and `HOME` have these values.
pub fn resolve_path(saola: Option<Vec<u8>>, xdg: Option<Vec<u8>>, home: Option<Vec<u8>>) -> (r:
    Option<ConfigPaths>)
    ensures
        match (config_dir(var(saola), var(xdg), var(home)), r) {
            (Some(dir), Some(paths)) => {
                &&& paths.file@ == joined(dir, FILE_NAME.spec_bytes())
                &&& paths.stale@ == joined(plain_dir(dir), STALE_FILE_NAME.spec_bytes())
            },
            (None, None) => true,
            _ => false,
        },
{
    match config_dir_from(saola, xdg, home) {
        Some(dir) => Some(
            ConfigPaths { file: join(&dir, FILE_NAME), stale: join(&plain(&dir), STALE_FILE_NAME) },
        ),
        None => None,
    }
}

/// The configuration is never looked for in the working directory: a relative
/// directory comes only from a variable that is set to a relative one.
pub proof fn law_an_absolute_home_gives_an_absolute_path(
    saola: Option<Seq<u8>>,
    xdg: Option<Seq<u8>>,
    home: Option<Seq<u8>>,
)
    requires
        saola matches Some(dir) ==> dir.len() > 0 && dir[0] == 0x2f,
        xdg matches Some(dir) ==> dir.len() > 0 && dir[0] == 0x2f,
        home matches Some(dir) ==> dir.len() > 0 && dir[0] == 0x2f,
    ensures
        config_dir(saola, xdg, home) matches Some(dir) ==> dir.len() > 0 && dir[0] == 0x2f,
        config_dir(saola, xdg, home) is None <==> saola is None && xdg is None && home is None,
{
}

/// A name in a directory: the directory as it is, one `/` unless it ends in one,
/// and the name as it is.
pub proof fn law_joining(dir: Seq<u8>, name: Seq<u8>)
    requires
        dir.len() > 0,
    ensures
        dir.last() == 0x2f ==> joined(dir, name) == dir + name,
        dir.last() != 0x2f ==> joined(dir, name) == dir + seq![0x2fu8] + name,
{
    assert(dir.push(0x2f) =~= dir + seq![0x2fu8]);
}

/// The first variable that is set decides alone: the project's own gives the
/// directory itself, the one for configuration files `saola` in it, and the home
/// directory `.config/saola` in it.
pub proof fn law_the_first_variable_decides(
    saola: Option<Vec<u8>>,
    xdg: Option<Vec<u8>>,
    home: Option<Vec<u8>>,
)
    ensures
        ({
            let dir = config_dir(var(saola), var(xdg), var(home));
            let saola_set = saola is Some && saola->0@.len() > 0;
            let xdg_set = xdg is Some && xdg->0@.len() > 0;
            let home_set = home is Some && home->0@.len() > 0;
            &&& saola_set ==> dir == Some(saola->0@)
            &&& !saola_set && xdg_set ==> dir == Some(joined(xdg->0@, "saola".spec_bytes()))
            &&& !saola_set && !xdg_set && home_set ==> dir == Some(
                joined(home->0@, ".config/saola".spec_bytes()),
            )
            &&& !saola_set && !xdg_set && !home_set ==> dir is None
        }),
{
}

/// What names nothing at the end of a directory makes no difference, be it one `/`
/// more or one `.` more.
pub proof fn law_what_names_nothing_makes_no_difference(dir: Seq<u8>)
    requires
        dir.len() > 0,
    ensures
        plain_dir(dir.push(0x2f)) == plain_dir(dir),
        plain_dir(dir.push(0x2f).push(0x2e)) == plain_dir(dir),
        dir.last() == 0x2f ==> plain_dir(dir.push(0x2e)) == plain_dir(dir),
{
    let slash = dir.push(0x2f);
    let dot = slash.push(0x2e);
    assert(slash.drop_last() =~= dir);
    assert(dot.drop_last() =~= slash);
    assert(ends_idle(slash));
    assert(ends_idle(dot));
    if dir.last() == 0x2f {
        let more = dir.push(0x2e);
        assert(more.drop_last() =~= dir);
        assert(more[more.len() - 2] == 0x2f);
        assert(ends_idle(more));
    }
}

/// A directory that ends in a name stays as it is, and so do `/` and `.` alone.
pub proof fn law_a_directory_that_ends_in_a_name_stays(dir: Seq<u8>)
    requires
        dir.len() == 1 && (dir[0] == 0x2f || dir[0] == 0x2e) || dir.len() > 0 && dir.last() != 0x2f
            && !(dir.last() == 0x2e && dir.len() > 1 && dir[dir.len() - 2] == 0x2f),
    ensures
        plain_dir(dir) == dir,
{
}

} // verus!
