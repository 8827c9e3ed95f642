//! Paths of the data store, built the way `std::path::PathBuf::push` builds
//! them, and held as their text.
use vstd::prelude::*;

use std::path::PathBuf;

verus! {

/// Where the data store lives.
pub const DATA_BASE: &'static str = "/home/maciekw/proj/vigilant-waddle/data";

/// The text of a path after `PathBuf::push(part)` on a path with text `base`,
/// on Unix: an absolute `part` (starting with `/`) replaces the path;
/// otherwise `part` is appended, after a `/` unless the path is empty or
/// already ends with one.
pub open spec fn path_pushed(base: Seq<char>, part: Seq<char>) -> Seq<char> {
    if part.len() > 0 && part[0] == '/' {
        part
    } else if base.len() > 0 && base.last() != '/' {
        base + seq!['/'] + part
    } else {
        base + part
    }
}

/// The text of an empty path after pushing every part of `parts` in turn.
pub open spec fn path_of_parts(parts: Seq<Seq<char>>) -> Seq<char>
    decreases parts.len(),
{
    if parts.len() == 0 {
        Seq::empty()
    } else {
        path_pushed(path_of_parts(parts.drop_last()), parts.last())
    }
}

/// The path of the tag directories `tags` under a base directory `base`.
pub open spec fn path_under_spec(base: Seq<char>, tags: Seq<&str>) -> Seq<char> {
    path_pushed(base, path_of_parts(tags.map_values(|p: &str| p@)))
}

/// Pushes `part` onto the path whose text is `base` and gives the new text.
///
/// Trusted: `std::path::PathBuf::push` (with `PathBuf::from` and
/// `into_os_string`/`into_string` converting one for one; UTF-8 in gives
/// UTF-8 out). The contract states the Unix behaviour of `push`, as
/// `path_pushed` spells it out; it is not stated for other platforms.
#[verifier::external_body]
pub(crate) fn push_path(base: &str, part: &str) -> (r: String)
    ensures
        r@ == path_pushed(base@, part@),
{
    let mut p = PathBuf::from(base);
    p.push(part);
    p.into_os_string().into_string().unwrap_or_default()
}

/// The text of an empty path after pushing every part of `parts` in turn
/// (what collecting the parts into a `PathBuf` gives).
pub fn path_from_parts(parts: &[&str]) -> (r: String)
    ensures
        r@ == path_of_parts(parts@.map_values(|p: &str| p@)),
{
    let ghost pv = parts@.map_values(|p: &str| p@);
    let mut acc = String::new();
    let mut i: usize = 0;
    proof {
        assert(pv.take(0) =~= Seq::<Seq<char>>::empty());
    }
    while i < parts.len()
        invariant
            0 <= i <= parts.len(),
            pv == parts@.map_values(|p: &str| p@),
            acc@ == path_of_parts(pv.take(i as int)),
        decreases parts.len() - i,
    {
        proof {
            assert(pv.take(i + 1).drop_last() =~= pv.take(i as int));
            assert(pv.take(i + 1).last() == parts@[i as int]@);
        }
        acc = push_path(acc.as_str(), parts[i]);
        i = i + 1;
    }
    proof {
        assert(pv.take(parts.len() as int) =~= pv);
    }
    acc
}

/// The base directory of a data store.
pub trait DbConfig {
    /// The text of the base directory's path. Verified implementations give
    /// it; for one that does not, it is left unspecified.
    open spec fn base(&self) -> Seq<char> {
        arbitrary()
    }

    /// The base directory's path.
    fn db_base(&self) -> (r: &str)
        ensures
            r@ == self.base(),
    ;
}

/// The store under `DATA_BASE`.
pub struct SillyConfig;

impl DbConfig for SillyConfig {
    open spec fn base(&self) -> Seq<char> {
        DATA_BASE@
    }

    fn db_base(&self) -> (r: &str) {
        DATA_BASE
    }
}

/// The path of the tag directories `tags` under the base directory `base`:
/// `base` joined with the path that collecting `tags` gives.
pub fn path_under(base: &str, tags: &[&str]) -> (r: String)
    ensures
        r@ == path_under_spec(base@, tags@),
{
    let s = path_from_parts(tags);
    push_path(base, s.as_str())
}

/// Paths under the base directory of a configured store.
pub struct PathMan<'a, T: DbConfig> {
    config: &'a T,
}

impl<'a, T: DbConfig> PathMan<'a, T> {
    /// The store's configuration.
    pub closed spec fn config(&self) -> &'a T {
        self.config
    }

    /// Paths under the store that `c` configures.
    pub fn new(c: &'a T) -> (r: PathMan<'a, T>)
        ensures
            r.config() == c,
    {
        PathMan { config: c }
    }

    /// The path of the tag directories `tags` under the base directory that
    /// the store's configuration names.
    pub fn patch_from_tags(&self, tags: &[&str]) -> (r: String)
        ensures
            r@ == path_under_spec(self.config().base(), tags@),
    {
        let base = self.config.db_base();
        path_under(base, tags)
    }
}

} // verus!
