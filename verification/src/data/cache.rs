//! Where cached candles lie.
//!
//! Paths are joined as paths with the separator `/` are: a part that begins
//! at the root stands for itself, and a separator is put between a base and
//! a part only where the base does not end in one.

use vstd::prelude::*;
use vstd::string::{StrSliceExecFns, StringExecFns};

verus! {

/// The directory under which candles are cached, one file for each asset
/// and interval.
#[derive(Debug, Clone)]
pub struct Cache {
    base_dir: String,
}

/// The path `part` seen from `base`.
///
/// - A part that begins with `/` is absolute: it replaces the base.
/// - Else the part follows the base, after a `/` where the base is not empty
///   and does not end in one.
pub open spec fn joined(base: Seq<char>, part: Seq<char>) -> Seq<char> {
    if part.len() > 0 && part[0] == '/' {
        part
    } else if base.len() == 0 || base[base.len() - 1] == '/' {
        base + part
    } else {
        base + seq!['/'] + part
    }
}

/// Joins `part` to the path `base`.
pub fn join(base: &str, part: &str) -> (path: String)
    ensures
        path@ == joined(base@, part@),
{
    proof {
        reveal_strlit("/");
    }
    let part_len = part.unicode_len();
    if part_len > 0 && part.get_char(0) == '/' {
        return part.to_owned();
    }
    let base_len = base.unicode_len();
    let mut path = base.to_owned();
    if base_len > 0 && base.get_char(base_len - 1) != '/' {
        path.append("/");
        assert("/"@ =~= seq!['/']);
    }
    path.append(part);
    path
}

impl Cache {
    /// The directory of the cache.
    pub closed spec fn base(&self) -> Seq<char> {
        self.base_dir@
    }

    /// The path of the candles of an asset at an interval: the file
    /// `interval.csv` in the directory `asset` of the cache.
    pub open spec fn path_of(&self, asset: Seq<char>, interval: Seq<char>) -> Seq<char> {
        joined(joined(self.base(), asset), interval + ".csv"@)
    }

    /// A cache under `base_dir`.
    pub fn at(base_dir: &str) -> (cache: Self)
        ensures
            cache.base() == base_dir@,
    {
        Cache { base_dir: base_dir.to_owned() }
    }

    /// The path of the file that holds the candles of `asset` at `interval`.
    /// For an asset and an interval without `/` under a base that does not
    /// end in one, that is `base/asset/interval.csv`.
    pub fn cache_path(&self, asset: &str, interval: &str) -> (path: String)
        ensures
            path@ == self.path_of(asset@, interval@),
    {
        let dir = join(self.base_dir.as_str(), asset);
        let mut file = interval.to_owned();
        file.append(".csv");
        join(dir.as_str(), file.as_str())
    }
}

} // verus!
