//! Where the `dockutil` executable is taken from: the copy bundled with the
//! application first, then two fixed installation paths.
use crate::store::opt_text;
use vstd::prelude::*;

verus! {

pub open spec fn homebrew_path() -> Seq<char> {
    "/opt/homebrew/bin/dockutil"@
}

pub open spec fn local_path() -> Seq<char> {
    "/usr/local/bin/dockutil"@
}

pub open spec fn not_found_message() -> Seq<char> {
    "dockutil not found. Install it with: brew install dockutil"@
}

/// The installation paths that are searched, in order.
pub fn dockutil_candidates() -> (r: Vec<String>)
    ensures
        r@.len() == 2,
        r@[0]@ == homebrew_path(),
        r@[1]@ == local_path(),
{
    let mut r: Vec<String> = Vec::new();
    r.push("/opt/homebrew/bin/dockutil".to_owned());
    r.push("/usr/local/bin/dockutil".to_owned());
    r
}

/// The first installation path that exists, where `exists[i]` says whether
/// the `i`-th of `dockutil_candidates` does.
pub fn find_dockutil_path(exists: &Vec<bool>) -> (r: Option<String>)
    ensures
        opt_text(r) == find_dockutil_path_spec(exists@),
{
    let candidates = dockutil_candidates();
    let mut i: usize = 0;
    while i < candidates.len() && i < exists.len()
        invariant
            candidates@.len() == 2,
            candidates@[0]@ == homebrew_path(),
            candidates@[1]@ == local_path(),
            i <= 2,
            forall|j: int| 0 <= j < i ==> j < exists@.len() && !exists@[j],
        decreases 2 - i,
    {
        if exists[i] {
            return Some(candidates[i].clone());
        }
        i = i + 1;
    }
    None
}

/// The executable to run: the bundled copy where it exists, else the first
/// installation path that exists, else an error asking to install it.
pub fn get_dockutil_path(bundled: Option<String>, exists: &Vec<bool>) -> (r: Result<String, String>)
    ensures
        ({
            match bundled {
                Some(b) => r is Ok && r->Ok_0@ == b@,
                None => match find_dockutil_path_spec(exists@) {
                    Some(p) => r is Ok && r->Ok_0@ == p,
                    None => r is Err && r->Err_0@ == not_found_message(),
                },
            }
        }),
{
    match bundled {
        Some(b) => Ok(b),
        None => match find_dockutil_path(exists) {
            Some(p) => Ok(p),
            None => Err("dockutil not found. Install it with: brew install dockutil".to_owned()),
        },
    }
}

/// The first installation path that `exists` marks as present.
pub open spec fn find_dockutil_path_spec(exists: Seq<bool>) -> Option<Seq<char>> {
    if exists.len() >= 1 && exists[0] {
        Some(homebrew_path())
    } else if exists.len() >= 2 && exists[1] {
        Some(local_path())
    } else {
        None
    }
}

} // verus!
