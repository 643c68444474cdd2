//! Resolving a bare command name: recognizing the built-ins, and scanning an
//! ordered list of directory listings for the first entry that matches, the
//! "first wins" search-path policy.

use vstd::prelude::*;
use crate::text::str_eq;

verus! {

/// Whether `name` is one of the interpreter's built-in commands.
pub open spec fn is_builtin_spec(name: Seq<char>) -> bool {
    ||| name == "exit"@
    ||| name == "echo"@
    ||| name == "type"@
    ||| name == "pwd"@
    ||| name == "cd"@
}

/// Recognizes the built-in command names.
pub fn is_builtin(name: &str) -> (r: bool)
    ensures
        r == is_builtin_spec(name@),
{
    str_eq(name, "exit") || str_eq(name, "echo") || str_eq(name, "type") || str_eq(name, "pwd")
        || str_eq(name, "cd")
}

/// Finds the first entry of one directory listing that equals `name`.
pub fn find_entry(entries: &Vec<String>, name: &str) -> (r: Option<usize>)
    ensures
        match r {
            Some(i) => i < entries@.len() && entries@[i as int]@ == name@ && (forall|j: int|
                0 <= j < i ==> entries@[j]@ != name@),
            None => forall|j: int| 0 <= j < entries@.len() ==> entries@[j]@ != name@,
        },
{
    let n = entries.len();
    for i in 0..n
        invariant
            n == entries@.len(),
            forall|j: int| 0 <= j < i ==> entries@[j]@ != name@,
    {
        if str_eq(entries[i].as_str(), name) {
            return Some(i);
        }
    }
    None
}

/// Whether a directory listing holds an entry named `name`.
pub open spec fn listing_contains(listing: Seq<Seq<char>>, name: Seq<char>) -> bool {
    exists|k: int| 0 <= k < listing.len() && listing[k] == name
}

/// What a correct scan of the listings reports: the first listing that
/// contains `name`, or nothing when none does.
pub open spec fn resolution_ok(
    listings: Seq<Seq<Seq<char>>>,
    name: Seq<char>,
    r: Option<int>,
) -> bool {
    match r {
        Some(i) => 0 <= i < listings.len() && listing_contains(listings[i], name) && (forall|
            j: int,
        |
            0 <= j < i ==> !listing_contains(listings[j], name)),
        None => forall|j: int| 0 <= j < listings.len() ==> !listing_contains(listings[j], name),
    }
}

/// Scans the directory listings in search-path order and reports the index of
/// the first one that holds an entry named `name`.
pub fn resolve_in_dirs(listings: &Vec<Vec<String>>, name: &str) -> (r: Option<usize>)
    ensures
        resolution_ok(
            listings.deep_view(),
            name@,
            match r {
                Some(i) => Some(i as int),
                None => None,
            },
        ),
{
    let n = listings.len();
    for i in 0..n
        invariant
            n == listings@.len(),
            forall|j: int| 0 <= j < i ==> !listing_contains(listings.deep_view()[j], name@),
    {
        let found = find_entry(&listings[i], name);
        match found {
            Some(k) => {
                proof {
                    let ld = listings.deep_view();
                    assert(ld[i as int][k as int] == listings@[i as int]@[k as int]@);
                    assert(listing_contains(ld[i as int], name@));
                }
                return Some(i);
            },
            None => {
                proof {
                    let ld = listings.deep_view();
                    assert forall|k: int| 0 <= k < ld[i as int].len() implies ld[i as int][k]
                        != name@ by {
                        assert(ld[i as int][k] == listings@[i as int]@[k]@);
                    }
                    assert(!listing_contains(ld[i as int], name@));
                }
            },
        }
    }
    None
}

} // verus!
