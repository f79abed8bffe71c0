//! The layout that spreads artifact names over a bounded fan-out of
//! directories.
use crate::text::{lower_of, lowercase, push_str, string_of};
use vstd::prelude::*;
use vstd::string::*;

verus! {

/// The directory part of the layout for a (lower-cased) name: `1`, `2` or `3`
/// for names of that many characters, else the first two characters, a slash,
/// and the next two.
pub open spec fn shard_dir(name: Seq<char>) -> Seq<char> {
    if name.len() == 1 {
        seq!['1']
    } else if name.len() == 2 {
        seq!['2']
    } else if name.len() == 3 {
        seq!['3']
    } else {
        name.subrange(0, 2) + seq!['/'] + name.subrange(2, 4)
    }
}

/// The full path of a name's entry: its directory, a slash, the name itself.
pub open spec fn shard_path(name: Seq<char>) -> Seq<char> {
    shard_dir(name) + seq!['/'] + name
}

/// The directory of an already lower-cased name.
pub fn shard_dir_of(name: &str) -> (r: String)
    requires
        name@.len() > 0,
    ensures
        r@ == shard_dir(name@),
{
    let n = name.unicode_len();
    if n == 1 {
        proof {
            reveal_strlit("1");
        }
        string_of("1")
    } else if n == 2 {
        proof {
            reveal_strlit("2");
        }
        string_of("2")
    } else if n == 3 {
        proof {
            reveal_strlit("3");
        }
        string_of("3")
    } else {
        let mut r = string_of(name.substring_char(0, 2));
        proof {
            reveal_strlit("/");
        }
        push_str(&mut r, "/");
        push_str(&mut r, name.substring_char(2, 4));
        r
    }
}

/// The path of an already lower-cased name.
pub fn shard_path_of(name: &str) -> (r: String)
    requires
        name@.len() > 0,
    ensures
        r@ == shard_path(name@),
{
    let mut r = shard_dir_of(name);
    proof {
        reveal_strlit("/");
    }
    push_str(&mut r, "/");
    push_str(&mut r, name);
    r
}

/// The index path of an artifact name: the name is lower-cased first, so
/// that names differing only in case share one entry.
pub fn get_path_for_crate(crate_name: &str) -> (r: String)
    requires
        crate_name@.len() > 0,
    ensures
        r@ == shard_path(lower_of(crate_name@)),
        lower_of(crate_name@).len() >= crate_name@.len(),
{
    let lower = lowercase(crate_name);
    shard_path_of(lower.as_str())
}

/// The index path of `crate_name` below the directory `index_dir`.
pub fn get_crates_io_index_path(index_dir: &str, crate_name: &str) -> (r: String)
    requires
        crate_name@.len() > 0,
    ensures
        r@ == index_dir@ + shard_path(lower_of(crate_name@)),
{
    let mut r = string_of(index_dir);
    let p = get_path_for_crate(crate_name);
    push_str(&mut r, p.as_str());
    r
}

} // verus!
