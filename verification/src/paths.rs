//! Where a build keeps its files: finding the project root from an output
//! directory.

use crate::text::{replace_char, replaced, text_eq, texts};
use vstd::prelude::*;
use vstd::string::*;

verus! {

/// The name of the directory that a build writes below.
pub open spec fn target_name() -> Seq<char> {
    "target"@
}

/// The project root that an output directory lies under: the components of
/// the path before its last component named `target`. `None` where no
/// component has that name.
pub open spec fn root_of(components: Seq<Seq<char>>) -> Option<Seq<Seq<char>>>
    decreases components.len(),
{
    if components.len() == 0 {
        None
    } else if components.last() == target_name() {
        Some(components.drop_last())
    } else {
        root_of(components.drop_last())
    }
}

/// Finds the project root above an output directory, both given as path
/// components: trailing components are dropped until the last one is `target`,
/// and then that one is dropped too.
pub fn find_root_path(out_dir: &Vec<String>) -> (r: Option<Vec<String>>)
    ensures
        match r {
            Some(root) => root_of(texts(out_dir@)) == Some(texts(root@)),
            None => root_of(texts(out_dir@)) is None,
        },
{
    let ghost all = texts(out_dir@);
    let mut n: usize = out_dir.len();
    assert(all.take(n as int) =~= all);
    while n > 0
        invariant
            n <= out_dir.len(),
            all == texts(out_dir@),
            root_of(all) == root_of(all.take(n as int)),
        decreases n,
    {
        let ghost front = all.take(n as int);
        assert(front.last() == out_dir[n - 1]@);
        assert(front.drop_last() =~= all.take(n - 1));
        if text_eq(out_dir[n - 1].as_str(), "target") {
            let mut root: Vec<String> = Vec::new();
            let mut i: usize = 0;
            while i < n - 1
                invariant
                    i <= n - 1,
                    n <= out_dir.len(),
                    all == texts(out_dir@),
                    texts(root@) == all.take(i as int),
                decreases n - 1 - i,
            {
                let ghost before = root@;
                root.push(out_dir[i].clone());
                assert(texts(root@) =~= texts(before).push(out_dir[i as int]@));
                assert(all.take(i as int).push(all[i as int]) =~= all.take(i + 1));
                i = i + 1;
            }
            return Some(root);
        }
        n = n - 1;
    }
    None
}

/// The lower-case form of an ASCII capital; any other character unchanged.
pub open spec fn ascii_lower(c: char) -> char {
    if 'A' <= c && c <= 'Z' {
        ((c as u8) + 32) as u8 as char
    } else {
        c
    }
}

/// A text with its ASCII capitals in lower case.
pub open spec fn ascii_lowercase(s: Seq<char>) -> Seq<char> {
    Seq::new(s.len(), |i: int| ascii_lower(s[i]))
}

/// The prefix of the environment variables that name the active features.
pub open spec fn feature_prefix() -> Seq<char> {
    "CARGO_FEATURE_"@
}

/// The feature that an environment variable names: for a variable that
/// starts with the prefix, the rest in lower case with a hyphen for every
/// underscore.
pub open spec fn feature_named(variable: Seq<char>) -> Option<Seq<char>> {
    if feature_prefix().is_prefix_of(variable) {
        Some(
            replaced(ascii_lowercase(variable.skip(feature_prefix().len() as int)), '_', "-"@),
        )
    } else {
        None
    }
}

/// `str::to_ascii_lowercase`. Trusted: every ASCII capital becomes its
/// lower-case letter, and every other character stays.
#[verifier::external_body]
fn to_ascii_lowercase(s: &str) -> (r: String)
    ensures
        r@ == ascii_lowercase(s@),
{
    s.to_ascii_lowercase()
}

/// The feature that an environment variable of a build names, if it names
/// one.
pub fn feature_of_variable(variable: &str) -> (r: Option<String>)
    ensures
        match r {
            Some(name) => feature_named(variable@) == Some(name@),
            None => feature_named(variable@) is None,
        },
{
    let prefix = "CARGO_FEATURE_";
    let p = prefix.unicode_len();
    let n = variable.unicode_len();
    if n < p {
        return None;
    }
    if !text_eq(variable.substring_char(0, p), prefix) {
        assert(variable@.subrange(0, p as int) != prefix@);
        return None;
    }
    assert(variable@.subrange(0, p as int) == prefix@);
    let rest = variable.substring_char(p, n);
    assert(rest@ =~= variable@.skip(p as int));
    let lower = to_ascii_lowercase(rest);
    Some(replace_char(lower.as_str(), '_', "-"))
}

} // verus!
