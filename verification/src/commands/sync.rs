//! The sync command's counting helper.
//!
//! Fetching the registry from its remote home is the surrounding
//! binary's work; the core only counts what a directory listing holds.

use vstd::prelude::*;
use crate::paths::{spec_extension, extension_chars};
use crate::text::{chars_of, chars_eq};

verus! {

/// How many names of a listing carry the registry's file extension.
pub open spec fn spec_count_toml(names: Seq<String>) -> nat
    decreases names.len(),
{
    if names.len() == 0 {
        0
    } else {
        spec_count_toml(names.drop_last()) + if spec_extension(names.last()@) == Some("toml"@) {
            1nat
        } else {
            0nat
        }
    }
}

/// Counts the registry entries among a directory's file names.
pub fn count_apps(names: &Vec<String>) -> (r: usize)
    ensures
        r == spec_count_toml(names@),
{
    let mut count: usize = 0;
    let mut i: usize = 0;
    proof {
        assert(names@.subrange(0, 0) =~= Seq::<String>::empty());
    }
    while i < names.len()
        invariant
            i <= names@.len(),
            count == spec_count_toml(names@.subrange(0, i as int)),
            count <= i,
        decreases names@.len() - i,
    {
        proof {
            assert(names@.subrange(0, i + 1).drop_last() =~= names@.subrange(0, i as int));
            assert(names@.subrange(0, i + 1).last() == names@[i as int]);
        }
        let is_toml = match extension_chars(&chars_of(names[i].as_str())) {
            Some(e) => chars_eq(&e, &chars_of("toml")),
            None => false,
        };
        if is_toml {
            count += 1;
        }
        i += 1;
    }
    proof {
        assert(names@.subrange(0, names@.len() as int) =~= names@);
    }
    count
}

} // verus!
