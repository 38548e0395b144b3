//! Path strings: base name, stem and extension.
//!
//! Paths stay plain strings throughout the crate. The rules below follow
//! the usual Unix reading of a path: the base name is what follows the
//! last slash, the extension is what follows the last dot of the base
//! name, except that a lone leading dot marks a hidden file rather than
//! an extension.

use vstd::prelude::*;
use crate::text::{last_index_of, last_index_of_exec, lemma_last_index_of};

verus! {

/// The final path component: everything after the last '/', or the whole
/// string when there is none.
pub open spec fn spec_base_name(p: Seq<char>) -> Seq<char> {
    match last_index_of(p, '/') {
        Some(i) => p.subrange(i + 1, p.len() as int),
        None => p,
    }
}

/// The extension of the base name: what follows its last '.', unless the
/// only dot is the leading one of a hidden file. A trailing dot yields an
/// empty extension.
pub open spec fn spec_extension(p: Seq<char>) -> Option<Seq<char>> {
    let b = spec_base_name(p);
    match last_index_of(b, '.') {
        Some(i) => if i == 0 {
            None
        } else {
            Some(b.subrange(i + 1, b.len() as int))
        },
        None => None,
    }
}

/// The stem of the base name: what precedes the extension, or the whole
/// base name when there is no extension.
pub open spec fn spec_file_stem(p: Seq<char>) -> Option<Seq<char>> {
    let b = spec_base_name(p);
    if b.len() == 0 {
        None
    } else {
        match last_index_of(b, '.') {
            Some(i) => if i == 0 {
                Some(b)
            } else {
                Some(b.subrange(0, i))
            },
            None => Some(b),
        }
    }
}

/// A directory path and a file name, joined with a slash.
pub fn join_path(dir: &str, name: &str) -> (r: String)
    ensures
        r@ == dir@ + "/"@ + name@,
{
    String::from_str(dir).concat("/").concat(name)
}

/// The base name of a path, as characters.
pub fn base_name_chars(p: &Vec<char>) -> (r: Vec<char>)
    ensures
        r@ == spec_base_name(p@),
{
    let n = p.len();
    let opt = last_index_of_exec(p, '/');
    proof {
        lemma_last_index_of(p@, '/');
        if last_index_of(p@, '/') is None {
            assert(p@.subrange(0, p@.len() as int) =~= p@);
        }
    }
    let start: usize = match opt {
        Some(i) => i + 1,
        None => 0,
    };
    let mut r: Vec<char> = Vec::new();
    let mut i: usize = start;
    while i < p.len()
        invariant
            start <= i <= p@.len(),
            r@ == p@.subrange(start as int, i as int),
        decreases p@.len() - i,
    {
        r.push(p[i]);
        proof {
            assert(r@ =~= p@.subrange(start as int, i + 1));
        }
        i += 1;
    }
    r
}

/// The extension of a path, as characters.
pub fn extension_chars(p: &Vec<char>) -> (r: Option<Vec<char>>)
    ensures
        match r {
            Some(e) => spec_extension(p@) == Some(e@),
            None => spec_extension(p@) is None,
        },
{
    let b = base_name_chars(p);
    let n = b.len();
    match last_index_of_exec(&b, '.') {
        Some(i) => {
            if i == 0 {
                None
            } else {
                proof {
                    lemma_last_index_of(b@, '.');
                }
                let mut e: Vec<char> = Vec::new();
                let mut j: usize = i + 1;
                while j < b.len()
                    invariant
                        i + 1 <= j <= b@.len(),
                        e@ == b@.subrange(i + 1, j as int),
                    decreases b@.len() - j,
                {
                    e.push(b[j]);
                    proof {
                        assert(e@ =~= b@.subrange(i + 1, j + 1));
                    }
                    j += 1;
                }
                Some(e)
            }
        },
        None => None,
    }
}

/// The file stem of a path, as characters.
pub fn file_stem_chars(p: &Vec<char>) -> (r: Option<Vec<char>>)
    ensures
        match r {
            Some(s) => spec_file_stem(p@) == Some(s@),
            None => spec_file_stem(p@) is None,
        },
{
    let b = base_name_chars(p);
    let n = b.len();
    if n == 0 {
        return None;
    }
    match last_index_of_exec(&b, '.') {
        Some(i) => {
            if i == 0 {
                Some(b)
            } else {
                proof {
                    lemma_last_index_of(b@, '.');
                }
                let mut s: Vec<char> = Vec::new();
                let mut j: usize = 0;
                while j < i
                    invariant
                        j <= i < b@.len(),
                        s@ == b@.subrange(0, j as int),
                    decreases i - j,
                {
                    s.push(b[j]);
                    proof {
                        assert(s@ =~= b@.subrange(0, j + 1));
                    }
                    j += 1;
                }
                Some(s)
            }
        },
        None => Some(b),
    }
}

} // verus!
