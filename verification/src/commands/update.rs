//! The update command's version-text helper.
//!
//! Checking for a newer release and replacing the binary is the
//! surrounding binary's work; the core only strips the tag prefix off
//! a release name.

use vstd::prelude::*;

verus! {

/// The sequence with every leading occurrence of the character
/// removed.
pub open spec fn spec_trim_leading(s: Seq<char>, c: char) -> Seq<char>
    decreases s.len(),
{
    if s.len() > 0 && s[0] == c {
        spec_trim_leading(s.drop_first(), c)
    } else {
        s
    }
}

/// A release version as its three numbers.
#[derive(Debug, Clone, Copy)]
pub struct VersionTriple {
    pub major: u64,
    pub minor: u64,
    pub patch: u64,
}

/// One release triple precedes another: numerically by major, then
/// minor, then patch.
pub open spec fn spec_triple_newer(current: VersionTriple, latest: VersionTriple) -> bool {
    ||| latest.major > current.major
    ||| (latest.major == current.major && latest.minor > current.minor)
    ||| (latest.major == current.major && latest.minor == current.minor && latest.patch
        > current.patch)
}

/// Decides whether the latest release is newer than the current one,
/// on the parsed version numbers.
pub fn should_update(current: VersionTriple, latest: VersionTriple) -> (r: bool)
    ensures
        r == spec_triple_newer(current, latest),
{
    if latest.major != current.major {
        latest.major > current.major
    } else if latest.minor != current.minor {
        latest.minor > current.minor
    } else {
        latest.patch > current.patch
    }
}

/// Strips the leading `v` tag prefix off a release name.
pub fn parse_version(version: &str) -> (r: String)
    ensures
        r@ == spec_trim_leading(version@, 'v'),
{
    let vc = crate::text::chars_of(version);
    let mut i: usize = 0;
    proof {
        assert(vc@.subrange(0, vc@.len() as int) =~= vc@);
    }
    while i < vc.len() && vc[i] == 'v'
        invariant
            i <= vc@.len(),
            spec_trim_leading(vc@, 'v') == spec_trim_leading(
                vc@.subrange(i as int, vc@.len() as int),
                'v',
            ),
        decreases vc@.len() - i,
    {
        proof {
            let tail = vc@.subrange(i as int, vc@.len() as int);
            assert(tail[0] == vc@[i as int]);
            assert(tail.drop_first() =~= vc@.subrange(i + 1, vc@.len() as int));
        }
        i += 1;
    }
    let mut out: Vec<char> = Vec::new();
    let mut j: usize = i;
    while j < vc.len()
        invariant
            i <= j <= vc@.len(),
            out@ == vc@.subrange(i as int, j as int),
        decreases vc@.len() - j,
    {
        out.push(vc[j]);
        proof {
            assert(out@ =~= vc@.subrange(i as int, j + 1));
        }
        j += 1;
    }
    proof {
        let tail = vc@.subrange(i as int, vc@.len() as int);
        if i < vc@.len() {
            assert(tail[0] == vc@[i as int]);
        }
        assert(spec_trim_leading(tail, 'v') == tail);
    }
    crate::text::string_from_chars(&out)
}

} // verus!
