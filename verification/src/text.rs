//! Character-level text utilities.
//!
//! Every string the core manipulates is converted once into a vector of
//! characters, transformed by the verified functions of this module, and
//! converted back. The specification functions here are the vocabulary in
//! which the contracts of the rest of the crate are written.

use vstd::prelude::*;

verus! {

/// ASCII lower-casing of a single character; characters outside 'A'..='Z'
/// are unchanged.
pub open spec fn lower_char(c: char) -> char {
    if 65 <= c as u32 && c as u32 <= 90 {
        ((c as u32 + 32) as u32) as char
    } else {
        c
    }
}

/// ASCII lower-casing of a whole sequence.
pub open spec fn lower_seq(s: Seq<char>) -> Seq<char> {
    s.map_values(|c: char| lower_char(c))
}

/// ASCII upper-casing of a single character; characters outside 'a'..='z'
/// are unchanged.
pub open spec fn upper_char(c: char) -> char {
    if 97 <= c as u32 && c as u32 <= 122 {
        ((c as u32 - 32) as u32) as char
    } else {
        c
    }
}

pub open spec fn is_digit_char(c: char) -> bool {
    48 <= c as u32 && c as u32 <= 57
}

/// Relies on char::from_u32: every Unicode scalar value below the surrogate
/// range maps back to the character with that code.
#[verifier::external_body]
fn char_from_u32(u: u32) -> (r: char)
    requires
        u < 0xD800,
    ensures
        r as u32 == u,
{
    char::from_u32(u).unwrap_or(' ')
}

/// Relies on Iterator::collect for String: collecting characters yields the
/// string of exactly those characters in order.
#[verifier::external_body]
pub fn string_from_chars(v: &Vec<char>) -> (r: String)
    ensures
        r@ == v@,
{
    v.iter().collect()
}

/// The characters of a string slice, as a vector.
pub fn chars_of(s: &str) -> (r: Vec<char>)
    ensures
        r@ == s@,
{
    let n = s.unicode_len();
    let mut r: Vec<char> = Vec::new();
    let mut i: usize = 0;
    while i < n
        invariant
            n == s@.len(),
            i <= n,
            r@ == s@.subrange(0, i as int),
        decreases n - i,
    {
        r.push(s.get_char(i));
        i += 1;
        proof {
            assert(r@ =~= s@.subrange(0, i as int));
        }
    }
    proof {
        assert(r@ =~= s@);
    }
    r
}

pub fn to_lower_char(c: char) -> (r: char)
    ensures
        r == lower_char(c),
{
    let u = c as u32;
    if 65 <= u && u <= 90 {
        char_from_u32(u + 32)
    } else {
        proof {
            vstd::utf8::char_u32_cast(c, u);
        }
        c
    }
}

pub fn to_upper_char(c: char) -> (r: char)
    ensures
        r == upper_char(c),
{
    let u = c as u32;
    if 97 <= u && u <= 122 {
        char_from_u32(u - 32)
    } else {
        proof {
            vstd::utf8::char_u32_cast(c, u);
        }
        c
    }
}

pub fn lower_chars(v: &Vec<char>) -> (r: Vec<char>)
    ensures
        r@ == lower_seq(v@),
{
    let mut r: Vec<char> = Vec::new();
    let mut i: usize = 0;
    while i < v.len()
        invariant
            i <= v@.len(),
            r@ == lower_seq(v@.subrange(0, i as int)),
        decreases v@.len() - i,
    {
        r.push(to_lower_char(v[i]));
        i += 1;
        proof {
            assert(r@ =~= lower_seq(v@.subrange(0, i as int)));
        }
    }
    proof {
        assert(v@.subrange(0, v@.len() as int) =~= v@);
    }
    r
}

pub fn is_digit(c: char) -> (r: bool)
    ensures
        r == is_digit_char(c),
{
    let u = c as u32;
    48 <= u && u <= 57
}

pub open spec fn seq_starts_with(s: Seq<char>, p: Seq<char>) -> bool {
    p.len() <= s.len() && s.subrange(0, p.len() as int) == p
}

pub open spec fn seq_ends_with(s: Seq<char>, p: Seq<char>) -> bool {
    p.len() <= s.len() && s.subrange(s.len() - p.len(), s.len() as int) == p
}

pub fn starts_with(v: &Vec<char>, p: &Vec<char>) -> (r: bool)
    ensures
        r == seq_starts_with(v@, p@),
{
    if p.len() > v.len() {
        return false;
    }
    let mut i: usize = 0;
    while i < p.len()
        invariant
            p@.len() <= v@.len(),
            i <= p@.len(),
            forall|j: int| 0 <= j < i ==> v@[j] == p@[j],
        decreases p@.len() - i,
    {
        if v[i] != p[i] {
            assert(v@.subrange(0, p@.len() as int)[i as int] != p@[i as int]);
            return false;
        }
        i += 1;
    }
    proof {
        assert(v@.subrange(0, p@.len() as int) =~= p@);
    }
    true
}

pub fn ends_with(v: &Vec<char>, p: &Vec<char>) -> (r: bool)
    ensures
        r == seq_ends_with(v@, p@),
{
    if p.len() > v.len() {
        return false;
    }
    let n = v.len();
    let off = n - p.len();
    let mut i: usize = 0;
    while i < p.len()
        invariant
            p@.len() <= v@.len(),
            n == v@.len(),
            off == v@.len() - p@.len(),
            i <= p@.len(),
            forall|j: int| 0 <= j < i ==> v@[off + j] == p@[j],
        decreases p@.len() - i,
    {
        if v[off + i] != p[i] {
            assert(v@.subrange(off as int, v@.len() as int)[i as int] != p@[i as int]);
            return false;
        }
        i += 1;
    }
    proof {
        assert(v@.subrange(off as int, v@.len() as int) =~= p@);
    }
    true
}

/// The pattern `p` occurs in `s` at position `i`.
pub open spec fn occurs_at(s: Seq<char>, p: Seq<char>, i: int) -> bool {
    0 <= i && i + p.len() <= s.len() && s.subrange(i, i + p.len()) == p
}

pub open spec fn seq_contains(s: Seq<char>, p: Seq<char>) -> bool {
    exists|i: int| occurs_at(s, p, i)
}

pub fn contains_seq(v: &Vec<char>, p: &Vec<char>) -> (r: bool)
    ensures
        r == seq_contains(v@, p@),
{
    if p.len() > v.len() {
        assert(forall|i: int| !occurs_at(v@, p@, i));
        return false;
    }
    if p.len() == 0 {
        proof {
            assert(v@.subrange(0, 0) =~= p@);
            assert(occurs_at(v@, p@, 0));
        }
        return true;
    }
    let n = v.len();
    let last = n - p.len();
    let mut i: usize = 0;
    while i <= last
        invariant
            1 <= p@.len() <= v@.len(),
            n == v@.len(),
            last == v@.len() - p@.len(),
            i <= last + 1,
            forall|k: int| 0 <= k < i ==> !occurs_at(v@, p@, k),
        decreases last + 1 - i,
    {
        let mut j: usize = 0;
        let mut hit = true;
        while j < p.len()
            invariant
                1 <= p@.len() <= v@.len(),
                n == v@.len(),
                i + p@.len() <= v@.len(),
                j <= p@.len(),
                hit ==> forall|t: int| 0 <= t < j ==> v@[i + t] == p@[t],
                !hit ==> !occurs_at(v@, p@, i as int),
            decreases p@.len() - j,
        {
            if v[i + j] != p[j] {
                proof {
                    if occurs_at(v@, p@, i as int) {
                        assert(v@.subrange(i as int, i + p@.len())[j as int] == p@[j as int]);
                    }
                }
                hit = false;
            }
            j += 1;
        }
        if hit {
            proof {
                assert(v@.subrange(i as int, i + p@.len()) =~= p@);
                assert(occurs_at(v@, p@, i as int));
            }
            return true;
        }
        i += 1;
    }
    proof {
        assert forall|k: int| !occurs_at(v@, p@, k) by {
            if 0 <= k <= last as int {
                assert(!occurs_at(v@, p@, k));
            }
        }
    }
    false
}

/// Case-insensitive (ASCII) equality.
pub open spec fn eq_ignore_case(a: Seq<char>, b: Seq<char>) -> bool {
    lower_seq(a) == lower_seq(b)
}

pub fn eq_ignore_case_exec(a: &Vec<char>, b: &Vec<char>) -> (r: bool)
    ensures
        r == eq_ignore_case(a@, b@),
{
    if a.len() != b.len() {
        proof {
            assert(lower_seq(a@).len() == a@.len());
            assert(lower_seq(b@).len() == b@.len());
        }
        return false;
    }
    let mut i: usize = 0;
    while i < a.len()
        invariant
            a@.len() == b@.len(),
            i <= a@.len(),
            forall|j: int| 0 <= j < i ==> lower_char(a@[j]) == lower_char(b@[j]),
        decreases a@.len() - i,
    {
        if to_lower_char(a[i]) != to_lower_char(b[i]) {
            proof {
                assert(lower_seq(a@)[i as int] != lower_seq(b@)[i as int]);
            }
            return false;
        }
        i += 1;
    }
    proof {
        assert(lower_seq(a@) =~= lower_seq(b@));
    }
    true
}

/// The position of the last occurrence of `c` in `s`, if any.
pub open spec fn last_index_of(s: Seq<char>, c: char) -> Option<int>
    decreases s.len(),
{
    if s.len() == 0 {
        None
    } else if s[s.len() - 1] == c {
        Some(s.len() - 1)
    } else {
        last_index_of(s.subrange(0, s.len() - 1), c)
    }
}

/// `last_index_of` returns the largest index holding `c`, and `None`
/// exactly when `c` does not occur.
pub proof fn lemma_last_index_of(s: Seq<char>, c: char)
    ensures
        match last_index_of(s, c) {
            Some(i) => 0 <= i < s.len() && s[i] == c && forall|j: int|
                i < j < s.len() ==> s[j] != c,
            None => forall|j: int| 0 <= j < s.len() ==> s[j] != c,
        },
    decreases s.len(),
{
    if s.len() == 0 {
    } else if s[s.len() - 1] == c {
    } else {
        let sub = s.subrange(0, s.len() - 1);
        lemma_last_index_of(sub, c);
        match last_index_of(sub, c) {
            Some(i) => {
                assert(s[i] == sub[i]);
                assert forall|j: int| i < j < s.len() implies s[j] != c by {
                    if j < s.len() - 1 {
                        assert(s[j] == sub[j]);
                    }
                }
            },
            None => {
                assert forall|j: int| 0 <= j < s.len() implies s[j] != c by {
                    if j < s.len() - 1 {
                        assert(s[j] == sub[j]);
                    }
                }
            },
        }
    }
}

pub fn last_index_of_exec(v: &Vec<char>, c: char) -> (r: Option<usize>)
    ensures
        match r {
            Some(i) => last_index_of(v@, c) == Some(i as int),
            None => last_index_of(v@, c) is None,
        },
{
    let mut i: usize = v.len();
    proof {
        assert(v@.subrange(0, v@.len() as int) =~= v@);
    }
    while i > 0
        invariant
            i <= v@.len(),
            last_index_of(v@, c) == last_index_of(v@.subrange(0, i as int), c),
        decreases i,
    {
        i -= 1;
        let prev = Ghost(v@.subrange(0, i + 1));
        proof {
            assert(prev@[prev@.len() - 1] == v@[i as int]);
            assert(prev@.subrange(0, prev@.len() - 1) =~= v@.subrange(0, i as int));
        }
        if v[i] == c {
            return Some(i);
        }
    }
    proof {
        assert(v@.subrange(0, 0) =~= Seq::<char>::empty());
    }
    None
}

pub fn contains_char(v: &Vec<char>, c: char) -> (r: bool)
    ensures
        r == v@.contains(c),
{
    let mut i: usize = 0;
    while i < v.len()
        invariant
            i <= v@.len(),
            forall|j: int| 0 <= j < i ==> v@[j] != c,
        decreases v@.len() - i,
    {
        if v[i] == c {
            return true;
        }
        i += 1;
    }
    false
}

pub fn chars_eq(a: &Vec<char>, b: &Vec<char>) -> (r: bool)
    ensures
        r == (a@ == b@),
{
    if a.len() != b.len() {
        return false;
    }
    let mut i: usize = 0;
    while i < a.len()
        invariant
            a@.len() == b@.len(),
            i <= a@.len(),
            forall|j: int| 0 <= j < i ==> a@[j] == b@[j],
        decreases a@.len() - i,
    {
        if a[i] != b[i] {
            return false;
        }
        i += 1;
    }
    proof {
        assert(a@ =~= b@);
    }
    true
}

/// Splitting on a set of separator characters, as Rust's `str::split`
/// does: every separator ends the token before it, so adjacent
/// separators and separators at either end produce empty tokens, and the
/// empty input yields one empty token.
pub open spec fn spec_split(s: Seq<char>, seps: Seq<char>) -> Seq<Seq<char>>
    decreases s.len(),
{
    if s.len() == 0 {
        seq![Seq::<char>::empty()]
    } else {
        let rest = spec_split(s.drop_last(), seps);
        if seps.contains(s.last()) {
            rest.push(Seq::<char>::empty())
        } else {
            rest.update(rest.len() - 1, rest.last().push(s.last()))
        }
    }
}

pub proof fn lemma_spec_split_len(s: Seq<char>, seps: Seq<char>)
    ensures
        spec_split(s, seps).len() >= 1,
    decreases s.len(),
{
    if s.len() > 0 {
        lemma_spec_split_len(s.drop_last(), seps);
    }
}

pub fn split_chars(v: &Vec<char>, seps: &Vec<char>) -> (r: Vec<Vec<char>>)
    ensures
        r.deep_view() == spec_split(v@, seps@),
        r@.len() >= 1,
{
    let mut out: Vec<Vec<char>> = Vec::new();
    let mut cur: Vec<char> = Vec::new();
    let mut i: usize = 0;
    proof {
        assert(v@.subrange(0, 0) =~= Seq::<char>::empty());
        assert(out.deep_view().push(cur@) =~= spec_split(v@.subrange(0, 0), seps@));
    }
    while i < v.len()
        invariant
            i <= v@.len(),
            spec_split(v@.subrange(0, i as int), seps@) == out.deep_view().push(cur@),
        decreases v@.len() - i,
    {
        let ghost pre = v@.subrange(0, i as int);
        let ghost post = v@.subrange(0, i + 1);
        proof {
            assert(post.drop_last() =~= pre);
            assert(post.last() == v@[i as int]);
        }
        if contains_char(seps, v[i]) {
            out.push(cur);
            cur = Vec::new();
            proof {
                assert(out.deep_view().push(cur@) =~~= spec_split(post, seps@));
            }
        } else {
            cur.push(v[i]);
            proof {
                let prev = spec_split(pre, seps@);
                lemma_spec_split_len(pre, seps@);
                assert(out.deep_view().push(cur@) =~~= prev.update(
                    prev.len() - 1,
                    prev.last().push(v@[i as int]),
                ));
            }
        }
        i += 1;
    }
    out.push(cur);
    proof {
        assert(v@.subrange(0, v@.len() as int) =~= v@);
        assert(out.deep_view() =~~= spec_split(v@, seps@));
    }
    out
}

/// Joining tokens with a single separator character.
pub open spec fn spec_join(parts: Seq<Seq<char>>, sep: char) -> Seq<char>
    decreases parts.len(),
{
    if parts.len() == 0 {
        Seq::<char>::empty()
    } else if parts.len() == 1 {
        parts[0]
    } else {
        spec_join(parts.drop_last(), sep) + seq![sep] + parts.last()
    }
}

pub fn join_chars(parts: &Vec<Vec<char>>, sep: char) -> (r: Vec<char>)
    ensures
        r@ == spec_join(parts.deep_view(), sep),
{
    let mut out: Vec<char> = Vec::new();
    let mut i: usize = 0;
    while i < parts.len()
        invariant
            i <= parts@.len(),
            parts.deep_view().len() == parts@.len(),
            out@ == spec_join(parts.deep_view().subrange(0, i as int), sep),
        decreases parts@.len() - i,
    {
        let ghost pre = parts.deep_view().subrange(0, i as int);
        let ghost post = parts.deep_view().subrange(0, i + 1);
        proof {
            assert(post.drop_last() =~= pre);
            assert(post.last() == parts.deep_view()[i as int]);
            assert(parts.deep_view()[i as int] == parts@[i as int]@);
        }
        if i > 0 {
            out.push(sep);
        }
        let part = &parts[i];
        proof {
            assert(part@.subrange(0, 0) =~= Seq::<char>::empty());
            if i == 0 {
                assert(out@ =~= part@.subrange(0, 0));
            } else {
                assert(out@ =~= spec_join(pre, sep) + seq![sep] + part@.subrange(0, 0));
            }
        }
        let mut j: usize = 0;
        while j < part.len()
            invariant
                j <= part@.len(),
                i < parts@.len(),
                part == parts@[i as int],
                out@ == if i == 0 {
                    part@.subrange(0, j as int)
                } else {
                    spec_join(parts.deep_view().subrange(0, i as int), sep) + seq![sep]
                        + part@.subrange(0, j as int)
                },
            decreases part@.len() - j,
        {
            out.push(part[j]);
            proof {
                assert(part@.subrange(0, j + 1) =~= part@.subrange(0, j as int).push(part@[j as int]));
            }
            j += 1;
        }
        proof {
            assert(part@.subrange(0, part@.len() as int) =~= part@);
            if i == 0 {
                assert(out@ =~= spec_join(post, sep));
            } else {
                assert(out@ =~= spec_join(post, sep));
            }
        }
        i += 1;
    }
    proof {
        if parts@.len() == 0 {
            assert(out@ =~= spec_join(parts.deep_view(), sep));
        } else {
            assert(parts.deep_view().subrange(0, parts.deep_view().len() as int) =~= parts.deep_view());
        }
    }
    out
}

/// Replacing every occurrence of a non-empty pattern, leftmost first and
/// without overlap, as Rust's `str::replace` does.
pub open spec fn spec_replace(s: Seq<char>, pat: Seq<char>, rep: Seq<char>) -> Seq<char>
    decreases s.len(),
        when pat.len() > 0
{
    if s.len() < pat.len() {
        s
    } else if s.subrange(0, pat.len() as int) == pat {
        rep + spec_replace(s.subrange(pat.len() as int, s.len() as int), pat, rep)
    } else {
        seq![s[0]] + spec_replace(s.subrange(1, s.len() as int), pat, rep)
    }
}

pub fn replace_chars(v: &Vec<char>, pat: &Vec<char>, rep: &Vec<char>) -> (r: Vec<char>)
    requires
        pat@.len() > 0,
    ensures
        r@ == spec_replace(v@, pat@, rep@),
{
    let n = v.len();
    let mut out: Vec<char> = Vec::new();
    let mut i: usize = 0;
    proof {
        assert(v@.subrange(0, n as int) =~= v@);
        assert(out@ + spec_replace(v@, pat@, rep@) =~= spec_replace(v@, pat@, rep@));
    }
    while i < n
        invariant
            pat@.len() > 0,
            n == v@.len(),
            i <= n,
            spec_replace(v@, pat@, rep@) == out@ + spec_replace(
                v@.subrange(i as int, n as int),
                pat@,
                rep@,
            ),
        decreases n - i,
    {
        let ghost tail = v@.subrange(i as int, n as int);
        let mut is_match = pat.len() <= n - i;
        if is_match {
            let mut j: usize = 0;
            while j < pat.len()
                invariant
                    n == v@.len(),
                    i + pat@.len() <= n,
                    j <= pat@.len(),
                    is_match == (forall|t: int| 0 <= t < j ==> v@[i + t] == pat@[t]),
                decreases pat@.len() - j,
            {
                if v[i + j] != pat[j] {
                    is_match = false;
                }
                j += 1;
            }
        }
        if is_match {
            proof {
                assert(tail.len() >= pat@.len());
                assert(tail.subrange(0, pat@.len() as int) =~= pat@);
                assert(tail.subrange(pat@.len() as int, tail.len() as int) =~= v@.subrange(
                    i + pat@.len(),
                    n as int,
                ));
            }
            let ghost base = out@;
            let mut j: usize = 0;
            while j < rep.len()
                invariant
                    j <= rep@.len(),
                    out@ == base + rep@.subrange(0, j as int),
                decreases rep@.len() - j,
            {
                out.push(rep[j]);
                proof {
                    assert(out@ =~= base + rep@.subrange(0, j + 1));
                }
                j += 1;
            }
            proof {
                assert(rep@.subrange(0, rep@.len() as int) =~= rep@);
                assert(spec_replace(tail, pat@, rep@) == rep@ + spec_replace(
                    v@.subrange(i + pat@.len(), n as int),
                    pat@,
                    rep@,
                ));
                assert(out@ + spec_replace(v@.subrange(i + pat@.len(), n as int), pat@, rep@)
                    =~= base + spec_replace(tail, pat@, rep@));
            }
            i += pat.len();
        } else {
            proof {
                if tail.len() >= pat@.len() {
                    if tail.subrange(0, pat@.len() as int) == pat@ {
                        let t = choose|t: int|
                            0 <= t < pat@.len() && v@[i + t] != pat@[t];
                        assert(tail.subrange(0, pat@.len() as int)[t] == pat@[t]);
                        assert(false);
                    }
                    assert(tail.subrange(1, tail.len() as int) =~= v@.subrange(i + 1, n as int));
                    assert(spec_replace(tail, pat@, rep@) == seq![tail[0]] + spec_replace(
                        v@.subrange(i + 1, n as int),
                        pat@,
                        rep@,
                    ));
                } else {
                    assert(spec_replace(tail, pat@, rep@) == tail);
                    assert(tail =~= seq![tail[0]] + v@.subrange(i + 1, n as int));
                    assert(spec_replace(v@.subrange(i + 1, n as int), pat@, rep@) == v@.subrange(
                        i + 1,
                        n as int,
                    ));
                }
            }
            let ghost base = out@;
            out.push(v[i]);
            proof {
                assert(out@ =~= base + seq![tail[0]]);
                assert(base + spec_replace(tail, pat@, rep@) =~= out@ + spec_replace(
                    v@.subrange(i + 1, n as int),
                    pat@,
                    rep@,
                ));
            }
            i += 1;
        }
    }
    proof {
        assert(v@.subrange(n as int, n as int) =~= Seq::<char>::empty());
        assert(spec_replace(Seq::<char>::empty(), pat@, rep@) =~= Seq::<char>::empty());
        assert(out@ + Seq::<char>::empty() =~= out@);
    }
    out
}

/// Lexicographic order on character sequences, by Unicode scalar value.
/// On the strings this crate produces it coincides with the order Rust's
/// string comparison gives, since UTF-8 byte order follows scalar order.
pub open spec fn spec_le(a: Seq<char>, b: Seq<char>) -> bool
    decreases a.len(),
{
    if a.len() == 0 {
        true
    } else if b.len() == 0 {
        false
    } else if a[0] == b[0] {
        spec_le(a.drop_first(), b.drop_first())
    } else {
        (a[0] as u32) < (b[0] as u32)
    }
}

pub proof fn lemma_le_total(a: Seq<char>, b: Seq<char>)
    ensures
        spec_le(a, b) || spec_le(b, a),
    decreases a.len(),
{
    if a.len() == 0 || b.len() == 0 {
    } else if a[0] == b[0] {
        lemma_le_total(a.drop_first(), b.drop_first());
    } else {
        if !((a[0] as u32) < (b[0] as u32)) && !((b[0] as u32) < (a[0] as u32)) {
            vstd::utf8::char_u32_cast(a[0], a[0] as u32);
            vstd::utf8::char_u32_cast(b[0], b[0] as u32);
        }
    }
}

pub proof fn lemma_le_trans(a: Seq<char>, b: Seq<char>, c: Seq<char>)
    requires
        spec_le(a, b),
        spec_le(b, c),
    ensures
        spec_le(a, c),
    decreases a.len(),
{
    if a.len() == 0 || b.len() == 0 || c.len() == 0 {
    } else if a[0] == b[0] && b[0] == c[0] {
        lemma_le_trans(a.drop_first(), b.drop_first(), c.drop_first());
    }
}

pub fn le_chars(a: &Vec<char>, b: &Vec<char>) -> (r: bool)
    ensures
        r == spec_le(a@, b@),
{
    let mut i: usize = 0;
    proof {
        assert(a@.subrange(0, a@.len() as int) =~= a@);
        assert(b@.subrange(0, b@.len() as int) =~= b@);
    }
    while i < a.len() && i < b.len()
        invariant
            i <= a@.len(),
            i <= b@.len(),
            spec_le(a@, b@) == spec_le(
                a@.subrange(i as int, a@.len() as int),
                b@.subrange(i as int, b@.len() as int),
            ),
        decreases a@.len() - i,
    {
        let ghost ta = a@.subrange(i as int, a@.len() as int);
        let ghost tb = b@.subrange(i as int, b@.len() as int);
        proof {
            assert(ta[0] == a@[i as int]);
            assert(tb[0] == b@[i as int]);
            assert(ta.drop_first() =~= a@.subrange(i + 1, a@.len() as int));
            assert(tb.drop_first() =~= b@.subrange(i + 1, b@.len() as int));
        }
        if a[i] != b[i] {
            return (a[i] as u32) < (b[i] as u32);
        }
        i += 1;
    }
    proof {
        if i >= a@.len() {
            assert(a@.subrange(i as int, a@.len() as int).len() == 0);
        } else {
            assert(b@.subrange(i as int, b@.len() as int).len() == 0);
            assert(a@.subrange(i as int, a@.len() as int).len() > 0);
        }
    }
    i >= a.len()
}

/// A sequence of strings is sorted when every pair of positions is in
/// lexicographic order.
pub open spec fn sorted_strings(s: Seq<String>) -> bool {
    forall|i: int, j: int| 0 <= i < j < s.len() ==> spec_le(s[i]@, s[j]@)
}

/// Insertion sort; keeps exactly the given strings, in sorted order.
pub fn sort_strings(v: Vec<String>) -> (r: Vec<String>)
    ensures
        sorted_strings(r@),
        r@.to_multiset() == v@.to_multiset(),
{
    broadcast use vstd::seq_lib::group_seq_lib_default, vstd::seq_lib::group_to_multiset_ensures,
        vstd::multiset::group_multiset_axioms;

    let mut rest = v;
    let mut r: Vec<String> = Vec::new();
    proof {
        assert(r@.to_multiset().add(rest@.to_multiset()) =~= rest@.to_multiset());
    }
    while rest.len() > 0
        invariant
            sorted_strings(r@),
            r@.to_multiset().add(rest@.to_multiset()) == v@.to_multiset(),
        decreases rest@.len(),
    {
        let ghost rest0 = rest@;
        let x = rest.remove(0);
        proof {
            vstd::seq_lib::to_multiset_remove(rest0, 0);
        }
        let xc = chars_of(x.as_str());
        let mut k: usize = 0;
        while k < r.len() && le_chars(&chars_of(r[k].as_str()), &xc)
            invariant
                k <= r@.len(),
                xc@ == x@,
                forall|t: int| 0 <= t < k ==> spec_le(r@[t]@, x@),
            decreases r@.len() - k,
        {
            k += 1;
        }
        let ghost rold = r@;
        r.insert(k, x);
        proof {
            vstd::seq_lib::to_multiset_insert(rold, k as int, x);
            assert(rest0[0] == x);
            assert(rest0.contains(x));
            vstd::seq_lib::to_multiset_contains(rest0, x);
            assert(rest0.to_multiset().count(x) > 0);
            assert forall|y: String|
                r@.to_multiset().add(rest@.to_multiset()).count(y) == v@.to_multiset().count(
                    y,
                ) by {
                let lhs = r@.to_multiset().add(rest@.to_multiset());
                assert(r@.to_multiset().count(y) == rold.to_multiset().insert(x).count(y));
                assert(rest@.to_multiset().count(y) == rest0.to_multiset().remove(x).count(y));
                if y == x {
                    assert(lhs.count(y) == rold.to_multiset().count(y) + 1 + (
                    rest0.to_multiset().count(y) - 1));
                } else {
                    assert(lhs.count(y) == rold.to_multiset().count(y)
                        + rest0.to_multiset().count(y));
                }
                assert(v@.to_multiset().count(y) == rold.to_multiset().add(
                    rest0.to_multiset(),
                ).count(y));
            }
            assert(r@.to_multiset().add(rest@.to_multiset()) =~= v@.to_multiset());
            if (k as int) < rold.len() {
                lemma_le_total(rold[k as int]@, x@);
            }
            assert forall|i: int, j: int| 0 <= i < j < r@.len() implies spec_le(
                r@[i]@,
                r@[j]@,
            ) by {
                if j < k {
                } else if j == k {
                    assert(r@[j] == x);
                } else {
                    if i < k {
                        assert(r@[j] == rold[j - 1]);
                    } else if i == k {
                        assert(spec_le(x@, rold[k as int]@));
                        assert(rold[k as int] == r@[k + 1]);
                        if j > k + 1 {
                            lemma_le_trans(x@, rold[k as int]@, rold[j - 1]@);
                        }
                    } else {
                        assert(r@[i] == rold[i - 1] && r@[j] == rold[j - 1]);
                    }
                }
            }
        }
    }
    proof {
        assert(rest@.to_multiset() =~= vstd::multiset::Multiset::<String>::empty());
        assert(r@.to_multiset() =~= v@.to_multiset());
    }
    r
}

} // verus!
