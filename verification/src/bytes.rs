//! Byte-level text helpers for the output of the OS probe tools.
//!
//! The probe tools hand back raw bytes; every decision the supervisor takes
//! from them (which process id a line names, which lines mention the port)
//! is made by the verified functions of this module.

use vstd::prelude::*;

verus! {

/// ASCII decimal digit.
pub open spec fn is_digit(b: u8) -> bool {
    48 <= b <= 57
}

/// ASCII whitespace: space, tab, line feed, vertical tab, form feed,
/// carriage return.
pub open spec fn is_space(b: u8) -> bool {
    b == 32 || b == 9 || b == 10 || b == 11 || b == 12 || b == 13
}

pub open spec fn all_digits(s: Seq<u8>) -> bool {
    forall|i: int| 0 <= i < s.len() ==> is_digit(s[i])
}

/// Numeric value of a sequence of ASCII digits, most significant first.
pub open spec fn dec_value(s: Seq<u8>) -> int
    decreases s.len(),
{
    if s.len() == 0 {
        0
    } else {
        dec_value(s.drop_last()) * 10 + (s.last() - 48)
    }
}

/// What this library reads out of a decimal token: the value, provided the
/// token is nonempty, all digits, and fits in a `u32`.
pub open spec fn parse_u32_spec(s: Seq<u8>) -> Option<u32> {
    if s.len() > 0 && all_digits(s) && dec_value(s) <= u32::MAX {
        Some(dec_value(s) as u32)
    } else {
        None
    }
}

pub proof fn lemma_dec_value_nonneg(s: Seq<u8>)
    requires
        all_digits(s),
    ensures
        dec_value(s) >= 0,
    decreases s.len(),
{
    if s.len() > 0 {
        assert(all_digits(s.drop_last()));
        lemma_dec_value_nonneg(s.drop_last());
    }
}

/// A digit appended on the right can only grow the value.
pub proof fn lemma_dec_value_prefix_le(s: Seq<u8>, i: int)
    requires
        all_digits(s),
        0 <= i <= s.len(),
    ensures
        dec_value(s.subrange(0, i)) <= dec_value(s),
    decreases s.len() - i,
{
    if i < s.len() {
        lemma_dec_value_prefix_le(s, i + 1);
        let a = s.subrange(0, i);
        let b = s.subrange(0, i + 1);
        assert(b.drop_last() =~= a);
        assert(all_digits(a)) by {
            assert(forall|j: int| 0 <= j < a.len() ==> a[j] == s[j]);
        }
        lemma_dec_value_nonneg(a);
        assert(dec_value(b) == dec_value(a) * 10 + (b.last() - 48));
        assert(dec_value(a) <= dec_value(b));
    } else {
        assert(s.subrange(0, i) =~= s);
    }
}

/// Parses a nonempty run of ASCII digits as a `u32`; anything else, or a
/// value over `u32::MAX`, is rejected.
pub fn parse_u32(s: &Vec<u8>) -> (r: Option<u32>)
    ensures
        r == parse_u32_spec(s@),
{
    if s.len() == 0 {
        return None;
    }
    let mut i: usize = 0;
    let mut acc: u64 = 0;
    while i < s.len()
        invariant
            0 < s@.len(),
            i <= s@.len(),
            forall|j: int| 0 <= j < i ==> is_digit(s@[j]),
            acc == dec_value(s@.subrange(0, i as int)),
            acc <= u32::MAX,
        decreases s@.len() - i,
    {
        let b = s[i];
        if b < 48 || b > 57 {
            assert(!all_digits(s@));
            return None;
        }
        let next: u64 = acc * 10 + ((b - 48) as u64);
        proof {
            let p = s@.subrange(0, i as int);
            let q = s@.subrange(0, i + 1);
            assert(q.drop_last() =~= p);
            assert(next == dec_value(q));
        }
        if next > u32::MAX as u64 {
            proof {
                if all_digits(s@) {
                    lemma_dec_value_prefix_le(s@, i + 1);
                }
            }
            return None;
        }
        acc = next;
        i = i + 1;
    }
    proof {
        assert(s@.subrange(0, i as int) =~= s@);
    }
    Some(acc as u32)
}

/// Decimal rendering of a number, most significant digit first.
pub open spec fn dec_digits_of(n: nat) -> Seq<u8>
    decreases n,
{
    if n < 10 {
        seq![(48 + n) as u8]
    } else {
        dec_digits_of(n / 10) + seq![(48 + n % 10) as u8]
    }
}

/// Renders a number in decimal, as the probe tools print ports and ids.
pub fn u32_to_dec(n: u32) -> (r: Vec<u8>)
    ensures
        r@ == dec_digits_of(n as nat),
    decreases n,
{
    if n < 10 {
        let mut v: Vec<u8> = Vec::new();
        v.push(48 + (n as u8));
        proof {
            assert(v@ =~= dec_digits_of(n as nat));
        }
        v
    } else {
        let mut v = u32_to_dec(n / 10);
        v.push(48 + ((n % 10) as u8));
        proof {
            assert(v@ =~= dec_digits_of(n as nat));
        }
        v
    }
}

/// `needle` occurs in `hay` at position `i`.
pub open spec fn match_at(hay: Seq<u8>, needle: Seq<u8>, i: int) -> bool {
    0 <= i && i + needle.len() <= hay.len() && hay.subrange(i, i + needle.len() as int)
        == needle
}

/// `needle` occurs somewhere in `hay`.
pub open spec fn contains_seq(hay: Seq<u8>, needle: Seq<u8>) -> bool {
    exists|i: int| match_at(hay, needle, i)
}

/// Position of the first occurrence of `needle` in `hay`, or `-1`.
pub open spec fn find_seq(hay: Seq<u8>, needle: Seq<u8>) -> int
    decreases hay.len(),
{
    if hay.len() < needle.len() {
        -1
    } else if hay.subrange(0, needle.len() as int) == needle {
        0
    } else if hay.len() == 0 {
        -1
    } else {
        let r = find_seq(hay.drop_first(), needle);
        if r < 0 {
            -1
        } else {
            r + 1
        }
    }
}

/// `find_seq` really names the first occurrence.
pub proof fn lemma_find_seq(hay: Seq<u8>, needle: Seq<u8>)
    ensures
        find_seq(hay, needle) >= 0 ==> match_at(hay, needle, find_seq(hay, needle)) && (
        forall|j: int| 0 <= j < find_seq(hay, needle) ==> !match_at(hay, needle, j)),
        find_seq(hay, needle) < 0 ==> (forall|j: int| !match_at(hay, needle, j)),
    decreases hay.len(),
{
    let f = find_seq(hay, needle);
    if hay.len() < needle.len() {
        assert(forall|j: int| !match_at(hay, needle, j));
    } else if hay.subrange(0, needle.len() as int) == needle {
        assert(match_at(hay, needle, 0));
    } else if hay.len() == 0 {
        assert(needle.len() == 0);
        assert(hay.subrange(0, 0) =~= needle);
    } else {
        let sub = hay.drop_first();
        lemma_find_seq(sub, needle);
        assert forall|j: int| 1 <= j implies match_at(hay, needle, j) == match_at(
            sub,
            needle,
            j - 1,
        ) by {
            if 1 <= j && j + needle.len() <= hay.len() {
                assert(sub.subrange(j - 1, j - 1 + needle.len() as int) =~= hay.subrange(
                    j,
                    j + needle.len() as int,
                ));
            }
        }
        if find_seq(sub, needle) < 0 {
            assert forall|j: int| !match_at(hay, needle, j) by {
                if j >= 1 {
                    assert(!match_at(sub, needle, j - 1));
                }
            }
        } else {
            assert(match_at(hay, needle, f));
            assert forall|j: int| 0 <= j < f implies !match_at(hay, needle, j) by {
                if j >= 1 {
                    assert(!match_at(sub, needle, j - 1));
                }
            }
        }
    }
}

/// Whether `needle` stands at position `i` of `hay`.
fn match_at_exec(hay: &Vec<u8>, needle: &Vec<u8>, i: usize) -> (r: bool)
    requires
        i + needle@.len() <= hay@.len(),
    ensures
        r == match_at(hay@, needle@, i as int),
{
    let hay_len: usize = hay.len();
    assert(hay_len <= usize::MAX);
    let mut j: usize = 0;
    while j < needle.len()
        invariant
            hay@.len() <= usize::MAX,
            i + needle@.len() <= hay@.len(),
            j <= needle@.len(),
            forall|k: int| 0 <= k < j ==> hay@[i + k] == needle@[k],
        decreases needle@.len() - j,
    {
        if hay[i + j] != needle[j] {
            proof {
                if match_at(hay@, needle@, i as int) {
                    assert(hay@.subrange(i as int, i + needle@.len() as int)[j as int]
                        == hay@[i + j]);
                }
            }
            return false;
        }
        j = j + 1;
    }
    proof {
        assert(hay@.subrange(i as int, i + needle@.len() as int) =~= needle@);
    }
    true
}

/// Substring search, as the probe output filters use it.
pub fn contains_bytes(hay: &Vec<u8>, needle: &Vec<u8>) -> (r: bool)
    ensures
        r == contains_seq(hay@, needle@),
{
    if needle.len() == 0 {
        proof {
            assert(hay@.subrange(0, 0) =~= needle@);
            assert(match_at(hay@, needle@, 0));
        }
        return true;
    }
    if needle.len() > hay.len() {
        return false;
    }
    let bound: usize = hay.len() - needle.len();
    let mut i: usize = 0;
    while i <= bound
        invariant
            hay@.len() <= usize::MAX,
            needle@.len() >= 1,
            bound == hay@.len() - needle@.len(),
            i <= bound + 1,
            forall|j: int| 0 <= j < i ==> !match_at(hay@, needle@, j),
        decreases bound + 1 - i,
    {
        if match_at_exec(hay, needle, i) {
            return true;
        }
        i = i + 1;
    }
    false
}

/// Position of the first occurrence of `needle` in `hay`, if any.
pub fn find_bytes(hay: &Vec<u8>, needle: &Vec<u8>) -> (r: Option<usize>)
    ensures
        (r matches Some(i) ==> i == find_seq(hay@, needle@)),
        (r is None ==> find_seq(hay@, needle@) < 0),
{
    proof {
        lemma_find_seq(hay@, needle@);
    }
    if needle.len() == 0 {
        proof {
            assert(hay@.subrange(0, 0) =~= needle@);
            assert(match_at(hay@, needle@, 0));
        }
        return Some(0);
    }
    if needle.len() > hay.len() {
        return None;
    }
    let bound: usize = hay.len() - needle.len();
    let mut i: usize = 0;
    while i <= bound
        invariant
            hay@.len() <= usize::MAX,
            needle@.len() >= 1,
            bound == hay@.len() - needle@.len(),
            i <= bound + 1,
            forall|j: int| 0 <= j < i ==> !match_at(hay@, needle@, j),
        decreases bound + 1 - i,
    {
        if match_at_exec(hay, needle, i) {
            proof {
                lemma_find_seq(hay@, needle@);
                let f = find_seq(hay@, needle@);
                if f < 0 {
                    assert(!match_at(hay@, needle@, i as int));
                }
                if f < i {
                    assert(match_at(hay@, needle@, f));
                }
                if f > i {
                    assert(!match_at(hay@, needle@, i as int));
                }
            }
            return Some(i);
        }
        i = i + 1;
    }
    proof {
        lemma_find_seq(hay@, needle@);
        let f = find_seq(hay@, needle@);
        if f >= 0 {
            assert(match_at(hay@, needle@, f));
        }
    }
    None
}

/// Copy of the byte range `[a, b)` of `v`.
pub fn subvec(v: &Vec<u8>, a: usize, b: usize) -> (r: Vec<u8>)
    requires
        a <= b <= v@.len(),
    ensures
        r@ == v@.subrange(a as int, b as int),
{
    let mut r: Vec<u8> = Vec::new();
    let mut k: usize = a;
    while k < b
        invariant
            a <= k <= b <= v@.len(),
            r@ == v@.subrange(a as int, k as int),
        decreases b - k,
    {
        r.push(v[k]);
        proof {
            assert(r@ =~= v@.subrange(a as int, k + 1));
        }
        k = k + 1;
    }
    r
}

/// `s` without leading whitespace.
pub open spec fn trim_left_spec(s: Seq<u8>) -> Seq<u8>
    decreases s.len(),
{
    if s.len() > 0 && is_space(s[0]) {
        trim_left_spec(s.drop_first())
    } else {
        s
    }
}

/// `s` without trailing whitespace.
pub open spec fn trim_right_spec(s: Seq<u8>) -> Seq<u8>
    decreases s.len(),
{
    if s.len() > 0 && is_space(s.last()) {
        trim_right_spec(s.drop_last())
    } else {
        s
    }
}

/// `s` without leading and trailing whitespace.
pub open spec fn trim_spec(s: Seq<u8>) -> Seq<u8> {
    trim_right_spec(trim_left_spec(s))
}

fn is_space_exec(b: u8) -> (r: bool)
    ensures
        r == is_space(b),
{
    b == 32 || b == 9 || b == 10 || b == 11 || b == 12 || b == 13
}

/// Strips leading and trailing whitespace, as a process-id column is read.
pub fn trim_bytes(v: &Vec<u8>) -> (r: Vec<u8>)
    ensures
        r@ == trim_spec(v@),
{
    let len: usize = v.len();
    proof {
        assert(v@.subrange(0, len as int) =~= v@);
    }
    let mut a: usize = 0;
    while a < len && is_space_exec(v[a])
        invariant
            a <= len,
            len == v@.len(),
            trim_left_spec(v@) == trim_left_spec(v@.subrange(a as int, len as int)),
        decreases len - a,
    {
        proof {
            assert(v@.subrange(a as int, len as int).drop_first() =~= v@.subrange(
                a + 1,
                len as int,
            ));
        }
        a = a + 1;
    }
    proof {
        assert(trim_left_spec(v@) == v@.subrange(a as int, len as int));
    }
    let mut b: usize = len;
    while b > a && is_space_exec(v[b - 1])
        invariant
            a <= b <= len,
            len == v@.len(),
            trim_left_spec(v@) == v@.subrange(a as int, len as int),
            trim_right_spec(v@.subrange(a as int, len as int)) == trim_right_spec(
                v@.subrange(a as int, b as int),
            ),
        decreases b,
    {
        proof {
            assert(v@.subrange(a as int, b as int).drop_last() =~= v@.subrange(
                a as int,
                b - 1,
            ));
        }
        b = b - 1;
    }
    subvec(v, a, b)
}

/// The trailing run of non-whitespace bytes of `s`.
pub open spec fn tail_run(s: Seq<u8>) -> Seq<u8>
    decreases s.len(),
{
    if s.len() == 0 || is_space(s.last()) {
        Seq::empty()
    } else {
        tail_run(s.drop_last()) + seq![s.last()]
    }
}

/// The last whitespace-delimited token of `s`; empty if `s` holds none.
pub open spec fn last_token_spec(s: Seq<u8>) -> Seq<u8> {
    tail_run(trim_right_spec(s))
}

/// The last whitespace-delimited token of a line: where the connection
/// table prints the owning process id.
pub fn last_token(v: &Vec<u8>) -> (r: Vec<u8>)
    ensures
        r@ == last_token_spec(v@),
{
    let len: usize = v.len();
    proof {
        assert(v@.subrange(0, len as int) =~= v@);
    }
    let mut b: usize = len;
    while b > 0 && is_space_exec(v[b - 1])
        invariant
            b <= len,
            len == v@.len(),
            trim_right_spec(v@) == trim_right_spec(v@.subrange(0, b as int)),
        decreases b,
    {
        proof {
            assert(v@.subrange(0, b as int).drop_last() =~= v@.subrange(0, b - 1));
        }
        b = b - 1;
    }
    proof {
        assert(trim_right_spec(v@) == v@.subrange(0, b as int));
    }
    let mut a: usize = b;
    while a > 0 && !is_space_exec(v[a - 1])
        invariant
            a <= b <= len,
            len == v@.len(),
            trim_right_spec(v@) == v@.subrange(0, b as int),
            tail_run(v@.subrange(0, b as int)) == tail_run(v@.subrange(0, a as int))
                + v@.subrange(a as int, b as int),
        decreases a,
    {
        proof {
            assert(v@.subrange(0, a as int).drop_last() =~= v@.subrange(0, a - 1));
            assert(tail_run(v@.subrange(0, a as int)) == tail_run(v@.subrange(0, a - 1))
                + seq![v@[a - 1]]);
            assert(tail_run(v@.subrange(0, a - 1)) + seq![v@[a - 1]] + v@.subrange(
                a as int,
                b as int,
            ) =~= tail_run(v@.subrange(0, a - 1)) + v@.subrange(a - 1, b as int));
        }
        a = a - 1;
    }
    proof {
        if a == 0 {
            assert(tail_run(v@.subrange(0, 0)) =~= Seq::<u8>::empty());
            assert(Seq::<u8>::empty() + v@.subrange(0, b as int) =~= v@.subrange(
                0,
                b as int,
            ));
        } else {
            assert(tail_run(v@.subrange(0, a as int)) =~= Seq::<u8>::empty());
            assert(Seq::<u8>::empty() + v@.subrange(a as int, b as int) =~= v@.subrange(
                a as int,
                b as int,
            ));
        }
    }
    subvec(v, a, b)
}

/// Index of the first line feed in `s`, or `s.len()` if there is none.
pub open spec fn first_nl(s: Seq<u8>) -> nat
    decreases s.len(),
{
    if s.len() == 0 {
        0
    } else if s[0] == 10 {
        0
    } else {
        1 + first_nl(s.drop_first())
    }
}

/// `first_nl` is the index of the first line feed.
pub proof fn lemma_first_nl_at(s: Seq<u8>, k: int)
    requires
        0 <= k <= s.len(),
        forall|j: int| 0 <= j < k ==> s[j] != 10,
        k < s.len() ==> s[k] == 10,
        k == s.len() ==> (forall|j: int| 0 <= j < s.len() ==> s[j] != 10),
    ensures
        first_nl(s) == k,
    decreases s.len(),
{
    if s.len() == 0 {
    } else if s[0] == 10 {
    } else {
        let sub = s.drop_first();
        assert(forall|j: int| 0 <= j < sub.len() ==> sub[j] == s[j + 1]);
        lemma_first_nl_at(sub, k - 1);
    }
}

/// A line as the probe output is read: a trailing carriage return is
/// stripped.
pub open spec fn strip_cr(s: Seq<u8>) -> Seq<u8> {
    if s.len() > 0 && s.last() == 13 {
        s.drop_last()
    } else {
        s
    }
}

/// The lines of `s`, split on line feeds, each without a trailing carriage
/// return; a trailing line feed yields no empty final line.
pub open spec fn split_lines_spec(s: Seq<u8>) -> Seq<Seq<u8>>
    decreases s.len(),
{
    if s.len() == 0 {
        Seq::empty()
    } else {
        let i = first_nl(s) as int;
        if i >= s.len() {
            seq![strip_cr(s)]
        } else {
            seq![strip_cr(s.subrange(0, i))] + split_lines_spec(
                s.subrange(i + 1, s.len() as int),
            )
        }
    }
}

/// Index of the first line feed at or after `from`, or the length.
fn find_nl(v: &Vec<u8>, from: usize) -> (r: usize)
    requires
        from <= v@.len(),
    ensures
        from <= r <= v@.len(),
        forall|j: int| from <= j < r ==> v@[j] != 10,
        r < v@.len() ==> v@[r as int] == 10,
{
    let len: usize = v.len();
    let mut k: usize = from;
    while k < len
        invariant
            from <= k <= len,
            len == v@.len(),
            forall|j: int| from <= j < k ==> v@[j] != 10,
        decreases len - k,
    {
        if v[k] == 10 {
            return k;
        }
        k = k + 1;
    }
    k
}

/// Splits probe output into lines, as the line-by-line parsers consume it.
pub fn split_lines(v: &Vec<u8>) -> (r: Vec<Vec<u8>>)
    ensures
        r.deep_view() == split_lines_spec(v@),
{
    let len: usize = v.len();
    let mut r: Vec<Vec<u8>> = Vec::new();
    proof {
        assert(v@.subrange(0, len as int) =~= v@);
        assert(r.deep_view() =~~= Seq::<Seq<u8>>::empty());
        assert(r.deep_view() + split_lines_spec(v@.subrange(0, len as int))
            =~~= split_lines_spec(v@));
    }
    let mut pos: usize = 0;
    while pos < len
        invariant
            pos <= len,
            len == v@.len(),
            r.deep_view() + split_lines_spec(v@.subrange(pos as int, len as int))
                =~~= split_lines_spec(v@),
        decreases len - pos,
    {
        let i = find_nl(v, pos);
        let mut endl: usize = i;
        if endl > pos && v[endl - 1] == 13 {
            endl = endl - 1;
        }
        let line = subvec(v, pos, endl);
        let ghost tail = v@.subrange(pos as int, len as int);
        proof {
            assert(forall|j: int| 0 <= j < tail.len() ==> tail[j] == v@[pos + j]);
            lemma_first_nl_at(tail, i - pos);
            assert(tail.subrange(0, i - pos) =~= v@.subrange(pos as int, i as int));
            if i == len {
                assert(tail.subrange(0, i - pos) =~= tail);
            }
            assert(line@ =~= strip_cr(v@.subrange(pos as int, i as int)));
        }
        let ghost dv0 = r.deep_view();
        r.push(line);
        proof {
            assert(r.deep_view() =~~= dv0 + seq![line@]);
            if i < len {
                assert(tail.subrange(i - pos + 1, tail.len() as int) =~= v@.subrange(
                    i + 1,
                    len as int,
                ));
                assert(split_lines_spec(tail) =~~= seq![line@] + split_lines_spec(
                    v@.subrange(i + 1, len as int),
                ));
                assert(r.deep_view() + split_lines_spec(v@.subrange(i + 1, len as int))
                    =~~= dv0 + split_lines_spec(tail));
            } else {
                assert(split_lines_spec(tail) =~~= seq![line@]);
                assert(v@.subrange(len as int, len as int) =~= Seq::<u8>::empty());
                assert(split_lines_spec(v@.subrange(len as int, len as int))
                    =~~= Seq::<Seq<u8>>::empty());
                assert(r.deep_view() + split_lines_spec(
                    v@.subrange(len as int, len as int),
                ) =~~= dv0 + split_lines_spec(tail));
            }
        }
        if i >= len {
            pos = len;
        } else {
            pos = i + 1;
        }
    }
    proof {
        assert(split_lines_spec(v@.subrange(len as int, len as int))
            =~= Seq::<Seq<u8>>::empty());
        assert(r.deep_view() =~~= split_lines_spec(v@));
    }
    r
}

} // verus!
