//! Parsing of the sidecar's port-handshake line.
//!
//! The sidecar announces its listening port by printing a line that
//! contains the marker `SERVER_PORT=`. The watcher takes the text after
//! the last `=`, trims surrounding whitespace, and reads it as a decimal
//! 16-bit port. Lines are handled as raw bytes: the marker and the digits
//! are ASCII, so no text decoding is needed to recognise a handshake, and
//! the whitespace trimmed around the port is pinned to ASCII whitespace.

use vstd::prelude::*;

verus! {

/// A decimal digit byte (`'0'` through `'9'`).
pub open spec fn is_digit(b: u8) -> bool {
    48 <= b && b <= 57
}

/// Every byte of `s` is a decimal digit.
pub open spec fn all_digits(s: Seq<u8>) -> bool {
    forall|i: int| 0 <= i < s.len() ==> is_digit(s[i])
}

/// The value of `s` read as a base-10 numeral, most significant digit first.
pub open spec fn dec_value(s: Seq<u8>) -> int
    decreases s.len(),
{
    if s.len() == 0 {
        0
    } else {
        dec_value(s.drop_last()) * 10 + (s.last() - 48)
    }
}

/// What `str::parse::<u16>` yields on this text: an optional leading `+`,
/// then one or more digits, whose value must fit in 16 bits.
pub open spec fn parse_port_spec(s: Seq<u8>) -> Option<u16> {
    let body = if s.len() > 0 && s[0] == 43 {
        s.subrange(1, s.len() as int)
    } else {
        s
    };
    if body.len() > 0 && all_digits(body) && dec_value(body) <= 65535 {
        Some(dec_value(body) as u16)
    } else {
        None
    }
}

proof fn lemma_dec_value_nonneg(s: Seq<u8>)
    requires
        all_digits(s),
    ensures
        dec_value(s) >= 0,
    decreases s.len(),
{
    if s.len() > 0 {
        assert(all_digits(s.drop_last())) by {
            assert(forall|i: int| 0 <= i < s.len() - 1 ==> s.drop_last()[i] == s[i]);
        }
        lemma_dec_value_nonneg(s.drop_last());
        assert(dec_value(s.drop_last()) * 10 >= 0) by (nonlinear_arith)
            requires dec_value(s.drop_last()) >= 0;
    }
}

/// Appending digits never shrinks the numeral's value.
proof fn lemma_dec_value_prefix(s: Seq<u8>, k: int)
    requires
        all_digits(s),
        0 <= k <= s.len(),
    ensures
        dec_value(s) >= dec_value(s.subrange(0, k)),
    decreases s.len() - k,
{
    if k == s.len() {
        assert(s.subrange(0, k) =~= s);
    } else {
        lemma_dec_value_prefix(s, k + 1);
        let t = s.subrange(0, k + 1);
        assert(t.drop_last() =~= s.subrange(0, k));
        assert(all_digits(s.subrange(0, k))) by {
            assert(forall|i: int| 0 <= i < k ==> s.subrange(0, k)[i] == s[i]);
        }
        lemma_dec_value_nonneg(s.subrange(0, k));
        assert(t.last() == s[k]);
        assert(is_digit(s[k]));
        assert(dec_value(t) >= dec_value(s.subrange(0, k))) by (nonlinear_arith)
            requires
                dec_value(t) == dec_value(s.subrange(0, k)) * 10 + (s[k] - 48),
                dec_value(s.subrange(0, k)) >= 0,
                is_digit(s[k]);
    }
}

/// Reads `s` as `str::parse::<u16>` would: an optional leading `+`, then
/// decimal digits; rejects empty text, other characters, and overflow.
pub fn parse_port(s: &[u8]) -> (r: Option<u16>)
    ensures
        r == parse_port_spec(s@),
{
    let start: usize = if s.len() > 0 && s[0] == 43 {
        1
    } else {
        0
    };
    let ghost body = if s@.len() > 0 && s@[0] == 43 {
        s@.subrange(1, s@.len() as int)
    } else {
        s@
    };
    assert(body =~= s@.subrange(start as int, s@.len() as int));
    if start == s.len() {
        return None;
    }
    let mut acc: u32 = 0;
    let mut i: usize = start;
    while i < s.len()
        invariant
            start <= i <= s@.len(),
            body == s@.subrange(start as int, s@.len() as int),
            body == (if s@.len() > 0 && s@[0] == 43 {
                s@.subrange(1, s@.len() as int)
            } else {
                s@
            }),
            all_digits(s@.subrange(start as int, i as int)),
            acc <= 65535,
            acc == dec_value(s@.subrange(start as int, i as int)),
        decreases s@.len() - i,
    {
        let b = s[i];
        if !(48 <= b && b <= 57) {
            assert(!all_digits(body)) by {
                assert(body[i - start] == b);
            }
            return None;
        }
        let ghost pre = s@.subrange(start as int, i as int);
        let ghost cur = s@.subrange(start as int, i as int + 1);
        assert(cur.drop_last() =~= pre);
        assert(cur.last() == b);
        let next: u32 = acc * 10 + (b - 48) as u32;
        assert(next == dec_value(cur));
        if next > 65535 {
            // The digits seen so far already exceed a port; any digit
            // suffix only grows the value, so the parse fails either way.
            proof {
                if all_digits(body) {
                    assert(cur =~= body.subrange(0, i - start + 1));
                    assert(all_digits(cur));
                    lemma_dec_value_prefix(body, i - start + 1);
                }
            }
            return None;
        }
        acc = next;
        i = i + 1;
        assert(s@.subrange(start as int, i as int) =~= cur);
    }
    assert(s@.subrange(start as int, i as int) =~= body);
    Some(acc as u16)
}

/// The twelve marker bytes `SERVER_PORT=` stand at position `i` of `s`.
pub open spec fn marker_at(s: Seq<u8>, i: int) -> bool {
    &&& 0 <= i
    &&& i + 12 <= s.len()
    &&& s[i] == 83
    &&& s[i + 1] == 69
    &&& s[i + 2] == 82
    &&& s[i + 3] == 86
    &&& s[i + 4] == 69
    &&& s[i + 5] == 82
    &&& s[i + 6] == 95
    &&& s[i + 7] == 80
    &&& s[i + 8] == 79
    &&& s[i + 9] == 82
    &&& s[i + 10] == 84
    &&& s[i + 11] == 61
}

/// The line contains the literal marker `SERVER_PORT=` somewhere.
pub open spec fn contains_marker(s: Seq<u8>) -> bool {
    exists|i: int| marker_at(s, i)
}

/// Scans for the literal marker `SERVER_PORT=`.
pub fn find_marker(s: &[u8]) -> (r: bool)
    ensures
        r == contains_marker(s@),
{
    if s.len() < 12 {
        assert(forall|k: int| !marker_at(s@, k));
        return false;
    }
    let mut i: usize = 0;
    while i <= s.len() - 12
        invariant
            0 <= i <= s@.len() - 11,
            s@.len() >= 12,
            forall|k: int| 0 <= k < i ==> !marker_at(s@, k),
        decreases s@.len() - i,
    {
        if s[i] == 83 && s[i + 1] == 69 && s[i + 2] == 82 && s[i + 3] == 86
            && s[i + 4] == 69 && s[i + 5] == 82 && s[i + 6] == 95 && s[i + 7] == 80
            && s[i + 8] == 79 && s[i + 9] == 82 && s[i + 10] == 84 && s[i + 11] == 61 {
            assert(marker_at(s@, i as int));
            return true;
        }
        i = i + 1;
    }
    assert forall|k: int| !marker_at(s@, k) by {
        if 0 <= k < i {
        } else {
            assert(k < 0 || k + 12 > s@.len());
        }
    }
    false
}

/// The text after the last `=` of `s`; all of `s` when it has no `=`.
pub open spec fn tail_after_last_eq(s: Seq<u8>) -> Seq<u8>
    decreases s.len(),
{
    if s.len() == 0 {
        s
    } else if s.last() == 61 {
        Seq::empty()
    } else {
        tail_after_last_eq(s.drop_last()).push(s.last())
    }
}

proof fn lemma_tail_is_subrange(s: Seq<u8>, j: int)
    requires
        0 <= j <= s.len(),
        j > 0 ==> s[j - 1] == 61,
        forall|k: int| j <= k < s.len() ==> s[k] != 61,
    ensures
        tail_after_last_eq(s) =~= s.subrange(j, s.len() as int),
    decreases s.len(),
{
    if s.len() == 0 {
    } else if s.last() == 61 {
        assert(j == s.len());
    } else {
        assert(j < s.len() || j == s.len());
        if j == s.len() {
            assert(s[j - 1] == 61);
            assert(s.last() != 61);
            assert(false);
        }
        let d = s.drop_last();
        assert(forall|k: int| j <= k < d.len() ==> d[k] == s[k]);
        if j > 0 {
            assert(d[j - 1] == s[j - 1]);
        }
        lemma_tail_is_subrange(d, j);
        assert(tail_after_last_eq(s) =~= d.subrange(j, d.len() as int).push(s.last()));
    }
}

/// Copies out the text after the last `=`, or the whole line without one.
pub fn tail_after_eq(s: &[u8]) -> (r: Vec<u8>)
    ensures
        r@ == tail_after_last_eq(s@),
{
    let mut j: usize = s.len();
    while j > 0 && s[j - 1] != 61
        invariant
            0 <= j <= s@.len(),
            forall|k: int| j <= k < s@.len() ==> s@[k] != 61,
        decreases j,
    {
        j = j - 1;
    }
    proof {
        lemma_tail_is_subrange(s@, j as int);
    }
    let mut r: Vec<u8> = Vec::new();
    let mut i: usize = j;
    while i < s.len()
        invariant
            j <= i <= s@.len(),
            r@ =~= s@.subrange(j as int, i as int),
        decreases s@.len() - i,
    {
        r.push(s[i]);
        assert(r@ =~= s@.subrange(j as int, i as int + 1));
        i = i + 1;
    }
    assert(r@ =~= s@.subrange(j as int, s@.len() as int));
    r
}

/// An ASCII whitespace byte, as `str::trim` treats the ASCII range.
/// Trimming is deliberately pinned to ASCII: the lines are handled as
/// raw bytes, and a multi-byte Unicode space is left in place (and then
/// makes a port parse fail) rather than modelled.
pub open spec fn is_space(b: u8) -> bool {
    b == 32 || (9 <= b && b <= 13)
}

/// `s` with ASCII whitespace stripped from both ends.
pub open spec fn trimmed(s: Seq<u8>) -> Seq<u8>
    decreases s.len(),
{
    if s.len() == 0 {
        s
    } else if is_space(s[0]) {
        trimmed(s.subrange(1, s.len() as int))
    } else if is_space(s.last()) {
        trimmed(s.drop_last())
    } else {
        s
    }
}

proof fn lemma_trimmed_subrange(s: Seq<u8>, lo: int, hi: int)
    requires
        0 <= lo <= hi <= s.len(),
        forall|k: int| 0 <= k < lo ==> is_space(s[k]),
        forall|k: int| hi <= k < s.len() ==> is_space(s[k]),
        lo < hi ==> !is_space(s[lo]) && !is_space(s[hi - 1]),
        lo == hi ==> forall|k: int| 0 <= k < s.len() ==> is_space(s[k]),
    ensures
        trimmed(s) =~= s.subrange(lo, hi),
    decreases s.len(),
{
    if s.len() == 0 {
    } else if is_space(s[0]) {
        let t = s.subrange(1, s.len() as int);
        assert(forall|k: int| 0 <= k < t.len() ==> t[k] == s[k + 1]);
        if lo == hi {
            lemma_trimmed_subrange(t, 0, 0);
        } else {
            assert(lo > 0);
            lemma_trimmed_subrange(t, lo - 1, hi - 1);
            assert(t.subrange(lo - 1, hi - 1) =~= s.subrange(lo, hi));
        }
    } else if is_space(s.last()) {
        let d = s.drop_last();
        assert(forall|k: int| 0 <= k < d.len() ==> d[k] == s[k]);
        if lo == hi {
            assert(is_space(s[0]));
            assert(false);
        } else {
            assert(hi < s.len());
            lemma_trimmed_subrange(d, lo, hi);
            assert(d.subrange(lo, hi) =~= s.subrange(lo, hi));
        }
    } else {
        if lo == hi {
            if s.len() > 0 {
                assert(is_space(s[0]));
                assert(false);
            }
        } else {
            assert(lo == 0);
            assert(hi == s.len());
            assert(s.subrange(0, s.len() as int) =~= s);
        }
    }
}

/// Copies `s` with ASCII whitespace stripped from both ends.
pub fn trim_bytes(s: &[u8]) -> (r: Vec<u8>)
    ensures
        r@ == trimmed(s@),
{
    let mut lo: usize = 0;
    while lo < s.len() && (s[lo] == 32 || (9 <= s[lo] && s[lo] <= 13))
        invariant
            0 <= lo <= s@.len(),
            forall|k: int| 0 <= k < lo ==> is_space(s@[k]),
        decreases s@.len() - lo,
    {
        lo = lo + 1;
    }
    let mut hi: usize = s.len();
    while hi > lo && (s[hi - 1] == 32 || (9 <= s[hi - 1] && s[hi - 1] <= 13))
        invariant
            lo <= hi <= s@.len(),
            forall|k: int| 0 <= k < lo ==> is_space(s@[k]),
            forall|k: int| hi <= k < s@.len() ==> is_space(s@[k]),
        decreases hi,
    {
        hi = hi - 1;
    }
    proof {
        if lo == hi {
            assert(forall|k: int| 0 <= k < s@.len() ==> is_space(s@[k]));
        }
        lemma_trimmed_subrange(s@, lo as int, hi as int);
    }
    let mut r: Vec<u8> = Vec::new();
    let mut i: usize = lo;
    while i < hi
        invariant
            lo <= i <= hi <= s@.len(),
            r@ =~= s@.subrange(lo as int, i as int),
        decreases hi - i,
    {
        r.push(s[i]);
        assert(r@ =~= s@.subrange(lo as int, i as int + 1));
        i = i + 1;
    }
    r
}

/// The port a line announces: present exactly when the line contains
/// `SERVER_PORT=` and the trimmed text after its last `=` is a decimal
/// number that fits in 16 bits.
pub open spec fn handshake_port(line: Seq<u8>) -> Option<u16> {
    if contains_marker(line) {
        parse_port_spec(trimmed(tail_after_last_eq(line)))
    } else {
        None
    }
}

/// Reads one line of sidecar output and extracts the announced port,
/// if the line is a handshake line. Any other line yields `None`.
pub fn parse_handshake_line(line: &[u8]) -> (r: Option<u16>)
    ensures
        r == handshake_port(line@),
{
    if !find_marker(line) {
        return None;
    }
    let tail = tail_after_eq(line);
    let t = trim_bytes(tail.as_slice());
    parse_port(t.as_slice())
}

} // verus!
