//! Reading the typed lines: trimming surrounding whitespace and parsing the
//! remainder as an unsigned or signed decimal integer, exactly the way the
//! game's input loops need it.

use vstd::prelude::*;

verus! {

/// ASCII whitespace: the bytes that may surround a number on a typed line.
pub open spec fn is_space(b: u8) -> bool {
    b == 32 || (9 <= b && b <= 13)
}

/// An ASCII decimal digit.
pub open spec fn is_digit(b: u8) -> bool {
    48 <= b && b <= 57
}

/// Every byte of the sequence is a decimal digit.
pub open spec fn all_digits(s: Seq<u8>) -> bool {
    forall|i: int| 0 <= i < s.len() ==> is_digit(#[trigger] s[i])
}

/// The number written by a sequence of decimal digits, most significant
/// digit first.
pub open spec fn digits_value(s: Seq<u8>) -> int
    decreases s.len(),
{
    if s.len() == 0 {
        0
    } else {
        digits_value(s.drop_last()) * 10 + (s.last() - 48)
    }
}

/// The sequence with its leading whitespace removed.
pub open spec fn trim_start(s: Seq<u8>) -> Seq<u8>
    decreases s.len(),
{
    if s.len() > 0 && is_space(s[0]) {
        trim_start(s.drop_first())
    } else {
        s
    }
}

/// The sequence with its trailing whitespace removed.
pub open spec fn trim_end(s: Seq<u8>) -> Seq<u8>
    decreases s.len(),
{
    if s.len() > 0 && is_space(s.last()) {
        trim_end(s.drop_last())
    } else {
        s
    }
}

/// The line with surrounding whitespace removed.
pub open spec fn trimmed(s: Seq<u8>) -> Seq<u8> {
    trim_end(trim_start(s))
}

/// The digit run of an unsigned number: what stands after an optional
/// leading plus sign.
pub open spec fn unsigned_digits(t: Seq<u8>) -> Seq<u8> {
    if t.len() > 0 && t[0] == 43 {
        t.drop_first()
    } else {
        t
    }
}

/// Whether t is a well-formed unsigned decimal number: an optional plus
/// sign followed by at least one digit and nothing else.
pub open spec fn is_unsigned_number(t: Seq<u8>) -> bool {
    unsigned_digits(t).len() > 0 && all_digits(unsigned_digits(t))
}

/// The value written by a well-formed unsigned number.
pub open spec fn unsigned_value(t: Seq<u8>) -> int {
    digits_value(unsigned_digits(t))
}

/// The digit run of a signed number: what stands after an optional leading
/// plus or minus sign.
pub open spec fn signed_digits(t: Seq<u8>) -> Seq<u8> {
    if t.len() > 0 && (t[0] == 43 || t[0] == 45) {
        t.drop_first()
    } else {
        t
    }
}

/// Whether the number starts with a minus sign.
pub open spec fn is_negative(t: Seq<u8>) -> bool {
    t.len() > 0 && t[0] == 45
}

/// Whether t is a well-formed signed decimal number: an optional sign
/// followed by at least one digit and nothing else.
pub open spec fn is_signed_number(t: Seq<u8>) -> bool {
    signed_digits(t).len() > 0 && all_digits(signed_digits(t))
}

/// The value written by a well-formed signed number.
pub open spec fn signed_value(t: Seq<u8>) -> int {
    if is_negative(t) {
        -digits_value(signed_digits(t))
    } else {
        digits_value(signed_digits(t))
    }
}

/// The line, once trimmed, reads as an unsigned integer that fits in a u8.
pub open spec fn reads_as_u8(line: Seq<u8>) -> bool {
    is_unsigned_number(trimmed(line)) && unsigned_value(trimmed(line)) <= 255
}

/// The line, once trimmed, reads as a signed integer that fits in an i32.
pub open spec fn reads_as_i32(line: Seq<u8>) -> bool {
    &&& is_signed_number(trimmed(line))
    &&& -2147483648 <= signed_value(trimmed(line))
    &&& signed_value(trimmed(line)) <= 2147483647
}

/// Removing leading whitespace keeps exactly the suffix that starts at the
/// first non-whitespace position.
proof fn lemma_trim_start_at(s: Seq<u8>, k: int)
    requires
        0 <= k <= s.len(),
        forall|i: int| 0 <= i < k ==> is_space(#[trigger] s[i]),
        k == s.len() || !is_space(s[k]),
    ensures
        trim_start(s) =~= s.subrange(k, s.len() as int),
    decreases k,
{
    if k == 0 {
        assert(trim_start(s) =~= s.subrange(0, s.len() as int));
    } else {
        let t = s.drop_first();
        assert(forall|i: int| 0 <= i < k - 1 ==> is_space(#[trigger] t[i]));
        lemma_trim_start_at(t, k - 1);
        assert(t.subrange(k - 1, t.len() as int) =~= s.subrange(k, s.len() as int));
    }
}

/// Removing trailing whitespace keeps exactly the prefix that ends at the
/// last non-whitespace position.
proof fn lemma_trim_end_at(s: Seq<u8>, k: int)
    requires
        0 <= k <= s.len(),
        forall|i: int| k <= i < s.len() ==> is_space(#[trigger] s[i]),
        k == 0 || !is_space(s[k - 1]),
    ensures
        trim_end(s) =~= s.subrange(0, k),
    decreases s.len() - k,
{
    if k == s.len() {
        assert(trim_end(s) =~= s.subrange(0, k));
    } else {
        let t = s.drop_last();
        assert(forall|i: int| k <= i < t.len() ==> is_space(#[trigger] t[i]));
        lemma_trim_end_at(t, k);
        assert(t.subrange(0, k) =~= s.subrange(0, k));
    }
}

/// The positions of the first and last non-whitespace bytes of the line:
/// the trimmed line is exactly the slice between them.
fn trim_bounds(line: &[u8]) -> (r: (usize, usize))
    ensures
        r.0 <= r.1 <= line@.len(),
        trimmed(line@) =~= line@.subrange(r.0 as int, r.1 as int),
{
    let n = line.len();
    let mut lo: usize = 0;
    while lo < n && (line[lo] == 32 || (9 <= line[lo] && line[lo] <= 13))
        invariant
            lo <= n,
            n == line@.len(),
            forall|i: int| 0 <= i < lo ==> is_space(#[trigger] line@[i]),
        decreases n - lo,
    {
        lo = lo + 1;
    }
    proof {
        lemma_trim_start_at(line@, lo as int);
    }
    let mut hi: usize = n;
    while hi > lo && (line[hi - 1] == 32 || (9 <= line[hi - 1] && line[hi - 1] <= 13))
        invariant
            lo <= hi <= n,
            n == line@.len(),
            forall|i: int| hi <= i < n ==> is_space(#[trigger] line@[i]),
        decreases hi,
    {
        hi = hi - 1;
    }
    proof {
        let ts = line@.subrange(lo as int, n as int);
        assert(forall|i: int| hi - lo <= i < ts.len() ==> is_space(#[trigger] ts[i]));
        lemma_trim_end_at(ts, hi - lo);
        assert(ts.subrange(0, hi - lo) =~= line@.subrange(lo as int, hi as int));
    }
    (lo, hi)
}

/// Parses the line as the level-selection loop needs it: surrounding
/// whitespace trimmed, then an optional plus sign and decimal digits whose
/// value fits in a u8, and nothing else.
pub fn parse_u8(line: &[u8]) -> (r: Option<u8>)
    ensures
        r is Some <==> reads_as_u8(line@),
        r matches Some(v) ==> v == unsigned_value(trimmed(line@)),
{
    let (lo, hi) = trim_bounds(line);
    let mut ds = lo;
    if ds < hi && line[ds] == 43 {
        ds = ds + 1;
    }
    proof {
        assert(unsigned_digits(trimmed(line@)) =~= line@.subrange(ds as int, hi as int));
    }
    if ds == hi {
        return None;
    }
    let mut acc: u32 = 0;
    let mut too_big = false;
    let mut i = ds;
    while i < hi
        invariant
            ds <= i <= hi <= line@.len(),
            ds < hi,
            unsigned_digits(trimmed(line@)) =~= line@.subrange(ds as int, hi as int),
            unsigned_value(trimmed(line@)) == digits_value(
                line@.subrange(ds as int, hi as int),
            ),
            all_digits(line@.subrange(ds as int, i as int)),
            !too_big ==> acc <= 255 && acc == digits_value(
                line@.subrange(ds as int, i as int),
            ),
            too_big ==> digits_value(line@.subrange(ds as int, i as int)) > 255,
        decreases hi - i,
    {
        let b = line[i];
        if !(48 <= b && b <= 57) {
            proof {
                assert(!is_digit(line@.subrange(ds as int, hi as int)[i - ds]));
            }
            return None;
        }
        proof {
            assert(line@.subrange(ds as int, i + 1).drop_last() =~= line@.subrange(
                ds as int,
                i as int,
            ));
            assert(line@.subrange(ds as int, i + 1).last() == line@[i as int]);
        }
        let d = (b - 48) as u32;
        if !too_big {
            let nv = acc * 10 + d;
            if nv > 255 {
                too_big = true;
            } else {
                acc = nv;
            }
        }
        i = i + 1;
    }
    if too_big {
        None
    } else {
        Some(acc as u8)
    }
}

/// Parses the line as the guess loop needs it: surrounding whitespace
/// trimmed, then an optional sign and decimal digits whose value fits in an
/// i32, and nothing else.
pub fn parse_i32(line: &[u8]) -> (r: Option<i32>)
    ensures
        r is Some <==> reads_as_i32(line@),
        r matches Some(v) ==> v == signed_value(trimmed(line@)),
{
    let (lo, hi) = trim_bounds(line);
    let mut ds = lo;
    let mut neg = false;
    if ds < hi && (line[ds] == 43 || line[ds] == 45) {
        neg = line[ds] == 45;
        ds = ds + 1;
    }
    proof {
        assert(signed_digits(trimmed(line@)) =~= line@.subrange(ds as int, hi as int));
        assert(neg == is_negative(trimmed(line@)));
    }
    if ds == hi {
        return None;
    }
    let limit: u64 = if neg {
        2147483648
    } else {
        2147483647
    };
    let mut acc: u64 = 0;
    let mut too_big = false;
    let mut i = ds;
    while i < hi
        invariant
            ds <= i <= hi <= line@.len(),
            ds < hi,
            signed_digits(trimmed(line@)) =~= line@.subrange(ds as int, hi as int),
            neg == is_negative(trimmed(line@)),
            signed_value(trimmed(line@)) == if neg {
                -digits_value(line@.subrange(ds as int, hi as int))
            } else {
                digits_value(line@.subrange(ds as int, hi as int))
            },
            limit == if neg {
                2147483648u64
            } else {
                2147483647u64
            },
            all_digits(line@.subrange(ds as int, i as int)),
            !too_big ==> acc <= limit && acc == digits_value(
                line@.subrange(ds as int, i as int),
            ),
            too_big ==> digits_value(line@.subrange(ds as int, i as int)) > limit,
        decreases hi - i,
    {
        let b = line[i];
        if !(48 <= b && b <= 57) {
            proof {
                assert(!is_digit(line@.subrange(ds as int, hi as int)[i - ds]));
            }
            return None;
        }
        proof {
            assert(line@.subrange(ds as int, i + 1).drop_last() =~= line@.subrange(
                ds as int,
                i as int,
            ));
            assert(line@.subrange(ds as int, i + 1).last() == line@[i as int]);
        }
        let d = (b - 48) as u64;
        if !too_big {
            let nv = acc * 10 + d;
            if nv > limit {
                too_big = true;
            } else {
                acc = nv;
            }
        }
        i = i + 1;
    }
    if too_big {
        None
    } else if neg {
        Some((-(acc as i64)) as i32)
    } else {
        Some(acc as i32)
    }
}

} // verus!
