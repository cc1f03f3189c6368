//! Reading fields and whole numbers out of byte strings.
//!
//! Numbers are whole: `12`, `+12` and `-12` are read, `1.5` and `1e3` are
//! not.

use vstd::prelude::*;

verus! {

/// Where `sep` first occurs in `s`; the length of `s` if it never does.
pub open spec fn find(s: Seq<u8>, sep: u8) -> int
    decreases s.len(),
{
    if s.len() == 0 || s[0] == sep {
        0
    } else {
        1 + find(s.skip(1), sep)
    }
}

/// The pieces of `s` between occurrences of `sep`. There is always at least
/// one piece, and pieces may be empty.
pub open spec fn fields(s: Seq<u8>, sep: u8) -> Seq<Seq<u8>>
    decreases s.len(),
{
    let k = find(s, sep);
    if 0 <= k < s.len() {
        seq![s.take(k)] + fields(s.skip(k + 1), sep)
    } else {
        seq![s]
    }
}

/// `s` without one trailing carriage return.
pub open spec fn strip_cr(s: Seq<u8>) -> Seq<u8> {
    if s.len() > 0 && s.last() == 13u8 {
        s.drop_last()
    } else {
        s
    }
}

/// The lines of a text. A line ends at a line feed, or at a carriage return
/// directly followed by one; the last line need not be ended, and an ended
/// last line is not followed by an empty one.
pub open spec fn lines(s: Seq<u8>) -> Seq<Seq<u8>>
    decreases s.len(),
{
    let k = find(s, 10u8);
    if s.len() == 0 {
        Seq::empty()
    } else if 0 <= k < s.len() {
        seq![strip_cr(s.take(k))] + lines(s.skip(k + 1))
    } else {
        seq![s]
    }
}

pub open spec fn is_digit(b: u8) -> bool {
    48 <= b <= 57
}

pub open spec fn all_digits(s: Seq<u8>) -> bool {
    forall|i: int| 0 <= i < s.len() ==> is_digit(#[trigger] s[i])
}

/// The number that a string of decimal digits writes.
pub open spec fn digits_value(s: Seq<u8>) -> nat
    decreases s.len(),
{
    if s.len() == 0 {
        0
    } else {
        (digits_value(s.drop_last()) * 10 + (s.last() - 48)) as nat
    }
}

/// Whether `s` opens with a sign.
pub open spec fn signed(s: Seq<u8>) -> bool {
    s.len() > 0 && (s[0] == 43u8 || s[0] == 45u8)
}

/// The whole number that `s` writes: an optional `+` or `-`, then one or more
/// decimal digits and nothing else, with a value that an `i32` can hold.
/// Only whole numbers are read: a string with a decimal point or an exponent
/// writes none.
pub open spec fn number(s: Seq<u8>) -> Option<int> {
    let digits = if signed(s) { s.skip(1) } else { s };
    let magnitude = digits_value(digits) as int;
    let value = if signed(s) && s[0] == 45u8 { -magnitude } else { magnitude };
    if digits.len() > 0 && all_digits(digits) && i32::MIN <= value <= i32::MAX {
        Some(value)
    } else {
        None
    }
}

/// `find` stays inside the string, stops on the separator, and passes none.
pub proof fn lemma_find(s: Seq<u8>, sep: u8)
    ensures
        0 <= find(s, sep) <= s.len(),
        find(s, sep) < s.len() ==> s[find(s, sep)] == sep,
        forall|i: int| 0 <= i < find(s, sep) ==> s[i] != sep,
    decreases s.len(),
{
    if s.len() == 0 || s[0] == sep {
    } else {
        let t = s.skip(1);
        lemma_find(t, sep);
        assert forall|i: int| 0 <= i < find(s, sep) implies s[i] != sep by {
            if i > 0 {
                assert(t[i - 1] == s[i]);
            }
        }
    }
}

/// The first position that holds `sep`, with none before it, is `find`.
pub proof fn lemma_find_is(s: Seq<u8>, sep: u8, k: int)
    requires
        0 <= k <= s.len(),
        k < s.len() ==> s[k] == sep,
        forall|i: int| 0 <= i < k ==> s[i] != sep,
    ensures
        find(s, sep) == k,
{
    lemma_find(s, sep);
    let f = find(s, sep);
    if f < k {
        assert(s[f] == sep);
    } else if f > k {
        assert(s[k] != sep);
    }
}

/// A text has no more lines than bytes, and no line is longer than the text.
pub proof fn lemma_lines_bound(s: Seq<u8>)
    ensures
        lines(s).len() <= s.len(),
        forall|i: int| 0 <= i < lines(s).len() ==> (#[trigger] lines(s)[i]).len() <= s.len(),
    decreases s.len(),
{
    lemma_find(s, 10u8);
    let k = find(s, 10u8);
    if s.len() > 0 && k < s.len() {
        lemma_lines_bound(s.skip(k + 1));
        let rest = lines(s.skip(k + 1));
        assert forall|i: int| 0 <= i < lines(s).len() implies (#[trigger] lines(s)[i]).len()
            <= s.len() by {
            if i > 0 {
                assert(lines(s)[i] == rest[i - 1]);
            }
        }
    }
}

/// The position of the first `sep` in `s` at or after `from`.
fn find_from(s: &[u8], from: usize, sep: u8) -> (k: usize)
    requires
        from <= s.len(),
    ensures
        from <= k <= s.len(),
        k - from == find(s@.skip(from as int), sep),
{
    let mut k: usize = from;
    while k < s.len() && s[k] != sep
        invariant
            from <= k <= s.len(),
            forall|i: int| from <= i < k ==> s@[i] != sep,
        decreases s.len() - k,
    {
        k += 1;
    }
    proof {
        lemma_find_is(s@.skip(from as int), sep, k - from);
    }
    k
}

/// A copy of `s[from..to]`.
fn copy_range(s: &[u8], from: usize, to: usize) -> (v: Vec<u8>)
    requires
        from <= to <= s.len(),
    ensures
        v@ == s@.subrange(from as int, to as int),
{
    let mut v: Vec<u8> = Vec::new();
    let mut i: usize = from;
    while i < to
        invariant
            from <= i <= to <= s.len(),
            v@ == s@.subrange(from as int, i as int),
        decreases to - i,
    {
        v.push(s[i]);
        proof {
            assert(v@ =~= s@.subrange(from as int, i + 1));
        }
        i += 1;
    }
    v
}

/// The views of the strings in `v`.
pub open spec fn views(v: Seq<Vec<u8>>) -> Seq<Seq<u8>> {
    v.map_values(|f: Vec<u8>| f@)
}

/// The pieces of `s` between occurrences of `sep`.
pub fn split(s: &[u8], sep: u8) -> (r: Vec<Vec<u8>>)
    ensures
        views(r@) == fields(s@, sep),
{
    let mut r: Vec<Vec<u8>> = Vec::new();
    let mut pos: usize = 0;
    proof {
        assert(s@.skip(0) =~= s@);
        assert(views(r@) + fields(s@, sep) =~= fields(s@, sep));
    }
    loop
        invariant_except_break
            pos <= s.len(),
            fields(s@, sep) == views(r@) + fields(s@.skip(pos as int), sep),
        ensures
            views(r@) == fields(s@, sep),
        decreases s.len() - pos,
    {
        let k = find_from(s, pos, sep);
        let piece = copy_range(s, pos, k);
        let ghost rest = s@.skip(pos as int);
        let ghost before = views(r@);
        proof {
            assert(rest.take(k - pos) =~= piece@);
        }
        r.push(piece);
        proof {
            assert(views(r@) =~= before + seq![piece@]);
        }
        if k < s.len() {
            proof {
                assert(rest.skip(k - pos + 1) =~= s@.skip(k + 1));
                assert(fields(rest, sep) == seq![piece@] + fields(s@.skip(k + 1), sep));
                assert(before + (seq![piece@] + fields(s@.skip(k + 1), sep)) =~= views(r@)
                    + fields(s@.skip(k + 1), sep));
            }
            pos = k + 1;
        } else {
            proof {
                assert(rest =~= piece@);
                assert(fields(rest, sep) == seq![piece@]);
            }
            break;
        }
    }
    r
}

/// The lines of a text.
pub fn split_lines(s: &[u8]) -> (r: Vec<Vec<u8>>)
    ensures
        views(r@) == lines(s@),
{
    let mut r: Vec<Vec<u8>> = Vec::new();
    let mut pos: usize = 0;
    proof {
        assert(s@.skip(0) =~= s@);
        assert(views(r@) + lines(s@) =~= lines(s@));
    }
    while pos < s.len()
        invariant
            pos <= s.len(),
            lines(s@) == views(r@) + lines(s@.skip(pos as int)),
        decreases s.len() - pos,
    {
        let k = find_from(s, pos, 10u8);
        let ghost rest = s@.skip(pos as int);
        let ghost before = views(r@);
        if k < s.len() {
            let end = if k > pos && s[k - 1] == 13u8 { k - 1 } else { k };
            let piece = copy_range(s, pos, end);
            proof {
                assert(rest.take(k - pos) =~= s@.subrange(pos as int, k as int));
                assert(strip_cr(rest.take(k - pos)) =~= piece@);
                assert(rest.skip(k - pos + 1) =~= s@.skip(k + 1));
            }
            r.push(piece);
            proof {
                assert(views(r@) =~= before + seq![piece@]);
                assert(before + (seq![piece@] + lines(s@.skip(k + 1))) =~= views(r@) + lines(
                    s@.skip(k + 1),
                ));
            }
            pos = k + 1;
        } else {
            let piece = copy_range(s, pos, k);
            proof {
                assert(rest =~= piece@);
            }
            r.push(piece);
            proof {
                assert(views(r@) =~= before + seq![piece@]);
                assert(lines(s@.skip(k as int)) =~= Seq::<Seq<u8>>::empty());
                assert(views(r@) + lines(s@.skip(k as int)) =~= views(r@));
            }
            pos = k;
        }
    }
    proof {
        assert(lines(s@.skip(pos as int)) =~= Seq::<Seq<u8>>::empty());
        assert(views(r@) + Seq::<Seq<u8>>::empty() =~= views(r@));
    }
    r
}

/// Whether every byte of `s` from `from` on is a decimal digit.
fn digits_only(s: &[u8], from: usize) -> (r: bool)
    requires
        from <= s.len(),
    ensures
        r == all_digits(s@.skip(from as int)),
{
    let mut i: usize = from;
    while i < s.len()
        invariant
            from <= i <= s.len(),
            forall|j: int| from <= j < i ==> is_digit(#[trigger] s@[j]),
        decreases s.len() - i,
    {
        if s[i] < 48u8 || s[i] > 57u8 {
            proof {
                assert(s@.skip(from as int)[i - from] == s@[i as int]);
            }
            return false;
        }
        i += 1;
    }
    proof {
        assert forall|j: int| 0 <= j < s@.skip(from as int).len() implies is_digit(
            #[trigger] s@.skip(from as int)[j],
        ) by {
            assert(s@.skip(from as int)[j] == s@[from + j]);
        }
    }
    true
}

/// The whole number that `s` writes, if it writes one.
pub fn parse_number(s: &[u8]) -> (r: Option<i32>)
    ensures
        match r {
            Some(v) => number(s@) == Some(v as int),
            None => number(s@) is None,
        },
{
    let has_sign = s.len() > 0 && (s[0] == 43u8 || s[0] == 45u8);
    let negative = has_sign && s[0] == 45u8;
    let start: usize = if has_sign { 1 } else { 0 };
    let ghost digits = s@.skip(start as int);
    if start == s.len() || !digits_only(s, start) {
        return None;
    }
    // `acc` is the value read so far, as long as it is at most 2^31.
    let mut acc: i64 = 0;
    let mut over = false;
    let mut i: usize = start;
    while i < s.len()
        invariant
            start <= i <= s.len(),
            digits == s@.skip(start as int),
            all_digits(digits),
            !over ==> acc == digits_value(digits.take(i - start)),
            over ==> digits_value(digits.take(i - start)) > 0x8000_0000,
            0 <= acc <= 0x8000_0000,
        decreases s.len() - i,
    {
        proof {
            let t = digits.take(i - start + 1);
            assert(t.drop_last() =~= digits.take(i - start));
            assert(t.last() == s@[i as int]);
            assert(is_digit(digits[i - start]));
        }
        if !over {
            let next: i64 = acc * 10 + (s[i] - 48u8) as i64;
            if next > 0x8000_0000 {
                over = true;
            } else {
                acc = next;
            }
        }
        i += 1;
    }
    proof {
        assert(digits.take(i - start) =~= digits);
        assert(s@.skip(0) =~= s@);
    }
    if over {
        None
    } else if negative {
        Some((-acc) as i32)
    } else if acc > 0x7fff_ffff {
        None
    } else {
        Some(acc as i32)
    }
}

} // verus!
