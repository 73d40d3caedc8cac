//! Byte-level text helpers: digits in base ten and sixteen, case-insensitive
//! comparison, optional whitespace and comma-separated lists.

use vstd::prelude::*;

verus! {

/// The ASCII digit for a value below sixteen; letters are upper case.
pub open spec fn digit_byte(d: nat) -> u8 {
    if d < 10 {
        (48 + d) as u8
    } else {
        (55 + d) as u8
    }
}

/// `n` in base ten, most significant digit first, without leading zeros.
pub open spec fn dec_digits(n: nat) -> Seq<u8>
    decreases n,
{
    if n < 10 {
        seq![digit_byte(n)]
    } else {
        dec_digits(n / 10).push(digit_byte(n % 10))
    }
}

/// `n` in base sixteen, most significant digit first, upper case, without
/// leading zeros.
pub open spec fn hex_digits(n: nat) -> Seq<u8>
    decreases n,
{
    if n < 16 {
        seq![digit_byte(n)]
    } else {
        hex_digits(n / 16).push(digit_byte(n % 16))
    }
}

/// Appends `n` in base ten to `out`.
pub fn push_dec(out: &mut Vec<u8>, n: u64)
    ensures
        final(out)@ == old(out)@ + dec_digits(n as nat),
    decreases n,
{
    if n >= 10 {
        push_dec(out, n / 10);
    }
    let d: u8 = (n % 10) as u8;
    out.push(48 + d);
    assert(final(out)@ =~= old(out)@ + dec_digits(n as nat));
}

/// Appends `n` in base sixteen to `out`.
pub fn push_hex(out: &mut Vec<u8>, n: u64)
    ensures
        final(out)@ == old(out)@ + hex_digits(n as nat),
    decreases n,
{
    if n >= 16 {
        push_hex(out, n / 16);
    }
    let d: u8 = (n % 16) as u8;
    if d < 10 {
        out.push(48 + d);
    } else {
        out.push(55 + d);
    }
    assert(final(out)@ =~= old(out)@ + hex_digits(n as nat));
}

/// Whether `b` is an ASCII decimal digit.
pub open spec fn is_digit(b: u8) -> bool {
    48 <= b <= 57
}

/// The value of a hexadecimal digit of either case, if `b` is one.
pub open spec fn hex_value(b: u8) -> Option<u8> {
    if 48 <= b <= 57 {
        Some((b - 48) as u8)
    } else if 65 <= b <= 70 {
        Some((b - 55) as u8)
    } else if 97 <= b <= 102 {
        Some((b - 87) as u8)
    } else {
        None
    }
}

/// Computes `hex_value`.
pub fn hex_digit(b: u8) -> (r: Option<u8>)
    ensures
        r == hex_value(b),
{
    if 48 <= b && b <= 57 {
        Some(b - 48)
    } else if 65 <= b && b <= 70 {
        Some(b - 55)
    } else if 97 <= b && b <= 102 {
        Some(b - 87)
    } else {
        None
    }
}

/// The number that a run of decimal digits denotes (zero for the empty run).
pub open spec fn dec_number(s: Seq<u8>) -> nat
    decreases s.len(),
{
    if s.len() == 0 {
        0
    } else {
        dec_number(s.drop_last()) * 10 + (s.last() - 48) as nat
    }
}

/// Whether every byte of `s` is a decimal digit.
pub open spec fn all_digits(s: Seq<u8>) -> bool {
    forall|i: int| 0 <= i < s.len() ==> is_digit(#[trigger] s[i])
}

/// What a decimal field of a header denotes: one or more digits whose number
/// fits in 64 bits.
pub open spec fn dec_u64(s: Seq<u8>) -> Option<u64> {
    if s.len() > 0 && all_digits(s) && dec_number(s) <= u64::MAX {
        Some(dec_number(s) as u64)
    } else {
        None
    }
}

/// The number denoted never shrinks when digits are appended.
pub proof fn lemma_dec_number_grows(s: Seq<u8>, k: int)
    requires
        all_digits(s),
        0 <= k <= s.len(),
    ensures
        dec_number(s.take(k)) <= dec_number(s),
    decreases s.len() - k,
{
    if k < s.len() {
        lemma_dec_number_grows(s, k + 1);
        assert(s.take(k + 1).drop_last() =~= s.take(k));
        assert(is_digit(s[k]));
    } else {
        assert(s.take(k) =~= s);
    }
}

/// Parses a decimal number of one or more digits that fits in 64 bits.
pub fn parse_dec(s: &[u8]) -> (r: Option<u64>)
    ensures
        r == dec_u64(s@),
{
    let n: usize = s.len();
    if n == 0 {
        return None;
    }
    let mut acc: u64 = 0;
    let mut i: usize = 0;
    while i < n
        invariant
            n == s@.len(),
            0 <= i <= n,
            forall|j: int| 0 <= j < i ==> is_digit(#[trigger] s@[j]),
            acc == dec_number(s@.take(i as int)),
        decreases n - i,
    {
        let b: u8 = s[i];
        if !(48 <= b && b <= 57) {
            assert(!is_digit(s@[i as int]));
            return None;
        }
        let d: u64 = (b - 48) as u64;
        assert(s@.take(i + 1).drop_last() =~= s@.take(i as int));
        if acc > (u64::MAX - d) / 10 {
            proof {
                // the prefix already exceeds 64 bits, and so does the whole
                assert(dec_number(s@.take(i + 1)) > u64::MAX);
                if all_digits(s@) {
                    lemma_dec_number_grows(s@, i + 1);
                }
            }
            return None;
        }
        acc = acc * 10 + d;
        i = i + 1;
    }
    assert(s@.take(n as int) =~= s@);
    Some(acc)
}

/// The lower-case form of an ASCII letter; any other byte unchanged.
pub open spec fn lower(b: u8) -> u8 {
    if 65 <= b <= 90 {
        (b + 32) as u8
    } else {
        b
    }
}

/// Equality of two byte strings up to the case of ASCII letters.
pub open spec fn eq_ignore_case(a: Seq<u8>, b: Seq<u8>) -> bool {
    &&& a.len() == b.len()
    &&& forall|i: int| 0 <= i < a.len() ==> lower(#[trigger] a[i]) == lower(b[i])
}

/// Computes `lower`.
pub fn to_lower(b: u8) -> (r: u8)
    ensures
        r == lower(b),
{
    if 65 <= b && b <= 90 {
        b + 32
    } else {
        b
    }
}

/// Compares two byte strings up to the case of ASCII letters.
pub fn bytes_eq_ignore_case(a: &[u8], b: &[u8]) -> (r: bool)
    ensures
        r == eq_ignore_case(a@, b@),
{
    if a.len() != b.len() {
        return false;
    }
    let n: usize = a.len();
    let mut i: usize = 0;
    while i < n
        invariant
            n == a@.len(),
            n == b@.len(),
            0 <= i <= n,
            forall|j: int| 0 <= j < i ==> lower(#[trigger] a@[j]) == lower(b@[j]),
        decreases n - i,
    {
        if to_lower(a[i]) != to_lower(b[i]) {
            return false;
        }
        i = i + 1;
    }
    true
}

/// Compares two byte strings exactly.
pub fn bytes_eq(a: &[u8], b: &[u8]) -> (r: bool)
    ensures
        r == (a@ == b@),
{
    if a.len() != b.len() {
        return false;
    }
    let n: usize = a.len();
    let mut i: usize = 0;
    while i < n
        invariant
            n == a@.len(),
            n == b@.len(),
            0 <= i <= n,
            forall|j: int| 0 <= j < i ==> a@[j] == b@[j],
        decreases n - i,
    {
        if a[i] != b[i] {
            return false;
        }
        i = i + 1;
    }
    assert(a@ =~= b@);
    true
}

/// Optional whitespace: space and horizontal tab.
pub open spec fn is_ows(b: u8) -> bool {
    b == 32 || b == 9
}

/// How many bytes of optional whitespace `s` begins with.
pub open spec fn leading_ows(s: Seq<u8>) -> nat
    decreases s.len(),
{
    if s.len() > 0 && is_ows(s[0]) {
        1 + leading_ows(s.drop_first())
    } else {
        0
    }
}

/// How many bytes of optional whitespace `s` ends with.
pub open spec fn trailing_ows(s: Seq<u8>) -> nat
    decreases s.len(),
{
    if s.len() > 0 && is_ows(s.last()) {
        1 + trailing_ows(s.drop_last())
    } else {
        0
    }
}

/// `s` without the optional whitespace at either end.
pub open spec fn trim(s: Seq<u8>) -> Seq<u8> {
    let rest = s.skip(leading_ows(s) as int);
    rest.take(rest.len() - trailing_ows(rest))
}

/// The bounds of `trim(s@)` inside `s`: it is `s@.subrange(lo, hi)`.
pub fn trim_bounds(s: &[u8]) -> (r: (usize, usize))
    ensures
        r.0 <= r.1 <= s@.len(),
        s@.subrange(r.0 as int, r.1 as int) == trim(s@),
{
    let n: usize = s.len();
    let mut lo: usize = 0;
    assert(s@.skip(0) =~= s@);
    while lo < n && (s[lo] == 32 || s[lo] == 9)
        invariant
            n == s@.len(),
            0 <= lo <= n,
            leading_ows(s@) == lo + leading_ows(s@.skip(lo as int)),
        decreases n - lo,
    {
        assert(s@.skip(lo as int).drop_first() =~= s@.skip(lo + 1));
        lo = lo + 1;
    }
    assert(leading_ows(s@) == lo) by {
        if lo < n {
            assert(s@.skip(lo as int)[0] == s@[lo as int]);
        }
    }
    let ghost rest = s@.skip(lo as int);
    let mut hi: usize = n;
    assert(rest.take(n - lo) =~= rest);
    while hi > lo && (s[hi - 1] == 32 || s[hi - 1] == 9)
        invariant
            n == s@.len(),
            lo <= hi <= n,
            rest == s@.skip(lo as int),
            trailing_ows(rest) == (n - hi) + trailing_ows(rest.take(hi - lo)),
        decreases hi - lo,
    {
        assert(rest.take(hi - lo).drop_last() =~= rest.take(hi - 1 - lo));
        assert(rest.take(hi - lo).last() == s@[hi - 1]);
        hi = hi - 1;
    }
    assert(trailing_ows(rest) == n - hi) by {
        if hi > lo {
            assert(rest.take(hi - lo).last() == s@[hi - 1]);
        }
    }
    assert(s@.subrange(lo as int, hi as int) =~= rest.take(rest.len() - trailing_ows(rest)));
    (lo, hi)
}

/// The index of the first comma of `s`, or its length where it has none.
pub open spec fn comma_at(s: Seq<u8>) -> nat
    decreases s.len(),
{
    if s.len() == 0 || s[0] == 44 {
        0
    } else {
        1 + comma_at(s.drop_first())
    }
}

pub proof fn lemma_comma_at_bound(s: Seq<u8>)
    ensures
        comma_at(s) <= s.len(),
    decreases s.len(),
{
    if !(s.len() == 0 || s[0] == 44) {
        lemma_comma_at_bound(s.drop_first());
    }
}

/// The elements of a comma-separated list, each trimmed of optional
/// whitespace, in order. A list without a comma has one element.
pub open spec fn list_items(s: Seq<u8>) -> Seq<Seq<u8>>
    decreases s.len(),
{
    let k = comma_at(s) as int;
    if k >= s.len() {
        seq![trim(s)]
    } else {
        seq![trim(s.take(k))] + list_items(s.skip(k + 1))
    }
}

/// Finds the first comma of `s` at or after `from`.
pub fn find_comma(s: &[u8], from: usize) -> (r: usize)
    requires
        from <= s@.len(),
    ensures
        r == from + comma_at(s@.skip(from as int)),
        from <= r <= s@.len(),
{
    let n: usize = s.len();
    let mut i: usize = from;
    while i < n && s[i] != 44
        invariant
            n == s@.len(),
            from <= i <= n,
            from + comma_at(s@.skip(from as int)) == i + comma_at(s@.skip(i as int)),
        decreases n - i,
    {
        assert(s@.skip(i as int).drop_first() =~= s@.skip(i + 1));
        i = i + 1;
    }
    assert(comma_at(s@.skip(i as int)) == 0) by {
        if i < n {
            assert(s@.skip(i as int)[0] == s@[i as int]);
        }
    }
    i
}

/// Whether one of `items` is `token`, up to the case of letters.
pub open spec fn items_have(items: Seq<Seq<u8>>, token: Seq<u8>) -> bool {
    exists|i: int| 0 <= i < items.len() && eq_ignore_case(#[trigger] items[i], token)
}

/// The trimmed element of the list `value` that begins at `pos`, and the
/// index of the comma that ends it, or the length where it is the last.
pub fn next_item<'a>(value: &'a [u8], pos: usize) -> (r: (&'a [u8], usize))
    requires
        pos <= value@.len(),
    ensures
        pos <= r.1 <= value@.len(),
        r.1 == pos + comma_at(value@.skip(pos as int)),
        r.0@ == trim(value@.subrange(pos as int, r.1 as int)),
        list_items(value@.skip(pos as int)) == if r.1 >= value@.len() {
            seq![r.0@]
        } else {
            seq![r.0@] + list_items(value@.skip(r.1 + 1))
        },
{
    let end: usize = find_comma(value, pos);
    let raw: &[u8] = vstd::slice::slice_subrange(value, pos, end);
    let (lo, hi) = trim_bounds(raw);
    let item: &[u8] = vstd::slice::slice_subrange(raw, lo, hi);
    proof {
        let s = value@.skip(pos as int);
        let k = comma_at(s) as int;
        assert(s.take(k) =~= value@.subrange(pos as int, end as int));
        lemma_comma_at_bound(s);
        if k >= s.len() {
            assert(s.take(k) =~= s);
        } else {
            assert(s.skip(k + 1) =~= value@.skip(end + 1));
        }
    }
    (item, end)
}

/// Whether the comma-separated list `value` holds `token`, up to the case
/// of letters and the whitespace round its elements.
pub fn list_has(value: &[u8], token: &[u8]) -> (r: bool)
    ensures
        r == items_have(list_items(value@), token@),
{
    let n: usize = value.len();
    let mut pos: usize = 0;
    assert(value@.skip(0) =~= value@);
    loop
        invariant
            n == value@.len(),
            0 <= pos <= n,
            items_have(list_items(value@), token@) == items_have(
                list_items(value@.skip(pos as int)),
                token@,
            ),
        decreases n - pos,
    {
        let (item, end) = next_item(value, pos);
        let ghost here = list_items(value@.skip(pos as int));
        if bytes_eq_ignore_case(item, token) {
            assert(eq_ignore_case(here[0], token@));
            return true;
        }
        if end >= n {
            return false;
        }
        proof {
            let rest = list_items(value@.skip(end + 1));
            assert(here =~= seq![item@] + rest);
            if items_have(here, token@) {
                let i = choose|i: int| 0 <= i < here.len() && eq_ignore_case(#[trigger] here[i], token@);
                assert(i > 0);
                assert(here[i] == rest[i - 1]);
            }
            if items_have(rest, token@) {
                let i = choose|i: int| 0 <= i < rest.len() && eq_ignore_case(#[trigger] rest[i], token@);
                assert(here[i + 1] == rest[i]);
            }
        }
        pos = end + 1;
    }
}

} // verus!
