//! Byte-level helpers for parsing framed requests: searching, copying,
//! ASCII lowercasing, and decimal numbers.

use vstd::prelude::*;

verus! {

/// Index of the first occurrence of `b` in `s` at or after `i`, or the
/// length of `s` if `b` does not occur there.
pub open spec fn find_byte(s: Seq<u8>, i: int, b: u8) -> int
    decreases s.len() - i
{
    if i < 0 || i >= s.len() {
        s.len() as int
    } else if s[i] == b {
        i
    } else {
        find_byte(s, i + 1, b)
    }
}

/// `find_byte` stays between `i` and the end of `s`, lands on `b`, and
/// skips no occurrence of `b`.
pub proof fn lemma_find_byte(s: Seq<u8>, i: int, b: u8)
    requires
        0 <= i <= s.len(),
    ensures
        i <= find_byte(s, i, b) <= s.len(),
        find_byte(s, i, b) < s.len() ==> s[find_byte(s, i, b)] == b,
        forall|j: int| i <= j < find_byte(s, i, b) ==> s[j] != b,
    decreases s.len() - i,
{
    if i < s.len() && s[i] != b {
        lemma_find_byte(s, i + 1, b);
    }
}

/// Index of the first occurrence of `b` in `buf` at or after `i`, or the
/// length of `buf` if `b` does not occur there.
pub fn find_byte_from(buf: &Vec<u8>, i: usize, b: u8) -> (r: usize)
    requires
        i <= buf@.len(),
    ensures
        r == find_byte(buf@, i as int, b),
        i <= r <= buf@.len(),
        r < buf@.len() ==> buf@[r as int] == b,
{
    proof {
        lemma_find_byte(buf@, i as int, b);
    }
    let mut j = i;
    while j < buf.len()
        invariant
            i <= j <= buf@.len(),
            find_byte(buf@, i as int, b) == find_byte(buf@, j as int, b),
        decreases buf@.len() - j,
    {
        if buf[j] == b {
            return j;
        }
        j += 1;
    }
    j
}

/// Index of the first carriage-return/line-feed pair in `s` at or after
/// `i`, or the length of `s` if none follows.
pub open spec fn find_crlf(s: Seq<u8>, i: int) -> int
    decreases s.len() - i
{
    if i < 0 || i + 1 >= s.len() {
        s.len() as int
    } else if s[i] == 13 && s[i + 1] == 10 {
        i
    } else {
        find_crlf(s, i + 1)
    }
}

/// `find_crlf` stays between `i` and the end of `s`, lands on a pair
/// that fits before the end, and skips no pair.
pub proof fn lemma_find_crlf(s: Seq<u8>, i: int)
    requires
        0 <= i <= s.len(),
    ensures
        i <= find_crlf(s, i) <= s.len(),
        find_crlf(s, i) < s.len() ==> find_crlf(s, i) + 2 <= s.len() && s[find_crlf(s, i)] == 13
            && s[find_crlf(s, i) + 1] == 10,
        forall|j: int|
            i <= j && j + 1 < s.len() && j < find_crlf(s, i) ==> !(#[trigger] s[j] == 13 && s[j
                + 1] == 10),
    decreases s.len() - i,
{
    if i + 1 < s.len() && !(s[i] == 13 && s[i + 1] == 10) {
        lemma_find_crlf(s, i + 1);
    }
}

/// Index of the first carriage-return/line-feed pair in `buf` at or
/// after `i`, or the length of `buf` if none follows.
pub fn find_crlf_from(buf: &Vec<u8>, i: usize) -> (r: usize)
    requires
        i <= buf@.len(),
    ensures
        r == find_crlf(buf@, i as int),
        i <= r <= buf@.len(),
        r < buf@.len() ==> r + 2 <= buf@.len(),
{
    proof {
        lemma_find_crlf(buf@, i as int);
    }
    let mut j = i;
    while j < buf.len()
        invariant
            i <= j <= buf@.len(),
            find_crlf(buf@, i as int) == find_crlf(buf@, j as int),
        decreases buf@.len() - j,
    {
        if j + 1 >= buf.len() {
            return buf.len();
        }
        if buf[j] == 13 && buf[j + 1] == 10 {
            return j;
        }
        j += 1;
    }
    buf.len()
}

/// Copy the bytes of `buf` from `i` (inclusive) to `j` (exclusive).
pub fn sub_vec(buf: &Vec<u8>, i: usize, j: usize) -> (r: Vec<u8>)
    requires
        i <= j <= buf@.len(),
    ensures
        r@ == buf@.subrange(i as int, j as int),
{
    let mut r: Vec<u8> = Vec::new();
    proof {
        assert(r@ =~= buf@.subrange(i as int, i as int));
    }
    let mut k = i;
    while k < j
        invariant
            i <= k <= j <= buf@.len(),
            r@ == buf@.subrange(i as int, k as int),
        decreases j - k,
    {
        r.push(buf[k]);
        proof {
            assert(r@ =~= buf@.subrange(i as int, k as int + 1));
        }
        k += 1;
    }
    r
}

/// Lowercase one byte, ASCII-wise.
pub open spec fn lower(b: u8) -> u8 {
    if 65 <= b <= 90 {
        (b + 32) as u8
    } else {
        b
    }
}

/// Lowercase a byte sequence, ASCII-wise.
pub open spec fn lower_seq(s: Seq<u8>) -> Seq<u8> {
    s.map_values(|b: u8| lower(b))
}

/// Copy the bytes of `buf` from `i` (inclusive) to `j` (exclusive),
/// lowercased ASCII-wise.
pub fn sub_vec_lower(buf: &Vec<u8>, i: usize, j: usize) -> (r: Vec<u8>)
    requires
        i <= j <= buf@.len(),
    ensures
        r@ == lower_seq(buf@.subrange(i as int, j as int)),
{
    let mut r: Vec<u8> = Vec::new();
    proof {
        assert(r@ =~= lower_seq(buf@.subrange(i as int, i as int)));
    }
    let mut k = i;
    while k < j
        invariant
            i <= k <= j <= buf@.len(),
            r@ == lower_seq(buf@.subrange(i as int, k as int)),
        decreases j - k,
    {
        let b = buf[k];
        let lb = if 65 <= b && b <= 90 {
            b + 32
        } else {
            b
        };
        r.push(lb);
        proof {
            assert(r@ =~= lower_seq(buf@.subrange(i as int, k as int + 1)));
        }
        k += 1;
    }
    r
}

/// Whether two byte vectors hold the same bytes.
pub fn bytes_eq(a: &Vec<u8>, b: &Vec<u8>) -> (r: bool)
    ensures
        r == (a@ == b@),
{
    if a.len() != b.len() {
        return false;
    }
    let mut k: usize = 0;
    while k < a.len()
        invariant
            k <= a@.len(),
            a@.len() == b@.len(),
            forall|m: int| 0 <= m < k ==> a@[m] == b@[m],
        decreases a@.len() - k,
    {
        if a[k] != b[k] {
            return false;
        }
        k += 1;
    }
    proof {
        assert(a@ =~= b@);
    }
    true
}

/// Whether `s` is one or more decimal digit bytes.
pub open spec fn is_digits(s: Seq<u8>) -> bool {
    s.len() > 0 && forall|i: int| 0 <= i < s.len() ==> 48 <= #[trigger] s[i] <= 57
}

/// The decimal value of the digit bytes `s`.
pub open spec fn dec_val(s: Seq<u8>) -> int
    decreases s.len()
{
    if s.len() == 0 {
        0
    } else {
        dec_val(s.drop_last()) * 10 + (s.last() - 48)
    }
}

/// The value of a digit string is non-negative.
pub proof fn lemma_dec_val_nonneg(s: Seq<u8>)
    requires
        forall|i: int| 0 <= i < s.len() ==> 48 <= #[trigger] s[i] <= 57,
    ensures
        dec_val(s) >= 0,
    decreases s.len(),
{
    if s.len() > 0 {
        lemma_dec_val_nonneg(s.drop_last());
    }
}

/// The value of a digit string grows with its prefixes.
pub proof fn lemma_dec_val_prefix(s: Seq<u8>, i: int, j: int)
    requires
        forall|k: int| 0 <= k < s.len() ==> 48 <= #[trigger] s[k] <= 57,
        0 <= i <= j <= s.len(),
    ensures
        dec_val(s.subrange(0, i)) <= dec_val(s.subrange(0, j)),
    decreases j - i,
{
    if i < j {
        lemma_dec_val_prefix(s, i + 1, j);
        let shorter = s.subrange(0, i);
        let longer = s.subrange(0, i + 1);
        assert(longer.drop_last() =~= shorter);
        lemma_dec_val_nonneg(shorter);
        assert(dec_val(longer) == dec_val(shorter) * 10 + (longer.last() - 48));
        assert(dec_val(shorter) * 10 >= dec_val(shorter));
    }
}

/// Parse `v` as a decimal number: `Some` of its value exactly when `v`
/// is one or more digits and the value fits a `usize`.
pub fn parse_usize(v: &Vec<u8>) -> (r: Option<usize>)
    ensures
        r is Some <==> is_digits(v@) && dec_val(v@) <= usize::MAX,
        r matches Some(n) ==> n == dec_val(v@),
{
    if v.len() == 0 {
        return None;
    }
    let mut acc: usize = 0;
    let mut k: usize = 0;
    proof {
        assert(v@.subrange(0, 0) =~= Seq::<u8>::empty());
    }
    while k < v.len()
        invariant
            k <= v@.len(),
            0 < v@.len(),
            forall|m: int| 0 <= m < k ==> 48 <= #[trigger] v@[m] <= 57,
            acc == dec_val(v@.subrange(0, k as int)),
        decreases v@.len() - k,
    {
        let b = v[k];
        if b < 48 || b > 57 {
            return None;
        }
        let d = (b - 48) as usize;
        let ghost acc_i = acc as int;
        let ghost d_i = d as int;
        let ghost max = usize::MAX as int;
        proof {
            vstd::arithmetic::div_mod::lemma_fundamental_div_mod(max - d_i, 10);
            vstd::arithmetic::div_mod::lemma_mod_bound(max - d_i, 10);
            assert(v@.subrange(0, k as int + 1).drop_last() =~= v@.subrange(0, k as int));
            assert(dec_val(v@.subrange(0, k as int + 1)) == acc_i * 10 + d_i);
        }
        if acc > (usize::MAX - d) / 10 {
            proof {
                assert(acc_i * 10 + d_i > max);
                if is_digits(v@) {
                    lemma_dec_val_prefix(v@, k as int + 1, v@.len() as int);
                    assert(v@.subrange(0, v@.len() as int) =~= v@);
                }
            }
            return None;
        }
        proof {
            assert(acc_i * 10 + d_i <= max);
        }
        acc = acc * 10 + d;
        k += 1;
    }
    proof {
        assert(v@.subrange(0, v@.len() as int) =~= v@);
    }
    Some(acc)
}

} // verus!
