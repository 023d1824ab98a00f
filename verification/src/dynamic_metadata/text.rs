//! Decimal rendering and parsing of `u32`, and the byte strings built from them.
use vstd::prelude::*;

verus! {

/// The ASCII digit of `d` (for `d < 10`).
pub open spec fn digit(d: nat) -> u8 {
    (48 + d) as u8
}

/// The decimal representation of `n`, most significant digit first, with no
/// leading zeros ("0" for zero).
pub open spec fn decimal(n: nat) -> Seq<u8>
    decreases n,
{
    if n < 10 {
        seq![digit(n)]
    } else {
        decimal(n / 10).push(digit(n % 10))
    }
}

/// The decimal digits of `n` with nothing for zero.
pub open spec fn digits_or_empty(n: nat) -> Seq<u8> {
    if n == 0 {
        Seq::empty()
    } else {
        decimal(n)
    }
}

/// A positive number's digits: those of `n / 10` (none when that is zero)
/// followed by its last digit.
pub proof fn lemma_digits_step(n: nat)
    requires
        n > 0,
    ensures
        digits_or_empty(n) == digits_or_empty(n / 10).push(digit(n % 10)),
{
    if n < 10 {
        assert(digits_or_empty(n / 10) =~= Seq::<u8>::empty());
        assert(decimal(n) =~= seq![digit(n)]);
        assert(Seq::<u8>::empty().push(digit(n % 10)) =~= seq![digit(n)]);
    } else {
        assert(n / 10 > 0);
    }
}

/// Every `u32` has at most ten decimal digits.
pub proof fn lemma_decimal_len(n: nat)
    ensures
        n < 10 ==> decimal(n).len() == 1,
        n <= 4294967295 ==> decimal(n).len() <= 10,
        decimal(n).len() >= 1,
    decreases n,
{
    if n >= 10 {
        lemma_decimal_len(n / 10);
    }
    if n <= 4294967295 {
        assert(pow10(10) == 10000000000) by {
            reveal_with_fuel(pow10, 11);
        }
        lemma_len_le(n, 10);
    }
}

/// `decimal(m)` has at most `k` digits when `m < 10^k`.
proof fn lemma_len_le(m: nat, k: nat)
    requires
        m < pow10(k),
        k >= 1,
    ensures
        decimal(m).len() <= k,
    decreases k,
{
    if m >= 10 {
        assert(k >= 2) by {
            if k == 1 {
                assert(pow10(1) == 10) by {
                    reveal_with_fuel(pow10, 2);
                }
            }
        }
        assert(m / 10 < pow10((k - 1) as nat)) by {
            assert(pow10(k) == 10 * pow10((k - 1) as nat));
        }
        lemma_len_le(m / 10, (k - 1) as nat);
    }
}

/// `10^k`.
pub open spec fn pow10(k: nat) -> nat
    decreases k,
{
    if k == 0 {
        1
    } else {
        10 * pow10((k - 1) as nat)
    }
}

/// The digits in `t[0..i]` in reverse order.
pub open spec fn rev_prefix(t: Seq<u8>, i: int) -> Seq<u8> {
    Seq::new(i as nat, |j: int| t[i - 1 - j])
}

/// Writes the decimal digits of `n` into `buf` starting at `idx` and returns
/// the index just after them. The rest of `buf` is left as it was.
pub fn append_u32_bytes(buf: &mut Vec<u8>, idx: usize, n: u32) -> (out: usize)
    requires
        idx + decimal(n as nat).len() <= old(buf).len(),
    ensures
        out == idx + decimal(n as nat).len(),
        final(buf).len() == old(buf).len(),
        final(buf)@.subrange(idx as int, out as int) == decimal(n as nat),
        forall|j: int|
            0 <= j < final(buf).len() && !(idx <= j < out) ==> final(buf)@[j] == old(buf)@[j],
{
    proof {
        lemma_decimal_len(n as nat);
    }
    if n == 0 {
        buf.set(idx, 48);
        assert(buf@.subrange(idx as int, idx + 1) =~= decimal(0));
        return idx + 1;
    }
    let mut tmp: [u8; 10] = [0u8; 10];
    let mut i: usize = 0;
    let mut v: u32 = n;
    while v > 0 && i < 10
        invariant
            i <= 10,
            decimal(n as nat) == digits_or_empty(v as nat) + rev_prefix(tmp@, i as int),
            i + digits_or_empty(v as nat).len() <= 10,
            tmp@.len() == 10,
        decreases v,
    {
        proof {
            lemma_digits_step(v as nat);
            assert(v % 10 < 10);
        }
        let d: u8 = (v % 10) as u8;
        tmp[i] = 48 + d;
        proof {
            assert(rev_prefix(tmp@, i + 1) =~= seq![digit((v % 10) as nat)] + rev_prefix(
                old_tmp_prefix(tmp@, i as int),
                i as int,
            ));
        }
        v = v / 10;
        i = i + 1;
        proof {
            assert(decimal(n as nat) =~= digits_or_empty(v as nat) + rev_prefix(tmp@, i as int));
        }
    }
    proof {
        if v > 0 {
            assert(digits_or_empty(v as nat).len() >= 1);
        }
        assert(decimal(n as nat) =~= rev_prefix(tmp@, i as int));
    }
    let mut out = idx;
    let mut j: usize = 0;
    let ghost old_buf = buf@;
    while j < i
        invariant
            j <= i,
            i <= 10,
            out == idx + j,
            idx + i <= buf.len(),
            buf.len() == old_buf.len(),
            old_buf == old(buf)@,
            decimal(n as nat) == rev_prefix(tmp@, i as int),
            tmp@.len() == 10,
            forall|k: int| idx <= k < idx + j ==> buf@[k] == rev_prefix(tmp@, i as int)[k - idx],
            forall|k: int| 0 <= k < buf.len() && !(idx <= k < idx + j) ==> buf@[k] == old_buf[k],
        decreases i - j,
    {
        buf.set(out, tmp[i - 1 - j]);
        out = out + 1;
        j = j + 1;
    }
    assert(buf@.subrange(idx as int, out as int) =~= decimal(n as nat));
    out
}

/// `t` itself (names the array before the write of this step).
pub open spec fn old_tmp_prefix(t: Seq<u8>, i: int) -> Seq<u8> {
    t
}

/// The bytes of "migrated:".
pub open spec fn lit_migrated() -> Seq<u8> {
    seq![109, 105, 103, 114, 97, 116, 101, 100, 58]
}

/// The bytes of "->".
pub open spec fn lit_arrow() -> Seq<u8> {
    seq![45, 62]
}

/// The bytes of "/nft/".
pub open spec fn lit_nft() -> Seq<u8> {
    seq![47, 110, 102, 116, 47]
}

/// The bytes of "/lvl/".
pub open spec fn lit_lvl() -> Seq<u8> {
    seq![47, 108, 118, 108, 47]
}

/// The bytes of "/rar/".
pub open spec fn lit_rar() -> Seq<u8> {
    seq![47, 114, 97, 114, 47]
}

/// The bytes of ".png".
pub open spec fn lit_png() -> Seq<u8> {
    seq![46, 112, 110, 103]
}

/// Every byte is an ASCII digit.
pub open spec fn all_digits(s: Seq<u8>) -> bool {
    forall|i: int| 0 <= i < s.len() ==> 48 <= #[trigger] s[i] <= 57
}

/// Folds decimal digits left to right, saturating at `u32::MAX` after the
/// multiplication and after the addition of each digit.
pub open spec fn saturating_fold(s: Seq<u8>) -> nat
    decreases s.len(),
{
    if s.len() == 0 {
        0
    } else {
        let p = saturating_fold(s.drop_last());
        let m: nat = if p * 10 > 4294967295 {
            4294967295
        } else {
            p * 10
        };
        let a: nat = (m + (s.last() - 48)) as nat;
        if a > 4294967295 {
            4294967295
        } else {
            a
        }
    }
}

/// The number a byte string reads as: its decimal value (saturating at
/// `u32::MAX`) when it is one to ten ASCII digits, else zero.
pub open spec fn spec_parse_u32(s: Seq<u8>) -> u32 {
    if s.len() == 0 || s.len() > 10 || !all_digits(s) {
        0
    } else {
        saturating_fold(s) as u32
    }
}

/// Parses a byte string as a `u32`: one to ten ASCII digits, saturating; any
/// other input reads as 0.
pub fn parse_u32(s: &Vec<u8>) -> (r: u32)
    ensures
        r == spec_parse_u32(s@),
{
    let len = s.len();
    if len == 0 || len > 10 {
        return 0;
    }
    let mut v: u32 = 0;
    let mut i: usize = 0;
    while i < len
        invariant
            len == s.len(),
            i <= len,
            v == saturating_fold(s@.subrange(0, i as int)),
            all_digits(s@.subrange(0, i as int)),
        decreases len - i,
    {
        let c = s[i];
        if c < 48 || c > 57 {
            assert(!all_digits(s@)) by {
                assert(s@[i as int] == c);
            }
            return 0;
        }
        proof {
            assert(s@.subrange(0, i + 1).drop_last() =~= s@.subrange(0, i as int));
            assert(s@.subrange(0, i + 1).last() == c);
        }
        let times_ten: u32 = if v > 429496729 {
            4294967295
        } else {
            v * 10
        };
        v = times_ten.saturating_add((c - 48) as u32);
        i = i + 1;
        proof {
            assert forall|k: int| 0 <= k < i implies 48 <= #[trigger] s@.subrange(0, i as int)[k]
                <= 57 by {
                if k < i - 1 {
                    assert(s@.subrange(0, i as int)[k] == s@.subrange(0, i - 1)[k]);
                }
            }
        }
    }
    assert(s@.subrange(0, len as int) =~= s@);
    v
}

/// Equality of a byte string with a literal as this contract checks it:
/// literals longer than 32 bytes never match.
pub open spec fn spec_str_eq(s: Seq<u8>, literal: Seq<u8>) -> bool {
    s.len() == literal.len() && (literal.len() == 0 || (literal.len() <= 32 && s == literal))
}

pub fn str_eq(s: &Vec<u8>, literal: &Vec<u8>) -> (r: bool)
    ensures
        r == spec_str_eq(s@, literal@),
{
    if s.len() != literal.len() {
        return false;
    }
    if literal.len() == 0 {
        assert(s@ =~= literal@);
        return true;
    }
    if literal.len() > 32 {
        return false;
    }
    crate::common::bytes_eq(s, literal)
}

/// Copies the first `n` bytes of `buf`.
fn prefix_of(buf: &Vec<u8>, n: usize) -> (r: Vec<u8>)
    requires
        n <= buf.len(),
    ensures
        r@ == buf@.subrange(0, n as int),
{
    let mut r: Vec<u8> = Vec::new();
    let mut i: usize = 0;
    while i < n
        invariant
            i <= n,
            n <= buf.len(),
            r@ == buf@.subrange(0, i as int),
        decreases n - i,
    {
        r.push(buf[i]);
        i = i + 1;
        assert(r@ =~= buf@.subrange(0, i as int));
    }
    r
}

/// Writes `lit` into `buf` at `idx`; returns the index after it.
fn put_bytes(buf: &mut Vec<u8>, idx: usize, lit: &Vec<u8>) -> (out: usize)
    requires
        idx + lit.len() <= old(buf).len(),
    ensures
        out == idx + lit.len(),
        final(buf).len() == old(buf).len(),
        final(buf)@.subrange(idx as int, out as int) == lit@,
        forall|j: int|
            0 <= j < final(buf).len() && !(idx <= j < out) ==> final(buf)@[j] == old(buf)@[j],
{
    let mut k: usize = 0;
    while k < lit.len()
        invariant
            k <= lit.len(),
            idx + lit.len() <= buf.len(),
            buf.len() == old(buf).len(),
            forall|j: int| idx <= j < idx + k ==> buf@[j] == lit@[j - idx],
            forall|j: int| 0 <= j < buf.len() && !(idx <= j < idx + k) ==> buf@[j] == old(buf)@[j],
        decreases lit.len() - k,
    {
        buf.set(idx + k, lit[k]);
        k = k + 1;
    }
    assert(buf@.subrange(idx as int, (idx + lit.len()) as int) =~= lit@);
    idx + lit.len()
}

/// Writing `piece` at `[i, j)` after the prefix `[0, i)` extends that prefix.
proof fn lemma_extend(before: Seq<u8>, after: Seq<u8>, i: int, j: int, piece: Seq<u8>)
    requires
        0 <= i <= j <= after.len(),
        after.len() == before.len(),
        forall|k: int| 0 <= k < after.len() && !(i <= k < j) ==> after[k] == before[k],
        after.subrange(i, j) == piece,
    ensures
        after.subrange(0, j) == before.subrange(0, i) + piece,
{
    assert forall|k: int| 0 <= k < j implies after.subrange(0, j)[k] == (before.subrange(0, i)
        + piece)[k] by {
        if k >= i {
            assert(after.subrange(0, j)[k] == after.subrange(i, j)[k - i]);
        }
    }
    assert(after.subrange(0, j) =~= before.subrange(0, i) + piece);
}

/// The decimal digits of `n`.
pub fn decimal_bytes(n: u32) -> (r: Vec<u8>)
    ensures
        r@ == decimal(n as nat),
{
    proof {
        lemma_decimal_len(n as nat);
    }
    let mut buf: Vec<u8> = vec![0u8; 10];
    let end = append_u32_bytes(&mut buf, 0, n);
    prefix_of(&buf, end)
}

/// The reason recorded for a migration: "migrated:{old}->{new}".
pub open spec fn spec_migration_reason(old: u32, new: u32) -> Seq<u8> {
    lit_migrated() + decimal(old as nat) + lit_arrow() + decimal(new as nat)
}

/// Builds "migrated:{old}->{new}".
pub fn make_migration_reason(old: u32, new: u32) -> (r: Vec<u8>)
    ensures
        r@ == spec_migration_reason(old, new),
{
    proof {
        lemma_decimal_len(old as nat);
        lemma_decimal_len(new as nat);
    }
    let mut buf: Vec<u8> = vec![0u8; 32];
    let prefix: Vec<u8> = vec![109, 105, 103, 114, 97, 116, 101, 100, 58];
    let arrow: Vec<u8> = vec![45, 62];
    let ghost b0 = buf@;
    let i1 = put_bytes(&mut buf, 0, &prefix);
    proof {
        lemma_extend(b0, buf@, 0, i1 as int, prefix@);
        assert(b0.subrange(0, 0) + prefix@ =~= lit_migrated());
    }
    let ghost b1 = buf@;
    let i2 = append_u32_bytes(&mut buf, i1, old);
    proof {
        lemma_extend(b1, buf@, i1 as int, i2 as int, decimal(old as nat));
    }
    let ghost b2 = buf@;
    let i3 = put_bytes(&mut buf, i2, &arrow);
    proof {
        lemma_extend(b2, buf@, i2 as int, i3 as int, arrow@);
    }
    let ghost b3 = buf@;
    let i4 = append_u32_bytes(&mut buf, i3, new);
    proof {
        lemma_extend(b3, buf@, i3 as int, i4 as int, decimal(new as nat));
    }
    let r = prefix_of(&buf, i4);
    r
}

/// The image URI of a token: "{base}/nft/{id}/lvl/{level}/rar/{rarity}.png".
pub open spec fn spec_image_uri(base: Seq<u8>, token_id: u32, level: u32, rarity: u32) -> Seq<u8> {
    base + lit_nft() + decimal(token_id as nat) + lit_lvl() + decimal(level as nat) + lit_rar()
        + decimal(rarity as nat) + lit_png()
}

/// The base URI fits the 256-byte URI buffer: non-empty and at most 206 bytes.
pub open spec fn base_uri_fits(base: Seq<u8>) -> bool {
    base.len() != 0 && base.len() + 50 <= 256
}

/// Builds the image URI of a token, or `None` when the base does not fit.
pub fn build_image_uri(base: &Vec<u8>, token_id: u32, level: u32, rarity: u32) -> (r: Option<
    Vec<u8>,
>)
    ensures
        match r {
            Some(u) => base_uri_fits(base@) && u@ == spec_image_uri(base@, token_id, level, rarity),
            None => !base_uri_fits(base@),
        },
{
    let base_len = base.len();
    if base_len == 0 || base_len > 206 {
        return None;
    }
    proof {
        lemma_decimal_len(token_id as nat);
        lemma_decimal_len(level as nat);
        lemma_decimal_len(rarity as nat);
    }
    let mut buf: Vec<u8> = vec![0u8; 256];
    let p1: Vec<u8> = vec![47, 110, 102, 116, 47];
    let p2: Vec<u8> = vec![47, 108, 118, 108, 47];
    let p3: Vec<u8> = vec![47, 114, 97, 114, 47];
    let p4: Vec<u8> = vec![46, 112, 110, 103];
    let ghost s0 = buf@;
    let i0 = put_bytes(&mut buf, 0, base);
    proof {
        lemma_extend(s0, buf@, 0, i0 as int, base@);
        assert(s0.subrange(0, 0) + base@ =~= base@);
    }
    let ghost b0 = buf@;
    let i1 = put_bytes(&mut buf, i0, &p1);
    proof {
        lemma_extend(b0, buf@, i0 as int, i1 as int, p1@);
    }
    let ghost b1 = buf@;
    let i2 = append_u32_bytes(&mut buf, i1, token_id);
    proof {
        lemma_extend(b1, buf@, i1 as int, i2 as int, decimal(token_id as nat));
    }
    let ghost b2 = buf@;
    let i3 = put_bytes(&mut buf, i2, &p2);
    proof {
        lemma_extend(b2, buf@, i2 as int, i3 as int, p2@);
    }
    let ghost b3 = buf@;
    let i4 = append_u32_bytes(&mut buf, i3, level);
    proof {
        lemma_extend(b3, buf@, i3 as int, i4 as int, decimal(level as nat));
    }
    let ghost b4 = buf@;
    let i5 = put_bytes(&mut buf, i4, &p3);
    proof {
        lemma_extend(b4, buf@, i4 as int, i5 as int, p3@);
    }
    let ghost b5 = buf@;
    let i6 = append_u32_bytes(&mut buf, i5, rarity);
    proof {
        lemma_extend(b5, buf@, i5 as int, i6 as int, decimal(rarity as nat));
    }
    let ghost b6 = buf@;
    let i7 = put_bytes(&mut buf, i6, &p4);
    proof {
        lemma_extend(b6, buf@, i6 as int, i7 as int, p4@);
    }
    let r = prefix_of(&buf, i7);
    Some(r)
}

/// Reading back a rendered number gives the number: `parse_u32` inverts the
/// decimal rendering of `append_u32_bytes` on every `u32`.
pub proof fn lemma_parse_decimal(n: u32)
    ensures
        spec_parse_u32(decimal(n as nat)) == n,
{
    lemma_decimal_len(n as nat);
    lemma_decimal_digits(n as nat);
    lemma_fold_decimal(n as nat);
}

proof fn lemma_decimal_digits(n: nat)
    ensures
        all_digits(decimal(n)),
    decreases n,
{
    if n >= 10 {
        lemma_decimal_digits(n / 10);
        assert forall|i: int| 0 <= i < decimal(n).len() implies 48 <= #[trigger] decimal(n)[i]
            <= 57 by {
            if i < decimal(n / 10).len() {
                assert(decimal(n)[i] == decimal(n / 10)[i]);
            }
        }
    }
}

proof fn lemma_fold_decimal(n: nat)
    requires
        n <= 4294967295,
    ensures
        saturating_fold(decimal(n)) == n,
    decreases n,
{
    if n < 10 {
        assert(decimal(n).drop_last() =~= Seq::<u8>::empty());
        assert(decimal(n).last() == digit(n));
        assert(digit(n) as int == 48 + n);
        assert(saturating_fold(Seq::<u8>::empty()) == 0);
        assert(saturating_fold(decimal(n)) == n);
    } else {
        lemma_fold_decimal(n / 10);
        assert(decimal(n).drop_last() =~= decimal(n / 10));
        assert(decimal(n).last() == digit(n % 10));
        assert(digit(n % 10) as int == 48 + n % 10);
        assert((n / 10) * 10 + n % 10 == n) by (nonlinear_arith);
        assert((n / 10) * 10 <= n) by (nonlinear_arith);
        let p = saturating_fold(decimal(n / 10));
        assert(p == n / 10);
        assert(p * 10 <= 4294967295);
        assert(saturating_fold(decimal(n)) == p * 10 + n % 10);
    }
}

} // verus!
