use vstd::prelude::*;

verus! {

/// An account as a contract call sees it: the number that keys the
/// contracts' state, and the encodings of its address that a contract
/// hashes, all taken from the one address that acts.
#[derive(Clone, Debug)]
pub struct Account {
    /// The account's number in the contracts' state.
    pub id: u64,
    /// The address as strkey text (`G...` or `C...`), as bytes.
    pub strkey: Vec<u8>,
    /// The address as XDR (`ScVal::Address`).
    pub xdr: Vec<u8>,
}

/// Byte-wise equality of two byte strings.
pub fn bytes_eq(a: &Vec<u8>, b: &Vec<u8>) -> (r: bool)
    ensures
        r == (a@ == b@),
{
    if a.len() != b.len() {
        return false;
    }
    let mut i: usize = 0;
    while i < a.len()
        invariant
            a.len() == b.len(),
            i <= a.len(),
            forall|j: int| 0 <= j < i ==> a@[j] == b@[j],
        decreases a.len() - i,
    {
        if a[i] != b[i] {
            return false;
        }
        i = i + 1;
    }
    assert(a@ =~= b@);
    true
}

/// A fresh copy of a byte string.
pub fn copy_bytes(a: &Vec<u8>) -> (r: Vec<u8>)
    ensures
        r@ == a@,
{
    let mut r: Vec<u8> = Vec::new();
    let mut i: usize = 0;
    while i < a.len()
        invariant
            i <= a.len(),
            r@ == a@.subrange(0, i as int),
        decreases a.len() - i,
    {
        r.push(a[i]);
        i = i + 1;
        assert(r@ =~= a@.subrange(0, i as int));
    }
    assert(a@.subrange(0, a.len() as int) =~= a@);
    r
}

/// Whether `x` occurs in `v`.
pub fn contains_u32(v: &Vec<u32>, x: u32) -> (r: bool)
    ensures
        r == v@.contains(x),
{
    let mut i: usize = 0;
    while i < v.len()
        invariant
            i <= v.len(),
            forall|j: int| 0 <= j < i ==> v@[j] != x,
        decreases v.len() - i,
    {
        if v[i] == x {
            assert(v@[i as int] == x);
            return true;
        }
        i = i + 1;
    }
    false
}

/// Whether `x` occurs in `v`.
pub fn contains_u64(v: &Vec<u64>, x: u64) -> (r: bool)
    ensures
        r == v@.contains(x),
{
    let mut i: usize = 0;
    while i < v.len()
        invariant
            i <= v.len(),
            forall|j: int| 0 <= j < i ==> v@[j] != x,
        decreases v.len() - i,
    {
        if v[i] == x {
            assert(v@[i as int] == x);
            return true;
        }
        i = i + 1;
    }
    false
}

/// What a sequence contains, it still contains after a push.
pub proof fn lemma_push_contains<A>(s: Seq<A>, x: A, p: A)
    requires
        s.contains(p),
    ensures
        s.push(x).contains(p),
{
    let i = choose|i: int| 0 <= i < s.len() && s[i] == p;
    assert(s.push(x)[i] == p);
}

/// The position of the first `x` in `v`, if any.
pub fn position_u64(v: &Vec<u64>, x: u64) -> (r: Option<usize>)
    ensures
        match r {
            Some(i) => i < v@.len() && v@[i as int] == x && forall|j: int| 0 <= j < i ==> v@[j] != x,
            None => !v@.contains(x),
        },
{
    let mut i: usize = 0;
    while i < v.len()
        invariant
            i <= v.len(),
            forall|j: int| 0 <= j < i ==> v@[j] != x,
        decreases v.len() - i,
    {
        if v[i] == x {
            return Some(i);
        }
        i = i + 1;
    }
    None
}

/// The quotient of a non-negative `x` by a positive `t` is the number of
/// whole `t`s in `x`.
pub proof fn lemma_floor_div(x: int, t: int)
    requires
        x >= 0,
        t > 0,
    ensures
        x / t >= 0,
        (x / t) * t <= x < (x / t + 1) * t,
{
    assert(x / t >= 0 && (x / t) * t <= x < (x / t + 1) * t) by (nonlinear_arith)
        requires
            x >= 0,
            t > 0,
    ;
}

} // verus!
