//! Shared value types and checked arithmetic used across the library.

use vstd::prelude::*;

verus! {

/// A 20-byte account address.
#[derive(Clone, Copy, Debug)]
pub struct Address(pub [u8; 20]);

/// Byte-wise equality of two 20-byte arrays.
pub fn bytes20_eq(a: &[u8; 20], b: &[u8; 20]) -> (r: bool)
    ensures
        r == (a@ == b@),
{
    let mut i: usize = 0;
    while i < 20
        invariant
            0 <= i <= 20,
            forall|j: int| 0 <= j < i ==> a@[j] == b@[j],
        decreases 20 - i,
    {
        if a[i] != b[i] {
            return false;
        }
        i += 1;
    }
    assert(a@ =~= b@);
    true
}

/// Byte-wise equality of two 32-byte arrays.
pub fn bytes32_eq(a: &[u8; 32], b: &[u8; 32]) -> (r: bool)
    ensures
        r == (a@ == b@),
{
    let mut i: usize = 0;
    while i < 32
        invariant
            0 <= i <= 32,
            forall|j: int| 0 <= j < i ==> a@[j] == b@[j],
        decreases 32 - i,
    {
        if a[i] != b[i] {
            return false;
        }
        i += 1;
    }
    assert(a@ =~= b@);
    true
}

impl PartialEq for Address {
    fn eq(&self, other: &Self) -> (r: bool) {
        bytes20_eq(&self.0, &other.0)
    }
}

impl vstd::std_specs::cmp::PartialEqSpecImpl for Address {
    open spec fn obeys_eq_spec() -> bool {
        true
    }

    open spec fn eq_spec(&self, other: &Self) -> bool {
        self.0@ == other.0@
    }
}

impl Eq for Address {}

impl Address {
    /// The all-zero address.
    pub fn zero() -> (r: Address)
        ensures
            r.0@ == Seq::new(20, |i: int| 0u8),
    {
        let r = Address([0u8; 20]);
        assert(r.0@ =~= Seq::new(20, |i: int| 0u8));
        r
    }

    /// The address bytes.
    pub fn as_bytes(&self) -> (r: &[u8; 20])
        ensures
            *r == self.0,
    {
        &self.0
    }

    /// Whether every byte of the address is zero.
    pub fn is_zero(&self) -> (r: bool)
        ensures
            r == (self.0@ == Seq::new(20, |i: int| 0u8)),
    {
        let z = Address::zero();
        bytes20_eq(&self.0, &z.0)
    }
}

/// Lexicographic "strictly less" on byte sequences of equal length.
pub open spec fn lex_lt(a: Seq<u8>, b: Seq<u8>) -> bool
    decreases a.len(),
{
    if a.len() == 0 || b.len() == 0 {
        a.len() < b.len()
    } else if a[0] != b[0] {
        a[0] < b[0]
    } else {
        lex_lt(a.drop_first(), b.drop_first())
    }
}

proof fn lemma_lex_lt_prefix_eq(a: Seq<u8>, b: Seq<u8>, i: int)
    requires
        a.len() == b.len(),
        0 <= i <= a.len(),
        forall|j: int| 0 <= j < i ==> a[j] == b[j],
    ensures
        lex_lt(a, b) == lex_lt(a.subrange(i, a.len() as int), b.subrange(i, b.len() as int)),
    decreases i,
{
    if i > 0 {
        assert(a[0] == b[0]);
        lemma_lex_lt_prefix_eq(a.drop_first(), b.drop_first(), i - 1);
        assert(a.drop_first().subrange(i - 1, a.len() - 1) =~= a.subrange(i, a.len() as int));
        assert(b.drop_first().subrange(i - 1, b.len() - 1) =~= b.subrange(i, b.len() as int));
    } else {
        assert(a.subrange(0, a.len() as int) =~= a);
        assert(b.subrange(0, b.len() as int) =~= b);
    }
}

/// Lexicographic comparison of two 20-byte arrays (`a < b`).
pub fn bytes20_lt(a: &[u8; 20], b: &[u8; 20]) -> (r: bool)
    ensures
        r == lex_lt(a@, b@),
{
    let mut i: usize = 0;
    while i < 20
        invariant
            0 <= i <= 20,
            a@.len() == 20,
            b@.len() == 20,
            forall|j: int| 0 <= j < i ==> a@[j] == b@[j],
        decreases 20 - i,
    {
        if a[i] != b[i] {
            proof {
                lemma_lex_lt_prefix_eq(a@, b@, i as int);
                let sa = a@.subrange(i as int, 20);
                let sb = b@.subrange(i as int, 20);
                assert(sa[0] == a@[i as int]);
                assert(sb[0] == b@[i as int]);
            }
            return a[i] < b[i];
        }
        i += 1;
    }
    proof {
        lemma_lex_lt_prefix_eq(a@, b@, 20);
        assert(a@.subrange(20, 20).len() == 0);
    }
    false
}

// ── Clamped and truncating integer arithmetic ───────────────────────────────

/// Clamp a mathematical integer into the `i128` range.
pub open spec fn clamp_i128(x: int) -> int {
    if x > i128::MAX {
        i128::MAX as int
    } else if x < i128::MIN {
        i128::MIN as int
    } else {
        x
    }
}

/// Clamp a mathematical integer into the `u128` range.
pub open spec fn clamp_u128(x: int) -> int {
    if x > u128::MAX {
        u128::MAX as int
    } else if x < 0 {
        0
    } else {
        x
    }
}

/// Division rounding toward zero (the semantics of `/` on machine integers).
pub open spec fn tdiv(x: int, d: int) -> int {
    if x == 0 {
        0
    } else if x > 0 && d > 0 {
        x / d
    } else if x < 0 && d < 0 {
        (-x) / (-d)
    } else if x < 0 {
        -((-x) / d)
    } else {
        -(x / (-d))
    }
}

/// `a + b`, clamped to the `i128` range.
pub fn sat_add_i128(a: i128, b: i128) -> (r: i128)
    ensures
        r == clamp_i128(a + b),
{
    match a.checked_add(b) {
        Some(v) => v,
        None => {
            if b > 0 {
                i128::MAX
            } else {
                i128::MIN
            }
        },
    }
}

/// `a - b`, clamped to the `i128` range.
pub fn sat_sub_i128(a: i128, b: i128) -> (r: i128)
    ensures
        r == clamp_i128(a - b),
{
    match a.checked_sub(b) {
        Some(v) => v,
        None => {
            if b < 0 {
                i128::MAX
            } else {
                i128::MIN
            }
        },
    }
}

/// `a * b`, clamped to the `i128` range.
pub fn sat_mul_i128(a: i128, b: i128) -> (r: i128)
    ensures
        r == clamp_i128(a * b),
{
    match a.checked_mul(b) {
        Some(v) => v,
        None => {
            if (a > 0 && b > 0) || (a < 0 && b < 0) {
                proof {
                    if a > 0 && b > 0 {
                        assert(a * b > 0) by (nonlinear_arith)
                            requires a > 0, b > 0;
                    } else {
                        assert(a * b > 0) by (nonlinear_arith)
                            requires a < 0, b < 0;
                    }
                }
                i128::MAX
            } else {
                proof {
                    if a == 0 || b == 0 {
                        assert(a * b == 0) by (nonlinear_arith)
                            requires a == 0 || b == 0;
                    } else if a > 0 {
                        assert(a * b < 0) by (nonlinear_arith)
                            requires a > 0, b < 0;
                    } else {
                        assert(a * b < 0) by (nonlinear_arith)
                            requires a < 0, b > 0;
                    }
                }
                i128::MIN
            }
        },
    }
}

/// `a * b`, clamped to the `u128` range.
pub fn sat_mul_u128(a: u128, b: u128) -> (r: u128)
    ensures
        r == clamp_u128(a * b),
{
    proof {
        assert(a * b >= 0) by (nonlinear_arith)
            requires a >= 0, b >= 0;
    }
    match a.checked_mul(b) {
        Some(v) => v,
        None => u128::MAX,
    }
}

/// `x` saturated to the `u32` range (for non-negative `x`).
pub open spec fn sat_u32(x: int) -> u32 {
    if x > u32::MAX { u32::MAX } else { x as u32 }
}

/// `floor(a * k / d)`, computed exactly and saturated to the `u32` range.
pub fn mul_div_sat_u32(a: u128, k: u32, d: u128) -> (r: u32)
    requires
        d > 0,
        k <= 100_000,
    ensures
        r == sat_u32(a * k / (d as int)),
{
    let q = a / d;
    let rem = a % d;
    proof {
        vstd::arithmetic::div_mod::lemma_fundamental_div_mod(a as int, d as int);
        assert(a == q * d + rem) by (nonlinear_arith)
            requires a == d * q + rem;
    }
    if k == 0 {
        assert(a * k / (d as int) == 0);
        return 0;
    }
    if q > u32::MAX as u128 {
        proof {
            assert(a * k >= q * d) by (nonlinear_arith)
                requires a == q * d + rem, k >= 1, rem >= 0, q >= 0, d > 0;
            assert(a * k / (d as int) >= q) by (nonlinear_arith)
                requires a * k >= q * d, d > 0, q >= 0;
        }
        return u32::MAX;
    }
    proof {
        assert(k * q <= 100_000 * 0xffff_ffffu128) by (nonlinear_arith)
            requires k <= 100_000, q <= 0xffff_ffffu128, k >= 0, q >= 0;
    }
    let kq: u128 = (k as u128) * q;
    let mut frac: u128 = 0;
    let mut acc: u128 = 0;
    let mut i: u32 = 0;
    while i < k
        invariant
            0 <= i <= k,
            k <= 100_000,
            rem < d,
            acc < d,
            frac <= i,
            i * rem == frac * d + acc,
        decreases k - i,
    {
        if acc >= d - rem {
            proof {
                assert((i + 1) * rem == (frac + 1) * d + (acc - (d - rem))) by (nonlinear_arith)
                    requires i * rem == frac * d + acc;
            }
            acc = acc - (d - rem);
            frac = frac + 1;
        } else {
            proof {
                assert((i + 1) * rem == frac * d + (acc + rem)) by (nonlinear_arith)
                    requires i * rem == frac * d + acc;
            }
            acc = acc + rem;
        }
        i = i + 1;
    }
    proof {
        assert(a * k == (kq + frac) * d + acc) by (nonlinear_arith)
            requires a == q * d + rem, k * rem == frac * d + acc, kq == k * q;
        vstd::arithmetic::div_mod::lemma_fundamental_div_mod_converse((a * k) as int, d as int, (kq + frac) as int, acc as int);
    }
    let total = kq + frac;
    if total > u32::MAX as u128 {
        u32::MAX
    } else {
        total as u32
    }
}

/// `a / b` rounding toward zero, or `None` when `b == 0` or the quotient
/// does not fit (only `i128::MIN / -1`).
pub fn checked_div_i128(a: i128, b: i128) -> (r: Option<i128>)
    ensures
        r == (if b == 0 || tdiv(a as int, b as int) > i128::MAX {
            None::<i128>
        } else {
            Some(tdiv(a as int, b as int) as i128)
        }),
{
    proof {
        if b != 0 {
            lemma_tdiv_bounds(a as int, b as int);
        }
    }
    a.checked_div(b)
}

/// Bounds of truncating division on the `i128` range.
pub proof fn lemma_tdiv_bounds(x: int, d: int)
    requires
        d != 0,
        i128::MIN <= x <= i128::MAX,
    ensures
        tdiv(x, d) >= i128::MIN,
        -(i128::MIN as int) >= tdiv(x, d),
        (x >= 0 && d > 0) ==> 0 <= tdiv(x, d) <= x,
        (x <= 0 && d > 0) ==> x <= tdiv(x, d) <= 0,
{
    if x > 0 && d > 0 {
        assert(0 <= x / d <= x) by (nonlinear_arith) requires x > 0, d > 0;
    } else if x < 0 && d < 0 {
        assert(0 <= (-x) / (-d) <= -x) by (nonlinear_arith) requires -x > 0, -d > 0;
    } else if x < 0 && d > 0 {
        assert(0 <= (-x) / d <= -x) by (nonlinear_arith) requires -x > 0, d > 0;
    } else if x > 0 && d < 0 {
        assert(0 <= x / (-d) <= x) by (nonlinear_arith) requires x > 0, -d > 0;
    }
}

} // verus!

verus! {

/// `lex_lt` is irreflexive.
pub proof fn lemma_lex_lt_irreflexive(a: Seq<u8>)
    ensures
        !lex_lt(a, a),
    decreases a.len(),
{
    if a.len() > 0 {
        lemma_lex_lt_irreflexive(a.drop_first());
    }
}

/// `lex_lt` is transitive.
pub proof fn lemma_lex_lt_transitive(a: Seq<u8>, b: Seq<u8>, c: Seq<u8>)
    requires
        lex_lt(a, b),
        lex_lt(b, c),
    ensures
        lex_lt(a, c),
    decreases a.len(),
{
    if a.len() == 0 || b.len() == 0 || c.len() == 0 {
    } else if a[0] != b[0] || b[0] != c[0] {
    } else {
        lemma_lex_lt_transitive(a.drop_first(), b.drop_first(), c.drop_first());
    }
}

/// Lexicographic comparison of two byte slices (`a < b`), shorter prefix first.
pub fn bytes_lt(a: &[u8], b: &[u8]) -> (r: bool)
    ensures
        r == lex_lt(a@, b@),
{
    let n = if a.len() < b.len() { a.len() } else { b.len() };
    let mut i: usize = 0;
    proof {
        assert(a@.subrange(0, a@.len() as int) =~= a@);
        assert(b@.subrange(0, b@.len() as int) =~= b@);
    }
    while i < n
        invariant
            0 <= i <= n,
            n == if a@.len() < b@.len() { a@.len() } else { b@.len() },
            forall|j: int| 0 <= j < i ==> a@[j] == b@[j],
            lex_lt(a@, b@) == lex_lt(a@.subrange(i as int, a@.len() as int), b@.subrange(i as int, b@.len() as int)),
        decreases n - i,
    {
        if a[i] != b[i] {
            proof {
                let sa = a@.subrange(i as int, a@.len() as int);
                let sb = b@.subrange(i as int, b@.len() as int);
                assert(sa[0] == a@[i as int]);
                assert(sb[0] == b@[i as int]);
            }
            return a[i] < b[i];
        }
        proof {
            let sa = a@.subrange(i as int, a@.len() as int);
            let sb = b@.subrange(i as int, b@.len() as int);
            assert(sa.drop_first() =~= a@.subrange(i + 1, a@.len() as int));
            assert(sb.drop_first() =~= b@.subrange(i + 1, b@.len() as int));
            assert(sa[0] == sb[0]);
        }
        i += 1;
    }
    proof {
        let sa = a@.subrange(i as int, a@.len() as int);
        let sb = b@.subrange(i as int, b@.len() as int);
        assert(sa.len() == 0 || sb.len() == 0);
    }
    a.len() < b.len()
}

} // verus!

verus! {

/// The decimal digit character of `d` (for `d < 10`).
pub open spec fn digit_char(d: nat) -> char {
    if d == 0 { '0' } else if d == 1 { '1' } else if d == 2 { '2' } else if d == 3 { '3' }
    else if d == 4 { '4' } else if d == 5 { '5' } else if d == 6 { '6' } else if d == 7 { '7' }
    else if d == 8 { '8' } else { '9' }
}

/// The decimal notation of `n`, without leading zeros.
pub open spec fn decimal(n: nat) -> Seq<char>
    decreases n,
{
    if n < 10 {
        seq![digit_char(n)]
    } else {
        decimal(n / 10).push(digit_char(n % 10))
    }
}

fn digit_str(d: u64) -> (r: &'static str)
    requires
        d < 10,
    ensures
        r@ == seq![digit_char(d as nat)],
{
    if d == 0 {
        proof { reveal_strlit("0"); }
        "0"
    } else if d == 1 {
        proof { reveal_strlit("1"); }
        "1"
    } else if d == 2 {
        proof { reveal_strlit("2"); }
        "2"
    } else if d == 3 {
        proof { reveal_strlit("3"); }
        "3"
    } else if d == 4 {
        proof { reveal_strlit("4"); }
        "4"
    } else if d == 5 {
        proof { reveal_strlit("5"); }
        "5"
    } else if d == 6 {
        proof { reveal_strlit("6"); }
        "6"
    } else if d == 7 {
        proof { reveal_strlit("7"); }
        "7"
    } else if d == 8 {
        proof { reveal_strlit("8"); }
        "8"
    } else {
        proof { reveal_strlit("9"); }
        "9"
    }
}

/// The decimal notation of `n`.
pub fn u64_to_decimal(n: u64) -> (r: String)
    ensures
        r@ == decimal(n as nat),
    decreases n,
{
    if n < 10 {
        String::from_str(digit_str(n))
    } else {
        let mut s = u64_to_decimal(n / 10);
        s.append(digit_str(n % 10));
        s
    }
}

/// The usual order on `i128`.
pub open spec fn i128_le() -> spec_fn(i128, i128) -> bool {
    |a: i128, b: i128| a <= b
}

/// `v` sorted in ascending order (insertion sort).
pub fn sort_i128(v: &Vec<i128>) -> (r: Vec<i128>)
    ensures
        r@ == v@.sort_by(i128_le()),
        r@.len() == v@.len(),
{
    broadcast use vstd::seq_lib::to_multiset_insert;
    let mut out: Vec<i128> = Vec::new();
    let mut i: usize = 0;
    proof {
        assert(v@.subrange(0, 0) =~= Seq::<i128>::empty());
    }
    while i < v.len()
        invariant
            0 <= i <= v@.len(),
            vstd::relations::sorted_by(out@, i128_le()),
            out@.to_multiset() == v@.subrange(0, i as int).to_multiset(),
            out@.len() == i,
        decreases v@.len() - i,
    {
        let x = v[i];
        let mut p: usize = 0;
        while p < out.len() && out[p] <= x
            invariant
                0 <= p <= out@.len(),
                forall|q: int| 0 <= q < p ==> out@[q] <= x,
            decreases out@.len() - p,
        {
            p += 1;
        }
        let ghost old_out = out@;
        proof {
            assert forall|q: int| p <= q < old_out.len() implies x < old_out[q] by {
                assert(i128_le()(old_out[p as int], old_out[q]) || q == p);
            }
        }
        out.insert(p, x);
        proof {
            assert(out@ == old_out.insert(p as int, x));
            assert forall|a: int, b: int| 0 <= a < b < out@.len() implies #[trigger] i128_le()(out@[a], out@[b]) by {
                if a < p && b < p {
                    assert(i128_le()(old_out[a], old_out[b]));
                } else if a < p && b > p {
                    assert(out@[b] == old_out[b - 1]);
                    assert(old_out[a] <= x);
                } else if a > p {
                    assert(i128_le()(old_out[a - 1], old_out[b - 1]));
                }
            }
            assert(v@.subrange(0, i + 1) =~= v@.subrange(0, i as int).push(v@[i as int]));
            vstd::seq_lib::to_multiset_build(v@.subrange(0, i as int), v@[i as int]);
            vstd::seq_lib::to_multiset_insert(old_out, p as int, x);
            assert(out@.to_multiset() == old_out.to_multiset().insert(x));
        }
        i += 1;
    }
    proof {
        assert(v@.subrange(0, v@.len() as int) =~= v@);
        let le = i128_le();
        assert(vstd::relations::total_ordering(le));
        v@.lemma_sort_by_ensures(le);
        vstd::seq_lib::lemma_sorted_unique(out@, v@.sort_by(le), le);
    }
    out
}

} // verus!
