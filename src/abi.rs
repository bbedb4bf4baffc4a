//! Fixed-width big-endian words and decimal digit strings.

use vstd::arithmetic::power::pow;
use vstd::prelude::*;

verus! {

/// `v` as `n` big-endian bytes, most significant first (truncated modulo 256^n).
pub open spec fn be_bytes(v: nat, n: nat) -> Seq<u8>
    decreases n,
{
    if n == 0 {
        seq![]
    } else {
        be_bytes(v / 256, (n - 1) as nat).push((v % 256) as u8)
    }
}

/// The unsigned integer that big-endian bytes `s` encode.
pub open spec fn be_value(s: Seq<u8>) -> nat
    decreases s.len(),
{
    if s.len() == 0 {
        0
    } else {
        be_value(s.drop_last()) * 256 + s.last() as nat
    }
}

/// The 32-byte word of an unsigned integer.
pub open spec fn uint_word(v: nat) -> Seq<u8> {
    be_bytes(v, 32)
}

/// An address (or any byte string of up to 20 bytes) left-padded with zeros to
/// 32 bytes; longer inputs keep their first 20 bytes.
pub open spec fn addr_word(a: Seq<u8>) -> Seq<u8> {
    let k = if a.len() < 20 { a.len() } else { 20 };
    Seq::new((32 - k) as nat, |i: int| 0u8) + a.subrange(0, k as int)
}

pub proof fn lemma_be_bytes_len(v: nat, n: nat)
    ensures
        be_bytes(v, n).len() == n,
    decreases n,
{
    if n > 0 {
        lemma_be_bytes_len(v / 256, (n - 1) as nat);
    }
}

/// Reading back `n` big-endian bytes gives `v` whenever `v` fits in them.
pub proof fn lemma_be_round_trip(v: nat, n: nat)
    requires
        v < pow(256, n),
    ensures
        be_value(be_bytes(v, n)) == v,
    decreases n,
{
    if n > 0 {
        let m = (n - 1) as nat;
        assert(pow(256, n) == 256 * pow(256, m)) by {
            vstd::arithmetic::power::lemma_pow_adds(256, 1, m);
            vstd::arithmetic::power::lemma_pow1(256);
        }
        let p = pow(256, m);
        assert(v / 256 < p) by (nonlinear_arith)
            requires
                v < 256 * p,
        ;
        lemma_be_round_trip(v / 256, m);
        assert(be_bytes(v, n).drop_last() == be_bytes(v / 256, m));
        assert(v == (v / 256) * 256 + v % 256) by (nonlinear_arith);
    } else {
        vstd::arithmetic::power::lemma_pow0(256);
    }
}

/// Two integers that fit in `n` bytes have the same big-endian encoding only
/// if they are equal.
pub proof fn lemma_be_bytes_injective(a: nat, b: nat, n: nat)
    requires
        a < pow(256, n),
        b < pow(256, n),
        be_bytes(a, n) == be_bytes(b, n),
    ensures
        a == b,
{
    lemma_be_round_trip(a, n);
    lemma_be_round_trip(b, n);
}

pub proof fn lemma_u128_fits_word(v: nat)
    requires
        v <= u128::MAX,
    ensures
        v < pow(256, 32),
{
    vstd::arithmetic::power::lemma_pow_adds(256, 16, 16);
    assert(pow(256, 16) == 0x1_0000_0000_0000_0000_0000_0000_0000_0000nat) by {
        reveal_with_fuel(pow, 17);
    }
    assert(pow(256, 16) > 0);
    assert(pow(256, 32) == pow(256, 16) * pow(256, 16));
    assert(pow(256, 16) * pow(256, 16) >= pow(256, 16)) by (nonlinear_arith)
        requires
            pow(256, 16) > 0,
    ;
}

/// `v` as `n` big-endian bytes.
pub fn be_bytes_vec(v: u128, n: usize) -> (r: Vec<u8>)
    ensures
        r@ == be_bytes(v as nat, n as nat),
    decreases n,
{
    if n == 0 {
        Vec::new()
    } else {
        let mut r = be_bytes_vec(v / 256, n - 1);
        r.push((v % 256) as u8);
        r
    }
}

/// The 32-byte big-endian word of `v`.
pub fn u256_bytes(v: u64) -> (r: Vec<u8>)
    ensures
        r@ == uint_word(v as nat),
        r@.len() == 32,
{
    proof {
        lemma_be_bytes_len(v as nat, 32);
    }
    be_bytes_vec(v as u128, 32)
}

/// The 32-byte big-endian word of `v`; the form used for a salt.
pub fn u64_to_bytes32(v: u64) -> (r: Vec<u8>)
    ensures
        r@ == uint_word(v as nat),
        r@.len() == 32,
{
    u256_bytes(v)
}

/// `a` right-aligned in a 32-byte word (at most its first 20 bytes).
pub fn addr_to_bytes32(a: &[u8]) -> (r: Vec<u8>)
    ensures
        r@ == addr_word(a@),
        r@.len() == 32,
{
    let k: usize = if a.len() < 20 { a.len() } else { 20 };
    let mut r: Vec<u8> = Vec::new();
    let mut i: usize = 0;
    while i < 32 - k
        invariant
            k <= 20,
            i <= 32 - k,
            r@ == Seq::new(i as nat, |j: int| 0u8),
        decreases 32 - k - i,
    {
        r.push(0u8);
        i = i + 1;
    }
    let mut j: usize = 0;
    while j < k
        invariant
            k <= 20,
            k <= a@.len(),
            j <= k,
            r@ == Seq::new((32 - k) as nat, |x: int| 0u8) + a@.subrange(0, j as int),
        decreases k - j,
    {
        r.push(a[j]);
        j = j + 1;
        assert(a@.subrange(0, j as int) == a@.subrange(0, j - 1).push(a@[j - 1]));
    }
    assert(a@.subrange(0, k as int) == a@.subrange(0, j as int));
    r
}


/// Whether `c` is an ASCII decimal digit.
pub open spec fn is_digit(c: u8) -> bool {
    48 <= c <= 57
}

/// Whether `s` is a non-empty run of ASCII decimal digits.
pub open spec fn is_decimal(s: Seq<u8>) -> bool {
    s.len() > 0 && forall|i: int| 0 <= i < s.len() ==> #[trigger] is_digit(s[i])
}

/// The number that the decimal digits `s` spell (leading zeros allowed).
pub open spec fn decimal_value(s: Seq<u8>) -> nat
    decreases s.len(),
{
    if s.len() == 0 {
        0
    } else {
        decimal_value(s.drop_last()) * 10 + (s.last() - 48) as nat
    }
}

/// The shortest decimal spelling of `v`, in ASCII digits.
pub open spec fn decimal_digits(v: nat) -> Seq<u8>
    decreases v,
{
    if v < 10 {
        seq![(v + 48) as u8]
    } else {
        decimal_digits(v / 10).push((v % 10 + 48) as u8)
    }
}

/// A longer run of digits never spells a smaller number.
proof fn lemma_decimal_value_grows(s: Seq<u8>, i: int, j: int)
    requires
        0 <= i <= j <= s.len(),
        forall|k: int| 0 <= k < s.len() ==> #[trigger] is_digit(s[k]),
    ensures
        decimal_value(s.subrange(0, i)) <= decimal_value(s.subrange(0, j)),
    decreases j - i,
{
    if i < j {
        lemma_decimal_value_grows(s, i, j - 1);
        assert(s.subrange(0, j).drop_last() == s.subrange(0, j - 1));
    }
}

/// Decimal digits are ASCII digits.
pub proof fn lemma_decimal_digits_are_digits(v: nat)
    ensures
        is_decimal(decimal_digits(v)),
        forall|i: int| 0 <= i < decimal_digits(v).len() ==> #[trigger] decimal_digits(v)[i] < 128,
    decreases v,
{
    if v >= 10 {
        lemma_decimal_digits_are_digits(v / 10);
    }
}

/// Prepending a byte adds it at the weight of the bytes after it.
pub proof fn lemma_be_value_prepend(x: u8, t: Seq<u8>)
    ensures
        be_value(seq![x] + t) == x as nat * pow(256, t.len()) + be_value(t),
    decreases t.len(),
{
    if t.len() == 0 {
        vstd::arithmetic::power::lemma_pow0(256);
        assert((seq![x] + t).drop_last() =~= Seq::<u8>::empty());
        assert((seq![x] + t).last() == x);
        assert(be_value(Seq::<u8>::empty()) == 0);
        assert(be_value(seq![x] + t) == 0 * 256 + x as nat);
    } else {
        let u = t.drop_last();
        assert((seq![x] + t).drop_last() =~= seq![x] + u);
        lemma_be_value_prepend(x, u);
        vstd::arithmetic::power::lemma_pow_adds(256, u.len(), 1);
        vstd::arithmetic::power::lemma_pow1(256);
        let p = pow(256, u.len());
        assert(pow(256, t.len()) == p * 256);
        assert((seq![x] + t).last() == t.last());
        assert(be_value(seq![x] + t) == be_value(seq![x] + u) * 256 + t.last() as nat);
        assert(be_value(t) == be_value(u) * 256 + t.last() as nat);
        assert((x as nat * p + be_value(u)) * 256 + t.last() as nat == x as nat * (p * 256)
            + be_value(u) * 256 + t.last() as nat) by (nonlinear_arith);
    }
}

/// `n` big-endian bytes encode a value below 256^n.
pub proof fn lemma_be_value_bound(s: Seq<u8>)
    ensures
        be_value(s) < pow(256, s.len()),
    decreases s.len(),
{
    if s.len() == 0 {
        vstd::arithmetic::power::lemma_pow0(256);
    } else {
        lemma_be_value_bound(s.drop_last());
        vstd::arithmetic::power::lemma_pow_adds(256, (s.len() - 1) as nat, 1);
        vstd::arithmetic::power::lemma_pow1(256);
        let p = pow(256, (s.len() - 1) as nat);
        let v = be_value(s.drop_last());
        assert(v * 256 + (s.last() as nat) < p * 256) by (nonlinear_arith)
            requires
                v < p,
                s.last() < 256,
        ;
    }
}

/// Encoding the value of `n` big-endian bytes gives those bytes back.
pub proof fn lemma_be_bytes_of_value(s: Seq<u8>)
    ensures
        be_bytes(be_value(s), s.len()) == s,
    decreases s.len(),
{
    if s.len() > 0 {
        let v = be_value(s.drop_last());
        lemma_be_bytes_of_value(s.drop_last());
        assert((v * 256 + s.last() as nat) / 256 == v) by (nonlinear_arith)
            requires
                s.last() < 256,
        ;
        assert((v * 256 + s.last() as nat) % 256 == s.last() as nat) by (nonlinear_arith)
            requires
                s.last() < 256,
        ;
        assert(be_bytes(be_value(s), s.len()) =~= s.drop_last().push(s.last()));
    }
}

/// The word `w` times ten plus `d`, and what overflowed its 32 bytes.
fn mul10_add(w: &Vec<u8>, d: u8) -> (r: (Vec<u8>, u32))
    requires
        w@.len() == 32,
        d < 10,
    ensures
        r.0@.len() == 32,
        be_value(r.0@) + r.1 as nat * pow(256, 32) == be_value(w@) * 10 + d as nat,
{
    let mut out = w.clone();
    let mut carry: u32 = d as u32;
    let mut i: usize = 32;
    proof {
        assert(out@ =~= w@);
        vstd::arithmetic::power::lemma_pow0(256);
        assert(out@.subrange(32, 32) =~= Seq::<u8>::empty());
        assert(w@.subrange(32, 32) =~= Seq::<u8>::empty());
    }
    while i > 0
        invariant
            i <= 32,
            w@.len() == 32,
            out@.len() == 32,
            carry <= 9,
            out@.subrange(0, i as int) == w@.subrange(0, i as int),
            be_value(out@.subrange(i as int, 32)) + carry as nat * pow(256, (32 - i) as nat)
                == be_value(w@.subrange(i as int, 32)) * 10 + d as nat,
        decreases i,
    {
        let t: u32 = (w[i - 1] as u32) * 10 + carry;
        let ghost old_out = out@;
        let ghost p = pow(256, (32 - i) as nat);
        let ghost c = carry as nat;
        out.set(i - 1, (t % 256) as u8);
        carry = t / 256;
        proof {
            let j = (i - 1) as int;
            assert(out@.subrange(j, 32) =~= seq![(t % 256) as u8] + old_out.subrange(i as int, 32));
            assert(w@.subrange(j, 32) =~= seq![w@[j]] + w@.subrange(i as int, 32));
            assert(out@.subrange(0, j) =~= w@.subrange(0, j)) by {
                assert(old_out.subrange(0, j) =~= old_out.subrange(0, i as int).subrange(0, j));
                assert(w@.subrange(0, j) =~= w@.subrange(0, i as int).subrange(0, j));
            }
            lemma_be_value_prepend((t % 256) as u8, old_out.subrange(i as int, 32));
            lemma_be_value_prepend(w@[j], w@.subrange(i as int, 32));
            vstd::arithmetic::power::lemma_pow_adds(256, (32 - i) as nat, 1);
            vstd::arithmetic::power::lemma_pow1(256);
            assert(pow(256, (32 - j) as nat) == p * 256);
            let bo = be_value(old_out.subrange(i as int, 32));
            let bw = be_value(w@.subrange(i as int, 32));
            let x = w@[j] as nat;
            assert(t as nat == x * 10 + c);
            assert((t as nat % 256) * p + bo + (t as nat / 256) * (p * 256) == 10 * (x * p + bw)
                + d as nat) by (nonlinear_arith)
                requires
                    bo + c * p == bw * 10 + d as nat,
                    t as nat == x * 10 + c,
            ;
        }
        i = i - 1;
    }
    proof {
        vstd::arithmetic::power::lemma_pow0(256);
        assert(out@.subrange(0, 32) =~= out@);
        assert(w@.subrange(0, 32) =~= w@);
    }
    (out, carry)
}

/// The 32-byte big-endian word of the number that decimal digits `s`
/// spell; `None` where `s` is empty, holds any other character, or spells a
/// number of 2^256 or more.
pub fn parse_decimal_u256(s: &[u8]) -> (r: Option<Vec<u8>>)
    ensures
        r.is_some() == (is_decimal(s@) && decimal_value(s@) < pow(256, 32)),
        r.is_some() ==> r.unwrap()@ == be_bytes(decimal_value(s@), 32),
{
    if s.len() == 0 {
        return None;
    }
    let mut acc: Vec<u8> = vec![0u8; 32];
    proof {
        assert(acc@ =~= seq![0u8; 32]);
        lemma_be_bytes_of_value(acc@);
        assert(decimal_value(s@.subrange(0, 0)) == 0);
        assert(be_value(acc@) == 0) by {
            assert forall|k: nat| k <= 32 implies be_value(#[trigger] acc@.subrange(0, k as int)) == 0 by {
                lemma_zero_prefix_value(acc@, k);
            }
            assert(acc@.subrange(0, 32) =~= acc@);
        }
    }
    let mut i: usize = 0;
    while i < s.len()
        invariant
            i <= s@.len(),
            acc@.len() == 32,
            forall|k: int| 0 <= k < i ==> #[trigger] is_digit(s@[k]),
            be_value(acc@) == decimal_value(s@.subrange(0, i as int)),
        decreases s@.len() - i,
    {
        let c = s[i];
        if c < 48 || c > 57 {
            assert(!is_digit(s@[i as int]));
            return None;
        }
        let (next, carry) = mul10_add(&acc, c - 48);
        assert(s@.subrange(0, i + 1).drop_last() == s@.subrange(0, i as int));
        assert(s@.subrange(0, i + 1).last() == c);
        assert(decimal_value(s@.subrange(0, i + 1)) == decimal_value(s@.subrange(0, i as int)) * 10
            + (c - 48) as nat);
        if carry != 0 {
            proof {
                let big = pow(256, 32);
                let bn = be_value(next@);
                vstd::arithmetic::power::lemma_pow_positive(256, 32);
                assert(bn + carry as nat * big >= big) by (nonlinear_arith)
                    requires
                        carry >= 1,
                        big >= 0,
                ;
                if is_decimal(s@) {
                    lemma_decimal_value_grows(s@, i + 1, s@.len() as int);
                    assert(s@.subrange(0, s@.len() as int) == s@);
                }
            }
            return None;
        }
        assert(carry as nat * pow(256, 32) == 0) by (nonlinear_arith)
            requires
                carry == 0,
        ;
        acc = next;
        i = i + 1;
    }
    proof {
        assert(s@.subrange(0, s@.len() as int) == s@);
        lemma_be_value_bound(acc@);
        lemma_be_bytes_of_value(acc@);
    }
    Some(acc)
}

proof fn lemma_zero_prefix_value(z: Seq<u8>, k: nat)
    requires
        k <= z.len(),
        forall|i: int| 0 <= i < z.len() ==> z[i] == 0,
    ensures
        be_value(z.subrange(0, k as int)) == 0,
    decreases k,
{
    if k > 0 {
        lemma_zero_prefix_value(z, (k - 1) as nat);
        assert(z.subrange(0, k as int).drop_last() =~= z.subrange(0, k - 1));
    }
}

/// The decimal digits of `v`, as ASCII bytes.
pub fn decimal_bytes(v: u128) -> (r: Vec<u8>)
    ensures
        r@ == decimal_digits(v as nat),
    decreases v,
{
    if v < 10 {
        let mut r: Vec<u8> = Vec::new();
        r.push((v + 48) as u8);
        r
    } else {
        let mut r = decimal_bytes(v / 10);
        r.push((v % 10 + 48) as u8);
        r
    }
}

} // verus!
