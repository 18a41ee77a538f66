//! Variable length encoding of the Remaining Length in the fixed header.
//!
//! Each byte carries seven bits of the value, least significant group first; the high bit of a
//! byte is set when another byte follows. At most four bytes are used, so the largest value is
//! `268_435_455`.
use vstd::prelude::*;

verus! {

/// Largest value that fits in four bytes of the variable length encoding.
pub const REMAINING_LENGTH_MAX: u32 = 268_435_455;

/// Largest number of bytes of an encoded remaining length.
pub const REMAINING_LENGTH_MAX_BYTES: usize = 4;

/// The byte has the continuation flag (the high bit) set.
pub open spec fn has_continue(b: u8) -> bool {
    b >= 128
}

/// The seven value bits of a byte.
pub open spec fn digit(b: u8) -> int {
    (b % 128) as int
}

/// `128` to the power of `n`.
pub open spec fn pow128(n: nat) -> nat
    decreases n,
{
    if n == 0 {
        1
    } else {
        128 * pow128((n - 1) as nat)
    }
}

/// The value of the given bytes read as a remaining length, ignoring the continuation flags.
pub open spec fn rl_value(s: Seq<u8>) -> int
    decreases s.len(),
{
    if s.len() == 0 {
        0
    } else {
        digit(s[0]) + 128 * rl_value(s.drop_first())
    }
}

/// Number of leading bytes that have the continuation flag set.
pub open spec fn leading_continues(s: Seq<u8>) -> nat
    decreases s.len(),
{
    if s.len() > 0 && has_continue(s[0]) {
        1 + leading_continues(s.drop_first())
    } else {
        0
    }
}

/// Number of bytes of the canonical encoding of `v`.
pub open spec fn rl_size(v: int) -> nat {
    if v < 128 {
        1
    } else if v < 16_384 {
        2
    } else if v < 2_097_152 {
        3
    } else {
        4
    }
}

/// The canonical (shortest) encoding of `v`.
pub open spec fn rl_encode(v: nat) -> Seq<u8>
    decreases v,
{
    if v < 128 {
        seq![v as u8]
    } else {
        seq![(v % 128 + 128) as u8] + rl_encode(v / 128)
    }
}

/// The bytes form a well formed encoding: every byte but the last has the continuation flag.
pub open spec fn rl_well_formed(s: Seq<u8>) -> bool {
    &&& 1 <= s.len() <= 4
    &&& leading_continues(s) == s.len() - 1
}

pub proof fn lemma_pow128_bounds(n: nat)
    ensures
        pow128(n) >= 1,
        n <= 4 ==> pow128(n) <= 268_435_456,
        pow128(4) == 268_435_456,
    decreases n,
{
    reveal_with_fuel(pow128, 5);
    if n > 0 {
        lemma_pow128_bounds((n - 1) as nat);
    }
}

/// The value of `n` bytes is below `128^n`.
pub proof fn lemma_rl_value_bound(s: Seq<u8>)
    ensures
        0 <= rl_value(s) < pow128(s.len()),
        s.len() <= 4 ==> rl_value(s) <= REMAINING_LENGTH_MAX,
    decreases s.len(),
{
    if s.len() > 0 {
        lemma_rl_value_bound(s.drop_first());
        let r = rl_value(s.drop_first());
        let p = pow128((s.len() - 1) as nat);
        assert(0 <= digit(s[0]) < 128);
        assert(digit(s[0]) + 128 * r < 128 * p) by (nonlinear_arith)
            requires
                0 <= digit(s[0]) < 128,
                0 <= r < p,
        ;
        assert(0 <= digit(s[0]) + 128 * r) by (nonlinear_arith)
            requires
                0 <= digit(s[0]) < 128,
                0 <= r,
        ;
    }
    lemma_pow128_bounds(s.len());
    if s.len() <= 4 {
        assert(pow128(s.len()) <= pow128(4)) by {
            lemma_pow128_monotone(s.len(), 4);
        }
    }
}

pub proof fn lemma_pow128_monotone(a: nat, b: nat)
    requires
        a <= b,
    ensures
        pow128(a) <= pow128(b),
    decreases b,
{
    if a < b {
        lemma_pow128_monotone(a, (b - 1) as nat);
        lemma_pow128_bounds((b - 1) as nat);
    }
}

/// What the canonical encoding of `v` looks like, and that reading it gives `v` back.
pub proof fn lemma_rl_encode(v: nat)
    requires
        v <= REMAINING_LENGTH_MAX,
    ensures
        rl_encode(v).len() == rl_size(v as int),
        rl_value(rl_encode(v)) == v,
        rl_well_formed(rl_encode(v)),
        forall|rest: Seq<u8>|
            #[trigger] leading_continues(rl_encode(v) + rest) == rl_encode(v).len() - 1,
    decreases v,
{
    let e = rl_encode(v);
    if v < 128 {
        assert(e.drop_first() =~= Seq::<u8>::empty());
        assert(rl_value(e.drop_first()) == 0);
        assert forall|rest: Seq<u8>| #[trigger]
            leading_continues(rl_encode(v) + rest) == rl_encode(v).len() - 1 by {
            reveal_with_fuel(leading_continues, 2);
        }
        reveal_with_fuel(leading_continues, 2);
    } else {
        let t = rl_encode(v / 128);
        lemma_rl_encode(v / 128);
        assert(e.drop_first() =~= t);
        assert((v % 128 + 128) as u8 % 128 == v % 128);
        assert(rl_value(e) == v % 128 + 128 * (v / 128));
        assert forall|rest: Seq<u8>| #[trigger]
            leading_continues(rl_encode(v) + rest) == rl_encode(v).len() - 1 by {
            assert((e + rest).drop_first() =~= t + rest);
            assert(leading_continues(t + rest) == t.len() - 1);
        }
        assert(leading_continues(e) == e.len() - 1) by {
            assert(e + Seq::<u8>::empty() =~= e);
            assert(leading_continues(e + Seq::<u8>::empty()) == e.len() - 1);
        }
    }
}

/// Reading a prefix that is a well formed encoding does not depend on what follows it.
pub proof fn lemma_leading_continues_prefix(s: Seq<u8>, k: nat)
    requires
        k < s.len(),
        forall|i: int| 0 <= i < k ==> has_continue(#[trigger] s[i]),
        !has_continue(s[k as int]),
    ensures
        leading_continues(s) == k,
    decreases k,
{
    if k > 0 {
        assert forall|i: int| 0 <= i < k - 1 implies has_continue(#[trigger] s.drop_first()[i]) by {
            assert(s.drop_first()[i] == s[i + 1]);
        }
        lemma_leading_continues_prefix(s.drop_first(), (k - 1) as nat);
    }
}

/// The first `leading_continues(s)` bytes have the flag set, and the next one does not.
pub proof fn lemma_leading_continues_facts(s: Seq<u8>)
    ensures
        leading_continues(s) <= s.len(),
        forall|i: int| 0 <= i < leading_continues(s) ==> has_continue(#[trigger] s[i]),
        leading_continues(s) < s.len() ==> !has_continue(s[leading_continues(s) as int]),
    decreases s.len(),
{
    if s.len() > 0 && has_continue(s[0]) {
        lemma_leading_continues_facts(s.drop_first());
        assert forall|i: int| 0 <= i < leading_continues(s) implies has_continue(#[trigger] s[i]) by {
            if i > 0 {
                assert(s[i] == s.drop_first()[i - 1]);
            }
        }
    }
}

/// Counts the leading bytes with the continuation flag, looking at `max` bytes at most.
pub fn count_leading_continues(buf: &[u8], max: usize) -> (r: usize)
    ensures
        r == if leading_continues(buf@) < max { leading_continues(buf@) } else { max as nat },
{
    proof {
        lemma_leading_continues_facts(buf@);
    }
    let mut i: usize = 0;
    while i < buf.len() && i < max && buf[i] >= 128
        invariant
            0 <= i <= buf@.len(),
            i <= max,
            forall|j: int| 0 <= j < i ==> has_continue(#[trigger] buf@[j]),
            leading_continues(buf@) <= buf@.len(),
            forall|j: int| 0 <= j < leading_continues(buf@) ==> has_continue(#[trigger] buf@[j]),
            leading_continues(buf@) < buf@.len() ==> !has_continue(buf@[leading_continues(buf@) as int]),
        decreases buf@.len() - i,
    {
        i = i + 1;
    }
    proof {
        if i < max && i < buf.len() {
            lemma_leading_continues_prefix(buf@, i as nat);
        } else if i < max {
            // every byte has the flag
            if leading_continues(buf@) < i {
                assert(has_continue(buf@[leading_continues(buf@) as int]));
            }
        } else {
            if leading_continues(buf@) < i {
                assert(has_continue(buf@[leading_continues(buf@) as int]));
            }
        }
    }
    i
}

/// Reads the value of at most four encoded bytes, ignoring the continuation flags.
pub fn rl_read(bytes: &[u8]) -> (r: u32)
    requires
        bytes@.len() <= 4,
    ensures
        r == rl_value(bytes@),
{
    let n = bytes.len();
    let mut i = n;
    let mut acc: u32 = 0;
    while i > 0
        invariant
            n == bytes@.len() <= 4,
            0 <= i <= n,
            acc == rl_value(bytes@.subrange(i as int, n as int)),
        decreases i,
    {
        let ghost prev = bytes@.subrange(i as int, n as int);
        i = i - 1;
        proof {
            let cur = bytes@.subrange(i as int, n as int);
            assert(cur.drop_first() =~= prev);
            lemma_rl_value_bound(prev);
            lemma_pow128_monotone(prev.len(), 3);
            reveal_with_fuel(pow128, 4);
        }
        acc = (bytes[i] % 128) as u32 + 128 * acc;
    }
    proof {
        assert(bytes@.subrange(0, n as int) =~= bytes@);
    }
    acc
}

/// Number of bytes needed to encode the value, if it is not above the maximum.
pub fn rl_size_of(v: u32) -> (r: Option<usize>)
    ensures
        r is Some <==> v <= REMAINING_LENGTH_MAX,
        r matches Some(n) ==> n == rl_size(v as int),
{
    if v <= 127 {
        Some(1)
    } else if v <= 16_383 {
        Some(2)
    } else if v <= 2_097_151 {
        Some(3)
    } else if v <= REMAINING_LENGTH_MAX {
        Some(4)
    } else {
        None
    }
}

/// Appends the canonical encoding of the value.
pub fn rl_push(out: &mut Vec<u8>, v: u32)
    requires
        v <= REMAINING_LENGTH_MAX,
    ensures
        final(out)@ == old(out)@ + rl_encode(v as nat),
{
    let mut value = v;
    while value >= 128
        invariant
            old(out)@ + rl_encode(v as nat) == out@ + rl_encode(value as nat),
        decreases value,
    {
        let ghost before = out@;
        let b = (value % 128 + 128) as u8;
        out.push(b);
        proof {
            assert(rl_encode(value as nat) == seq![b] + rl_encode((value / 128) as nat));
            assert(before + rl_encode(value as nat) =~= out@ + rl_encode((value / 128) as nat));
        }
        value = value / 128;
    }
    let ghost before = out@;
    out.push(value as u8);
    proof {
        assert(rl_encode(value as nat) == seq![value as u8]);
        assert(before + rl_encode(value as nat) =~= out@);
    }
}

} // verus!
