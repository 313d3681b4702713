//! Numbers as bytes, in either order.

use vstd::prelude::*;

verus! {

/// The order of the bytes of a number in memory.
#[derive(Debug, Clone, Copy, PartialEq, Eq, Structural)]
pub enum ByteOrder {
    Little,
    Big,
}

/// `n` bytes of a number, the least significant first.
pub open spec fn le_bytes(x: nat, n: nat) -> Seq<u8>
    decreases n,
{
    if n == 0 {
        Seq::empty()
    } else {
        seq![(x % 256) as u8] + le_bytes(x / 256, (n - 1) as nat)
    }
}

/// The number that bytes stand for, the least significant first.
pub open spec fn from_le(s: Seq<u8>) -> nat
    decreases s.len(),
{
    if s.len() == 0 {
        0
    } else {
        s[0] as nat + 256 * from_le(s.drop_first())
    }
}

/// `n` bytes of a number in a given order.
pub open spec fn bytes_of(order: ByteOrder, x: nat, n: nat) -> Seq<u8> {
    match order {
        ByteOrder::Little => le_bytes(x, n),
        ByteOrder::Big => le_bytes(x, n).reverse(),
    }
}

/// The number that bytes in a given order stand for.
pub open spec fn number_of(order: ByteOrder, s: Seq<u8>) -> nat {
    match order {
        ByteOrder::Little => from_le(s),
        ByteOrder::Big => from_le(s.reverse()),
    }
}

/// How many numbers `n` bytes can hold.
pub open spec fn span(n: nat) -> nat
    decreases n,
{
    if n == 0 {
        1
    } else {
        256 * span((n - 1) as nat)
    }
}

pub proof fn lemma_le_len(x: nat, n: nat)
    ensures
        le_bytes(x, n).len() == n,
    decreases n,
{
    if n > 0 {
        lemma_le_len(x / 256, (n - 1) as nat);
    }
}

proof fn lemma_le_round_trip(x: nat, n: nat)
    requires
        x < span(n),
    ensures
        from_le(le_bytes(x, n)) == x,
    decreases n,
{
    if n > 0 {
        lemma_le_round_trip(x / 256, (n - 1) as nat);
        let s = le_bytes(x, n);
        assert(s.drop_first() =~= le_bytes(x / 256, (n - 1) as nat));
        assert(s[0] == (x % 256) as u8);
    }
}

/// A number that fits is read back from its bytes, in the same order.
pub proof fn law_bytes_read_back(order: ByteOrder, x: nat, n: nat)
    requires
        x < span(n),
    ensures
        bytes_of(order, x, n).len() == n,
        number_of(order, bytes_of(order, x, n)) == x,
{
    lemma_le_len(x, n);
    lemma_le_round_trip(x, n);
    assert(le_bytes(x, n).reverse().reverse() =~= le_bytes(x, n));
}

pub proof fn lemma_spans()
    ensures
        span(4) == 0x1_0000_0000,
        span(8) == 0x1_0000_0000_0000_0000,
{
    reveal_with_fuel(span, 9);
}

pub proof fn lemma_from_le_bound(s: Seq<u8>)
    ensures
        from_le(s) < span(s.len()),
    decreases s.len(),
{
    if s.len() > 0 {
        lemma_from_le_bound(s.drop_first());
    }
}

/// Appends `n` bytes of `x` to `out`.
pub fn push_number(out: &mut Vec<u8>, order: ByteOrder, x: u64, n: usize)
    ensures
        final(out)@ == old(out)@ + bytes_of(order, x as nat, n as nat),
{
    let mut digits: Vec<u8> = Vec::new();
    let mut rest: u64 = x;
    let mut i: usize = 0;
    assert(Seq::<u8>::empty() + le_bytes(x as nat, n as nat) =~= le_bytes(x as nat, n as nat));
    while i < n
        invariant
            i <= n,
            digits@.len() == i,
            digits@ + le_bytes(rest as nat, (n - i) as nat) == le_bytes(x as nat, n as nat),
        decreases n - i,
    {
        let ghost before = digits@;
        digits.push((rest % 256) as u8);
        assert(digits@ + le_bytes((rest / 256) as nat, (n - i - 1) as nat) =~= before + le_bytes(
            rest as nat,
            (n - i) as nat,
        ));
        rest = rest / 256;
        i += 1;
    }
    assert(digits@ =~= le_bytes(x as nat, n as nat));
    let ghost start = out@;
    let mut j: usize = 0;
    while j < n
        invariant
            j <= n == digits@.len(),
            digits@ == le_bytes(x as nat, n as nat),
            out@ == start + bytes_of(order, x as nat, n as nat).take(j as int),
        decreases n - j,
    {
        let ghost all = bytes_of(order, x as nat, n as nat);
        let b = match order {
            ByteOrder::Little => digits[j],
            ByteOrder::Big => digits[n - 1 - j],
        };
        assert(b == all[j as int]);
        assert(all.take(j + 1) =~= all.take(j as int).push(all[j as int]));
        out.push(b);
        assert(out@ =~= start + all.take(j + 1));
        j += 1;
    }
    assert(bytes_of(order, x as nat, n as nat).take(n as int) =~= bytes_of(
        order,
        x as nat,
        n as nat,
    )) by {
        lemma_le_len(x as nat, n as nat);
    }
    assert(out@ =~= start + bytes_of(order, x as nat, n as nat));
}

/// The number in the `n` bytes of `buf` from `at` on.
pub fn read_number(buf: &Vec<u8>, at: usize, n: usize, order: ByteOrder) -> (r: u64)
    requires
        n <= 8,
        at + n <= buf@.len(),
    ensures
        r == number_of(order, buf@.subrange(at as int, at + n)),
{
    let ghost field = buf@.subrange(at as int, at + n);
    let ghost le = match order {
        ByteOrder::Little => field,
        ByteOrder::Big => field.reverse(),
    };
    let mut r: u64 = 0;
    let mut i: usize = n;
    assert(le.subrange(n as int, n as int) =~= Seq::empty());
    while i > 0
        invariant
            i <= n <= 8,
            at + n <= buf.len(),
            field == buf@.subrange(at as int, at + n),
            le == match order {
                ByteOrder::Little => field,
                ByteOrder::Big => field.reverse(),
            },
            r == from_le(le.subrange(i as int, n as int)),
        decreases i,
    {
        i -= 1;
        let b: u8 = match order {
            ByteOrder::Little => buf[at + i],
            ByteOrder::Big => buf[at + (n - 1 - i)],
        };
        assert(b == le[i as int]);
        let ghost tail = le.subrange(i as int, n as int);
        assert(tail.drop_first() =~= le.subrange(i + 1, n as int));
        assert(tail[0] == b);
        proof {
            lemma_from_le_bound(tail);
            lemma_spans();
            lemma_span_monotone(tail.len(), 8);
        }
        r = b as u64 + 256 * r;
    }
    assert(le.subrange(0, n as int) =~= le);
    r
}

pub proof fn lemma_span_monotone(a: nat, b: nat)
    requires
        a <= b,
    ensures
        span(a) <= span(b),
        span(a) >= 1,
    decreases b,
{
    if a < b {
        lemma_span_monotone(a, (b - 1) as nat);
    } else if a > 0 {
        lemma_span_monotone((a - 1) as nat, (a - 1) as nat);
    }
}

/// Four bytes stand for the number that place values make of them: the first counts least in
/// the one order and most in the other.
pub proof fn law_four_bytes(a: u8, b: u8, c: u8, d: u8)
    ensures
        bytes_of(
            ByteOrder::Little,
            (a + 256 * b + 65536 * c + 16777216 * d) as nat,
            4,
        ) == seq![a, b, c, d],
        bytes_of(
            ByteOrder::Big,
            (a + 256 * b + 65536 * c + 16777216 * d) as nat,
            4,
        ) == seq![d, c, b, a],
        number_of(ByteOrder::Little, seq![a, b, c, d]) == a + 256 * b + 65536 * c + 16777216 * d,
        number_of(ByteOrder::Big, seq![d, c, b, a]) == a + 256 * b + 65536 * c + 16777216 * d,
{
    let x = (a + 256 * b + 65536 * c + 16777216 * d) as nat;
    reveal_with_fuel(le_bytes, 5);
    reveal_with_fuel(from_le, 5);
    let s = seq![a, b, c, d];
    assert(x % 256 == a && x / 256 == b + 256 * c + 65536 * d);
    assert(le_bytes(x, 4) =~= s);
    assert(s.drop_first() =~= seq![b, c, d]);
    assert(seq![b, c, d].drop_first() =~= seq![c, d]);
    assert(seq![c, d].drop_first() =~= seq![d]);
    assert(seq![d].drop_first() =~= Seq::<u8>::empty());
    assert(s.reverse() =~= seq![d, c, b, a]);
    assert(seq![d, c, b, a].reverse() =~= s);
}

/// Eight bytes are two halves of four: the half that counts least comes first in the one
/// order and last in the other.
pub proof fn law_eight_bytes(low: u32, high: u32)
    ensures
        bytes_of(ByteOrder::Little, (low + 0x1_0000_0000 * high) as nat, 8) == bytes_of(
            ByteOrder::Little,
            low as nat,
            4,
        ) + bytes_of(ByteOrder::Little, high as nat, 4),
        bytes_of(ByteOrder::Big, (low + 0x1_0000_0000 * high) as nat, 8) == bytes_of(
            ByteOrder::Big,
            high as nat,
            4,
        ) + bytes_of(ByteOrder::Big, low as nat, 4),
{
    let x = (low + 0x1_0000_0000 * high) as nat;
    reveal_with_fuel(le_bytes, 9);
    let (l, h) = (le_bytes(low as nat, 4), le_bytes(high as nat, 4));
    assert(x / 256 == low / 256 + 0x100_0000 * high);
    assert(x / 256 / 256 == low / 256 / 256 + 0x1_0000 * high);
    assert(x / 256 / 256 / 256 == low / 256 / 256 / 256 + 0x100 * high);
    assert(x / 256 / 256 / 256 / 256 == high);
    assert(le_bytes(x, 8) =~= l + h);
    assert((l + h).reverse() =~= h.reverse() + l.reverse());
}

} // verus!
