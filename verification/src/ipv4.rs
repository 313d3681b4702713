//! IPv4 addresses and networks as numbers.

use crate::text::{
    decimal, decimal_text, law_decimal_is_unique, lemma_cut_at, lemma_decimal_digits,
};
use vstd::arithmetic::power2::{lemma2_to64, lemma_pow2_pos, lemma_pow2_strictly_increases, pow2};
use vstd::prelude::*;
use vstd::string::StringExecFns;

verus! {

/// An address together with a prefix length, such as `10.0.0.3/29`. The address
/// is the big-endian number that its four octets spell.
#[derive(Debug, Clone, Copy, PartialEq, Eq, Structural)]
pub struct Ipv4Net {
    pub addr: u32,
    pub prefix_len: u8,
}

/// How many addresses share a prefix of the given length.
pub open spec fn block_size(prefix_len: u8) -> nat {
    pow2((32 - prefix_len) as nat)
}

impl Ipv4Net {
    pub open spec fn wf(&self) -> bool {
        self.prefix_len <= 32
    }

    /// The lowest address of the network.
    pub open spec fn network_spec(&self) -> int {
        self.addr - self.addr as int % block_size(self.prefix_len) as int
    }

    /// The highest address of the network.
    pub open spec fn broadcast_spec(&self) -> int {
        self.network_spec() + block_size(self.prefix_len) - 1
    }
}

/// `ipnet::Ipv4Net::network` clears the bits of the address beyond the prefix.
/// `ipnet::Ipv4Net::new` fails only on a prefix longer than 32 bits.
#[verifier::external_body]
fn ipnet_network(addr: u32, prefix_len: u8) -> (r: u32)
    requires
        prefix_len <= 32,
    ensures
        r == addr - addr as int % block_size(prefix_len) as int,
{
    ipnet::Ipv4Net::new(addr.into(), prefix_len).unwrap().network().into()
}

/// `ipnet::Ipv4Net::broadcast` sets the bits of the address beyond the prefix.
/// `ipnet::Ipv4Net::new` fails only on a prefix longer than 32 bits.
#[verifier::external_body]
fn ipnet_broadcast(addr: u32, prefix_len: u8) -> (r: u32)
    requires
        prefix_len <= 32,
    ensures
        r == addr - addr as int % block_size(prefix_len) as int + block_size(prefix_len) - 1,
{
    ipnet::Ipv4Net::new(addr.into(), prefix_len).unwrap().broadcast().into()
}

/// What `ipnet` reads out of a network written in CIDR notation: the address and
/// the prefix length, or nothing where the text is no such notation.
pub uninterp spec fn cidr_notation(text: Seq<char>) -> Option<(u32, u8)>;

/// `<ipnet::Ipv4Net as FromStr>::from_str`. Of what it reads, only that a prefix
/// length is at most 32 is stated here beside the name.
#[verifier::external_body]
fn ipnet_parse(text: &str) -> (r: Option<(u32, u8)>)
    ensures
        r == cidr_notation(text@),
        r matches Some(n) ==> n.1 <= 32,
        forall|a: u32, p: u8| p <= 32 && text@ == #[trigger] cidr(a, p) ==> r == Some((a, p)),
{
    let net = text.parse::<ipnet::Ipv4Net>().ok()?;
    Some((net.addr().into(), net.prefix_len()))
}

/// A network holds as many addresses as its block size says, all of them numbers
/// of 32 bits.
pub proof fn lemma_network_bounds(net: Ipv4Net)
    requires
        net.wf(),
    ensures
        block_size(net.prefix_len) >= 1,
        block_size(net.prefix_len) <= 0x1_0000_0000,
        0 <= net.network_spec() <= net.addr <= net.broadcast_spec() <= u32::MAX,
        net.network_spec() % (block_size(net.prefix_len) as int) == 0,
{
    let size = block_size(net.prefix_len) as int;
    lemma2_to64();
    lemma_pow2_pos((32 - net.prefix_len) as nat);
    if net.prefix_len > 0 {
        lemma_pow2_strictly_increases((32 - net.prefix_len) as nat, 32);
    }
    lemma_block_divides(net.prefix_len);
    let a = net.addr as int;
    let whole = 0x1_0000_0000int;
    assert(a == size * (a / size) + a % size && 0 <= a % size < size) by {
        vstd::arithmetic::div_mod::lemma_fundamental_div_mod(a, size);
        vstd::arithmetic::div_mod::lemma_mod_bound(a, size);
    }
    assert(net.network_spec() == (a / size) * size) by {
        vstd::arithmetic::mul::lemma_mul_is_commutative(size, a / size);
    }
    vstd::arithmetic::div_mod::lemma_mod_multiples_basic(a / size, size);
    let blocks = whole / size;
    assert(whole == blocks * size) by {
        vstd::arithmetic::div_mod::lemma_fundamental_div_mod(whole, size);
        vstd::arithmetic::mul::lemma_mul_is_commutative(size, whole / size);
    }
    assert(a / size < blocks) by (nonlinear_arith)
        requires
            (a / size) * size <= a < whole == blocks * size,
            size > 0,
    ;
    assert((a / size + 1) * size <= blocks * size) by (nonlinear_arith)
        requires
            a / size + 1 <= blocks,
            size > 0,
    ;
    assert((a / size + 1) * size == (a / size) * size + size) by (nonlinear_arith);
    assert((a / size) * size >= 0) by (nonlinear_arith)
        requires
            a >= 0,
            size > 0,
    ;
}

/// The block of a prefix divides the whole address space evenly.
pub proof fn lemma_block_divides(prefix_len: u8)
    requires
        prefix_len <= 32,
    ensures
        0x1_0000_0000int % (block_size(prefix_len) as int) == 0,
{
    let k = (32 - prefix_len) as nat;
    lemma2_to64();
    lemma_pow2_pos(k);
    vstd::arithmetic::power2::lemma_pow2_adds(k, (32 - k) as nat);
    vstd::arithmetic::div_mod::lemma_mod_multiples_basic(
        pow2((32 - k) as nat) as int,
        pow2(k) as int,
    );
    assert(pow2(k) * pow2((32 - k) as nat) == pow2((32 - k) as nat) * pow2(k)) by (nonlinear_arith);
}

impl Ipv4Net {
    /// The network of `prefix_len` bits around `addr`; a prefix has at most 32 bits.
    pub fn new(addr: u32, prefix_len: u8) -> (r: Option<Ipv4Net>)
        ensures
            r == if prefix_len <= 32 {
                Some(Ipv4Net { addr, prefix_len })
            } else {
                None
            },
    {
        if prefix_len > 32 {
            None
        } else {
            Some(Ipv4Net { addr, prefix_len })
        }
    }

    /// Reads CIDR notation.
    pub fn parse(text: &str) -> (r: Option<Ipv4Net>)
        ensures
            r == match cidr_notation(text@) {
                Some(n) => Some(Ipv4Net { addr: n.0, prefix_len: n.1 }),
                None => None::<Ipv4Net>,
            },
            r matches Some(n) ==> n.wf(),
            forall|a: u32, p: u8|
                p <= 32 && text@ == #[trigger] cidr(a, p) ==> r == Some(
                    Ipv4Net { addr: a, prefix_len: p },
                ),
    {
        match ipnet_parse(text) {
            Some(n) => Some(Ipv4Net { addr: n.0, prefix_len: n.1 }),
            None => None,
        }
    }

    pub fn network(&self) -> (r: u32)
        requires
            self.wf(),
        ensures
            r == self.network_spec(),
    {
        ipnet_network(self.addr, self.prefix_len)
    }

    pub fn broadcast(&self) -> (r: u32)
        requires
            self.wf(),
        ensures
            r == self.broadcast_spec(),
    {
        ipnet_broadcast(self.addr, self.prefix_len)
    }

    /// The same network, with its lowest address for an address.
    pub fn trunc(&self) -> (r: Ipv4Net)
        requires
            self.wf(),
        ensures
            r.wf(),
            r.addr == self.network_spec(),
            r.prefix_len == self.prefix_len,
            r.network_spec() == self.network_spec(),
            r.broadcast_spec() == self.broadcast_spec(),
    {
        proof {
            lemma_network_bounds(*self);
        }
        Ipv4Net { addr: self.network(), prefix_len: self.prefix_len }
    }

    /// Whether `addr` is one of the addresses of the network.
    pub fn contains(&self, addr: u32) -> (r: bool)
        requires
            self.wf(),
        ensures
            r == (self.network_spec() <= addr <= self.broadcast_spec()),
    {
        self.network() <= addr && addr <= self.broadcast()
    }

    /// The CIDR notation of the network.
    pub fn to_text(&self) -> (r: String)
        ensures
            r@ == cidr(self.addr, self.prefix_len),
    {
        let mut out = dotted_text(self.addr);
        out.push('/');
        assert(out@ =~= dotted(self.addr) + seq!['/']);
        let prefix = decimal_text(self.prefix_len as u64);
        out.append(prefix.as_str());
        out
    }
}

/// The `i`-th octet of an address, the most significant first.
pub open spec fn octet(addr: u32, i: int) -> nat {
    if i == 0 {
        (addr / 0x100_0000) as nat
    } else if i == 1 {
        (addr / 0x1_0000 % 0x100) as nat
    } else if i == 2 {
        (addr / 0x100 % 0x100) as nat
    } else {
        (addr % 0x100) as nat
    }
}

/// The dotted notation of an address.
pub open spec fn dotted(addr: u32) -> Seq<char> {
    decimal(octet(addr, 0)) + seq!['.'] + decimal(octet(addr, 1)) + seq!['.'] + decimal(
        octet(addr, 2),
    ) + seq!['.'] + decimal(octet(addr, 3))
}

/// The CIDR notation of a network.
pub open spec fn cidr(addr: u32, prefix_len: u8) -> Seq<char> {
    dotted(addr) + seq!['/'] + decimal(prefix_len as nat)
}

/// An address is made of its octets, the highest first.
pub proof fn lemma_octets(addr: u32)
    ensures
        addr == 0x100_0000 * octet(addr, 0) + 0x1_0000 * octet(addr, 1) + 0x100 * octet(addr, 2)
            + octet(addr, 3),
{
    assert(addr / 0x1_0000 / 0x100 == addr / 0x100_0000);
    assert(addr / 0x100 / 0x100 == addr / 0x1_0000);
}

/// No two addresses have the same dotted notation.
pub proof fn law_dotted_is_unique(a: u32, b: u32)
    requires
        dotted(a) == dotted(b),
    ensures
        a == b,
{
    let (a0, a1, a2, a3) = (
        decimal(octet(a, 0)),
        decimal(octet(a, 1)),
        decimal(octet(a, 2)),
        decimal(octet(a, 3)),
    );
    let (b0, b1, b2, b3) = (
        decimal(octet(b, 0)),
        decimal(octet(b, 1)),
        decimal(octet(b, 2)),
        decimal(octet(b, 3)),
    );
    lemma_decimal_digits(octet(a, 0));
    lemma_decimal_digits(octet(a, 1));
    lemma_decimal_digits(octet(a, 2));
    lemma_decimal_digits(octet(b, 0));
    lemma_decimal_digits(octet(b, 1));
    lemma_decimal_digits(octet(b, 2));
    let dot = seq!['.'];
    assert(dotted(a) =~= a0 + dot + (a1 + dot + (a2 + dot + a3)));
    assert(dotted(b) =~= b0 + dot + (b1 + dot + (b2 + dot + b3)));
    lemma_cut_at(a0, b0, '.', a1 + dot + (a2 + dot + a3), b1 + dot + (b2 + dot + b3));
    lemma_cut_at(a1, b1, '.', a2 + dot + a3, b2 + dot + b3);
    lemma_cut_at(a2, b2, '.', a3, b3);
    law_decimal_is_unique(octet(a, 0), octet(b, 0));
    law_decimal_is_unique(octet(a, 1), octet(b, 1));
    law_decimal_is_unique(octet(a, 2), octet(b, 2));
    law_decimal_is_unique(octet(a, 3), octet(b, 3));
    lemma_octets(a);
    lemma_octets(b);
}

pub fn dotted_text(addr: u32) -> (r: String)
    ensures
        r@ == dotted(addr),
{
    let mut out = decimal_text((addr / 0x100_0000) as u64);
    out.push('.');
    let b = decimal_text((addr / 0x1_0000 % 0x100) as u64);
    out.append(b.as_str());
    out.push('.');
    let c = decimal_text((addr / 0x100 % 0x100) as u64);
    out.append(c.as_str());
    out.push('.');
    let d = decimal_text((addr % 0x100) as u64);
    out.append(d.as_str());
    assert(out@ =~= dotted(addr));
    out
}

/// `<std::net::Ipv4Addr as FromStr>::from_str`, through the address type that `ipnet`
/// takes. It reads four octets in decimal notation, without leading zeros and divided by
/// dots, and nothing else.
#[verifier::external_body]
fn std_parse_ipv4(text: &str) -> (r: Option<u32>)
    ensures
        r matches Some(a) ==> text@ == dotted(a),
        forall|a: u32| text@ == #[trigger] dotted(a) ==> r == Some(a),
{
    let addr = text.parse().ok()?;
    ipnet::Ipv4Net::new(addr, 32).ok().map(|net| net.addr().into())
}

/// Reads dotted notation.
pub fn parse_ipv4(text: &str) -> (r: Option<u32>)
    ensures
        r matches Some(a) ==> text@ == dotted(a),
        forall|a: u32| text@ == #[trigger] dotted(a) ==> r == Some(a),
{
    std_parse_ipv4(text)
}

/// An address in dotted notation, byte by byte, the highest first.
pub proof fn law_dotted_notation(a: u8, b: u8, c: u8, d: u8)
    ensures
        dotted((0x100_0000 * a + 0x1_0000 * b + 0x100 * c + d) as u32) == decimal(a as nat) + seq![
            '.',
        ] + decimal(b as nat) + seq!['.'] + decimal(c as nat) + seq!['.'] + decimal(d as nat),
{
    let x = (0x100_0000 * a + 0x1_0000 * b + 0x100 * c + d) as u32;
    assert(octet(x, 0) == a && octet(x, 1) == b && octet(x, 2) == c && octet(x, 3) == d) by {
        lemma_octets(x);
    }
}

/// A prefix that is one bit shorter makes a network twice as large; one of 32 bits is a single
/// address.
pub proof fn law_sizes_of_networks(prefix_len: u8)
    requires
        1 <= prefix_len <= 32,
    ensures
        block_size(32) == 1,
        block_size(29) == 8,
        block_size(24) == 256,
        block_size(16) == 65536,
        block_size((prefix_len - 1) as u8) == 2 * block_size(prefix_len),
{
    vstd::arithmetic::power2::lemma2_to64();
    vstd::arithmetic::power2::lemma_pow2_unfold((33 - prefix_len) as nat);
}

/// The addresses of a network are those from its network address to its broadcast address: the
/// address that it was given by is one of them, and they are as many as its size.
pub proof fn law_addresses_of_a_network(net: Ipv4Net)
    requires
        net.wf(),
    ensures
        net.network_spec() <= net.addr <= net.broadcast_spec(),
        net.broadcast_spec() - net.network_spec() + 1 == block_size(net.prefix_len),
        net.network_spec() % (block_size(net.prefix_len) as int) == 0,
        0 <= net.network_spec(),
        net.broadcast_spec() <= u32::MAX,
{
    lemma_network_bounds(net);
}

/// A network is written as its address, a slash and the length of its prefix.
pub proof fn law_notation_of_a_network(a: u8, b: u8, c: u8, d: u8, prefix_len: u8)
    ensures
        cidr((0x100_0000 * a + 0x1_0000 * b + 0x100 * c + d) as u32, prefix_len) == decimal(
            a as nat,
        ) + seq!['.'] + decimal(b as nat) + seq!['.'] + decimal(c as nat) + seq!['.'] + decimal(
            d as nat,
        ) + seq!['/'] + decimal(prefix_len as nat),
{
    law_dotted_notation(a, b, c, d);
}

} // verus!
