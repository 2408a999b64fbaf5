//! Hardware and protocol addresses as plain values.

use vstd::prelude::*;

verus! {

/// A 48-bit hardware address: six bytes in transmission order.
/// Equality is byte for byte.
#[derive(Clone, Copy, Debug, PartialEq, Eq, Structural, PartialOrd, Ord, Hash)]
pub struct MacAddress(pub u8, pub u8, pub u8, pub u8, pub u8, pub u8);

/// What `pnet::util::MacAddr::from_str` makes of a text: the address that it
/// reads, or nothing where it refuses the text.
pub uninterp spec fn mac_addr_from_str(text: Seq<char>) -> Option<MacAddress>;

/// The hexadecimal digit for `n`, in lower case.
pub open spec fn hex_digit(n: int) -> char {
    if n < 10 {
        ('0' as int + n) as char
    } else {
        ('a' as int + n - 10) as char
    }
}

/// The two hexadecimal digits of a byte.
pub open spec fn hex_pair(b: u8) -> Seq<char> {
    seq![hex_digit(b as int / 16), hex_digit(b as int % 16)]
}

/// An address in colon-hex form: six pairs of lower-case hexadecimal digits
/// with a colon between them.
pub open spec fn mac_text(m: MacAddress) -> Seq<char> {
    hex_pair(m.0) + seq![':'] + hex_pair(m.1) + seq![':'] + hex_pair(m.2) + seq![':'] + hex_pair(
        m.3,
    ) + seq![':'] + hex_pair(m.4) + seq![':'] + hex_pair(m.5)
}

/// An IPv4 address: four bytes in transmission order.
#[derive(Clone, Copy, Debug, PartialEq, Eq, Structural, PartialOrd, Ord, Hash)]
pub struct Ipv4Address(pub u8, pub u8, pub u8, pub u8);

impl MacAddress {
    /// The six bytes as they appear on the wire.
    pub open spec fn bytes(self) -> Seq<u8> {
        seq![self.0, self.1, self.2, self.3, self.4, self.5]
    }

    /// The address read as one big-endian number below 2^48.
    pub open spec fn key(self) -> int {
        ((((self.0 as int * 256 + self.1 as int) * 256 + self.2 as int) * 256 + self.3 as int)
            * 256 + self.4 as int) * 256 + self.5 as int
    }

    /// The address whose `key` is `k`, for `0 <= k < 2^48`; for any other
    /// `k`, the address in its lower 48 bits.
    pub open spec fn of_key(k: int) -> MacAddress {
        MacAddress(
            ((k / 0x100_0000_0000) % 256) as u8,
            ((k / 0x1_0000_0000) % 256) as u8,
            ((k / 0x100_0000) % 256) as u8,
            ((k / 0x1_0000) % 256) as u8,
            ((k / 0x100) % 256) as u8,
            (k % 256) as u8,
        )
    }

    pub fn new(a: u8, b: u8, c: u8, d: u8, e: u8, f: u8) -> (r: MacAddress)
        ensures
            r == MacAddress(a, b, c, d, e, f),
    {
        MacAddress(a, b, c, d, e, f)
    }

    /// The all-zero address.
    pub fn zero() -> (r: MacAddress)
        ensures
            r == MacAddress(0, 0, 0, 0, 0, 0),
    {
        MacAddress(0, 0, 0, 0, 0, 0)
    }

    /// The broadcast address, all bits set.
    pub fn broadcast() -> (r: MacAddress)
        ensures
            r == MacAddress(0xff, 0xff, 0xff, 0xff, 0xff, 0xff),
    {
        MacAddress(0xff, 0xff, 0xff, 0xff, 0xff, 0xff)
    }

    pub fn octets(&self) -> (r: [u8; 6])
        ensures
            r@ == self.bytes(),
    {
        let r: [u8; 6] = [self.0, self.1, self.2, self.3, self.4, self.5];
        assert(r@ =~= self.bytes());
        r
    }

    /// Reads an address from text with `pnet::util::MacAddr::from_str`,
    /// which splits the text at colons and reads each of six parts as a
    /// hexadecimal byte. The contract only names what that parser returns.
    #[verifier::external_body]
    pub(crate) fn from_text(text: &str) -> (r: Option<MacAddress>)
        ensures
            r == mac_addr_from_str(text@),
    {
        match text.parse::<pnet::util::MacAddr>() {
            Ok(m) => Some(MacAddress(m.0, m.1, m.2, m.3, m.4, m.5)),
            Err(_) => None,
        }
    }

    /// Writes the address with the `Display` of `pnet::util::MacAddr`, whose
    /// format is `{:02x}` for each byte with colons between: two lower-case
    /// hexadecimal digits a byte.
    #[verifier::external_body]
    pub(crate) fn to_text(&self) -> (r: String)
        ensures
            r@ == mac_text(*self),
    {
        pnet::util::MacAddr(self.0, self.1, self.2, self.3, self.4, self.5).to_string()
    }

    /// The number under which the stores file this address.
    pub fn to_key(&self) -> (k: u64)
        ensures
            k == self.key(),
            k < 0x1_0000_0000_0000,
            MacAddress::of_key(k as int) == *self,
    {
        let k: u64 = ((((self.0 as u64 * 256 + self.1 as u64) * 256 + self.2 as u64) * 256
            + self.3 as u64) * 256 + self.4 as u64) * 256 + self.5 as u64;
        proof {
            lemma_key_round_trip(*self);
        }
        k
    }

    /// The address filed under `k`. A number of 2^48 or more is the key of
    /// no address; its lower 48 bits are read.
    pub fn from_key(k: u64) -> (r: MacAddress)
        ensures
            r == MacAddress::of_key(k as int),
            k < 0x1_0000_0000_0000 ==> r.key() == k,
    {
        let r = MacAddress(
            ((k / 0x100_0000_0000) % 256) as u8,
            ((k / 0x1_0000_0000) % 256) as u8,
            ((k / 0x100_0000) % 256) as u8,
            ((k / 0x1_0000) % 256) as u8,
            ((k / 0x100) % 256) as u8,
            (k % 256) as u8,
        );
        proof {
            if k < 0x1_0000_0000_0000 {
                lemma_of_key_round_trip(k as int);
            }
        }
        r
    }
}

impl Ipv4Address {
    /// The four bytes as they appear on the wire.
    pub open spec fn bytes(self) -> Seq<u8> {
        seq![self.0, self.1, self.2, self.3]
    }

    /// The address read as one big-endian number below 2^32.
    pub open spec fn key(self) -> int {
        ((self.0 as int * 256 + self.1 as int) * 256 + self.2 as int) * 256 + self.3 as int
    }

    /// The address whose `key` is `k`, for `0 <= k < 2^32`.
    pub open spec fn of_key(k: int) -> Ipv4Address {
        Ipv4Address(
            ((k / 0x100_0000) % 256) as u8,
            ((k / 0x1_0000) % 256) as u8,
            ((k / 0x100) % 256) as u8,
            (k % 256) as u8,
        )
    }

    /// Whether the address lies in 127.0.0.0/8.
    pub open spec fn loopback(self) -> bool {
        self.0 == 127
    }

    pub fn new(a: u8, b: u8, c: u8, d: u8) -> (r: Ipv4Address)
        ensures
            r == Ipv4Address(a, b, c, d),
    {
        Ipv4Address(a, b, c, d)
    }

    pub fn octets(&self) -> (r: [u8; 4])
        ensures
            r@ == self.bytes(),
    {
        let r: [u8; 4] = [self.0, self.1, self.2, self.3];
        assert(r@ =~= self.bytes());
        r
    }

    pub fn is_loopback(&self) -> (r: bool)
        ensures
            r == self.loopback(),
    {
        self.0 == 127
    }

    /// The number under which the stores file this address.
    pub fn to_key(&self) -> (k: u32)
        ensures
            k == self.key(),
            Ipv4Address::of_key(k as int) == *self,
    {
        let k: u32 = ((self.0 as u32 * 256 + self.1 as u32) * 256 + self.2 as u32) * 256
            + self.3 as u32;
        proof {
            lemma_ip_key_round_trip(*self);
        }
        k
    }

    /// The address filed under `k`.
    pub fn from_key(k: u32) -> (r: Ipv4Address)
        ensures
            r == Ipv4Address::of_key(k as int),
            r.key() == k,
    {
        let r = Ipv4Address(
            ((k / 0x100_0000) % 256) as u8,
            ((k / 0x1_0000) % 256) as u8,
            ((k / 0x100) % 256) as u8,
            (k % 256) as u8,
        );
        proof {
            lemma_ip_of_key_round_trip(k as int);
        }
        r
    }
}

/// Reading an address as a number and back gives the address again, so two
/// addresses with one key are equal.
pub proof fn lemma_key_round_trip(m: MacAddress)
    ensures
        0 <= m.key() < 0x1_0000_0000_0000,
        MacAddress::of_key(m.key()) == m,
{
    let k = m.key();
    let p1 = m.0 as int * 256 + m.1 as int;
    let p2 = p1 * 256 + m.2 as int;
    let p3 = p2 * 256 + m.3 as int;
    let p4 = p3 * 256 + m.4 as int;
    assert(k == p4 * 256 + m.5 as int);
    assert(k % 256 == m.5 as int && k / 256 == p4);
    assert(k == p3 * 0x1_0000 + (m.4 as int * 256 + m.5 as int));
    assert(k / 0x1_0000 == p3);
    assert(k == p2 * 0x100_0000 + (m.3 as int * 0x1_0000 + m.4 as int * 256 + m.5 as int));
    assert(k / 0x100_0000 == p2);
    assert(k == p1 * 0x1_0000_0000 + (m.2 as int * 0x100_0000 + m.3 as int * 0x1_0000 + m.4 as int
        * 256 + m.5 as int));
    assert(k / 0x1_0000_0000 == p1);
    assert(k == m.0 as int * 0x100_0000_0000 + (m.1 as int * 0x1_0000_0000 + m.2 as int
        * 0x100_0000 + m.3 as int * 0x1_0000 + m.4 as int * 256 + m.5 as int));
    assert(k / 0x100_0000_0000 == m.0 as int);
}

/// Every number below 2^48 is the key of the address it is turned into.
pub proof fn lemma_of_key_round_trip(k: int)
    requires
        0 <= k < 0x1_0000_0000_0000,
    ensures
        MacAddress::of_key(k).key() == k,
{
    let q1 = k / 256;
    let q2 = k / 0x1_0000;
    let q3 = k / 0x100_0000;
    let q4 = k / 0x1_0000_0000;
    let q5 = k / 0x100_0000_0000;
    assert(q2 == q1 / 256);
    assert(q3 == q2 / 256);
    assert(q4 == q3 / 256);
    assert(q5 == q4 / 256);
    assert(q5 < 256);
    assert(k == q1 * 256 + k % 256);
    assert(q1 == q2 * 256 + q1 % 256);
    assert(q2 == q3 * 256 + q2 % 256);
    assert(q3 == q4 * 256 + q3 % 256);
    assert(q4 == q5 * 256 + q4 % 256);
}

/// Reading an IPv4 address as a number and back gives the address again.
pub proof fn lemma_ip_key_round_trip(a: Ipv4Address)
    ensures
        0 <= a.key() < 0x1_0000_0000,
        Ipv4Address::of_key(a.key()) == a,
{
    let k = a.key();
    let p1 = a.0 as int * 256 + a.1 as int;
    let p2 = p1 * 256 + a.2 as int;
    assert(k == p2 * 256 + a.3 as int);
    assert(k % 256 == a.3 as int && k / 256 == p2);
    assert(k == p1 * 0x1_0000 + (a.2 as int * 256 + a.3 as int));
    assert(k / 0x1_0000 == p1);
    assert(k == a.0 as int * 0x100_0000 + (a.1 as int * 0x1_0000 + a.2 as int * 256 + a.3 as int));
    assert(k / 0x100_0000 == a.0 as int);
}

/// Every number below 2^32 is the key of the IPv4 address it is turned into.
pub proof fn lemma_ip_of_key_round_trip(k: int)
    requires
        0 <= k < 0x1_0000_0000,
    ensures
        Ipv4Address::of_key(k).key() == k,
{
    let q1 = k / 256;
    let q2 = k / 0x1_0000;
    let q3 = k / 0x100_0000;
    assert(q2 == q1 / 256);
    assert(q3 == q2 / 256);
    assert(q3 < 256);
    assert(k == q1 * 256 + k % 256);
    assert(q1 == q2 * 256 + q1 % 256);
    assert(q2 == q3 * 256 + q2 % 256);
}

} // verus!
