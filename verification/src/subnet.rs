//! The egress subnet and the synthesis of addresses inside it.

use vstd::prelude::*;
use crate::allocator::get_rand_ipv6;

verus! {

/// Number of bits of an IPv6 address.
pub const ADDRESS_BITS: u8 = 128;

/// The bits of an address that are free to vary inside a network whose
/// prefix is `prefix_len` bits long: the low `128 - prefix_len` bits.
pub open spec fn host_mask(prefix_len: u8) -> u128 {
    if prefix_len >= 128 {
        0
    } else {
        u128::MAX >> prefix_len
    }
}

/// The bits of an address that name the network: the high `prefix_len` bits.
pub open spec fn network_mask(prefix_len: u8) -> u128 {
    !host_mask(prefix_len)
}

/// Whether `address` lies in the network that `prefix` names with its high
/// `prefix_len` bits.
pub open spec fn in_subnet(address: u128, prefix: u128, prefix_len: u8) -> bool {
    address & network_mask(prefix_len) == prefix & network_mask(prefix_len)
}

/// The address made of the network bits of `prefix` and the host bits of
/// `random`.
pub open spec fn egress_address_spec(prefix: u128, prefix_len: u8, random: u128) -> u128 {
    (prefix & network_mask(prefix_len)) | (random & host_mask(prefix_len))
}

/// Computes the mask of the host bits.
pub fn host_bits(prefix_len: u8) -> (mask: u128)
    ensures
        mask == host_mask(prefix_len),
{
    if prefix_len >= ADDRESS_BITS {
        0
    } else {
        u128::MAX >> prefix_len
    }
}

/// Joins the network bits of `prefix` with the host bits of `random`.
///
/// With a prefix of 128 bits nothing is left to vary and the result is
/// `prefix`; with a prefix of 0 bits the result is `random`.
pub fn egress_address(prefix: u128, prefix_len: u8, random: u128) -> (address: u128)
    requires
        prefix_len <= 128,
    ensures
        address == egress_address_spec(prefix, prefix_len, random),
        in_subnet(address, prefix, prefix_len),
        address & host_mask(prefix_len) == random & host_mask(prefix_len),
        prefix_len == 128 ==> address == prefix,
        prefix_len == 0 ==> address == random,
{
    let host: u128 = host_bits(prefix_len);
    let address: u128 = (prefix & !host) | (random & host);
    proof {
        lemma_join_keeps_both_parts(prefix, random, host);
        lemma_mask_boundaries();
    }
    address
}

/// Joining two values along a mask keeps each value on its side of the mask.
pub proof fn lemma_join_keeps_both_parts(a: u128, b: u128, mask: u128)
    ensures
        ((a & !mask) | (b & mask)) & !mask == a & !mask,
        ((a & !mask) | (b & mask)) & mask == b & mask,
        mask == 0 ==> ((a & !mask) | (b & mask)) == a,
        mask == u128::MAX ==> ((a & !mask) | (b & mask)) == b,
{
    assert(((a & !mask) | (b & mask)) & !mask == a & !mask) by (bit_vector);
    assert(((a & !mask) | (b & mask)) & mask == b & mask) by (bit_vector);
    assert(mask == 0 ==> ((a & !mask) | (b & mask)) == a) by (bit_vector);
    assert(mask == 0xffff_ffff_ffff_ffff_ffff_ffff_ffff_ffffu128 ==> ((a & !mask) | (b & mask))
        == b) by (bit_vector);
}

/// Two draws give the same address exactly if they agree in the host bits.
pub proof fn lemma_same_address_iff_same_host_bits(
    prefix: u128,
    prefix_len: u8,
    first: u128,
    second: u128,
)
    ensures
        egress_address_spec(prefix, prefix_len, first) == egress_address_spec(
            prefix,
            prefix_len,
            second,
        ) <==> first & host_mask(prefix_len) == second & host_mask(prefix_len),
{
    let mask = host_mask(prefix_len);
    assert(((prefix & !mask) | (first & mask)) == ((prefix & !mask) | (second & mask)) <==> first
        & mask == second & mask) by (bit_vector);
}

/// Every address of the network can be drawn: an address that lies in the
/// network comes out when its own bits are the random ones.
pub proof fn lemma_every_address_can_be_drawn(prefix: u128, prefix_len: u8, address: u128)
    requires
        in_subnet(address, prefix, prefix_len),
    ensures
        egress_address_spec(prefix, prefix_len, address) == address,
{
    let mask = host_mask(prefix_len);
    assert(address & !mask == prefix & !mask ==> ((prefix & !mask) | (address & mask)) == address)
        by (bit_vector);
}

/// A prefix shorter than an address leaves room to vary: there are draws
/// that give different addresses.
pub proof fn lemma_room_to_vary(prefix: u128, prefix_len: u8)
    requires
        prefix_len < 128,
    ensures
        egress_address_spec(prefix, prefix_len, 0) != egress_address_spec(prefix, prefix_len, 1),
{
    let mask = host_mask(prefix_len);
    assert((0xffff_ffff_ffff_ffff_ffff_ffff_ffff_ffffu128 >> prefix_len) & 1 == 1) by (bit_vector)
        requires
            prefix_len < 128,
    ;
    assert(mask & 1 == 1 ==> 0u128 & mask != 1u128 & mask) by (bit_vector);
    lemma_same_address_iff_same_host_bits(prefix, prefix_len, 0, 1);
}

/// A network with a prefix of 128 bits holds its prefix and nothing else; a
/// network with a prefix of 0 bits holds every address.
pub proof fn lemma_smallest_and_largest_network(address: u128, prefix: u128)
    ensures
        in_subnet(address, prefix, 128) <==> address == prefix,
        in_subnet(address, prefix, 0),
{
    lemma_mask_boundaries();
    assert(address & 0xffff_ffff_ffff_ffff_ffff_ffff_ffff_ffffu128 == address) by (bit_vector);
    assert(prefix & 0xffff_ffff_ffff_ffff_ffff_ffff_ffff_ffffu128 == prefix) by (bit_vector);
    assert(address & 0u128 == 0u128) by (bit_vector);
    assert(prefix & 0u128 == 0u128) by (bit_vector);
}

/// The masks at the two ends: a prefix of 0 bits leaves every bit to the
/// host, a prefix of 128 bits leaves none.
pub proof fn lemma_mask_boundaries()
    ensures
        host_mask(0) == u128::MAX,
        network_mask(0) == 0,
        host_mask(128) == 0,
        network_mask(128) == u128::MAX,
{
    assert(u128::MAX >> 0u8 == u128::MAX) by (bit_vector);
    assert(!0xffff_ffff_ffff_ffff_ffff_ffff_ffff_ffffu128 == 0u128) by (bit_vector);
    assert(!0u128 == 0xffff_ffff_ffff_ffff_ffff_ffff_ffff_ffffu128) by (bit_vector);
}

/// What the `cidr` crate reads out of a network written as text: the first
/// address of the network and the length of its prefix, or nothing where the
/// text is no IPv6 network in CIDR notation.
pub uninterp spec fn parsed_cidr(text: Seq<char>) -> Option<(u128, u8)>;

/// Parses `text` as `cidr::Ipv6Cidr` (its `FromStr`) and hands out the
/// network's first address (`first_address`) as an integer and the length of
/// its prefix (`network_length`).
///
/// The parse depends on the text alone, so its outcome is `parsed_cidr` of
/// the text. The crate makes no network whose length is above 128 or whose
/// address has a host bit set, and takes an address without a length as a
/// network of length 128: that much is claimed of what comes back, and no
/// more.
#[verifier::external_body]
fn parse_ipv6_cidr(text: &str) -> (parts: Option<(u128, u8)>)
    ensures
        parts == parsed_cidr(text@),
        match parts {
            Some((prefix, prefix_len)) => prefix_len <= 128 && prefix & host_mask(prefix_len) == 0,
            None => true,
        },
{
    match <cidr::Ipv6Cidr as core::str::FromStr>::from_str(text) {
        Ok(network) => Some((u128::from(network.first_address()), network.network_length())),
        Err(_) => None,
    }
}

/// An IPv6 network: a prefix and the number of its leading bits that name
/// the network.
///
/// A value of this type always has a prefix length of at most 128 and a
/// prefix whose host bits are zero.
#[derive(Clone, Copy, Debug)]
pub struct Subnet {
    prefix: u128,
    prefix_len: u8,
}

/// The network that `Subnet::new` makes of a prefix and a length: none where
/// the length exceeds the width of an address, else the prefix with its host
/// bits cleared, and the length.
pub open spec fn subnet_of(prefix: u128, prefix_len: u8) -> Option<(u128, u8)> {
    if prefix_len > 128 {
        None
    } else {
        Some((prefix & network_mask(prefix_len), prefix_len))
    }
}

/// The prefix and the length of a network that may be missing.
pub open spec fn parts_of(subnet: Option<Subnet>) -> Option<(u128, u8)> {
    match subnet {
        Some(s) => Some(s.parts()),
        None => None,
    }
}

impl Subnet {
    /// The prefix, host bits zero.
    pub closed spec fn spec_prefix(&self) -> u128 {
        self.prefix
    }

    /// The number of leading bits that name the network.
    pub closed spec fn spec_prefix_len(&self) -> u8 {
        self.prefix_len
    }

    /// The prefix and its length, as a pair.
    pub open spec fn parts(&self) -> (u128, u8) {
        (self.spec_prefix(), self.spec_prefix_len())
    }

    /// Validity: the length fits an address and the prefix has no host bit set.
    #[verifier::type_invariant]
    pub closed spec fn wf(&self) -> bool {
        &&& self.prefix_len <= 128
        &&& self.prefix & host_mask(self.prefix_len) == 0
    }

    /// What validity means over the public accessors.
    pub proof fn lemma_wf(&self)
        ensures
            self.wf() <==> (self.spec_prefix_len() <= 128 && self.spec_prefix() & host_mask(
                self.spec_prefix_len(),
            ) == 0),
            self.wf() ==> self.spec_prefix() & network_mask(self.spec_prefix_len())
                == self.spec_prefix(),
    {
        let p = self.prefix;
        let m = host_mask(self.prefix_len);
        assert(p & m == 0 ==> p & !m == p) by (bit_vector);
    }

    /// Makes a network of a prefix and a length. Host bits that are set in
    /// `prefix` are cleared. A length above 128 is refused.
    pub fn new(prefix: u128, prefix_len: u8) -> (subnet: Option<Subnet>)
        ensures
            subnet is Some <==> prefix_len <= 128,
            parts_of(subnet) == subnet_of(prefix, prefix_len),
            subnet matches Some(s) ==> s.wf(),
    {
        if prefix_len > ADDRESS_BITS {
            None
        } else {
            let host: u128 = host_bits(prefix_len);
            let cleared: u128 = prefix & !host;
            assert((prefix & !host) & host == 0) by (bit_vector);
            Some(Subnet { prefix: cleared, prefix_len })
        }
    }

    /// Reads a network in CIDR notation, such as `2001:db8::/32`.
    ///
    /// The text is handed to the `cidr` crate. There is a network exactly
    /// where the crate reads one, and it is the one that the crate read: its
    /// first address and the length of its prefix.
    pub fn parse(text: &str) -> (subnet: Option<Subnet>)
        ensures
            subnet is Some <==> parsed_cidr(text@) is Some,
            parts_of(subnet) == parsed_cidr(text@),
            subnet matches Some(s) ==> s.wf(),
    {
        match parse_ipv6_cidr(text) {
            Some((prefix, prefix_len)) => {
                proof {
                    let host = host_mask(prefix_len);
                    assert(prefix & host == 0 ==> prefix & !host == prefix) by (bit_vector);
                }
                Subnet::new(prefix, prefix_len)
            },
            None => None,
        }
    }

    /// The prefix, host bits zero.
    #[verifier::when_used_as_spec(spec_prefix)]
    pub fn prefix(&self) -> (prefix: u128)
        ensures
            prefix == self.spec_prefix(),
    {
        self.prefix
    }

    /// The number of leading bits that name the network.
    #[verifier::when_used_as_spec(spec_prefix_len)]
    pub fn prefix_len(&self) -> (prefix_len: u8)
        ensures
            prefix_len == self.spec_prefix_len(),
            prefix_len <= 128,
    {
        proof {
            use_type_invariant(self);
        }
        self.prefix_len
    }

    /// Whether `address` lies in this network.
    pub fn contains(&self, address: u128) -> (inside: bool)
        ensures
            inside == in_subnet(address, self.spec_prefix(), self.spec_prefix_len()),
    {
        let network: u128 = !host_bits(self.prefix_len);
        address & network == self.prefix & network
    }

    /// A random address of this network: see `get_rand_ipv6`.
    pub fn allocate(&self) -> (address: u128)
        ensures
            in_subnet(address, self.spec_prefix(), self.spec_prefix_len()),
            self.spec_prefix_len() == 128 ==> address == self.spec_prefix(),
    {
        proof {
            use_type_invariant(self);
        }
        get_rand_ipv6(self.prefix, self.prefix_len)
    }
}

} // verus!
