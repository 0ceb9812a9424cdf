//! Random egress addresses: each call draws afresh, nothing is remembered
//! between calls.

use vstd::prelude::*;
use crate::subnet::{egress_address, in_subnet};

verus! {

/// The lowest ephemeral port: the ports from here up to the highest are
/// never assigned to a service.
pub const EPHEMERAL_PORTS_FROM: u16 = 49152;

/// The ephemeral port that 16 random bits stand for: the two highest bits
/// are set, the others are kept.
pub open spec fn ephemeral_port_spec(random: u16) -> u16 {
    EPHEMERAL_PORTS_FROM | (random & 0x3fff)
}

/// Makes an ephemeral port of 16 random bits.
pub fn ephemeral_port(random: u16) -> (port: u16)
    ensures
        port == ephemeral_port_spec(random),
        port >= EPHEMERAL_PORTS_FROM,
        port - EPHEMERAL_PORTS_FROM == random % 16384,
{
    assert((49152u16 | (random & 0x3fff)) >= 49152u16) by (bit_vector);
    assert((49152u16 | (random & 0x3fff)) - 49152u16 == random % 16384u16) by (bit_vector);
    EPHEMERAL_PORTS_FROM | (random & 0x3fff)
}

/// Draws 128 bits from the thread-local generator of the `rand` crate
/// (`rand::thread_rng()` followed by `Rng::gen::<u128>()`).
///
/// Nothing is claimed of the value: every `u128` may come back. The generator
/// seeds itself from the operating system on first use in a thread and stops
/// the thread if the system cannot provide the seed.
#[verifier::external_body]
fn random_u128() -> (bits: u128) {
    rand::Rng::gen::<u128>(&mut rand::thread_rng())
}

/// Draws 16 bits from the thread-local generator of the `rand` crate
/// (`rand::thread_rng()` followed by `Rng::gen::<u16>()`).
///
/// Nothing is claimed of the value: every `u16` may come back.
#[verifier::external_body]
fn random_u16() -> (bits: u16) {
    rand::Rng::gen::<u16>(&mut rand::thread_rng())
}

/// A random address inside the network that `ipv6` names with its high
/// `prefix_len` bits: the network bits are those of `ipv6`, the host bits are
/// drawn at random.
///
/// Whatever is drawn, the address lies in the network. A prefix of 128 bits
/// leaves nothing to draw and gives `ipv6` itself.
pub fn get_rand_ipv6(ipv6: u128, prefix_len: u8) -> (address: u128)
    requires
        prefix_len <= 128,
    ensures
        in_subnet(address, ipv6, prefix_len),
        prefix_len == 128 ==> address == ipv6,
{
    let random: u128 = random_u128();
    egress_address(ipv6, prefix_len, random)
}

/// A random address inside the network, as `get_rand_ipv6` gives it, paired
/// with an ephemeral port drawn at random.
pub fn get_rand_ipv6_socket_addr(ipv6: u128, prefix_len: u8) -> (endpoint: (u128, u16))
    requires
        prefix_len <= 128,
    ensures
        in_subnet(endpoint.0, ipv6, prefix_len),
        prefix_len == 128 ==> endpoint.0 == ipv6,
        endpoint.1 >= EPHEMERAL_PORTS_FROM,
{
    let address: u128 = get_rand_ipv6(ipv6, prefix_len);
    let port: u16 = ephemeral_port(random_u16());
    (address, port)
}

} // verus!
