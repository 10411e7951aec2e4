//! The address of a peer.

use crate::protocol::wire::{be_u32, lemma_u32_read_then_written, u32_of_be};
use vstd::prelude::*;

verus! {

/// The address of a peer: four address octets and a port.
///
/// The wire form of an address has room for four octets only, so this is
/// all an address can hold; `ip` is the four octets read as one big-endian
/// number, `127.0.0.1` being `0x7F00_0001`.
#[derive(Copy, Clone, Debug, PartialEq, Eq, Structural, Hash)]
pub struct PeerAddress {
    pub ip: u32,
    pub port: u16,
}

impl PeerAddress {
    /// The four octets of the address, most significant first.
    pub open spec fn spec_octets(self) -> Seq<u8> {
        be_u32(self.ip)
    }

    /// The number by which the connection table finds an address: the
    /// octets above the port.
    pub open spec fn spec_key(self) -> u64 {
        (self.ip as nat * 0x1_0000 + self.port as nat) as u64
    }

    /// The address with the given octets and port.
    pub fn new(octets: [u8; 4], port: u16) -> (r: PeerAddress)
        ensures
            r.ip == u32_of_be(octets@),
            r.port == port,
            r.spec_octets() == octets@,
    {
        proof {
            lemma_u32_read_then_written(octets@);
        }
        let a = octets[0] as u32;
        let b = octets[1] as u32;
        let c = octets[2] as u32;
        let d = octets[3] as u32;
        PeerAddress { ip: a * 0x100_0000 + b * 0x1_0000 + c * 0x100 + d, port }
    }

    /// The four octets of the address, most significant first.
    pub fn octets(&self) -> (r: [u8; 4])
        ensures
            r@ == self.spec_octets(),
    {
        let ip = self.ip;
        let r = [
            (ip / 0x100_0000) as u8,
            (ip / 0x1_0000 % 0x100) as u8,
            (ip / 0x100 % 0x100) as u8,
            (ip % 0x100) as u8,
        ];
        assert(r@ =~= self.spec_octets());
        r
    }

    /// The port of the address.
    pub fn port(&self) -> (r: u16)
        ensures
            r == self.port,
    {
        self.port
    }

    /// The number by which the connection table finds this address.
    pub fn key(&self) -> (r: u64)
        ensures
            r == self.spec_key(),
    {
        (self.ip as u64) * 0x1_0000 + (self.port as u64)
    }

    /// Two addresses with the same key are the same address.
    pub proof fn lemma_key_injective(a: PeerAddress, b: PeerAddress)
        requires
            a.spec_key() == b.spec_key(),
        ensures
            a == b,
    {
    }
}

} // verus!
