//! The decisions of the stream that carries datagrams between the listener
//! and its caller.

use crate::internal::address::PeerAddress;
use crate::internal::PacketInfo;
use crate::protocol::wire::copy_range;
use vstd::prelude::*;

verus! {

/// Why the stream cannot send.
#[derive(Debug, Clone, Copy, PartialEq, Eq, Structural)]
pub enum StreamError {
    /// The name of the destination stands for no address.
    NoAddress,
}

/// The datagrams that sending `buffer` to a destination enqueues, where
/// `addrs` are the addresses that the name of the destination stands for:
/// one datagram for each address, in their order, each with the bytes of
/// `buffer`. Fails where the name stands for no address.
pub fn send_to(buffer: &[u8], addrs: &Vec<PeerAddress>) -> (r: Result<Vec<PacketInfo>, StreamError>)
    ensures
        addrs@.len() == 0 <==> r is Err,
        r matches Err(e) ==> e == StreamError::NoAddress,
        r matches Ok(packets) ==> packets@.len() == addrs@.len() && forall|i: int|
            0 <= i < addrs@.len() ==> (#[trigger] packets@[i]).0 == addrs@[i] && packets@[i].1@
                == buffer@,
{
    if addrs.len() == 0 {
        return Err(StreamError::NoAddress);
    }
    let mut packets: Vec<PacketInfo> = Vec::new();
    let mut i: usize = 0;
    while i < addrs.len()
        invariant
            i <= addrs@.len(),
            packets@.len() == i,
            forall|j: int|
                0 <= j < i ==> (#[trigger] packets@[j]).0 == addrs@[j] && packets@[j].1@
                    == buffer@,
        decreases addrs@.len() - i,
    {
        let bytes = copy_range(buffer, 0, buffer.len());
        assert(bytes@ =~= buffer@);
        packets.push((addrs[i], bytes));
        i += 1;
    }
    Ok(packets)
}

} // verus!
