//! The listener: what it tells the world about itself, and the decisions of
//! its socket and of its stream.

use vstd::prelude::*;

/// The decisions of the socket on each datagram.
pub mod socket;

/// The decisions of the stream between the listener and its caller.
pub mod stream;

verus! {

/// Basic information about Minecraft Bedrock Server.
#[derive(Debug, Clone)]
pub struct Motd {
    pub edition: String,
    pub motd_line1: String,
    pub protocol_version: u16,
    pub version_name: String,
    pub max_player_count: u32,
    pub motd_line2: String,
    pub game_mode: String,
    pub game_mode_numeric: u8,
}

impl Motd {
    /// The descriptor has no text and all its numbers are zero.
    pub open spec fn is_blank(&self) -> bool {
        &&& self.edition@ == Seq::<char>::empty()
        &&& self.motd_line1@ == Seq::<char>::empty()
        &&& self.protocol_version == 0
        &&& self.version_name@ == Seq::<char>::empty()
        &&& self.max_player_count == 0
        &&& self.motd_line2@ == Seq::<char>::empty()
        &&& self.game_mode@ == Seq::<char>::empty()
        &&& self.game_mode_numeric == 0
    }
}

impl Default for Motd {
    /// The blank descriptor.
    fn default() -> (r: Motd)
        ensures
            r.is_blank(),
    {
        Motd {
            edition: String::new(),
            motd_line1: String::new(),
            protocol_version: 0,
            version_name: String::new(),
            max_player_count: 0,
            motd_line2: String::new(),
            game_mode: String::new(),
            game_mode_numeric: 0,
        }
    }
}

} // verus!
