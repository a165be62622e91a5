//! Control logic for an FPV quadcopter: the eight-byte command packet the
//! drone's UDP gamepad channel expects, the flight-mode state machine driven
//! by the take-off/landing key, the keyboard mapping, the set of held keys,
//! and the hex data files that hold the TCP handshake packets.

pub mod command;
pub mod constants;
pub mod input;
pub mod keyboard;
pub mod network;
pub mod video;
pub mod window_manager;

use vstd::prelude::*;

verus! {

/// Whether a stream path names a TCP stream (starts with `tcp:`); for such a
/// path the drone's network side is started as well as the video.
pub fn is_tcp_path(path: &str) -> (tcp: bool)
    ensures
        tcp == (path@.len() >= 4 && path@.subrange(0, 4) == "tcp:"@),
{
    proof {
        reveal_strlit("tcp:");
    }
    let chars = constants::chars_of(path);
    if chars.len() < 4 {
        return false;
    }
    let tcp = chars[0] == 't' && chars[1] == 'c' && chars[2] == 'p' && chars[3] == ':';
    assert(tcp ==> chars@.subrange(0, 4) =~= "tcp:"@);
    proof {
        let head = chars@.subrange(0, 4);
        if head == "tcp:"@ {
            assert(head[0] == 't' && head[1] == 'c' && head[2] == 'p' && head[3] == ':');
        }
    }
    tcp
}

} // verus!
