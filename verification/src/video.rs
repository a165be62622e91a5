use vstd::prelude::*;

verus! {

/// The function that sees each decoded video frame: its pixels, width and
/// height.
pub struct VideoListener<F> {
    pub callback: F,
}

impl<F> VideoListener<F> {
    /// A listener that calls `callback`.
    pub fn new(callback: F) -> (listener: VideoListener<F>)
        ensures
            listener.callback == callback,
    {
        VideoListener { callback }
    }
}

/// Length of the control packets that the drone sends back on its video
/// connection; they are not video, and are not passed on.
pub const CONTROL_PACKET_LEN: usize = 106;

/// Whether a chunk of `len` bytes read from the drone is passed on to the
/// video player: it is neither empty nor a control packet.
pub open spec fn forwards(len: usize) -> bool {
    len > 0 && len != CONTROL_PACKET_LEN
}

/// The length of the chunk in the buffer after a read: the length read, or,
/// after a failed read, the length as it was.
pub open spec fn size_after_read(size: usize, read: Option<usize>) -> usize {
    match read {
        Some(len) => len,
        None => size,
    }
}

/// How many bytes of a buffer holding a chunk of `size` bytes are passed on.
pub open spec fn forward_of(size: usize) -> Option<usize> {
    if forwards(size) {
        Some(size)
    } else {
        None
    }
}

/// The relay never passes on an empty chunk or a control packet, and passes
/// on whole chunks; a failed read passes on again what the last read did.
pub proof fn lemma_relay(size: usize, read: Option<usize>)
    ensures
        forward_of(size_after_read(size, read)) matches Some(n) ==> n > 0 && n != CONTROL_PACKET_LEN
            && n == size_after_read(size, read),
        forward_of(size_after_read(size, None)) == forward_of(size),
{
}

/// A successful read decides on its own: after reading `len` bytes the
/// chunk length is `len`, whatever came before, and the chunk is passed on
/// whole exactly when it is neither empty nor a 106-byte control packet.
/// So a 0-byte read (the drone closed the connection) and a control packet
/// never pass anything on.
pub proof fn lemma_successful_read(size: usize, len: usize)
    ensures
        size_after_read(size, Some(len)) == len,
        forward_of(size_after_read(size, Some(len))) == (if len == 0 || len == 106 {
            None
        } else {
            Some(len)
        }),
        forward_of(size_after_read(size, Some(0))) is None,
        forward_of(size_after_read(size, Some(106))) is None,
{
}

/// Two reads in a row: the second, if it succeeds, decides alone; if it
/// fails, the first one's decision is repeated.
pub proof fn lemma_two_reads(size: usize, first: Option<usize>, second: Option<usize>)
    ensures
        second matches Some(len) ==> size_after_read(size_after_read(size, first), second) == len,
        second is None ==> forward_of(size_after_read(size_after_read(size, first), second))
            == forward_of(size_after_read(size, first)),
{
}

/// Relays the drone's video connection to the video player. It keeps the
/// length of the last chunk read; a failed read leaves the buffer and that
/// length as they were.
pub struct StreamRelay {
    buffer_size: usize,
}

impl StreamRelay {
    /// The length of the chunk in the buffer.
    pub closed spec fn buffer_size(&self) -> usize {
        self.buffer_size
    }

    /// A relay that has read nothing yet.
    pub fn new() -> (relay: StreamRelay)
        ensures
            relay.buffer_size() == 0,
    {
        StreamRelay { buffer_size: 0 }
    }

    /// Takes the outcome of one read (`Some(len)` for `len` bytes read,
    /// `None` for a failed read) and says how many bytes of the buffer to
    /// pass on to the video player, if any.
    pub fn on_read(&mut self, read: Option<usize>) -> (forward: Option<usize>)
        ensures
            final(self).buffer_size() == size_after_read(old(self).buffer_size(), read),
            forward == forward_of(final(self).buffer_size()),
            read matches Some(len) ==> final(self).buffer_size() == len,
            read is None ==> final(self).buffer_size() == old(self).buffer_size(),
            forward matches Some(n) ==> n == final(self).buffer_size() && n > 0 && n != 106,
            forward is None ==> final(self).buffer_size() == 0 || final(self).buffer_size() == 106,
    {
        match read {
            Some(len) => self.buffer_size = len,
            None => {},
        }
        if self.buffer_size > 0 && self.buffer_size != CONTROL_PACKET_LEN {
            Some(self.buffer_size)
        } else {
            None
        }
    }
}

} // verus!
