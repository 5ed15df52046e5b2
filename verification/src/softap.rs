//! Receive buffer handling of the ESP8266 soft access point adapter.

use vstd::prelude::*;

verus! {

/// Errors of the soft access point adapter.
#[derive(Debug)]
pub enum Error<R, W> {
    Read(R),
    Write(W),
    Format,
    BufferFull,
    MalformedCommand { cmd: &'static str, msg: &'static str },
    Timeout,
}

/// Configuration of the soft access point.
#[derive(Clone, Copy, PartialEq, Eq, Debug)]
pub struct SoftApConfig<'a> {
    pub ssid: &'a str,
    pub password: &'a str,
    pub channel: u8,
    pub mode: u8,
}

/// Drops the first `at` bytes of the buffer, moving the rest to its beginning.
pub fn truncate_buf(buf: &mut Vec<u8>, at: usize)
    requires
        at <= old(buf)@.len(),
    ensures
        final(buf)@ == old(buf)@.skip(at as int),
{
    let len = buf.len();
    let ghost orig = buf@;
    let mut from = at;
    while from < len
        invariant
            at <= from <= len,
            len == orig.len(),
            buf@.len() == len,
            forall|j: int| 0 <= j < from - at ==> #[trigger] buf@[j] == orig[j + at],
            forall|j: int| from <= j < len ==> #[trigger] buf@[j] == orig[j],
        decreases len - from,
    {
        let to = from - at;
        let byte = buf[from];
        buf.set(to, byte);
        from = from + 1;
    }
    buf.truncate(len - at);
    assert(buf@ =~= orig.skip(at as int));
}

} // verus!
