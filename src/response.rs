//! Status words and the windows in which a long reply is served.
use vstd::prelude::*;

verus! {

/// Most bytes of reply data served in one response.
pub const WINDOW: usize = 256;

/// Largest reply that an application may produce.
pub const RESPONSE_CAPACITY: usize = 7609;

/// `90 00`: success.
pub const SW_SUCCESS: u16 = 0x9000;

/// `6A 82`: file or application not found, or none selected.
pub const SW_NOT_FOUND: u16 = 0x6A82;

/// `6F 00`: malformed command, overflow, or no reply to continue.
pub const SW_CHECKING_ERROR: u16 = 0x6F00;

/// `61`: first byte of the status that announces more data.
pub const SW1_MORE_AVAILABLE: u8 = 0x61;

/// The two bytes of a status word, most significant first.
pub open spec fn sw_bytes(sw: u16) -> Seq<u8> {
    seq![(sw / 256) as u8, (sw % 256) as u8]
}

/// The second byte of `61 xx` when `rest` bytes remain after a window: the
/// count itself, or `00` when it does not fit below 256.
pub open spec fn more_byte(rest: nat) -> u8 {
    if rest >= 256 {
        0
    } else {
        rest as u8
    }
}

/// The window that a GET RESPONSE with expected length `le` asks for: `le`
/// when it is below 256, else 256 (an absent Le, 0, counts as 256).
pub open spec fn window_size(le: nat) -> nat {
    if 0 < le && le < WINDOW {
        le
    } else {
        WINDOW as nat
    }
}

/// The response that serves the front of `rem` in windows of `size`: all of
/// it and the final status `sw` when it fits, else one window and `61 xx`.
pub open spec fn window_spec(rem: Seq<u8>, sw: u16, size: nat) -> Seq<u8> {
    if rem.len() <= size {
        rem + sw_bytes(sw)
    } else {
        rem.subrange(0, size as int) + seq![SW1_MORE_AVAILABLE, more_byte((rem.len() - size) as nat)]
    }
}

/// What is left to serve after the window of `size` at the front of `rem`.
pub open spec fn rest_spec(rem: Seq<u8>, size: nat) -> Seq<u8> {
    if rem.len() <= size {
        Seq::empty()
    } else {
        rem.subrange(size as int, rem.len() as int)
    }
}

/// The window that a GET RESPONSE with expected length `le` asks for.
pub fn window_size_of(le: usize) -> (r: usize)
    ensures
        r == window_size(le as nat),
{
    if 0 < le && le < WINDOW {
        le
    } else {
        WINDOW
    }
}

/// The status word as two bytes.
pub fn status_bytes(sw: u16) -> (r: Vec<u8>)
    ensures
        r@ == sw_bytes(sw),
{
    let mut r: Vec<u8> = Vec::new();
    r.push((sw / 256) as u8);
    r.push((sw % 256) as u8);
    r
}

/// The response that serves `data` from `offset` on in a window of `size`,
/// closed by `sw` if the rest fits.
pub fn window(data: &Vec<u8>, offset: usize, sw: u16, size: usize) -> (r: Vec<u8>)
    requires
        offset <= data.len(),
    ensures
        r@ == window_spec(data@.subrange(offset as int, data.len() as int), sw, size as nat),
{
    let ghost rem = data@.subrange(offset as int, data.len() as int);
    let left = data.len() - offset;
    let n: usize = if left <= size { left } else { size };
    let mut r: Vec<u8> = Vec::new();
    let mut i: usize = 0;
    while i < n
        invariant
            i <= n,
            n <= left,
            left == data.len() - offset,
            rem == data@.subrange(offset as int, data.len() as int),
            r@ == rem.subrange(0, i as int),
        decreases n - i,
    {
        r.push(data[offset + i]);
        i = i + 1;
        assert(r@ =~= rem.subrange(0, i as int));
    }
    if left <= size {
        assert(r@ =~= rem);
        r.push((sw / 256) as u8);
        r.push((sw % 256) as u8);
        assert(r@ =~= rem + sw_bytes(sw));
    } else {
        let rest = left - size;
        r.push(SW1_MORE_AVAILABLE);
        r.push(if rest >= 256 { 0 } else { rest as u8 });
        assert(r@ =~= rem.subrange(0, size as int) + seq![SW1_MORE_AVAILABLE, more_byte(rest as nat)]);
    }
    r
}

} // verus!
