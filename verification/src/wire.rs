//! IPC frame format: a little-endian `u32` length followed by that many
//! bytes of JSON.

use vstd::prelude::*;

use crate::bytes::{from_le_u32, get_u32, le_u32, lemma_le_u32_roundtrip, put_bytes, put_u32};
use crate::convert::{append_dec_u64, dec_chars};

verus! {

/// Maximum IPC message size (2 MiB — local socket, preset thumbnails can be large).
pub const IPC_MAX_MESSAGE_SIZE: usize = 2097152;

/// Why a frame could not be read.
#[derive(Debug, Clone, Copy, PartialEq, Eq, Structural)]
pub enum FrameError {
    /// The announced length exceeds [`IPC_MAX_MESSAGE_SIZE`].
    TooLarge(usize),
    /// The stream ended inside the message body.
    Truncated,
}

/// The bytes of a frame carrying `payload`.
pub open spec fn frame_bytes(payload: Seq<u8>) -> Seq<u8> {
    le_u32(payload.len() as u32) + payload
}

/// The length announced by a 4-byte frame header.
pub open spec fn announced_len(h: Seq<u8>) -> nat {
    from_le_u32(h[0], h[1], h[2], h[3]) as nat
}

/// What reading one frame from `buf` yields: nothing when the length itself
/// is incomplete, an error for an oversized or truncated body, else the body.
pub open spec fn decode_spec(buf: Seq<u8>) -> Option<Result<Seq<u8>, FrameError>> {
    if buf.len() < 4 {
        None
    } else if announced_len(buf) > IPC_MAX_MESSAGE_SIZE {
        Some(Err(FrameError::TooLarge(announced_len(buf) as usize)))
    } else if buf.len() < 4 + announced_len(buf) {
        Some(Err(FrameError::Truncated))
    } else {
        Some(Ok(buf.subrange(4, 4 + announced_len(buf) as int)))
    }
}

/// Frames a message body: its length as a little-endian u32, then the body.
pub fn encode_frame(payload: &[u8]) -> (out: Vec<u8>)
    ensures
        out@ == frame_bytes(payload@),
{
    let mut out: Vec<u8> = Vec::new();
    #[verifier::truncate]
    let len = payload.len() as u32;
    put_u32(&mut out, len);
    put_bytes(&mut out, payload);
    out
}

/// Reads the length of a frame from its 4-byte header, refusing oversized messages.
pub fn frame_len(header: &[u8]) -> (r: Result<usize, FrameError>)
    requires
        header@.len() == 4,
    ensures
        announced_len(header@) > IPC_MAX_MESSAGE_SIZE ==> r == Err::<usize, FrameError>(
            FrameError::TooLarge(announced_len(header@) as usize),
        ),
        announced_len(header@) <= IPC_MAX_MESSAGE_SIZE ==> r == Ok::<usize, FrameError>(
            announced_len(header@) as usize,
        ),
{
    let len = get_u32(header, 0) as usize;
    if len > IPC_MAX_MESSAGE_SIZE {
        Err(FrameError::TooLarge(len))
    } else {
        Ok(len)
    }
}

/// Reads one frame from the start of `buf`.
pub fn decode_frame(buf: &[u8]) -> (r: Option<Result<Vec<u8>, FrameError>>)
    ensures
        match (r, decode_spec(buf@)) {
            (None, None) => true,
            (Some(Err(e1)), Some(Err(e2))) => e1 == e2,
            (Some(Ok(v)), Some(Ok(s))) => v@ == s,
            _ => false,
        },
{
    if buf.len() < 4 {
        return None;
    }
    let len = get_u32(buf, 0) as usize;
    if len > IPC_MAX_MESSAGE_SIZE {
        return Some(Err(FrameError::TooLarge(len)));
    }
    if buf.len() - 4 < len {
        return Some(Err(FrameError::Truncated));
    }
    let mut out: Vec<u8> = Vec::new();
    let mut i: usize = 0;
    while i < len
        invariant
            i <= len,
            4 + len <= buf@.len(),
            buf@.len() <= usize::MAX,
            out@ == buf@.subrange(4, 4 + i),
        decreases len - i,
    {
        out.push(buf[4 + i]);
        assert(buf@.subrange(4, 4 + i + 1) =~= buf@.subrange(4, 4 + i).push(buf@[4 + i]));
        i = i + 1;
    }
    Some(Ok(out))
}

/// Reading a frame gives back the message it was written from, for every
/// message within the size limit.
pub proof fn law_frame_roundtrip(payload: Seq<u8>)
    requires
        payload.len() <= IPC_MAX_MESSAGE_SIZE,
    ensures
        decode_spec(frame_bytes(payload)) == Some(Ok::<Seq<u8>, FrameError>(payload)),
{
    let b = frame_bytes(payload);
    lemma_le_u32_roundtrip(payload.len() as u32);
    assert(b[0] == le_u32(payload.len() as u32)[0]);
    assert(b[1] == le_u32(payload.len() as u32)[1]);
    assert(b[2] == le_u32(payload.len() as u32)[2]);
    assert(b[3] == le_u32(payload.len() as u32)[3]);
    assert(announced_len(b) == payload.len());
    assert(b.subrange(4, 4 + payload.len() as int) =~= payload);
}

/// A frame that announces more than the limit is refused, whatever follows.
pub proof fn law_oversized_refused(buf: Seq<u8>)
    requires
        buf.len() >= 4,
        announced_len(buf) > IPC_MAX_MESSAGE_SIZE,
    ensures
        decode_spec(buf) matches Some(Err(FrameError::TooLarge(_))),
{
}

/// Protocol version both ends speak: none when the client is older than
/// the oldest version the daemon supports, otherwise the lower of the
/// client's and the daemon's newest.
pub open spec fn negotiated_protocol(client: u32, min_supported: u32, max_supported: u32) -> Option<u32> {
    if client < min_supported {
        None
    } else if client < max_supported {
        Some(client)
    } else {
        Some(max_supported)
    }
}

/// Answer a client's hello: the version to use, or `None` when the client
/// is too old.
pub fn negotiate_protocol(client: u32, min_supported: u32, max_supported: u32) -> (r: Option<u32>)
    ensures
        r == negotiated_protocol(client, min_supported, max_supported),
{
    if client < min_supported {
        None
    } else if client < max_supported {
        Some(client)
    } else {
        Some(max_supported)
    }
}

/// Newest IPC protocol version this daemon speaks.
pub const PROTOCOL_VERSION: u32 = 1;

/// Oldest IPC protocol version this daemon speaks.
pub const PROTOCOL_VERSION_MIN: u32 = 1;

/// The refusal sent to a client whose protocol version is too old.
pub open spec fn too_old_text(client: u32) -> Seq<char> {
    "client protocol v"@ + dec_chars(client as nat) + " too old (daemon requires v"@ + dec_chars(
        PROTOCOL_VERSION_MIN as nat,
    ) + "-v"@ + dec_chars(PROTOCOL_VERSION as nat) + ")"@
}

/// The daemon's answer to a client's hello: the negotiated version, or the
/// refusal when the client's version is older than the oldest it speaks.
pub fn hello_reply(client: u32) -> (r: Result<u32, String>)
    ensures
        match r {
            Ok(v) => negotiated_protocol(client, PROTOCOL_VERSION_MIN, PROTOCOL_VERSION) == Some(v),
            Err(msg) => negotiated_protocol(client, PROTOCOL_VERSION_MIN, PROTOCOL_VERSION) is None
                && msg@ == too_old_text(client),
        },
{
    match negotiate_protocol(client, PROTOCOL_VERSION_MIN, PROTOCOL_VERSION) {
        Some(v) => Ok(v),
        None => {
            let mut msg = "client protocol v".to_owned();
            append_dec_u64(&mut msg, client as u64);
            msg.append(" too old (daemon requires v");
            append_dec_u64(&mut msg, PROTOCOL_VERSION_MIN as u64);
            msg.append("-v");
            append_dec_u64(&mut msg, PROTOCOL_VERSION as u64);
            msg.append(")");
            Err(msg)
        },
    }
}

/// First reconnect delay, in milliseconds.
pub const BACKOFF_START_MS: u64 = 100;

/// Longest reconnect delay, in milliseconds.
pub const BACKOFF_MAX_MS: u64 = 5000;

/// Reconnect delay of the event stream: starts at 100 ms, doubles after
/// each attempt up to 5 s, and starts over once a connection is made.
#[derive(Clone, Copy, Debug, PartialEq, Eq, Structural)]
pub struct Backoff {
    pub delay_ms: u64,
}

impl Backoff {
    pub open spec fn wf(&self) -> bool {
        BACKOFF_START_MS <= self.delay_ms <= BACKOFF_MAX_MS
    }

    pub fn new() -> (b: Backoff)
        ensures
            b.delay_ms == BACKOFF_START_MS,
            b.wf(),
    {
        Backoff { delay_ms: BACKOFF_START_MS }
    }

    /// A connection was made: the next wait starts over.
    pub fn reset(&mut self)
        ensures
            final(self).delay_ms == BACKOFF_START_MS,
            final(self).wf(),
    {
        self.delay_ms = BACKOFF_START_MS;
    }

    /// The time to wait before the next attempt; the delay after it doubles, up to 5 s.
    pub fn next_delay(&mut self) -> (wait_ms: u64)
        requires
            old(self).wf(),
        ensures
            wait_ms == old(self).delay_ms,
            final(self).delay_ms == if 2 * old(self).delay_ms < BACKOFF_MAX_MS {
                2 * old(self).delay_ms
            } else {
                BACKOFF_MAX_MS as int
            },
            final(self).wf(),
    {
        let wait_ms = self.delay_ms;
        self.delay_ms = if 2 * self.delay_ms < BACKOFF_MAX_MS {
            2 * self.delay_ms
        } else {
            BACKOFF_MAX_MS
        };
        wait_ms
    }
}

/// A negotiated version is one both ends speak: at least the daemon's
/// oldest, at most both newest versions.
pub proof fn law_negotiated_within_range(client: u32, min_supported: u32, max_supported: u32)
    requires
        min_supported <= max_supported,
    ensures
        negotiated_protocol(client, min_supported, max_supported) matches Some(v) ==> min_supported
            <= v <= max_supported && v <= client,
        negotiated_protocol(client, min_supported, max_supported) is None <==> client < min_supported,
{
}

} // verus!
