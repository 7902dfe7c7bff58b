//! The CONNECT handshake with an HTTP forward proxy.
//!
//! The client writes one CONNECT request and then gathers the proxy's response
//! until it is complete. Every byte read is kept and the whole response is
//! judged again after each read.

use crate::error::TunnelError;
use crate::outside::is_utf8;
use vstd::prelude::*;
use vstd::string::StringSliceAdditionalSpecFns;
use vstd::utf8::valid_utf8;

verus! {

/// The size limit of a response, in bytes, where the caller names none.
pub const DEFAULT_RESPONSE_LIMIT: usize = 8192;

/// The bytes of the request that asks a proxy for a tunnel to `authority`.
pub open spec fn connect_request_bytes(authority: Seq<u8>) -> Seq<u8> {
    "CONNECT ".spec_bytes() + authority + " HTTP/1.1\r\nHOST: ".spec_bytes() + authority
        + "\r\n\r\n".spec_bytes()
}

/// Whether `data` begins with a status line that grants the tunnel.
pub open spec fn starts_with_success(data: Seq<u8>) -> bool {
    ||| "HTTP/1.1 200".spec_bytes().is_prefix_of(data)
    ||| "HTTP/1.0 200".spec_bytes().is_prefix_of(data)
    ||| "HTTP/2 200".spec_bytes().is_prefix_of(data)
}

/// Whether `data` ends with the blank line that closes a header block.
pub open spec fn ends_with_blank_line(data: Seq<u8>) -> bool {
    "\r\n\r\n".spec_bytes().is_suffix_of(data)
}

/// How a response stands once `chunk` has followed `received`.
#[derive(Debug)]
pub enum Verdict {
    /// More bytes are needed.
    Incomplete,
    /// The proxy granted the tunnel.
    Established,
    /// The handshake failed.
    Failed(TunnelError),
}

/// The verdict on a response of which `received` was held and `chunk` was
/// read last, under a size limit of `limit` bytes.
pub open spec fn verdict(limit: nat, received: Seq<u8>, chunk: Seq<u8>) -> Verdict {
    let all = received + chunk;
    if chunk.len() == 0 {
        Verdict::Failed(TunnelError::UnexpectedEof)
    } else if all.len() > limit || !valid_utf8(all) {
        Verdict::Failed(TunnelError::InvalidData)
    } else if ends_with_blank_line(all) {
        if starts_with_success(all) {
            Verdict::Established
        } else {
            Verdict::Failed(TunnelError::Rejected)
        }
    } else if all.len() == limit {
        Verdict::Failed(TunnelError::InvalidData)
    } else {
        Verdict::Incomplete
    }
}

/// What was gathered when a tunnel is established: the last read was not
/// empty, and the bytes of all reads together are within the limit, are
/// UTF-8, begin with a status line that grants the tunnel, and end in the
/// blank line.
pub proof fn lemma_established(limit: nat, received: Seq<u8>, chunk: Seq<u8>)
    requires
        verdict(limit, received, chunk) == Verdict::Established,
    ensures
        chunk.len() > 0,
        (received + chunk).len() <= limit,
        valid_utf8(received + chunk),
        starts_with_success(received + chunk),
        ends_with_blank_line(received + chunk),
{
}

/// A handshake in progress: the size limit and the response gathered so far.
#[derive(Debug)]
pub struct Tunnel {
    limit: usize,
    received: Vec<u8>,
}

/// What the handshake asks for after a read.
#[derive(Debug)]
pub enum TunnelStep {
    /// Read again, at most `max` bytes, and call `tunnel` with `state`.
    Read { state: Tunnel, max: usize },
    /// The tunnel is open; the response ended with the bytes last read.
    Established,
    /// The handshake failed.
    Failed(TunnelError),
}

/// Appends `data` to `buf`.
pub fn append_bytes(buf: &mut Vec<u8>, data: &[u8])
    ensures
        final(buf)@ == old(buf)@ + data@,
{
    let mut i: usize = 0;
    while i < data.len()
        invariant
            i <= data.len(),
            buf@ == old(buf)@ + data@.subrange(0, i as int),
        decreases data.len() - i,
    {
        buf.push(data[i]);
        i += 1;
    }
    assert(data@.subrange(0, data.len() as int) == data@);
}

/// Whether `data` begins with `pattern`.
pub fn has_prefix(data: &[u8], pattern: &[u8]) -> (found: bool)
    ensures
        found == pattern@.is_prefix_of(data@),
{
    if pattern.len() > data.len() {
        return false;
    }
    let mut i: usize = 0;
    while i < pattern.len()
        invariant
            i <= pattern.len() <= data.len(),
            pattern@.subrange(0, i as int) == data@.subrange(0, i as int),
        decreases pattern.len() - i,
    {
        if pattern[i] != data[i] {
            assert(pattern@[i as int] != data@.subrange(0, pattern.len() as int)[i as int]);
            return false;
        }
        assert(pattern@.subrange(0, i + 1) == pattern@.subrange(0, i as int).push(
            pattern@[i as int],
        ));
        assert(data@.subrange(0, i + 1) == data@.subrange(0, i as int).push(data@[i as int]));
        i += 1;
    }
    assert(pattern@.subrange(0, pattern.len() as int) == pattern@);
    true
}

/// Whether `data` ends with `pattern`.
pub fn has_suffix(data: &[u8], pattern: &[u8]) -> (found: bool)
    ensures
        found == pattern@.is_suffix_of(data@),
{
    if pattern.len() > data.len() {
        return false;
    }
    let skip: usize = data.len() - pattern.len();
    let mut i: usize = 0;
    while i < pattern.len()
        invariant
            i <= pattern.len() <= data.len(),
            skip == data.len() - pattern.len(),
            pattern@.subrange(0, i as int) == data@.subrange(skip as int, skip + i),
        decreases pattern.len() - i,
    {
        if pattern[i] != data[skip + i] {
            assert(pattern@[i as int] != data@.subrange(skip as int, data.len() as int)[i as int]);
            return false;
        }
        assert(pattern@.subrange(0, i + 1) == pattern@.subrange(0, i as int).push(
            pattern@[i as int],
        ));
        assert(data@.subrange(skip as int, skip + i + 1) == data@.subrange(
            skip as int,
            skip + i,
        ).push(data@[skip + i]));
        i += 1;
    }
    assert(pattern@.subrange(0, pattern.len() as int) == pattern@);
    true
}

impl Tunnel {
    /// The size limit of the response, in bytes.
    pub closed spec fn limit(&self) -> nat {
        self.limit as nat
    }

    /// The response gathered so far.
    pub closed spec fn received(&self) -> Seq<u8> {
        self.received@
    }

    /// A handshake that has read nothing yet and accepts a response of at
    /// most `limit` bytes.
    pub fn new(limit: usize) -> (state: Tunnel)
        ensures
            state.limit() == limit,
            state.received() == Seq::<u8>::empty(),
    {
        Tunnel { limit, received: Vec::new() }
    }

    /// The request to write to the proxy before the first read: it names
    /// `authority`, the destination as `host:port`, twice.
    pub fn request(authority: &[u8]) -> (bytes: Vec<u8>)
        ensures
            bytes@ == connect_request_bytes(authority@),
    {
        let mut bytes: Vec<u8> = Vec::new();
        append_bytes(&mut bytes, "CONNECT ".as_bytes());
        append_bytes(&mut bytes, authority);
        append_bytes(&mut bytes, " HTTP/1.1\r\nHOST: ".as_bytes());
        append_bytes(&mut bytes, authority);
        append_bytes(&mut bytes, "\r\n\r\n".as_bytes());
        bytes
    }

    /// The response gathered so far.
    pub fn gathered(&self) -> (bytes: &Vec<u8>)
        ensures
            bytes@ == self.received(),
    {
        &self.received
    }

    /// How many more bytes the response may take.
    pub fn room(&self) -> (n: usize)
        ensures
            n == if self.received().len() <= self.limit() {
                self.limit() - self.received().len()
            } else {
                0
            },
    {
        if self.received.len() <= self.limit {
            self.limit - self.received.len()
        } else {
            0
        }
    }
}

/// Takes the bytes of one read, `chunk`, into the handshake and says what
/// comes next. An empty `chunk` stands for the end of the stream.
///
/// The bytes are added behind those already held and the whole response is
/// judged: see `verdict`. Only while the verdict is `Incomplete` does the
/// handshake go on, and then `max` is the room left under the limit.
pub fn tunnel(state: Tunnel, chunk: &[u8]) -> (step: TunnelStep)
    ensures
        match step {
            TunnelStep::Read { state: next, max } => {
                &&& verdict(state.limit(), state.received(), chunk@) == Verdict::Incomplete
                &&& next.limit() == state.limit()
                &&& next.received() == state.received() + chunk@
                &&& max == state.limit() - next.received().len()
            },
            TunnelStep::Established => verdict(state.limit(), state.received(), chunk@)
                == Verdict::Established,
            TunnelStep::Failed(e) => verdict(state.limit(), state.received(), chunk@)
                == Verdict::Failed(e),
        },
{
    let mut state = state;
    if chunk.len() == 0 {
        return TunnelStep::Failed(TunnelError::UnexpectedEof);
    }
    if state.received.len() > state.limit || chunk.len() > state.limit - state.received.len() {
        return TunnelStep::Failed(TunnelError::InvalidData);
    }
    append_bytes(&mut state.received, chunk);
    if !is_utf8(state.received.as_slice()) {
        return TunnelStep::Failed(TunnelError::InvalidData);
    }
    if has_suffix(state.received.as_slice(), "\r\n\r\n".as_bytes()) {
        let all = state.received.as_slice();
        if has_prefix(all, "HTTP/1.1 200".as_bytes()) || has_prefix(all, "HTTP/1.0 200".as_bytes())
            || has_prefix(all, "HTTP/2 200".as_bytes()) {
            return TunnelStep::Established;
        }
        return TunnelStep::Failed(TunnelError::Rejected);
    }
    if state.received.len() == state.limit {
        return TunnelStep::Failed(TunnelError::InvalidData);
    }
    let max: usize = state.limit - state.received.len();
    TunnelStep::Read { state, max }
}

} // verus!
