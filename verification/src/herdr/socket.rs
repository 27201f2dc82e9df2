//! One-shot socket transport decisions: socket path checks, peer identity,
//! and framing of the single newline-terminated response.

use vstd::prelude::*;

use crate::error::{Error, ErrorKind, ErrorView};
use crate::path::is_absolute_text;
use crate::text::{chars_of, concat, spec_trim, trim_text};

verus! {

/// Largest accepted response, in bytes.
pub const MAX_RESPONSE_BYTES: usize = 4 * 1024 * 1024;

/// Per-read-operation deadline, in seconds.
pub const READ_TIMEOUT_SECS: u64 = 2;

/// What the filesystem reports about a socket path.
#[derive(Debug, Clone, Copy, PartialEq, Eq, Structural)]
pub struct SocketFacts {
    pub is_socket: bool,
    pub owner_uid: u32,
}

pub open spec fn transport_error(message: Seq<char>) -> ErrorView {
    ErrorView { kind: ErrorKind::HerdrTransport, message }
}

/// The socket path must be absolute, exist as a Unix socket, and belong to
/// the current user. `facts` is `None` when the path cannot be read.
pub open spec fn spec_validate_socket(path: Seq<char>, facts: Option<SocketFacts>, euid: u32) -> Result<Seq<char>, ErrorView> {
    let p = spec_trim(path);
    if p.len() == 0 || !is_absolute_text(p) {
        Err(transport_error("Herdr socket path must be an absolute Unix socket"@))
    } else if facts is None {
        Err(transport_error("Herdr socket path does not exist or cannot be read"@))
    } else if !facts->0.is_socket {
        Err(transport_error("Herdr socket path is not a Unix socket"@))
    } else if facts->0.owner_uid != euid {
        Err(transport_error("Herdr socket is not owned by the current user"@))
    } else {
        Ok(p)
    }
}

/// The trimmed socket path text, before the filesystem is consulted.
pub fn socket_path_text(path: &str) -> (r: Option<String>)
    ensures
        r is Some <==> (spec_trim(path@).len() > 0 && is_absolute_text(spec_trim(path@))),
        r matches Some(p) ==> p@ == spec_trim(path@),
{
    let p = trim_text(path);
    let v = chars_of(p.as_str());
    if v.len() == 0 || v[0] != '/' {
        None
    } else {
        Some(p)
    }
}

pub fn validate_socket_path(path: &str, facts: Option<SocketFacts>, euid: u32) -> (r: Result<String, Error>)
    ensures
        match r {
            Ok(p) => spec_validate_socket(path@, facts, euid) == Ok::<Seq<char>, ErrorView>(p@),
            Err(e) => spec_validate_socket(path@, facts, euid) == Err::<Seq<char>, ErrorView>(e@),
        },
{
    let p = match socket_path_text(path) {
        Some(p) => p,
        None => return Err(Error::herdr_transport(String::from_str("Herdr socket path must be an absolute Unix socket"))),
    };
    let f = match facts {
        Some(f) => f,
        None => return Err(Error::herdr_transport(String::from_str("Herdr socket path does not exist or cannot be read"))),
    };
    if !f.is_socket {
        return Err(Error::herdr_transport(String::from_str("Herdr socket path is not a Unix socket")));
    }
    if !socket_owned_by_current_user(f.owner_uid, euid) {
        return Err(Error::herdr_transport(String::from_str("Herdr socket is not owned by the current user")));
    }
    Ok(p)
}

/// The peer (or owner) must be the current effective user.
pub fn socket_owned_by_current_user(uid: u32, euid: u32) -> (r: bool)
    ensures
        r == (uid == euid),
{
    uid == euid
}

/// Socket error classes that the transport distinguishes.
#[derive(Debug, Clone, Copy, PartialEq, Eq, Structural)]
pub enum SocketErrorKind {
    WouldBlock,
    Interrupted,
    Other,
}

/// A non-blocking operation that should simply be retried.
pub fn would_block(kind: SocketErrorKind) -> (r: bool)
    ensures
        r == (kind == SocketErrorKind::WouldBlock || kind == SocketErrorKind::Interrupted),
{
    match kind {
        SocketErrorKind::WouldBlock => true,
        SocketErrorKind::Interrupted => true,
        SocketErrorKind::Other => false,
    }
}

/// Progress of reading the one-line response.
#[derive(Debug, Clone, Copy, PartialEq, Eq, Structural)]
pub enum Frame {
    NeedMore,
    Complete,
    TooLarge,
}

/// Index of the first newline byte, or -1.
pub open spec fn first_newline(data: Seq<u8>) -> int
    decreases data.len(),
{
    if data.len() == 0 {
        -1
    } else if data[0] == 10u8 {
        0
    } else {
        let r = first_newline(data.drop_first());
        if r < 0 { -1 } else { r + 1 }
    }
}

proof fn lemma_first_newline(data: Seq<u8>)
    ensures
        -1 <= first_newline(data) < data.len(),
        first_newline(data) >= 0 ==> data[first_newline(data)] == 10u8,
        forall|j: int| 0 <= j < data.len() && (first_newline(data) < 0 || j < first_newline(data)) ==> #[trigger] data[j] != 10u8,
    decreases data.len(),
{
    if data.len() > 0 && data[0] != 10u8 {
        lemma_first_newline(data.drop_first());
        assert forall|j: int| 0 <= j < data.len() && (first_newline(data) < 0 || j < first_newline(data)) implies #[trigger] data[j] != 10u8 by {
            if j > 0 {
                assert(data[j] == data.drop_first()[j - 1]);
            }
        }
    }
}

/// Append one received chunk: up to its first newline the response is
/// complete, otherwise more is needed; past the limit it is too large.
pub fn absorb_chunk(buffer: &mut Vec<u8>, data: &[u8]) -> (r: Frame)
    ensures
        ({
            let n = first_newline(data@);
            let kept = if n >= 0 { data@.take(n) } else { data@ };
            &&& final(buffer)@ == old(buffer)@ + kept
            &&& r == if final(buffer)@.len() > MAX_RESPONSE_BYTES {
                Frame::TooLarge
            } else if n >= 0 {
                Frame::Complete
            } else {
                Frame::NeedMore
            }
        }),
{
    proof { lemma_first_newline(data@); }
    let ghost start = buffer@;
    let mut i: usize = 0;
    while i < data.len() && data[i] != 10u8
        invariant
            i <= data@.len(),
            forall|j: int| 0 <= j < i ==> #[trigger] data@[j] != 10u8,
            buffer@ == start + data@.take(i as int),
        decreases data@.len() - i,
    {
        buffer.push(data[i]);
        i += 1;
        assert(buffer@ =~= start + data@.take(i as int));
    }
    proof {
        let n = first_newline(data@);
        if i < data@.len() {
            if n < 0 || n > i { assert(data@[i as int] != 10u8); }
            if 0 <= n < i { assert(data@[n] != 10u8); }
        } else {
            if n >= 0 { assert(data@[n] != 10u8); }
            assert(data@.take(i as int) =~= data@);
        }
    }
    if buffer.len() > MAX_RESPONSE_BYTES {
        Frame::TooLarge
    } else if i < data.len() {
        Frame::Complete
    } else {
        Frame::NeedMore
    }
}

pub open spec fn focus_protocol(detail: Seq<char>) -> ErrorView {
    ErrorView { kind: ErrorKind::HerdrProtocol, message: "pane focus: "@ + detail }
}

/// The peer closed the socket before a full line arrived.
pub fn closed_early(received_nothing: bool) -> (e: Error)
    ensures
        e@ == if received_nothing { focus_protocol("empty response"@) } else { focus_protocol("truncated response"@) },
{
    if received_nothing {
        Error::herdr_protocol(concat("pane focus: ", "empty response"))
    } else {
        Error::herdr_protocol(concat("pane focus: ", "truncated response"))
    }
}


pub open spec fn oversized_error() -> ErrorView {
    ErrorView { kind: ErrorKind::HerdrProtocol, message: "Herdr response exceeded the 4 MiB limit"@ }
}

/// A response, from the socket or the CLI, that went past the size limit.
pub fn oversized_response() -> (e: Error)
    ensures
        e@ == oversized_error(),
{
    Error::herdr_protocol(String::from_str("Herdr response exceeded the 4 MiB limit"))
}

/// Output read with a limit: at most `max_bytes` kept, and whether more
/// than that arrived. The reader takes one byte past the limit to know.
pub fn read_bounded(mut bytes: Vec<u8>, max_bytes: usize) -> (r: (Vec<u8>, bool))
    ensures
        r.1 == (bytes@.len() > max_bytes),
        r.0@ == if bytes@.len() > max_bytes { bytes@.take(max_bytes as int) } else { bytes@ },
{
    let exceeded = bytes.len() > max_bytes;
    if exceeded {
        bytes.truncate(max_bytes);
    }
    (bytes, exceeded)
}

} // verus!
