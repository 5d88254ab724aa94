//! The messages exchanged between the daemon and its clients, and how they
//! are framed on the socket: a four-byte big-endian length, then the body.

use vstd::prelude::*;
use vstd::string::*;

use crate::common::{ClipboardItem, IPCServerError};
use crate::history::ClipboardHistory;

verus! {

/// The commands that the daemon supports.
///
/// * `Promote(pos)` promotes the item at `pos` to the top of the history.
/// * `Delete(pos)` deletes the item at `pos`.
/// * `DeleteThis(item)` deletes the item with the content of `item`.
/// * `Snapshot` retrieves a snapshot of the current history.
/// * `Clear` clears the entire history.
/// * `Stop` stops the daemon.
#[derive(Debug)]
pub enum CmdIPC {
    Promote(usize),
    Delete(usize),
    DeleteThis(ClipboardItem),
    Snapshot,
    Clear,
    Stop,
}

/// A request to the daemon.
#[derive(Debug)]
pub struct IPCRequest {
    pub cmd: CmdIPC,
}

/// The daemon's answer: a snapshot of the history after the command, or a
/// message when the command could not be carried out.
#[derive(Debug)]
pub struct IPCResponse {
    pub history_snapshot: Option<ClipboardHistory>,
    pub message: Option<String>,
}

/// The payloads that travel over the socket.
#[derive(Debug)]
pub enum Payload {
    Request(IPCRequest),
    Response(IPCResponse),
}

/// The four bytes, most significant first, of `n` modulo 2^32.
pub open spec fn be_prefix(n: nat) -> Seq<u8> {
    let m = n % 0x1_0000_0000;
    seq![(m / 0x100_0000) as u8, (m / 0x1_0000 % 0x100) as u8, (m / 0x100 % 0x100) as u8, (m % 0x100) as u8]
}

/// The number that four bytes, most significant first, denote.
pub open spec fn be_value(b: Seq<u8>) -> nat {
    (b[0] as nat) * 0x100_0000 + (b[1] as nat) * 0x1_0000 + (b[2] as nat) * 0x100 + (b[3] as nat)
}

/// The bytes of one serialised payload with its length prefix.
pub struct PayloadData {
    buf: Vec<u8>,
    len: [u8; 4],
}

impl PayloadData {
    /// The serialised payload.
    pub closed spec fn body(&self) -> Seq<u8> {
        self.buf@
    }

    /// The length prefix that precedes it on the socket.
    pub closed spec fn prefix(&self) -> Seq<u8> {
        self.len@
    }

    /// Frames a serialised payload: the prefix holds its length, as four
    /// big-endian bytes (the length taken modulo 2^32).
    pub fn from_bytes(buf: Vec<u8>) -> (r: PayloadData)
        ensures
            r.body() == buf@,
            r.prefix() == be_prefix(buf@.len()),
    {
        let total: u64 = buf.len() as u64;
        let n: u32 = total as u32;
        assert(n == total % 0x1_0000_0000) by (bit_vector)
            requires
                n == total as u32,
        ;
        let b0: u8 = (n >> 24u32) as u8;
        let b1: u8 = (n >> 16u32) as u8;
        let b2: u8 = (n >> 8u32) as u8;
        let b3: u8 = n as u8;
        assert(b0 == n / 0x100_0000 && b1 == n / 0x1_0000 % 0x100 && b2 == n / 0x100 % 0x100 && b3
            == n % 0x100) by (bit_vector)
            requires
                b0 == (n >> 24u32) as u8,
                b1 == (n >> 16u32) as u8,
                b2 == (n >> 8u32) as u8,
                b3 == n as u8,
        ;
        let len: [u8; 4] = [b0, b1, b2, b3];
        assert(len@ =~= be_prefix(buf@.len()));
        PayloadData { buf, len }
    }

    /// The serialised payload.
    pub fn body_bytes(&self) -> (r: &Vec<u8>)
        ensures
            r@ == self.body(),
    {
        &self.buf
    }

    /// The length prefix.
    pub fn len_prefix(&self) -> (r: [u8; 4])
        ensures
            r@ == self.prefix(),
    {
        self.len
    }
}

/// The length of the payload that follows a four-byte big-endian prefix.
pub fn payload_len(prefix: [u8; 4]) -> (r: usize)
    ensures
        r == be_value(prefix@),
{
    let b0 = prefix[0];
    let b1 = prefix[1];
    let b2 = prefix[2];
    let b3 = prefix[3];
    let v: u32 = ((b0 as u32) << 24u32) | ((b1 as u32) << 16u32) | ((b2 as u32) << 8u32) | (b3 as u32);
    assert(v == (b0 as u32) * 0x100_0000 + (b1 as u32) * 0x1_0000 + (b2 as u32) * 0x100 + (b3 as u32))
        by (bit_vector)
        requires
            v == ((b0 as u32) << 24u32) | ((b1 as u32) << 16u32) | ((b2 as u32) << 8u32) | (b3 as u32),
    ;
    v as usize
}

/// A length prefix gives back the length it was made from, modulo 2^32.
pub proof fn lemma_prefix_roundtrip(n: nat)
    ensures
        be_value(be_prefix(n)) == n % 0x1_0000_0000,
{
    let m = n % 0x1_0000_0000;
    let x: u32 = m as u32;
    assert((x / 0x100_0000) * 0x100_0000 + (x / 0x1_0000 % 0x100) * 0x1_0000 + (x / 0x100 % 0x100) * 0x100
        + (x % 0x100) == x) by (bit_vector);
}

/// What a failed connection to the daemon's socket means: a refused
/// connection (OS error 111) and other failures are connection errors, a
/// missing socket file (OS error 2) means no daemon was ever started.
/// `detail` describes the failure for the other cases.
pub fn classify_connect_error(os_code: Option<i32>, detail: String) -> (r: IPCServerError)
    ensures
        os_code == Some(111i32) ==> (r matches IPCServerError::ConnectionError(m) && m@
            == "Connection Refused by server."@),
        os_code == Some(2i32) ==> r == IPCServerError::FileNotFound,
        os_code != Some(111i32) && os_code != Some(2i32) ==> r == IPCServerError::ConnectionError(
            detail,
        ),
{
    match os_code {
        Some(code) => {
            if code == 111 {
                IPCServerError::ConnectionError(String::from_str("Connection Refused by server."))
            } else if code == 2 {
                IPCServerError::FileNotFound
            } else {
                IPCServerError::ConnectionError(detail)
            }
        },
        None => IPCServerError::ConnectionError(detail),
    }
}

/// A probe connection found no server: there is no socket file, or the
/// connection failed.
pub open spec fn no_server_answered(probe: Result<(), IPCServerError>) -> bool {
    match probe {
        Err(IPCServerError::FileNotFound) => true,
        Err(IPCServerError::ConnectionError(_)) => true,
        _ => false,
    }
}

/// Whether a new server may bind the socket, given the outcome of a probe
/// connection to it: only when no server answered (no socket file, or a
/// failed connection) is binding allowed.
pub fn check_bind_probe(probe: Result<(), IPCServerError>) -> (r: Result<(), IPCServerError>)
    ensures
        no_server_answered(probe) ==> r is Ok,
        !no_server_answered(probe) ==> (r matches Err(IPCServerError::BindError(m)) && m@
            == "IPC Server appears to be already running"@),
{
    match probe {
        Err(IPCServerError::FileNotFound) => Ok(()),
        Err(IPCServerError::ConnectionError(_)) => Ok(()),
        _ => Err(IPCServerError::BindError(String::from_str("IPC Server appears to be already running"))),
    }
}

} // verus!
