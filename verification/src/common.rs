//! Clipboard items, the errors of the service, and the places on disk it uses.

use vstd::prelude::*;
use vstd::string::*;

use crate::text::{crlf, decimal, push_crlf, push_decimal};

verus! {

/// The Unix socket on which the daemon listens for commands.
pub const SOCKET_PATH: &'static str = "/tmp/super_v.sock";

/// The lock file that keeps a second daemon from starting.
pub const LOCK_PATH: &'static str = "/tmp/super_v.lock";

/// Error types for clipboard operations.
#[derive(Debug, PartialEq, Eq, Clone, Copy)]
pub enum ClipboardError {
    /// Returned when attempting to access an empty clipboard.
    ClipboardEmpty,
    /// Returned when a position does not name an item of the history.
    IndexOutOfBound,
}

impl ClipboardError {
    /// The sentence shown to a user for this error.
    pub fn message(&self) -> (r: String)
        ensures
            r@ == match self {
                ClipboardError::ClipboardEmpty =>
                    "Clipboard is empty. Please add copy something before trying again."@,
                ClipboardError::IndexOutOfBound => "Index out of bounds."@,
            },
    {
        match self {
            ClipboardError::ClipboardEmpty => String::from_str(
                "Clipboard is empty. Please add copy something before trying again.",
            ),
            ClipboardError::IndexOutOfBound => String::from_str("Index out of bounds."),
        }
    }
}

/// Error type of the socket that the daemon and its clients talk over.
#[derive(Debug, PartialEq, Eq, Clone)]
pub enum IPCServerError {
    /// The daemon could not be reached.
    ConnectionError(String),
    /// The daemon's socket could not be bound.
    BindError(String),
    /// A message could not be sent.
    SendError(String),
    /// There is no socket file: no daemon has been started.
    FileNotFound,
}

impl IPCServerError {
    /// The sentence shown to a user for this error.
    pub fn message(&self) -> (r: String)
        ensures
            r@ == match self {
                IPCServerError::ConnectionError(s) => "Could not connect to socket: "@ + s@,
                IPCServerError::BindError(s) => "Could not bind to socket: "@ + s@,
                IPCServerError::SendError(s) => "Could not send item: "@ + s@,
                IPCServerError::FileNotFound => "Socket file not found."@,
            },
    {
        match self {
            IPCServerError::ConnectionError(s) => {
                let mut r = String::from_str("Could not connect to socket: ");
                r.append(s.as_str());
                r
            },
            IPCServerError::BindError(s) => {
                let mut r = String::from_str("Could not bind to socket: ");
                r.append(s.as_str());
                r
            },
            IPCServerError::SendError(s) => {
                let mut r = String::from_str("Could not send item: ");
                r.append(s.as_str());
                r
            },
            IPCServerError::FileNotFound => String::from_str("Socket file not found."),
        }
    }
}

/// Error type of the clipboard manager daemon.
#[derive(Debug, PartialEq, Eq, Clone)]
pub enum DaemonError {
    /// Returned when attempting to spawn the manager while an instance is
    /// already running.
    ManagerMultiSpawn,
    /// The daemon's socket could not be set up.
    IPCErr(IPCServerError),
}

impl DaemonError {
    /// The sentence shown to a user for this error.
    pub fn message(&self) -> (r: String)
        ensures
            r@ == match self {
                DaemonError::ManagerMultiSpawn => "An instance of the Manager is already open."@,
                DaemonError::IPCErr(e) => match e {
                    IPCServerError::ConnectionError(s) => "Could not connect to socket: "@ + s@,
                    IPCServerError::BindError(s) => "Could not bind to socket: "@ + s@,
                    IPCServerError::SendError(s) => "Could not send item: "@ + s@,
                    IPCServerError::FileNotFound => "Socket file not found."@,
                },
            },
    {
        match self {
            DaemonError::ManagerMultiSpawn => String::from_str(
                "An instance of the Manager is already open.",
            ),
            DaemonError::IPCErr(e) => e.message(),
        }
    }
}

/// Represents an item that can be stored in the clipboard: plain text, or an
/// image with its dimensions and raw RGBA bytes.
#[derive(PartialEq, Eq, Debug, Clone)]
pub enum ClipboardItem {
    /// Plain text content.
    Text(String),
    /// Image content with dimensions and raw bytes.
    Image { width: usize, height: usize, bytes: Vec<u8> },
}

/// What a clipboard item holds, as mathematical values.
pub enum ItemView {
    Text(Seq<char>),
    Image { width: usize, height: usize, bytes: Seq<u8> },
}

impl View for ClipboardItem {
    type V = ItemView;

    open spec fn view(&self) -> ItemView {
        match self {
            ClipboardItem::Text(s) => ItemView::Text(s@),
            ClipboardItem::Image { width, height, bytes } => ItemView::Image {
                width: *width,
                height: *height,
                bytes: bytes@,
            },
        }
    }
}

/// Byte-wise equality of two byte vectors.
fn bytes_equal(a: &Vec<u8>, b: &Vec<u8>) -> (r: bool)
    ensures
        r == (a@ == b@),
{
    if a.len() != b.len() {
        return false;
    }
    let n = a.len();
    let mut i: usize = 0;
    while i < n
        invariant
            n == a.len(),
            n == b.len(),
            i <= n,
            forall|j: int| 0 <= j < i ==> a@[j] == b@[j],
        decreases n - i,
    {
        if a[i] != b[i] {
            return false;
        }
        i = i + 1;
    }
    assert(a@ =~= b@);
    true
}

impl ClipboardItem {
    /// Whether two items hold the same content: the same text, or images of
    /// the same size with the same bytes.
    pub fn same_content(&self, other: &ClipboardItem) -> (r: bool)
        ensures
            r == (self@ == other@),
    {
        match (self, other) {
            (ClipboardItem::Text(a), ClipboardItem::Text(b)) => a.eq(b),
            (
                ClipboardItem::Image { width: w1, height: h1, bytes: b1 },
                ClipboardItem::Image { width: w2, height: h2, bytes: b2 },
            ) => *w1 == *w2 && *h1 == *h2 && bytes_equal(b1, b2),
            _ => false,
        }
    }

    /// The item as printed: text with its line feeds written as carriage
    /// return and line feed, an image as its size.
    pub fn display_text(&self) -> (r: String)
        ensures
            r@ == match self@ {
                ItemView::Text(t) => crlf(t),
                ItemView::Image { width, height, .. } => "[Image: "@ + decimal(width as nat) + "x"@
                    + decimal(height as nat) + "]"@,
            },
    {
        match self {
            ClipboardItem::Text(t) => {
                let mut r = String::new();
                push_crlf(&mut r, t.as_str());
                assert(r@ =~= crlf(t@));
                r
            },
            ClipboardItem::Image { width, height, .. } => {
                let mut r = String::from_str("[Image: ");
                push_decimal(&mut r, *width);
                r.append("x");
                push_decimal(&mut r, *height);
                r.append("]");
                r
            },
        }
    }

    /// A new item with the same content.
    pub fn duplicate(&self) -> (r: ClipboardItem)
        ensures
            r@ == self@,
    {
        match self {
            ClipboardItem::Text(s) => ClipboardItem::Text(s.clone()),
            ClipboardItem::Image { width, height, bytes } => {
                let copy = bytes.clone();
                assert(copy@ =~= bytes@);
                ClipboardItem::Image { width: *width, height: *height, bytes: copy }
            },
        }
    }
}

/// Retrieving clipboard content as a `ClipboardItem`, whether the clipboard
/// holds text or an image.
pub trait GetItem {
    /// Retrieves the current clipboard content: `Err(ClipboardEmpty)` when
    /// the clipboard holds neither an image nor text.
    fn get_item(&mut self) -> Result<ClipboardItem, ClipboardError>;
}

/// The item that the clipboard holds, given what reading it as an image
/// (width, height, bytes) and as text gave: the image when there is one,
/// else the text, else the clipboard is empty.
pub fn item_from_reads(image: Option<(usize, usize, Vec<u8>)>, text: Option<String>) -> (r: Result<
    ClipboardItem,
    ClipboardError,
>)
    ensures
        match image {
            Some((w, h, b)) => r == Ok::<ClipboardItem, ClipboardError>(
                ClipboardItem::Image { width: w, height: h, bytes: b },
            ),
            None => match text {
                Some(t) => r == Ok::<ClipboardItem, ClipboardError>(ClipboardItem::Text(t)),
                None => r == Err::<ClipboardItem, ClipboardError>(ClipboardError::ClipboardEmpty),
            },
        },
{
    match image {
        Some((width, height, bytes)) => Ok(ClipboardItem::Image { width, height, bytes }),
        None => match text {
            Some(t) => Ok(ClipboardItem::Text(t)),
            None => Err(ClipboardError::ClipboardEmpty),
        },
    }
}

} // verus!
