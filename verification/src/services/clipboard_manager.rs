//! The daemon's decisions: how it answers each command, and when the
//! poller records what it read from the clipboard.

use vstd::prelude::*;
use vstd::string::*;

use crate::common::{ClipboardError, ClipboardItem, ItemView};
use crate::history::{added, move_to_front, ClipboardHistory};
use crate::services::clipboard_ipc_server::{CmdIPC, IPCRequest, IPCResponse, Payload};
use crate::text::{is_blank, is_blank_chars, is_white_space};

verus! {

/// The number of items that the daemon's history keeps.
pub const CLIPBOARD_SIZE: usize = 25;

/// The response carries a snapshot of a history with items `items` and
/// capacity `cap`, and no message.
pub open spec fn is_snapshot(resp: IPCResponse, items: Seq<ItemView>, cap: nat) -> bool {
    &&& resp.history_snapshot matches Some(h) && h@ == items && h.capacity() == cap
    &&& resp.message is None
}

/// The response carries the message `m` and no snapshot.
pub open spec fn is_message(resp: IPCResponse, m: Seq<char>) -> bool {
    &&& resp.history_snapshot is None
    &&& resp.message matches Some(s) && s@ == m
}

/// What the daemon does with a payload it received.
pub enum Dispatch {
    /// Send this response and carry on.
    Respond(IPCResponse),
    /// Send this response and stop the daemon.
    Stop(IPCResponse),
    /// Carry out this command on the history (never `Stop`).
    Execute(CmdIPC),
}

fn message_response(m: &str) -> (r: IPCResponse)
    ensures
        is_message(r, m@),
{
    IPCResponse { history_snapshot: None, message: Some(String::from_str(m)) }
}

fn snapshot_response(history: &ClipboardHistory) -> (r: IPCResponse)
    ensures
        is_snapshot(r, history@, history.capacity()),
{
    IPCResponse { history_snapshot: Some(history.snapshot()), message: None }
}

/// Sorts a received payload: a request to stop is answered and stops the
/// daemon, other requests are carried out on the history, and a response
/// sent to the daemon is answered with an error message.
pub fn dispatch(payload: Payload) -> (r: Dispatch)
    ensures
        match payload {
            Payload::Request(req) => match req.cmd {
                CmdIPC::Stop => r matches Dispatch::Stop(resp) && is_message(resp, "Stop Signal recieved."@),
                _ => r == Dispatch::Execute(req.cmd),
            },
            Payload::Response(_) => r matches Dispatch::Respond(resp) && is_message(
                resp,
                "Wrong Payload type recieved. Expected CmdIpc but got IPCResponse."@,
            ),
        },
{
    match payload {
        Payload::Request(IPCRequest { cmd }) => match cmd {
            CmdIPC::Stop => Dispatch::Stop(message_response("Stop Signal recieved.")),
            other => Dispatch::Execute(other),
        },
        Payload::Response(_) => Dispatch::Respond(
            message_response("Wrong Payload type recieved. Expected CmdIpc but got IPCResponse."),
        ),
    }
}

/// The answer when the shared history could not be locked.
pub fn unlock_failed() -> (r: IPCResponse)
    ensures
        is_message(r, "Could not unlock history"@),
{
    message_response("Could not unlock history")
}

/// Carries out a command on the history and builds the answer: a snapshot of
/// the history afterwards, or, when a position or item is not in the
/// history, a message and an unchanged history.
pub fn execute_command(history: &mut ClipboardHistory, cmd: CmdIPC) -> (r: IPCResponse)
    ensures
        final(history).capacity() == old(history).capacity(),
        old(history).well_formed() ==> final(history).well_formed(),
        r.history_snapshot matches Some(h) ==> (h@ == final(history)@ && h.capacity()
            == final(history).capacity() && r.message is None),
        match cmd {
            CmdIPC::Clear => final(history)@ == Seq::<ItemView>::empty() && is_snapshot(
                r,
                final(history)@,
                final(history).capacity(),
            ),
            CmdIPC::Delete(pos) => if pos < old(history)@.len() {
                final(history)@ == old(history)@.remove(pos as int) && is_snapshot(
                    r,
                    final(history)@,
                    final(history).capacity(),
                )
            } else {
                final(history)@ == old(history)@ && is_message(
                    r,
                    "Could not delete item. Index out of bounds."@,
                )
            },
            CmdIPC::DeleteThis(item) => match old(history)@.index_of_first(item@) {
                Some(p) => final(history)@ == old(history)@.remove(p) && is_snapshot(
                    r,
                    final(history)@,
                    final(history).capacity(),
                ),
                None => final(history)@ == old(history)@ && is_message(
                    r,
                    "Could not delete item. Index out of bounds."@,
                ),
            },
            CmdIPC::Promote(pos) => if pos < old(history)@.len() {
                final(history)@ == move_to_front(old(history)@, pos as int) && is_snapshot(
                    r,
                    final(history)@,
                    final(history).capacity(),
                )
            } else {
                final(history)@ == old(history)@ && is_message(
                    r,
                    "Could not promote item. Index out of bounds."@,
                )
            },
            CmdIPC::Snapshot => final(history)@ == old(history)@ && is_snapshot(
                r,
                final(history)@,
                final(history).capacity(),
            ),
            CmdIPC::Stop => final(history)@ == old(history)@ && is_message(
                r,
                "Stop Signal recieved."@,
            ),
        },
{
    match cmd {
        CmdIPC::Clear => {
            history.clear();
            snapshot_response(history)
        },
        CmdIPC::Delete(pos) => match history.delete(pos) {
            Ok(_) => snapshot_response(history),
            Err(_) => message_response("Could not delete item. Index out of bounds."),
        },
        CmdIPC::DeleteThis(item) => match history.delete_this(item) {
            Ok(_) => snapshot_response(history),
            Err(_) => message_response("Could not delete item. Index out of bounds."),
        },
        CmdIPC::Promote(pos) => match history.promote(pos) {
            Ok(_) => snapshot_response(history),
            Err(_) => message_response("Could not promote item. Index out of bounds."),
        },
        CmdIPC::Snapshot => snapshot_response(history),
        CmdIPC::Stop => message_response("Stop Signal recieved."),
    }
}

/// Text that trims to nothing.
pub open spec fn is_blank_text(v: ItemView) -> bool {
    v matches ItemView::Text(t) && is_blank_chars(t)
}

/// Whether content `current` read from the clipboard goes into the history
/// when `last` was recorded before: it must differ from `last` and not be
/// blank text.
pub open spec fn fresh(last: ItemView, current: ItemView) -> bool {
    current != last && !is_blank_text(current)
}

/// The poller records content exactly when it differs from the last
/// recorded content and is not text made of whitespace characters only.
pub proof fn lemma_fresh_law(last: ItemView, current: ItemView)
    ensures
        fresh(last, current) <==> (current != last && !(current matches ItemView::Text(t) && forall|i: int|
            0 <= i < t.len() ==> is_white_space(#[trigger] t[i]))),
        !fresh(current, current),
{
}

/// Two images differ as soon as one byte differs: of two screenshots of the
/// same size but different pixels, the second is recorded.
pub proof fn lemma_images_differing_in_bytes_are_fresh(w: usize, h: usize, b1: Seq<u8>, b2: Seq<u8>)
    requires
        b1 != b2,
    ensures
        fresh(
            ItemView::Image { width: w, height: h, bytes: b1 },
            ItemView::Image { width: w, height: h, bytes: b2 },
        ),
{
}

/// Images are never blank, and text is blank exactly when it holds no
/// character outside the White_Space property: a text with any other
/// character, in any script, that differs from the last one is recorded.
pub proof fn lemma_fresh_text(last: ItemView, t: Seq<char>, i: int)
    requires
        0 <= i < t.len(),
        !is_white_space(t[i]),
        ItemView::Text(t) != last,
    ensures
        fresh(last, ItemView::Text(t)),
{
}

/// A successful clipboard read stands for what was read, image or text; only
/// a failed read stands for empty text.
pub proof fn lemma_read_view_law(read: Result<ClipboardItem, ClipboardError>)
    ensures
        read matches Ok(item) ==> read_view(read) == item@,
        read is Err ==> read_view(read) == ItemView::Text(Seq::empty()),
{
}

/// An answer carries a snapshot of a history exactly when it holds that
/// history, item for item and with its capacity, and no message.
pub proof fn lemma_is_snapshot_law(resp: IPCResponse, items: Seq<ItemView>, cap: nat)
    ensures
        is_snapshot(resp, items, cap) <==> (resp.message is None && resp.history_snapshot is Some
            && resp.history_snapshot.unwrap()@ == items && resp.history_snapshot.unwrap().capacity() == cap),
        is_snapshot(resp, items, cap) ==> resp.history_snapshot.unwrap()@.len() == items.len(),
{
}

/// The item that a clipboard read stands for: what was read, or empty text
/// when the read failed.
pub open spec fn read_view(read: Result<ClipboardItem, ClipboardError>) -> ItemView {
    match read {
        Ok(item) => item@,
        Err(_) => ItemView::Text(Seq::empty()),
    }
}

/// What was read from the clipboard, or empty text when the read failed.
pub fn read_or_empty(read: Result<ClipboardItem, ClipboardError>) -> (r: ClipboardItem)
    ensures
        r@ == read_view(read),
        read matches Ok(item) ==> r@ == item@,
        read is Err ==> r@ == ItemView::Text(Seq::empty()),
{
    match read {
        Ok(item) => item,
        Err(_) => ClipboardItem::Text(String::new()),
    }
}

/// The clipboard poller's memory: the last item it recorded.
pub struct Poller {
    last_item: ClipboardItem,
}

impl Poller {
    /// The content that the poller last recorded.
    pub closed spec fn last(&self) -> ItemView {
        self.last_item@
    }

    /// A poller that starts from the clipboard's content at start-up (empty
    /// text when it could not be read), so that content is not recorded.
    pub fn new(first_read: Result<ClipboardItem, ClipboardError>) -> (p: Poller)
        ensures
            p.last() == read_view(first_read),
            first_read matches Ok(item) ==> p.last() == item@,
            first_read is Err ==> p.last() == ItemView::Text(Seq::empty()),
    {
        Poller { last_item: read_or_empty(first_read) }
    }

    /// Whether an item read from the clipboard should go into the history:
    /// it differs from the last recorded item and is not blank text.
    pub fn is_fresh(&self, current: &ClipboardItem) -> (r: bool)
        ensures
            r == fresh(self.last(), current@),
            r == (current@ != self.last() && !(current@ matches ItemView::Text(t) && forall|i: int|
                0 <= i < t.len() ==> is_white_space(#[trigger] t[i]))),
    {
        if current.same_content(&self.last_item) {
            return false;
        }
        match current {
            ClipboardItem::Text(t) => !is_blank(t.as_str()),
            ClipboardItem::Image { .. } => true,
        }
    }

    /// Records an item into the history and remembers it as the last one.
    pub fn accept(&mut self, history: &mut ClipboardHistory, current: ClipboardItem)
        ensures
            final(history)@ == added(old(history)@, current@, old(history).capacity()),
            final(history).capacity() == old(history).capacity(),
            final(self).last() == current@,
            old(history).well_formed() ==> final(history).well_formed(),
    {
        let copy = current.duplicate();
        history.add(copy);
        self.last_item = current;
    }

    /// The last recorded item.
    pub fn last_item(&self) -> (r: &ClipboardItem)
        ensures
            r@ == self.last(),
    {
        &self.last_item
    }
}

} // verus!
