use super_v::{
    common::{ClipboardError, ClipboardItem},
    history::ClipboardHistory,
    services::{
        clipboard_ipc_server::{CmdIPC, IPCRequest, IPCResponse, Payload},
        clipboard_manager::{dispatch, execute_command, unlock_failed, Dispatch, Poller, CLIPBOARD_SIZE},
    },
};

// ------------------ Helper Functions ----------------------
fn get_hopeful_history() -> Vec<ClipboardItem> {
    let item1 = ClipboardItem::Text("item1".into());
    let item2 = ClipboardItem::Text("item2".into());
    let item3 = ClipboardItem::Text("item3".into());
    let image = ClipboardItem::Image {
        width: 1,
        height: 1,
        bytes: vec![0u8; 4],
    };
    vec![item1, item2, item3, image]
}

/// The history that the daemon's poller builds when the clipboard, empty
/// at start-up, receives an image and then "item3", "item2" and "item1".
fn polled_history() -> ClipboardHistory {
    let mut history = ClipboardHistory::new(CLIPBOARD_SIZE);
    let mut poller = Poller::new(Err(ClipboardError::ClipboardEmpty));
    let reads = vec![
        ClipboardItem::Image { width: 1, height: 1, bytes: vec![0u8; 4] },
        ClipboardItem::Image { width: 1, height: 1, bytes: vec![0u8; 4] },
        ClipboardItem::Text("item3".into()),
        ClipboardItem::Text("item2".into()),
        ClipboardItem::Text("item2".into()),
        ClipboardItem::Text("item1".into()),
    ];
    for read in reads {
        if poller.is_fresh(&read) {
            poller.accept(&mut history, read);
        }
    }
    history
}

/// Hands a payload to the daemon's command handling and returns its answer.
fn beam_payload(payload: Payload) -> Payload {
    let mut history = polled_history();
    match dispatch(payload) {
        Dispatch::Respond(resp) | Dispatch::Stop(resp) => Payload::Response(resp),
        Dispatch::Execute(cmd) => Payload::Response(execute_command(&mut history, cmd)),
    }
}

fn check_payload_message(payload: Payload, checker: &str) {
    if let Payload::Response(returned_response) = payload {
        assert_eq!(returned_response.message, Some(checker.to_string()));
    } else {
        panic!("Returned payload type was not correct?");
    }
}

fn check_payload_history(payload: Payload, checker: Vec<ClipboardItem>) {
    if let Payload::Response(returned_response) = payload {
        match returned_response.history_snapshot {
            Some(clipboard_history) => {
                let items: Vec<ClipboardItem> = clipboard_history.get_items().iter().cloned().collect();
                assert_eq!(items, checker);
            }
            None => {
                panic!("Clipboard History is None.");
            }
        }
    } else {
        panic!("Returned payload type was not correct?");
    }
}
// ----------------------------------------------------------

#[test]
fn test_poller_clipboard_history_and_snapshot() {
    let recieved_payload = beam_payload(Payload::Request(IPCRequest { cmd: CmdIPC::Snapshot }));
    check_payload_history(recieved_payload, get_hopeful_history());
}

#[test]
fn test_invalid_ipc_command() {
    let recieved_payload = beam_payload(Payload::Response(IPCResponse {
        history_snapshot: None,
        message: None,
    }));

    check_payload_message(
        recieved_payload,
        "Wrong Payload type recieved. Expected CmdIpc but got IPCResponse.",
    );
}

#[test]
fn test_promote_out_of_bound() {
    let recieved_payload = beam_payload(Payload::Request(IPCRequest {
        cmd: CmdIPC::Promote(100),
    }));
    check_payload_message(recieved_payload, "Could not promote item. Index out of bounds.");
}

#[test]
fn test_delete_out_of_bound() {
    let recieved_payload = beam_payload(Payload::Request(IPCRequest {
        cmd: CmdIPC::Delete(100),
    }));
    check_payload_message(recieved_payload, "Could not delete item. Index out of bounds.");
}

#[test]
fn test_promote_command() {
    let recieved_payload = beam_payload(Payload::Request(IPCRequest {
        cmd: CmdIPC::Promote(1), // 1,2,3,i -> 2,1,3,i
    }));

    let mut hopeful_history = get_hopeful_history();
    hopeful_history.swap(0, 1);

    check_payload_history(recieved_payload, hopeful_history);
}

#[test]
fn test_delete_command() {
    let recieved_payload = beam_payload(Payload::Request(IPCRequest {
        cmd: CmdIPC::Delete(0), // 1,2,3,i -> 2,3,i
    }));

    let mut hopeful_history = get_hopeful_history();
    hopeful_history.remove(0);

    check_payload_history(recieved_payload, hopeful_history);
}

#[test]
fn test_clear_command() {
    let recieved_payload = beam_payload(Payload::Request(IPCRequest {
        cmd: CmdIPC::Clear, // 1,2,3,i -> []
    }));

    check_payload_history(recieved_payload, vec![]);
}

#[test]
fn test_delete_this_command() {
    let recieved_payload = beam_payload(Payload::Request(IPCRequest {
        cmd: CmdIPC::DeleteThis(ClipboardItem::Text("item2".into())),
    }));

    let mut hopeful_history = get_hopeful_history();
    hopeful_history.remove(1);

    check_payload_history(recieved_payload, hopeful_history);
}

#[test]
fn test_delete_this_missing_item() {
    let recieved_payload = beam_payload(Payload::Request(IPCRequest {
        cmd: CmdIPC::DeleteThis(ClipboardItem::Text("never copied".into())),
    }));
    check_payload_message(recieved_payload, "Could not delete item. Index out of bounds.");
}

#[test]
fn test_stop_command() {
    match dispatch(Payload::Request(IPCRequest { cmd: CmdIPC::Stop })) {
        Dispatch::Stop(resp) => {
            assert!(resp.history_snapshot.is_none());
            assert_eq!(resp.message, Some("Stop Signal recieved.".to_string()));
        }
        _ => panic!("Stop was not recognised"),
    }
}

#[test]
fn test_unlock_failure_message() {
    check_payload_message(Payload::Response(unlock_failed()), "Could not unlock history");
}

#[test]
fn test_poller_skips_blank_and_repeated_text() {
    let mut history = ClipboardHistory::new(5);
    let mut poller = Poller::new(Ok(ClipboardItem::Text("start".into())));

    // The content present at start-up is not recorded.
    assert!(!poller.is_fresh(&ClipboardItem::Text("start".into())));
    // Whitespace-only text is never recorded.
    assert!(!poller.is_fresh(&ClipboardItem::Text(" \t\n\u{3000}".into())));
    assert!(!poller.is_fresh(&ClipboardItem::Text(String::new())));

    let next = ClipboardItem::Text("next".into());
    assert!(poller.is_fresh(&next));
    poller.accept(&mut history, next.clone());
    assert!(!poller.is_fresh(&next));
    assert_eq!(poller.last_item(), &next);
    assert_eq!(history.get_items().len(), 1);
}
