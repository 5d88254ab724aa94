use std::collections::VecDeque;

use super_v::{
    common::{item_from_reads, ClipboardError, ClipboardItem, DaemonError, IPCServerError},
    gui::clipboard_gui::{
        click_action, emoji_choices, history_from_reply, select_emojis, snapshot_from_reply,
        text_preview, texture_len, CleanupStep, ClickAction, EmojiCleanup, EmojiEntry,
    },
    history::ClipboardHistory,
    services::{
        clipboard_ipc_server::{IPCResponse, Payload},
        clipboard_manager::{read_or_empty, CLIPBOARD_SIZE},
    },
    text::{char_is_whitespace, chars_of, contains_chars, decimal_string, is_blank},
};

fn text(s: &str) -> ClipboardItem {
    ClipboardItem::Text(s.to_string())
}

#[test]
fn test_error_messages() {
    assert_eq!(
        ClipboardError::ClipboardEmpty.message(),
        "Clipboard is empty. Please add copy something before trying again."
    );
    assert_eq!(ClipboardError::IndexOutOfBound.message(), "Index out of bounds.");
    assert_eq!(
        DaemonError::ManagerMultiSpawn.message(),
        "An instance of the Manager is already open."
    );
    assert_eq!(
        IPCServerError::ConnectionError("refused".into()).message(),
        "Could not connect to socket: refused"
    );
    assert_eq!(
        IPCServerError::BindError("busy".into()).message(),
        "Could not bind to socket: busy"
    );
    assert_eq!(
        IPCServerError::SendError("pipe".into()).message(),
        "Could not send item: pipe"
    );
    assert_eq!(
        DaemonError::IPCErr(IPCServerError::BindError("busy".into())).message(),
        "Could not bind to socket: busy"
    );
}

#[test]
fn test_item_display() {
    assert_eq!(text("a\nb\n").display_text(), "a\r\nb\r\n");
    assert_eq!(text("plain").display_text(), "plain");
    let image = ClipboardItem::Image { width: 1920, height: 1080, bytes: vec![] };
    assert_eq!(image.display_text(), "[Image: 1920x1080]");
}

#[test]
fn test_decimal_numerals() {
    assert_eq!(decimal_string(0), "0");
    assert_eq!(decimal_string(7), "7");
    assert_eq!(decimal_string(10), "10");
    assert_eq!(decimal_string(4096), "4096");
    assert_eq!(decimal_string(usize::MAX), usize::MAX.to_string());
}

#[test]
fn test_history_table() {
    let mut history = ClipboardHistory::new(5);
    history.add(ClipboardItem::Image { width: 3, height: 2, bytes: vec![1, 2, 3] });
    history.add(text("hello"));
    assert_eq!(
        history.table(),
        "POS     | ITEM     \r\n---------------\r\n0       | hello     \r\n1       | Image (3, 2)     "
    );
    assert_eq!(ClipboardHistory::new(5).table(), "POS     | ITEM     \r\n---------------");
}

#[test]
fn test_same_content_and_duplicate() {
    let a = ClipboardItem::Image { width: 2, height: 1, bytes: vec![1, 2, 3, 4, 5, 6, 7, 8] };
    let b = ClipboardItem::Image { width: 2, height: 1, bytes: vec![1, 2, 3, 4, 5, 6, 7, 9] };
    assert!(a.same_content(&a.duplicate()));
    assert!(!a.same_content(&b));
    assert!(!a.same_content(&text("x")));
    assert!(text("x").same_content(&text("x")));
    assert!(!text("x").same_content(&text("y")));
}

#[test]
fn test_item_from_reads() {
    let image = item_from_reads(Some((1, 1, vec![0, 0, 0, 0])), Some("ignored".into()));
    assert_eq!(image, Ok(ClipboardItem::Image { width: 1, height: 1, bytes: vec![0, 0, 0, 0] }));
    assert_eq!(item_from_reads(None, Some("t".into())), Ok(text("t")));
    assert_eq!(item_from_reads(None, None), Err(ClipboardError::ClipboardEmpty));
    assert_eq!(read_or_empty(Err(ClipboardError::ClipboardEmpty)), text(""));
    assert_eq!(read_or_empty(Ok(text("z"))), text("z"));
}

#[test]
fn test_add_is_idempotent() {
    let mut once = ClipboardHistory::new(3);
    once.add(text("a"));
    once.add(text("b"));
    let mut twice = ClipboardHistory::new(3);
    twice.add(text("a"));
    twice.add(text("b"));
    twice.add(text("b"));
    assert_eq!(once.get_items(), twice.get_items());
}

#[test]
fn test_add_promotes_existing_when_full() {
    let mut history = ClipboardHistory::new(3);
    history.add(text("a"));
    history.add(text("b"));
    history.add(text("c"));
    history.add(text("a"));
    assert_eq!(history.get_items(), &VecDeque::from([text("a"), text("c"), text("b")]));
}

#[test]
fn test_delete_and_delete_this() {
    let mut history = ClipboardHistory::new(5);
    history.add(text("a"));
    history.add(text("b"));
    history.add(text("c"));
    assert_eq!(history.delete(5), Err(ClipboardError::IndexOutOfBound));
    assert_eq!(history.delete(1), Ok(()));
    assert_eq!(history.get_items(), &VecDeque::from([text("c"), text("a")]));
    assert_eq!(history.delete_this(text("a")), Ok(()));
    assert_eq!(history.delete_this(text("a")), Err(ClipboardError::IndexOutOfBound));
    assert_eq!(history.get_items(), &VecDeque::from([text("c")]));
}

#[test]
fn test_promote_then_delete_front() {
    let mut promoted = ClipboardHistory::new(5);
    let mut deleted = ClipboardHistory::new(5);
    for s in ["a", "b", "c"] {
        promoted.add(text(s));
        deleted.add(text(s));
    }
    promoted.promote(2).unwrap();
    promoted.delete(0).unwrap();
    deleted.delete(2).unwrap();
    assert_eq!(promoted.get_items(), deleted.get_items());
}

#[test]
fn test_position_contains_snapshot() {
    let mut history = ClipboardHistory::new(4);
    history.add(text("a"));
    history.add(text("b"));
    assert_eq!(history.position(&text("a")), Some(1));
    assert_eq!(history.position(&text("q")), None);
    assert!(history.contains(&text("b")));
    assert!(!history.contains(&text("q")));
    let copy = history.snapshot();
    assert_eq!(copy.get_items(), history.get_items());
    assert_eq!(copy.max_size(), 4);
}

#[test]
fn test_from_parts() {
    let ok = ClipboardHistory::from_parts(VecDeque::from([text("a"), text("b")]), 2);
    assert_eq!(ok.get_items(), &VecDeque::from([text("a"), text("b")]));
    assert_eq!(ok.max_size(), 2);
    // Received parts are taken as they come, repeats and excess included.
    let repeated = ClipboardHistory::from_parts(VecDeque::from([text("a"), text("a")]), 5);
    assert_eq!(repeated.get_items(), &VecDeque::from([text("a"), text("a")]));
    let mut crowded = ClipboardHistory::from_parts(VecDeque::from([text("a"), text("b")]), 1);
    assert_eq!(crowded.get_items().len(), 2);
    // Adding to such a history behaves as for any other: the first match is
    // promoted, new content pushed and only one oldest item dropped.
    crowded.add(text("c"));
    assert_eq!(crowded.get_items(), &VecDeque::from([text("c"), text("a")]));
    let mut twice = ClipboardHistory::from_parts(VecDeque::from([text("x"), text("a"), text("a")]), 5);
    twice.add(text("a"));
    assert_eq!(twice.get_items(), &VecDeque::from([text("a"), text("x"), text("a")]));
}

#[test]
fn test_replies_from_daemon() {
    let mut h = ClipboardHistory::new(3);
    h.add(text("x"));
    let reply = Payload::Response(IPCResponse { history_snapshot: Some(h.snapshot()), message: None });
    assert_eq!(history_from_reply(Some(reply)).get_items(), h.get_items());

    let no_snapshot = Payload::Response(IPCResponse { history_snapshot: None, message: Some("m".into()) });
    let fallback = history_from_reply(Some(no_snapshot));
    assert_eq!(fallback.get_items().len(), 0);
    assert_eq!(fallback.max_size(), CLIPBOARD_SIZE);
    assert!(snapshot_from_reply(None).is_none());
    let with = Payload::Response(IPCResponse { history_snapshot: Some(h.snapshot()), message: None });
    assert_eq!(snapshot_from_reply(Some(with)).unwrap().get_items(), h.get_items());
}

#[test]
fn test_text_preview() {
    assert_eq!(text_preview("short"), "short");
    let exact = "a".repeat(60);
    assert_eq!(text_preview(&exact), exact);
    let long = "b".repeat(61);
    assert_eq!(text_preview(&long), format!("{}...", "b".repeat(60)));
}

#[test]
fn test_texture_len() {
    assert_eq!(texture_len(2, 3), Some(24));
    assert_eq!(texture_len(0, 5), Some(0));
    assert_eq!(texture_len(usize::MAX, 0), None);
    assert_eq!(texture_len(usize::MAX / 4, 2), None);
}

#[test]
fn test_click_action() {
    assert!(matches!(click_action(&text("paste me")), ClickAction::PasteText));
    assert!(matches!(click_action(&text("  \n")), ClickAction::Close));
    let image = ClipboardItem::Image { width: 1, height: 1, bytes: vec![0; 4] };
    assert!(matches!(click_action(&image), ClickAction::PasteImage));
    let empty = ClipboardItem::Image { width: 0, height: 0, bytes: vec![] };
    assert!(matches!(click_action(&empty), ClickAction::Close));
}

#[test]
fn test_text_helpers() {
    assert!(is_blank(""));
    assert!(is_blank(" \t\r\n\u{a0}"));
    assert!(!is_blank(" x "));
    let hay = chars_of("smiling face");
    assert!(contains_chars(&hay, &chars_of("face")));
    assert!(contains_chars(&hay, &chars_of("")));
    assert!(!contains_chars(&hay, &chars_of("frown")));
    assert_eq!(chars_of("héllo").len(), 5);
}

#[test]
fn test_select_emojis() {
    let catalogue = vec![
        EmojiEntry { glyph: "😀".into(), name: "grinning face".into() },
        EmojiEntry { glyph: "\u{1F9D1}\u{200D}\u{1FA70}".into(), name: "ballet dancer".into() },
        EmojiEntry { glyph: "🚀".into(), name: "rocket".into() },
    ];
    assert_eq!(select_emojis(&catalogue, ""), vec!["😀".to_string(), "🚀".to_string()]);
    assert_eq!(select_emojis(&catalogue, "  "), vec!["😀".to_string(), "🚀".to_string()]);
    assert_eq!(select_emojis(&catalogue, "rock"), vec!["🚀".to_string()]);
    assert_eq!(select_emojis(&catalogue, "ballet"), Vec::<String>::new());
}

#[test]
fn test_emoji_choices() {
    let found = emoji_choices("smiling face with sunglasses");
    assert!(found.contains(&"😎".to_string()));
    let all = emoji_choices("");
    assert!(all.len() > 100);
    assert_eq!(&all[..5], &["😀", "😃", "😄", "😁", "😆"]);
    assert!(!all.contains(&"\u{1F9D1}\u{200D}\u{1FA70}".to_string()));
}

#[test]
fn test_newest_first_over_many_adds() {
    let mut history = ClipboardHistory::new(3);
    for s in ["1", "2", "3", "4", "5"] {
        history.add(text(s));
    }
    assert_eq!(history.get_items(), &VecDeque::from([text("5"), text("4"), text("3")]));
    let mut roomy = ClipboardHistory::new(10);
    for s in ["1", "2", "3"] {
        roomy.add(text(s));
    }
    assert_eq!(roomy.get_items(), &VecDeque::from([text("3"), text("2"), text("1")]));
}

#[test]
fn test_emoji_cleanup_found() {
    let mut cleanup = EmojiCleanup::new("🚀".to_string());
    assert_eq!(cleanup.wait(), 120);
    assert!(matches!(cleanup.observe(None), CleanupStep::Wait(240)));
    let mut history = ClipboardHistory::new(5);
    history.add(text("🚀"));
    assert!(matches!(cleanup.observe(Some(history)), CleanupStep::Delete));
    assert_eq!(cleanup.target(), &text("🚀"));
}

#[test]
fn test_emoji_cleanup_gives_up_after_five_looks() {
    let mut cleanup = EmojiCleanup::new("🚀".to_string());
    let mut waits = vec![cleanup.wait()];
    loop {
        match cleanup.observe(Some(ClipboardHistory::new(5))) {
            CleanupStep::Wait(w) => waits.push(w),
            CleanupStep::Delete => panic!("nothing to delete"),
            CleanupStep::Finish => break,
        }
    }
    assert_eq!(waits, vec![120, 240, 360, 480, 600]);
}

#[test]
fn test_whitespace_matches_std() {
    for code in 0u32..=0x10FFFF {
        if let Some(c) = char::from_u32(code) {
            assert_eq!(char_is_whitespace(c), c.is_whitespace(), "U+{:04X}", code);
        }
    }
}
