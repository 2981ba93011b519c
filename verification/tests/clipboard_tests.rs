use multishiva::clipboard::{ClipboardChange, ClipboardContent};

#[test]
fn test_clipboard_content_text() {
    let content = ClipboardContent::Text("Hello, World!".to_string());

    assert_eq!(content.as_text(), Some("Hello, World!"));
    assert!(!content.is_empty());
}

#[test]
fn test_clipboard_content_empty() {
    let content = ClipboardContent::Text(String::new());

    assert!(content.is_empty());
    assert_eq!(content.as_text(), Some(""));
}

#[test]
fn test_clipboard_content_equality() {
    let content1 = ClipboardContent::Text("Test".to_string());
    let content2 = ClipboardContent::Text("Test".to_string());
    let content3 = ClipboardContent::Text("Different".to_string());

    assert_eq!(content1, content2);
    assert_ne!(content1, content3);
}

#[test]
fn test_clipboard_change_structure() {
    let change = ClipboardChange {
        content: ClipboardContent::Text("Test".to_string()),
        timestamp_ms: 0,
        source: Some("remote-machine".to_string()),
    };

    assert_eq!(change.content.as_text(), Some("Test"));
    assert_eq!(change.source.as_deref(), Some("remote-machine"));
}
