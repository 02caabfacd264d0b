use toot_relay::{extract_between_quotes, Error, Toot, TootIn};

fn post(content: &str) -> TootIn {
    TootIn { id: "7".to_string(), content: content.to_string(), created_at: 5 }
}

#[test]
fn extract_takes_text_between_first_two_quotes() {
    assert_eq!(extract_between_quotes("say \"hi\" and \"bye\""), Some("hi".to_string()));
    assert_eq!(extract_between_quotes("\"\""), Some(String::new()));
}

#[test]
fn extract_needs_two_quotes() {
    assert_eq!(extract_between_quotes("no quotes"), None);
    assert_eq!(extract_between_quotes("one \" quote"), None);
    assert_eq!(extract_between_quotes(""), None);
}

#[test]
fn from_text_without_extraction_keeps_text() {
    let t = Toot::from_text("9".to_string(), "plain \"x\"", 3, false).unwrap();
    assert_eq!(t.id, "9");
    assert_eq!(t.content, "plain \"x\"");
    assert_eq!(t.created_at, 3);
    assert!(!t.served);
}

#[test]
fn from_text_rejects_unquoted_text_when_extracting() {
    let r = Toot::from_text("9".to_string(), "nothing quoted here", 3, true);
    assert!(matches!(r, Err(Error::BadRequest(_))));
}

#[test]
fn normalizes_quoted_paragraph() {
    let t = Toot::try_from_toot_in(post("<p>\"Hello world\"</p>"), true).unwrap();
    assert_eq!(t.id, "7");
    assert_eq!(t.content, "Hello world");
    assert_eq!(t.created_at, 5);
    assert!(!t.served);
}

#[test]
fn decodes_entities_before_rendering() {
    let t = Toot::try_from_toot_in(post("<p>&quot;Tea &amp; cake&quot; today</p>"), true).unwrap();
    assert_eq!(t.content, "Tea & cake");
}

#[test]
fn renders_markup_as_text() {
    let t = Toot::try_from_toot_in(post("<p>Hello <b>there</b></p>"), false).unwrap();
    assert_eq!(t.content.trim_end(), "Hello there");
}

#[test]
fn unquoted_post_is_rejected_when_extracting() {
    let r = Toot::try_from_toot_in(post("<p>Hello world</p>"), true);
    assert!(matches!(r, Err(Error::BadRequest(_))));
}
