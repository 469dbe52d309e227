use whitenoise_core::tokenizer::{tokenize, SerializableToken};

/// The text a token stands for, as the round-trip law counts it.
fn token_text(t: &SerializableToken) -> String {
    match t {
        SerializableToken::Nostr(s) => s.clone(),
        SerializableToken::Url(s) => s.clone(),
        SerializableToken::Hashtag(s) => s.clone(),
        SerializableToken::Text(s) => s.clone(),
        SerializableToken::LineBreak => "\n".to_string(),
        SerializableToken::Whitespace => " ".to_string(),
    }
}

fn rejoin(tokens: &[SerializableToken]) -> String {
    let mut out = String::new();
    for t in tokens {
        out.push_str(&token_text(t));
    }
    out
}

#[test]
fn round_trip_plain_text() {
    let input = "hello world";
    assert_eq!(rejoin(&tokenize(input)), input);
}

#[test]
fn round_trip_mixed_content() {
    let input = "see nostr:npub1xyz and https://example.com #tag\nnew line  double";
    assert_eq!(rejoin(&tokenize(input)), input);
}

#[test]
fn round_trip_empty_and_whitespace() {
    assert_eq!(rejoin(&tokenize("")), "");
    assert_eq!(rejoin(&tokenize("   ")), "   ");
    assert_eq!(rejoin(&tokenize("\n\n")), "\n\n");
    assert_eq!(rejoin(&tokenize("tab\tkept")), "tab\tkept");
}

#[test]
fn classifies_protocol_reference() {
    let tokens = tokenize("nostr:npub1abc");
    assert_eq!(tokens.len(), 1);
    assert!(matches!(&tokens[0], SerializableToken::Nostr(s) if s == "nostr:npub1abc"));
}

#[test]
fn classifies_urls() {
    let tokens = tokenize("http://a.example https://b.example");
    assert_eq!(tokens.len(), 3);
    assert!(matches!(&tokens[0], SerializableToken::Url(s) if s == "http://a.example"));
    assert!(matches!(&tokens[1], SerializableToken::Whitespace));
    assert!(matches!(&tokens[2], SerializableToken::Url(s) if s == "https://b.example"));
}

#[test]
fn classifies_hashtag() {
    let tokens = tokenize("#tag_1");
    assert_eq!(tokens.len(), 1);
    assert!(matches!(&tokens[0], SerializableToken::Hashtag(s) if s == "#tag_1"));
}

#[test]
fn bare_hash_and_bad_hashtag_are_text() {
    let tokens = tokenize("#");
    assert!(matches!(&tokens[0], SerializableToken::Text(s) if s == "#"));
    let tokens = tokenize("#tag!");
    assert!(matches!(&tokens[0], SerializableToken::Text(s) if s == "#tag!"));
}

#[test]
fn line_breaks_and_spaces_stand_alone() {
    let tokens = tokenize("a\nb c");
    assert_eq!(tokens.len(), 5);
    assert!(matches!(&tokens[0], SerializableToken::Text(s) if s == "a"));
    assert!(matches!(&tokens[1], SerializableToken::LineBreak));
    assert!(matches!(&tokens[2], SerializableToken::Text(s) if s == "b"));
    assert!(matches!(&tokens[3], SerializableToken::Whitespace));
    assert!(matches!(&tokens[4], SerializableToken::Text(s) if s == "c"));
}

#[test]
fn token_type_and_content() {
    let tokens = tokenize("nostr:x https://y #z w\n");
    let types: Vec<String> = tokens.iter().map(|t| t.token_type()).collect();
    assert_eq!(
        types,
        vec!["Nostr", "Whitespace", "Url", "Whitespace", "Hashtag", "Whitespace", "Text", "LineBreak"]
    );
    assert_eq!(tokens[0].content(), Some("nostr:x".to_string()));
    assert_eq!(tokens[7].content(), None);
}

#[test]
fn reference_beats_url_and_hashtag() {
    let tokens = tokenize("nostr:https://x");
    assert!(matches!(&tokens[0], SerializableToken::Nostr(_)));
}
