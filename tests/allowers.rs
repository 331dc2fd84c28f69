use seal_proxy::allowers::{token_from_header, BearerTokenItem, BearerTokenProvider};

fn provider() -> BearerTokenProvider {
    BearerTokenProvider::new(Some(vec![
        BearerTokenItem { name: "node-a".to_string(), token: "tok-a".to_string() },
        BearerTokenItem { name: "node-b".to_string(), token: "tok-b".to_string() },
    ]))
    .unwrap()
}

#[test]
fn no_config_no_provider() {
    assert!(BearerTokenProvider::new(None).is_none());
}

#[test]
fn listed_tokens_pass() {
    let p = provider();
    assert!(p.allowed(&"tok-a".to_string()));
    assert!(p.allowed(&"tok-b".to_string()));
    assert!(!p.allowed(&"tok-c".to_string()));
    assert!(!p.allowed(&"".to_string()));
}

#[test]
fn header_parsing() {
    assert_eq!(token_from_header(&"Bearer tok-a".to_string()), Some("tok-a".to_string()));
    assert_eq!(token_from_header(&"Bearer ".to_string()), Some(String::new()));
    assert_eq!(token_from_header(&"Basic tok-a".to_string()), None);
    assert_eq!(token_from_header(&"Bearer".to_string()), None);
    assert_eq!(token_from_header(&"bearer tok-a".to_string()), None);
}

#[test]
fn authorize_requires_bearer_and_listed_token() {
    let p = provider();
    assert!(p.authorize(Some("Bearer tok-b".to_string())));
    assert!(!p.authorize(Some("Bearer tok-x".to_string())));
    assert!(!p.authorize(Some("tok-b".to_string())));
    assert!(!p.authorize(None));
}
