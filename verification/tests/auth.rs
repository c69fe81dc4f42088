use apipost_ui::auth::{auth_type_label, ApiKeyAuthData, ApiKeyLocation, AuthState, AuthType, BasicAuthData, BearerTokenAuthData};

#[test]
fn auth_headers_and_query() {
    assert!(AuthState::NoAuth.to_headers().is_empty());
    let b = AuthState::Bearer(BearerTokenAuthData { token: "t0k".to_string() });
    assert_eq!(b.to_headers(), vec![("Authorization".to_string(), "Bearer t0k".to_string())]);
    let empty = AuthState::Bearer(BearerTokenAuthData { token: String::new() });
    assert!(empty.to_headers().is_empty());
    let basic = AuthState::Basic(BasicAuthData { username: "Aladdin".to_string(), password: "open sesame".to_string() });
    assert_eq!(basic.to_headers(), vec![("Authorization".to_string(), "Basic QWxhZGRpbjpvcGVuIHNlc2FtZQ==".to_string())]);
    let utf8 = AuthState::Basic(BasicAuthData { username: "é".to_string(), password: String::new() });
    assert_eq!(utf8.to_headers()[0].1, "Basic w6k6");
    let no_user = AuthState::Basic(BasicAuthData { username: String::new(), password: "p".to_string() });
    assert!(no_user.to_headers().is_empty());
    let key = AuthState::ApiKey(ApiKeyAuthData {
        key: "X-Key".to_string(),
        value: "v".to_string(),
        location_index: 0,
        location_value: ApiKeyLocation::Header,
    });
    assert_eq!(key.to_headers(), vec![("X-Key".to_string(), "v".to_string())]);
    assert_eq!(key.to_query_params(), None);
    let mut q = key;
    q.toggle_api_key_location();
    assert_eq!(q.to_query_params(), Some(("X-Key".to_string(), "v".to_string())));
    assert!(q.to_headers().is_empty());
    q.set_api_key_location(ApiKeyLocation::Header);
    assert_eq!(q.to_query_params(), None);
}

#[test]
fn auth_type_selection() {
    let mut a = AuthState::default();
    assert_eq!(a.auth_type(), AuthType::NoAuth);
    a.set_auth_type(1);
    if let AuthState::Bearer(b) = &mut a {
        b.token = "keep".to_string();
    }
    a.set_auth_type(1);
    assert!(matches!(&a, AuthState::Bearer(b) if b.token == "keep"));
    a.set_auth_type(3);
    assert!(matches!(&a, AuthState::ApiKey(k) if k.key.is_empty() && k.location_value == ApiKeyLocation::Header));
    a.set_auth_type(42);
    assert_eq!(a.auth_type(), AuthType::NoAuth);
    assert_eq!(AuthType::from_index(2), AuthType::BasicAuth);
    assert_eq!(AuthType::BasicAuth.to_index(), 2);
    assert_eq!(auth_type_label(AuthType::ApiKey), "API Key");
    assert_eq!(ApiKeyLocation::from_index(1), ApiKeyLocation::Query);
    assert_eq!(ApiKeyLocation::from_index(5), ApiKeyLocation::Header);
}
