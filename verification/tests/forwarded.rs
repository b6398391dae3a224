use relay_pii::{ForwardedFor, HeaderText};

#[test]
fn test_prefer_vercel_forwarded() {
    let vercel_ip = "192.158.1.38";
    let other_ip = "111.222.3.44";

    let forwarded = ForwardedFor::get_forwarded_for_ip(
        HeaderText::Text(vercel_ip.to_string()),
        HeaderText::Text(other_ip.to_string()),
    );

    assert_eq!(forwarded, vercel_ip);
}

/// If there's no `X-Vercel-Forwarded-For` header then use the normal
/// `X-Forwarded-For` header.
#[test]
fn test_fall_back_on_forwarded_for_header() {
    let other_ip = "111.222.3.44";

    let forwarded =
        ForwardedFor::get_forwarded_for_ip(HeaderText::Absent, HeaderText::Text(other_ip.to_string()));

    assert_eq!(forwarded, other_ip);
}

/// A value sent under some unrecognised header name never reaches the
/// extraction, so both known headers are absent and the result is empty.
#[test]
fn test_get_empty_string_if_invalid_header() {
    let forwarded = ForwardedFor::get_forwarded_for_ip(HeaderText::Absent, HeaderText::Absent);
    assert!(forwarded.is_empty());
}

/// A present but undecodable preferred header wins the choice and then
/// contributes nothing: there is no fallback to the other header.
#[test]
fn test_undecodable_vercel_blocks_fallback() {
    let other_ip = "111.222.3.44";

    let forwarded = ForwardedFor::get_forwarded_for_ip(
        HeaderText::Undecodable,
        HeaderText::Text(other_ip.to_string()),
    );

    assert!(forwarded.is_empty());
}

#[test]
fn test_chain_joins_forwarded_and_peer() {
    let chain = ForwardedFor::new("111.222.3.44".to_string(), "10.0.0.2".to_string());
    assert_eq!(chain.into_inner(), "111.222.3.44, 10.0.0.2");
}

#[test]
fn test_chain_with_empty_forwarded_uses_peer() {
    let chain = ForwardedFor::new(String::new(), "10.0.0.2".to_string());
    assert_eq!(chain.into_inner(), "10.0.0.2");
}

#[test]
fn test_chain_with_empty_peer_uses_forwarded() {
    let chain = ForwardedFor::new("111.222.3.44".to_string(), String::new());
    assert_eq!(chain.into_inner(), "111.222.3.44");
}

#[test]
fn test_string_from_forwarded_for() {
    let chain = ForwardedFor::new("111.222.3.44".to_string(), String::new());
    let s: String = chain.into();
    assert_eq!(s, "111.222.3.44");
}

#[test]
fn test_header_name_constants() {
    assert_eq!(ForwardedFor::FORWARDED_HEADER, "X-Forwarded-For");
    assert_eq!(ForwardedFor::VERCEL_FORWARDED_HEADER, "X-Vercel-Forwarded-For");
}
