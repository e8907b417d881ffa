use auth_gateway::session::{
    embed, extract, issue, issue_with, SameSite, SigningKey, LOGIN_COOKIE, SESSION_MAX_AGE_SECONDS,
};

fn key(seed: u8) -> SigningKey {
    let bytes: Vec<u8> = (0..64u8).map(|i| i.wrapping_mul(7).wrapping_add(seed)).collect();
    SigningKey::from_bytes(bytes).unwrap()
}

#[test]
fn issue_with_writes_user_and_session() {
    let token = issue_with(7, 0x0123456789abcdef_fedcba9876543210);
    assert_eq!(token.as_str(), "7/0123456789ABCDEFFEDCBA9876543210");
}

#[test]
fn issue_with_pads_the_session_id() {
    assert_eq!(issue_with(0, 0).as_str(), "0/00000000000000000000000000000000");
    assert_eq!(issue_with(4294967295, 0xab).as_str(), "4294967295/000000000000000000000000000000AB");
    assert_eq!(issue_with(12, u128::MAX).as_str(), "12/FFFFFFFFFFFFFFFFFFFFFFFFFFFFFFFF");
}

#[test]
fn issue_has_the_token_form() {
    let token = issue(305);
    let text = token.as_str();
    let (user, session) = text.split_once('/').unwrap();
    assert_eq!(user, "305");
    assert_eq!(session.len(), 32);
    assert!(session.chars().all(|c| c.is_ascii_digit() || ('A'..='F').contains(&c)));
}

#[test]
fn issue_draws_fresh_session_ids() {
    assert_ne!(issue(1).as_str(), issue(1).as_str());
}

#[test]
fn short_key_is_refused() {
    assert!(SigningKey::from_bytes(vec![1u8; 63]).is_none());
    assert!(SigningKey::from_bytes(vec![]).is_none());
    assert!(SigningKey::from_bytes(vec![1u8; 64]).is_some());
    assert!(SigningKey::from_bytes(vec![1u8; 80]).is_some());
}

#[test]
fn embed_sets_the_cookie_attributes() {
    let token = issue_with(7, 99);
    let cookie = embed(&token, &key(1));
    assert_eq!(cookie.name, "phdsa");
    assert_eq!(cookie.name, LOGIN_COOKIE);
    assert_eq!(cookie.path, "/");
    assert!(cookie.http_only);
    assert_eq!(cookie.same_site, SameSite::Strict);
    assert_eq!(cookie.max_age_seconds, 30 * 24 * 60 * 60);
    assert_eq!(cookie.max_age_seconds, SESSION_MAX_AGE_SECONDS);
}

#[test]
fn embed_signs_the_value() {
    let token = issue_with(7, 99);
    let cookie = embed(&token, &key(1));
    assert_ne!(cookie.value, token.as_str());
    assert_eq!(cookie.value.len(), 44 + token.as_str().len());
    assert!(cookie.value.ends_with(token.as_str()));
    assert_eq!(cookie.value, embed(&token, &key(1)).value);
    assert_ne!(cookie.value, embed(&token, &key(2)).value);
}

#[test]
fn embed_then_extract_gives_the_token_back() {
    for (user, session) in [(0u32, 0u128), (7, 99), (4294967295, u128::MAX)] {
        let token = issue_with(user, session);
        let cookie = embed(&token, &key(3));
        let back = extract(Some(&cookie.value), &key(3)).unwrap();
        assert_eq!(back.as_str(), token.as_str());
    }
    let fresh = issue(21);
    let cookie = embed(&fresh, &key(3));
    assert_eq!(extract(Some(&cookie.value), &key(3)).unwrap().as_str(), fresh.as_str());
}

#[test]
fn extract_without_cookie_is_none() {
    assert!(extract(None, &key(3)).is_none());
}

#[test]
fn extract_with_other_key_is_none() {
    let cookie = embed(&issue_with(7, 99), &key(3));
    assert!(extract(Some(&cookie.value), &key(4)).is_none());
}

#[test]
fn extract_of_unsigned_value_is_none() {
    assert!(extract(Some("7/00000000000000000000000000000063"), &key(3)).is_none());
    assert!(extract(Some(""), &key(3)).is_none());
}

#[test]
fn extract_of_truncated_cookie_is_none() {
    let cookie = embed(&issue_with(7, 99), &key(3));
    for keep in 0..cookie.value.len() {
        assert!(extract(Some(&cookie.value[..keep]), &key(3)).is_none());
    }
}

#[test]
fn extract_of_cookie_with_a_flipped_bit_is_none() {
    let cookie = embed(&issue_with(7, 99), &key(3));
    let bytes = cookie.value.as_bytes();
    for at in 0..bytes.len() {
        for bit in 0..7 {
            let mut changed = bytes.to_vec();
            changed[at] ^= 1 << bit;
            let text = String::from_utf8(changed).unwrap();
            assert!(extract(Some(&text), &key(3)).is_none());
        }
    }
}
