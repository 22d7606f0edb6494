use http_rust::notes::{greet, UserRegistry};

#[test]
fn greets_by_name() {
    assert_eq!(greet("Ann"), "Hello Ann, nice to meet you!");
    assert_eq!(greet(""), "Hello , nice to meet you!");
}

#[test]
fn age_check_blocks_minors() {
    let mut reg = UserRegistry::new();
    assert!(reg.check_users("kid".to_string(), 17));
    assert!(!reg.check_users("adult".to_string(), 18));
    assert_eq!(reg.is_blocked("kid"), "kid is blocked.");
    assert_eq!(reg.is_blocked("adult"), "adult is not blocked.");
    assert_eq!(reg.is_blocked("nobody"), "");
    assert_eq!(reg.blocked_status("kid"), Some(true));
    assert_eq!(reg.blocked_status("nobody"), None);
}

#[test]
fn latest_check_decides() {
    let mut reg = UserRegistry::new();
    reg.check_users("sam".to_string(), 12);
    reg.check_users("other".to_string(), 40);
    reg.check_users("sam".to_string(), 30);
    assert_eq!(reg.is_blocked("sam"), "sam is not blocked.");
    reg.check_users("sam".to_string(), 3);
    assert_eq!(reg.is_blocked("sam"), "sam is blocked.");
}

#[test]
fn users_are_handed_out_once() {
    let mut reg = UserRegistry::new();
    reg.add_users("a".to_string(), 20);
    reg.add_users("b".to_string(), 30);
    let first = reg.users();
    assert_eq!(first.iter().map(|u| (u.name.as_str(), u.age)).collect::<Vec<_>>(),
        vec![("a", 20), ("b", 30)]);
    assert!(reg.users().is_empty());
}

#[test]
fn clear_forgets_everything() {
    let mut reg = UserRegistry::new();
    reg.add_users("a".to_string(), 20);
    reg.check_users("a".to_string(), 10);
    reg.clear_data();
    assert!(reg.users().is_empty());
    assert_eq!(reg.is_blocked("a"), "");
}
