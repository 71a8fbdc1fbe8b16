use qads::service;
use qads::{
    bearer_token, get_client_id_from_header, AppError, LoginRequest, OnboardingRequest, SessionRegistry,
    Storage,
};

fn onboarding(username: &str, password: &str) -> OnboardingRequest {
    OnboardingRequest {
        business_name: "Acme".to_string(),
        business_website: "https://acme.test".to_string(),
        business_sector: "Tools".to_string(),
        revenue: "10M".to_string(),
        goals: "Scale".to_string(),
        custom_goal_text: None,
        email: "boss@acme.test".to_string(),
        job_title: "Founder".to_string(),
        services: vec!["ads".to_string()],
        other_service_text: None,
        platforms: vec![],
        generated_username: username.to_string(),
        generated_password: password.to_string(),
    }
}

#[test]
fn created_session_resolves_to_its_tenant() {
    let mut reg = SessionRegistry::new();
    let token = reg.create_session("tenant-1");
    assert_eq!(token.len(), 36);
    assert_eq!(reg.resolve(&token), Some("tenant-1".to_string()));
    let other = reg.create_session("tenant-2");
    assert_ne!(token, other);
    assert_eq!(reg.resolve(&token), Some("tenant-1".to_string()));
    assert_eq!(reg.resolve(&other), Some("tenant-2".to_string()));
}

#[test]
fn unknown_token_resolves_to_nothing() {
    let mut reg = SessionRegistry::new();
    assert_eq!(reg.resolve("nope"), None);
    reg.create_session("tenant-1");
    assert_eq!(reg.resolve("nope"), None);
    assert_eq!(reg.resolve(""), None);
}

#[test]
fn rebinding_a_token_replaces_its_tenant() {
    let mut reg = SessionRegistry::new();
    reg.bind("tok".to_string(), "a");
    reg.bind("tok".to_string(), "b");
    assert_eq!(reg.resolve("tok"), Some("b".to_string()));
}

#[test]
fn bearer_header_yields_token() {
    assert_eq!(bearer_token("Bearer abc"), Some("abc".to_string()));
    assert_eq!(bearer_token("Bearer Bearer abc"), Some("abc".to_string()));
    assert_eq!(bearer_token("Bearer "), Some(String::new()));
    assert_eq!(bearer_token("Basic abc"), None);
    assert_eq!(bearer_token("Bearer"), None);
}

#[test]
fn header_authenticates_tenant() {
    let mut reg = SessionRegistry::new();
    let token = reg.create_session("tenant-9");
    let header = format!("Bearer {}", token);
    assert_eq!(get_client_id_from_header(&reg, Some(&header)), Some("tenant-9".to_string()));
    assert_eq!(get_client_id_from_header(&reg, Some(&token)), None);
    assert_eq!(get_client_id_from_header(&reg, Some("Bearer unknown")), None);
    assert_eq!(get_client_id_from_header(&reg, None), None);
}

#[test]
fn onboarding_then_login_opens_a_session() {
    let mut s = Storage::new("test.db");
    let mut reg = SessionRegistry::new();
    let c = service::onboard_client(&mut s, &onboarding("acme", "hunter22")).unwrap();
    assert_eq!(c.username, "acme");
    assert_eq!(c.id.len(), 36);
    let login = LoginRequest { username: "acme".to_string(), password: "hunter22".to_string() };
    let resp = service::login_client(&s, &mut reg, &login).unwrap();
    assert_eq!(resp.client_name, "Acme");
    assert_eq!(reg.resolve(&resp.session_id), Some(c.id.clone()));
    let header = format!("Bearer {}", resp.session_id);
    assert_eq!(get_client_id_from_header(&reg, Some(&header)), Some(c.id.clone()));
    let checked = service::check_credentials(&s, &login).unwrap();
    assert_eq!(checked.id, c.id);
}

#[test]
fn session_tokens_are_uuid_text_and_distinct() {
    let mut reg = SessionRegistry::new();
    let a = reg.create_session("t");
    let b = reg.create_session("t");
    assert_ne!(a, b);
    assert!(!reg.is_issued("never"));
    assert!(reg.is_issued(&a));
    for tok in [&a, &b] {
        let chars: Vec<char> = tok.chars().collect();
        assert_eq!(chars.len(), 36);
        for (i, c) in chars.iter().enumerate() {
            if [8, 13, 18, 23].contains(&i) {
                assert_eq!(*c, '-');
            } else {
                assert!(c.is_ascii_digit() || ('a'..='f').contains(c));
            }
        }
        assert_eq!(chars[14], '4');
    }
}

#[test]
fn onboarding_twice_with_one_username_fails() {
    let mut s = Storage::new("test.db");
    let first = service::onboard_client(&mut s, &onboarding("acme", "hunter22")).unwrap();
    let second = service::onboard_client(&mut s, &onboarding("acme", "other-pass"));
    assert!(matches!(second, Err(AppError::ConstraintViolation(_))));
    let kept = s.get_client_by_username("acme").unwrap().unwrap();
    assert_eq!(kept.id, first.id);
    assert_eq!(kept.password_hash, "hunter22");
}

#[test]
fn onboarding_rejects_invalid_requests() {
    let mut s = Storage::new("test.db");
    let mut req = onboarding("ab", "hunter22");
    match service::onboard_client(&mut s, &req) {
        Err(AppError::InvalidInput(m)) => assert_eq!(m, "Username too short"),
        _ => panic!("expected invalid input"),
    }
    req.generated_username = "abc".to_string();
    req.email = "no-at-sign".to_string();
    match service::onboard_client(&mut s, &req) {
        Err(AppError::InvalidInput(m)) => assert_eq!(m, "Valid email is required"),
        _ => panic!("expected invalid input"),
    }
}

#[test]
fn login_failures_are_told_apart() {
    let mut s = Storage::new("test.db");
    let mut reg = SessionRegistry::new();
    service::onboard_client(&mut s, &onboarding("acme", "hunter22")).unwrap();
    let wrong = LoginRequest { username: "acme".to_string(), password: "nope".to_string() };
    assert!(matches!(service::login_client(&s, &mut reg, &wrong), Err(AppError::Unauthorized)));
    let missing = LoginRequest { username: "nobody".to_string(), password: "pw".to_string() };
    match service::login_client(&s, &mut reg, &missing) {
        Err(AppError::NotFound(m)) => assert_eq!(m, "User not found"),
        _ => panic!("expected not found"),
    }
    let blank = LoginRequest { username: "  \t".to_string(), password: "pw".to_string() };
    match service::login_client(&s, &mut reg, &blank) {
        Err(AppError::InvalidInput(m)) => assert_eq!(m, "Username cannot be empty"),
        _ => panic!("expected invalid input"),
    }
}
