use qads::{
    generate_secure_token, parse_stored_timestamp, text_or_epoch, timestamp_text, sanitize_string, timestamp_or_epoch, ApiResponse, AppError,
    Client, CreateEmployeeRequest, DocumentMetadata, Employee, EntityIdentity, Event, LoginRequest,
    OnboardingRequest, ServiceMetrics, SpreadsheetMetadata, SystemStatus, Task, Validatable, EPOCH,
    TOKEN_LEN,
};

#[test]
fn secure_token_is_alphanumeric() {
    let t = generate_secure_token();
    assert_eq!(t.chars().count(), TOKEN_LEN);
    assert!(t.chars().all(|c| c.is_ascii_alphanumeric()));
}

#[test]
fn sanitize_escapes_and_trims() {
    assert_eq!(sanitize_string("  <b>hi</b>\n"), "&lt;b&gt;hi&lt;/b&gt;");
    assert_eq!(sanitize_string("plain"), "plain");
    assert_eq!(sanitize_string("   "), "");
    assert_eq!(sanitize_string(""), "");
}

#[test]
fn stored_timestamp_is_parsed() {
    assert_eq!(parse_stored_timestamp("1970-01-01T00:00:01Z"), 1_000_000);
    assert_eq!(parse_stored_timestamp("2024-01-01T00:00:00+00:00"), 1_704_067_200_000_000);
}

#[test]
fn malformed_stored_timestamp_falls_back_to_epoch() {
    assert_eq!(parse_stored_timestamp("not a date"), EPOCH);
    assert_eq!(timestamp_or_epoch(None), 0);
    assert_eq!(timestamp_or_epoch(Some(42)), 42);
}

#[test]
fn constructors_set_defaults() {
    let e = Employee::new("t".to_string(), "N".to_string(), "T".to_string(), 5, "s".to_string());
    assert!(!e.paid);
    assert_eq!(e.id.len(), 36);
    let t = Task::new("t".to_string(), "Title".to_string(), "low".to_string());
    assert!(!t.done);
    assert_ne!(t.id, e.id);
    let ev = Event::new(
        "t".to_string(),
        "E".to_string(),
        "D".to_string(),
        "2025-01-01".to_string(),
        "10:00".to_string(),
        "2025-01-02".to_string(),
        "11:00".to_string(),
        "red".to_string(),
    );
    assert_eq!(ev.get_type(), "Event");
    assert_eq!(ev.get_id(), ev.id);
    assert_eq!(e.get_type(), "Employee");
    assert_eq!(t.get_type(), "Task");
    let c = Client::new(
        "B".to_string(), "W".to_string(), "S".to_string(), "R".to_string(), "G".to_string(),
        "e@x".to_string(), "J".to_string(), "user".to_string(), "pw".to_string(),
    );
    assert_eq!(c.get_type(), "Client");
    assert_eq!(c.get_id(), c.id);
}

#[test]
fn validation_messages() {
    let req = LoginRequest { username: "u".to_string(), password: " ".to_string() };
    assert_eq!(req.validate(), Err("Password cannot be empty".to_string()));
    let ok = LoginRequest { username: "u".to_string(), password: "p".to_string() };
    assert_eq!(ok.validate(), Ok(()));
    let emp = CreateEmployeeRequest { name: String::new(), title: "t".to_string(), salary_cents: 0, status: "s".to_string() };
    assert_eq!(emp.validate(), Err("Employee name is required".to_string()));
    let onboard = OnboardingRequest {
        business_name: String::new(),
        business_website: String::new(),
        business_sector: String::new(),
        revenue: String::new(),
        goals: String::new(),
        custom_goal_text: None,
        email: "a@b".to_string(),
        job_title: String::new(),
        services: vec![],
        other_service_text: None,
        platforms: vec![],
        generated_username: "user".to_string(),
        generated_password: "12345".to_string(),
    };
    assert_eq!(onboard.validate(), Err("Business name is required".to_string()));
    let short_pw = OnboardingRequest { business_name: "B".to_string(), ..onboard };
    assert_eq!(short_pw.validate(), Err("Password too short".to_string()));
}

#[test]
fn api_response_envelopes() {
    let ok = ApiResponse::success(7, "done");
    assert!(ok.success);
    assert_eq!(ok.message, "done");
    assert_eq!(ok.data, Some(7));
    let err = ApiResponse::<i32>::error("bad");
    assert!(!err.success);
    assert_eq!(err.message, "bad");
    assert_eq!(err.data, None);
}

#[test]
fn error_messages() {
    assert_eq!(AppError::DbError("x".to_string()).message(), "Database Error: x");
    assert_eq!(AppError::NotFound("y".to_string()).message(), "Not Found: y");
    assert_eq!(AppError::InvalidInput("z".to_string()).message(), "Invalid Input: z");
    assert_eq!(AppError::Unauthorized.message(), "Unauthorized Access");
    assert_eq!(AppError::InternalError.message(), "Internal Server Error");
    assert_eq!(AppError::ConstraintViolation("u".to_string()).message(), "Constraint Violation: u");
}

#[test]
fn defaults_and_samples() {
    let m = ServiceMetrics::default();
    assert_eq!((m.active_sessions, m.total_requests, m.uptime_seconds), (0, 0, 0));
    let s = SystemStatus::default();
    assert_eq!(s.status, "Operational");
    assert_eq!(s.version, "1.0.0");
    assert!(!s.maintenance_mode);
    let docs = DocumentMetadata::mock_list();
    assert_eq!(docs.len(), 2);
    assert_eq!(docs[0].size_bytes, 512_000);
    let sheets = SpreadsheetMetadata::mock_list();
    assert_eq!(sheets[0].row_count, 1542);
    assert_eq!(sheets[1].name, "Q1_Sales_Forecast");
}

#[test]
fn timestamps_are_written_as_rfc3339() {
    assert_eq!(timestamp_text(0), "1970-01-01T00:00:00+00:00");
    assert_eq!(timestamp_text(1_000_000), "1970-01-01T00:00:01+00:00");
    assert_eq!(parse_stored_timestamp(&timestamp_text(1_704_067_200_000_000)), 1_704_067_200_000_000);
    assert_eq!(timestamp_text(i64::MAX), "1970-01-01T00:00:00+00:00");
    assert_eq!(text_or_epoch(Some("x".to_string())), "x");
    assert_eq!(text_or_epoch(None), "1970-01-01T00:00:00+00:00");
}
