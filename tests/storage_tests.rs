use qads::service;
use qads::{
    AppError, Client, CreateEmployeeRequest, CreateEventRequest, CreateTaskRequest, Employee, Event,
    Storage, Task, UpdateEmployeePaymentRequest, UpdateTaskRequest,
};

fn client(name: &str, username: &str) -> Client {
    Client::new(
        name.to_string(),
        "https://example.com".to_string(),
        "Retail".to_string(),
        "1M".to_string(),
        "Growth".to_string(),
        "owner@example.com".to_string(),
        "CEO".to_string(),
        username.to_string(),
        "secret1".to_string(),
    )
}

fn task_at(id: &str, owner: &str, title: &str, at: i64) -> Task {
    Task {
        id: id.to_string(),
        client_id: owner.to_string(),
        title: title.to_string(),
        priority: "high".to_string(),
        done: false,
        created_at: at,
    }
}

#[test]
fn employees_are_listed_by_name() {
    let mut s = Storage::new("test.db");
    for name in ["Bob", "Alice", "Carol"] {
        let e = Employee::new("t1".to_string(), name.to_string(), "Dev".to_string(), 100, "active".to_string());
        assert!(s.create_employee(&e).is_ok());
    }
    let names: Vec<String> = s.get_employees("t1").unwrap().into_iter().map(|e| e.name).collect();
    assert_eq!(names, vec!["Alice", "Bob", "Carol"]);
}

#[test]
fn tasks_are_listed_newest_first() {
    let mut s = Storage::new("test.db");
    assert!(s.create_task(&task_at("a", "t1", "first", 1_000)).is_ok());
    assert!(s.create_task(&task_at("b", "t1", "second", 2_000)).is_ok());
    assert!(s.create_task(&task_at("c", "t1", "third", 3_000)).is_ok());
    let times: Vec<i64> = s.get_tasks("t1").unwrap().into_iter().map(|t| t.created_at).collect();
    assert_eq!(times, vec![3_000, 2_000, 1_000]);
}

#[test]
fn events_are_listed_by_start_date() {
    let mut s = Storage::new("test.db");
    for (id, date) in [("x", "2025-03-01"), ("y", "2025-01-15"), ("z", "2025-02-10")] {
        let e = Event {
            id: id.to_string(),
            client_id: "t1".to_string(),
            title: "Meeting".to_string(),
            description: String::new(),
            start_date: date.to_string(),
            start_time: String::new(),
            end_date: date.to_string(),
            end_time: String::new(),
            color: "blue".to_string(),
            created_at: 0,
        };
        assert!(s.create_event(&e).is_ok());
    }
    let dates: Vec<String> = s.get_events("t1").unwrap().into_iter().map(|e| e.start_date).collect();
    assert_eq!(dates, vec!["2025-01-15", "2025-02-10", "2025-03-01"]);
}

#[test]
fn listing_returns_the_created_record() {
    let mut s = Storage::new("test.db");
    let e = Employee::new("t1".to_string(), "Dana".to_string(), "Lead".to_string(), 123_456, "active".to_string());
    s.create_employee(&e).unwrap();
    let listed = s.get_employees("t1").unwrap();
    assert_eq!(listed.len(), 1);
    let got = &listed[0];
    assert_eq!(got.id, e.id);
    assert_eq!(got.client_id, "t1");
    assert_eq!(got.name, "Dana");
    assert_eq!(got.title, "Lead");
    assert_eq!(got.salary_cents, 123_456);
    assert_eq!(got.status, "active");
    assert!(!got.paid);
    assert_eq!(got.created_at, e.created_at);
}

#[test]
fn other_tenant_cannot_touch_a_row() {
    let mut s = Storage::new("test.db");
    let e = Employee::new("tenant_a".to_string(), "Eve".to_string(), "Ops".to_string(), 500, "active".to_string());
    s.create_employee(&e).unwrap();
    assert!(s.get_employees("tenant_b").unwrap().is_empty());
    assert_eq!(s.update_employee_paid_status(&e.id, "tenant_b", true).unwrap(), 0);
    assert_eq!(s.delete_employee(&e.id, "tenant_b").unwrap(), 0);
    let listed = s.get_employees("tenant_a").unwrap();
    assert_eq!(listed.len(), 1);
    assert!(!listed[0].paid);

    let t = task_at("task1", "tenant_a", "Ship", 10);
    s.create_task(&t).unwrap();
    assert_eq!(s.update_task_status("task1", "tenant_b", true).unwrap(), 0);
    assert_eq!(s.delete_task("task1", "tenant_b").unwrap(), 0);
    assert_eq!(s.get_tasks("tenant_a").unwrap().len(), 1);
}

#[test]
fn deleting_twice_affects_one_row_then_none() {
    let mut s = Storage::new("test.db");
    let t = task_at("task1", "t1", "Ship", 10);
    s.create_task(&t).unwrap();
    assert_eq!(s.delete_task("task1", "t1").unwrap(), 1);
    assert_eq!(s.delete_task("task1", "t1").unwrap(), 0);
    let e = Employee::new("t1".to_string(), "Finn".to_string(), "Dev".to_string(), 1, "active".to_string());
    s.create_employee(&e).unwrap();
    assert_eq!(s.delete_employee(&e.id, "t1").unwrap(), 1);
    assert_eq!(s.delete_employee(&e.id, "t1").unwrap(), 0);
}

#[test]
fn flags_are_updated_for_the_owner() {
    let mut s = Storage::new("test.db");
    let e = Employee::new("t1".to_string(), "Gus".to_string(), "Dev".to_string(), 1, "active".to_string());
    s.create_employee(&e).unwrap();
    assert_eq!(s.update_employee_paid_status(&e.id, "t1", true).unwrap(), 1);
    assert!(s.get_employees("t1").unwrap()[0].paid);
    s.create_task(&task_at("k", "t1", "Plan", 5)).unwrap();
    assert_eq!(s.update_task_status("k", "t1", true).unwrap(), 1);
    assert!(s.get_tasks("t1").unwrap()[0].done);
}

#[test]
fn dashboard_aggregates_one_tenant() {
    let mut s = Storage::new("test.db");
    let a = Employee::new("t1".to_string(), "Ann".to_string(), "Dev".to_string(), 100_000, "active".to_string());
    let b = Employee::new("t1".to_string(), "Ben".to_string(), "Dev".to_string(), 150_050, "active".to_string());
    s.create_employee(&a).unwrap();
    s.create_employee(&b).unwrap();
    let mut done = task_at("d", "t1", "Done", 1);
    done.done = true;
    s.create_task(&done).unwrap();
    s.create_task(&task_at("p", "t1", "Pending", 2)).unwrap();
    for id in ["e1", "e2"] {
        let e = Event {
            id: id.to_string(),
            client_id: "t1".to_string(),
            title: "Call".to_string(),
            description: String::new(),
            start_date: "2025-01-01".to_string(),
            start_time: String::new(),
            end_date: "2025-01-01".to_string(),
            end_time: String::new(),
            color: "red".to_string(),
            created_at: 0,
        };
        s.create_event(&e).unwrap();
    }
    let other = Employee::new("t2".to_string(), "Zed".to_string(), "Dev".to_string(), 999, "active".to_string());
    s.create_employee(&other).unwrap();
    let stats = s.get_dashboard_stats("t1").unwrap();
    assert_eq!(stats.total_employees, 2);
    assert_eq!(stats.monthly_payroll_cents, 250_050);
    assert_eq!(stats.active_tasks, 1);
    assert_eq!(stats.total_events, 2);
}

#[test]
fn dashboard_of_empty_tenant_is_zero() {
    let s = Storage::new("test.db");
    let stats = s.get_dashboard_stats("nobody").unwrap();
    assert_eq!(stats.total_employees, 0);
    assert_eq!(stats.monthly_payroll_cents, 0);
    assert_eq!(stats.active_tasks, 0);
    assert_eq!(stats.total_events, 0);
}

#[test]
fn payroll_of_largest_salaries_does_not_overflow() {
    let mut s = Storage::new("test.db");
    for name in ["A", "B"] {
        let e = Employee::new("t1".to_string(), name.to_string(), "Dev".to_string(), u64::MAX, "active".to_string());
        s.create_employee(&e).unwrap();
    }
    let stats = s.get_dashboard_stats("t1").unwrap();
    assert_eq!(stats.monthly_payroll_cents, 2 * (u64::MAX as u128));
}

#[test]
fn duplicate_username_is_a_constraint_violation() {
    let mut s = Storage::new("test.db");
    let first = client("First Co", "shop");
    s.create_client(&first).unwrap();
    let second = client("Second Co", "shop");
    assert!(matches!(s.create_client(&second), Err(AppError::ConstraintViolation(_))));
    let found = s.get_client_by_username("shop").unwrap().unwrap();
    assert_eq!(found.id, first.id);
    assert_eq!(found.business_name, "First Co");
}

#[test]
fn duplicate_ids_are_constraint_violations() {
    let mut s = Storage::new("test.db");
    s.create_task(&task_at("same", "t1", "A", 1)).unwrap();
    assert!(matches!(s.create_task(&task_at("same", "t2", "B", 2)), Err(AppError::ConstraintViolation(_))));
    let e = Employee::new("t1".to_string(), "Ivy".to_string(), "Dev".to_string(), 1, "active".to_string());
    s.create_employee(&e).unwrap();
    assert!(matches!(s.create_employee(&e), Err(AppError::ConstraintViolation(_))));
    let c = client("C", "cee");
    s.create_client(&c).unwrap();
    let mut again = client("D", "dee");
    again.id = c.id.clone();
    assert!(matches!(s.create_client(&again), Err(AppError::ConstraintViolation(_))));
}

#[test]
fn unknown_username_is_absent() {
    let s = Storage::new("test.db");
    assert!(s.get_client_by_username("ghost").unwrap().is_none());
    assert_eq!(s.db_path(), "test.db");
}

#[test]
fn handlers_report_not_found_for_foreign_rows() {
    let mut s = Storage::new("test.db");
    let body = CreateEmployeeRequest {
        name: "Jo".to_string(),
        title: "Dev".to_string(),
        salary_cents: 10,
        status: "active".to_string(),
    };
    let e = service::create_employee(&mut s, "a", &body).unwrap();
    assert_eq!(e.client_id, "a");
    let pay = UpdateEmployeePaymentRequest { paid: true };
    match service::update_employee_payment(&mut s, "b", &e.id, &pay) {
        Err(AppError::NotFound(m)) => assert_eq!(m, "Employee not found"),
        _ => panic!("expected not found"),
    }
    assert!(service::update_employee_payment(&mut s, "a", &e.id, &pay).is_ok());
    assert!(matches!(service::delete_employee(&mut s, "b", &e.id), Err(AppError::NotFound(_))));
    assert!(service::delete_employee(&mut s, "a", &e.id).is_ok());

    let t = service::create_task(&mut s, "a", &CreateTaskRequest { title: "T".to_string(), priority: "low".to_string() }).unwrap();
    let upd = UpdateTaskRequest { done: true };
    assert!(matches!(service::update_task_status(&mut s, "b", &t.id, &upd), Err(AppError::NotFound(_))));
    assert!(service::update_task_status(&mut s, "a", &t.id, &upd).is_ok());
    match service::delete_task(&mut s, "b", &t.id) {
        Err(AppError::NotFound(m)) => assert_eq!(m, "Task not found"),
        _ => panic!("expected not found"),
    }
    assert!(service::delete_task(&mut s, "a", &t.id).is_ok());
}

#[test]
fn event_handler_fills_absent_fields_with_empty_text() {
    let mut s = Storage::new("test.db");
    let body = CreateEventRequest {
        title: "Launch".to_string(),
        description: None,
        start_date: "2025-05-01".to_string(),
        start_time: Some("09:00".to_string()),
        end_date: "2025-05-01".to_string(),
        end_time: None,
        color: "green".to_string(),
    };
    let e = service::create_event(&mut s, "a", &body).unwrap();
    assert_eq!(e.description, "");
    assert_eq!(e.start_time, "09:00");
    assert_eq!(e.end_time, "");
    match service::delete_event(&mut s, "b", &e.id) {
        Err(AppError::NotFound(m)) => assert_eq!(m, "Event not found"),
        _ => panic!("expected not found"),
    }
    assert!(service::delete_event(&mut s, "a", &e.id).is_ok());
    let bad = CreateEventRequest { title: String::new(), ..body };
    match service::create_event(&mut s, "a", &bad) {
        Err(AppError::InvalidInput(m)) => assert_eq!(m, "Event title is required"),
        _ => panic!("expected invalid input"),
    }
}

#[test]
fn other_tenants_rows_leave_dashboard_unchanged() {
    let mut s = Storage::new("test.db");
    let b = Employee::new("tb".to_string(), "Bea".to_string(), "Dev".to_string(), 700, "active".to_string());
    s.create_employee(&b).unwrap();
    let before = s.get_dashboard_stats("tb").unwrap();
    let a = Employee::new("ta".to_string(), "Al".to_string(), "Dev".to_string(), 9_900, "active".to_string());
    s.create_employee(&a).unwrap();
    s.create_task(&task_at("ta-task", "ta", "Other", 3)).unwrap();
    assert_eq!(s.get_dashboard_stats("tb").unwrap(), before);
    assert_eq!(s.delete_employee(&a.id, "ta").unwrap(), 1);
    assert_eq!(s.get_dashboard_stats("tb").unwrap(), before);
    assert_eq!(before.total_employees, 1);
    assert_eq!(before.monthly_payroll_cents, 700);
}
