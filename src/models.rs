use vstd::prelude::*;
use crate::clock::{now_micros, Timestamp};
use crate::ids::{is_uuid_v4_text, new_uuid};
use crate::rows::Row;
use crate::text::{blank, contains_char, is_blank, lemma_text_le_total, lemma_text_le_trans, text_le, text_precedes};
use vstd::utf8::encode_utf8;
use vstd::string::StringExecFns;

verus! {

/// A business account: the unit of data isolation.
#[derive(Debug)]
pub struct Client {
    pub id: String,
    pub business_name: String,
    pub business_website: String,
    pub business_sector: String,
    pub revenue: String,
    pub goals: String,
    pub email: String,
    pub job_title: String,
    pub username: String,
    pub password_hash: String,
    pub created_at: Timestamp,
}

impl Client {
    /// A new account with a fresh identifier, created now.
    pub fn new(
        business_name: String,
        business_website: String,
        business_sector: String,
        revenue: String,
        goals: String,
        email: String,
        job_title: String,
        username: String,
        password_hash: String,
    ) -> (r: Self)
        ensures
            is_uuid_v4_text(r.id@),
            r.business_name == business_name,
            r.business_website == business_website,
            r.business_sector == business_sector,
            r.revenue == revenue,
            r.goals == goals,
            r.email == email,
            r.job_title == job_title,
            r.username == username,
            r.password_hash == password_hash,
    {
        Client {
            id: new_uuid(),
            business_name,
            business_website,
            business_sector,
            revenue,
            goals,
            email,
            job_title,
            username,
            password_hash,
            created_at: now_micros(),
        }
    }

    /// A copy equal in every field.
    pub fn duplicate(&self) -> (r: Self)
        ensures
            r == *self,
    {
        Client {
            id: self.id.clone(),
            business_name: self.business_name.clone(),
            business_website: self.business_website.clone(),
            business_sector: self.business_sector.clone(),
            revenue: self.revenue.clone(),
            goals: self.goals.clone(),
            email: self.email.clone(),
            job_title: self.job_title.clone(),
            username: self.username.clone(),
            password_hash: self.password_hash.clone(),
            created_at: self.created_at,
        }
    }
}

/// A person employed by a tenant. The salary is a non-negative amount in
/// cents.
#[derive(Debug)]
pub struct Employee {
    pub id: String,
    pub client_id: String,
    pub name: String,
    pub title: String,
    pub salary_cents: u64,
    pub status: String,
    pub paid: bool,
    pub created_at: Timestamp,
}

impl Employee {
    /// A new, not yet paid employee of `client_id`, created now.
    pub fn new(client_id: String, name: String, title: String, salary_cents: u64, status: String) -> (r: Self)
        ensures
            is_uuid_v4_text(r.id@),
            r.client_id == client_id,
            r.name == name,
            r.title == title,
            r.salary_cents == salary_cents,
            r.status == status,
            !r.paid,
    {
        Employee {
            id: new_uuid(),
            client_id,
            name,
            title,
            salary_cents,
            status,
            paid: false,
            created_at: now_micros(),
        }
    }
}

impl Row for Employee {
    open spec fn row_id(&self) -> Seq<char> {
        self.id@
    }

    open spec fn row_owner(&self) -> Seq<char> {
        self.client_id@
    }

    /// Employees are listed by name, ascending.
    open spec fn listed_before(&self, other: &Self) -> bool {
        text_le(self.name@, other.name@)
    }

    proof fn lemma_listed_before_total(a: &Self, b: &Self) {
        lemma_text_le_total(a.name@, b.name@);
    }

    proof fn lemma_listed_before_trans(a: &Self, b: &Self, c: &Self) {
        lemma_text_le_trans(a.name@, b.name@, c.name@);
    }

    fn id_text(&self) -> (r: &str) {
        self.id.as_str()
    }

    fn owner_text(&self) -> (r: &str) {
        self.client_id.as_str()
    }

    fn comes_before(&self, other: &Self) -> (r: bool) {
        text_precedes(self.name.as_str(), other.name.as_str())
    }

    fn duplicate(&self) -> (r: Self) {
        Employee {
            id: self.id.clone(),
            client_id: self.client_id.clone(),
            name: self.name.clone(),
            title: self.title.clone(),
            salary_cents: self.salary_cents,
            status: self.status.clone(),
            paid: self.paid,
            created_at: self.created_at,
        }
    }
}

/// A to-do item of a tenant.
#[derive(Debug)]
pub struct Task {
    pub id: String,
    pub client_id: String,
    pub title: String,
    pub priority: String,
    pub done: bool,
    pub created_at: Timestamp,
}

impl Task {
    /// A new, not yet done task of `client_id`, created now.
    pub fn new(client_id: String, title: String, priority: String) -> (r: Self)
        ensures
            is_uuid_v4_text(r.id@),
            r.client_id == client_id,
            r.title == title,
            r.priority == priority,
            !r.done,
    {
        Task { id: new_uuid(), client_id, title, priority, done: false, created_at: now_micros() }
    }
}

impl Row for Task {
    open spec fn row_id(&self) -> Seq<char> {
        self.id@
    }

    open spec fn row_owner(&self) -> Seq<char> {
        self.client_id@
    }

    /// Tasks are listed newest first.
    open spec fn listed_before(&self, other: &Self) -> bool {
        other.created_at <= self.created_at
    }

    proof fn lemma_listed_before_total(a: &Self, b: &Self) {
    }

    proof fn lemma_listed_before_trans(a: &Self, b: &Self, c: &Self) {
    }

    fn id_text(&self) -> (r: &str) {
        self.id.as_str()
    }

    fn owner_text(&self) -> (r: &str) {
        self.client_id.as_str()
    }

    fn comes_before(&self, other: &Self) -> (r: bool) {
        other.created_at <= self.created_at
    }

    fn duplicate(&self) -> (r: Self) {
        Task {
            id: self.id.clone(),
            client_id: self.client_id.clone(),
            title: self.title.clone(),
            priority: self.priority.clone(),
            done: self.done,
            created_at: self.created_at,
        }
    }
}

/// A calendar entry of a tenant. Dates and times are kept as the text they
/// were given in; an absent description or time is empty.
#[derive(Debug)]
pub struct Event {
    pub id: String,
    pub client_id: String,
    pub title: String,
    pub description: String,
    pub start_date: String,
    pub start_time: String,
    pub end_date: String,
    pub end_time: String,
    pub color: String,
    pub created_at: Timestamp,
}

impl Event {
    /// A new event of `client_id`, created now.
    pub fn new(
        client_id: String,
        title: String,
        description: String,
        start_date: String,
        start_time: String,
        end_date: String,
        end_time: String,
        color: String,
    ) -> (r: Self)
        ensures
            is_uuid_v4_text(r.id@),
            r.client_id == client_id,
            r.title == title,
            r.description == description,
            r.start_date == start_date,
            r.start_time == start_time,
            r.end_date == end_date,
            r.end_time == end_time,
            r.color == color,
    {
        Event {
            id: new_uuid(),
            client_id,
            title,
            description,
            start_date,
            start_time,
            end_date,
            end_time,
            color,
            created_at: now_micros(),
        }
    }
}

impl Row for Event {
    open spec fn row_id(&self) -> Seq<char> {
        self.id@
    }

    open spec fn row_owner(&self) -> Seq<char> {
        self.client_id@
    }

    /// Events are listed by start date, ascending.
    open spec fn listed_before(&self, other: &Self) -> bool {
        text_le(self.start_date@, other.start_date@)
    }

    proof fn lemma_listed_before_total(a: &Self, b: &Self) {
        lemma_text_le_total(a.start_date@, b.start_date@);
    }

    proof fn lemma_listed_before_trans(a: &Self, b: &Self, c: &Self) {
        lemma_text_le_trans(a.start_date@, b.start_date@, c.start_date@);
    }

    fn id_text(&self) -> (r: &str) {
        self.id.as_str()
    }

    fn owner_text(&self) -> (r: &str) {
        self.client_id.as_str()
    }

    fn comes_before(&self, other: &Self) -> (r: bool) {
        text_precedes(self.start_date.as_str(), other.start_date.as_str())
    }

    fn duplicate(&self) -> (r: Self) {
        Event {
            id: self.id.clone(),
            client_id: self.client_id.clone(),
            title: self.title.clone(),
            description: self.description.clone(),
            start_date: self.start_date.clone(),
            start_time: self.start_time.clone(),
            end_date: self.end_date.clone(),
            end_time: self.end_time.clone(),
            color: self.color.clone(),
            created_at: self.created_at,
        }
    }
}

} // verus!

verus! {

/// The failures an operation of this library reports.
#[derive(Debug)]
pub enum AppError {
    /// The store failed (any I/O or driver failure, or a duplicate identifier).
    DbError(String),
    /// No row matched both the identifier and the owning tenant.
    NotFound(String),
    /// A request failed validation.
    InvalidInput(String),
    /// The session token is absent or unknown, or the credentials are wrong.
    Unauthorized,
    InternalError,
    /// A unique key, such as a login name, is already in use.
    ConstraintViolation(String),
}

/// The figures shown on a tenant's dashboard. Payroll is in cents.
#[derive(Debug, Clone, Copy, PartialEq, Eq)]
pub struct DashboardStats {
    pub total_employees: u64,
    pub monthly_payroll_cents: u128,
    pub active_tasks: u64,
    pub total_events: u64,
}

} // verus!

verus! {

/// A request with rules on its fields.
pub trait Validatable {
    /// The message of the first rule the request breaks, if any.
    spec fn validation_error(&self) -> Option<Seq<char>>;

    /// Checks the request; the error is the message of the first rule it
    /// breaks.
    fn validate(&self) -> (r: Result<(), String>)
        ensures
            match r {
                Ok(()) => self.validation_error() is None,
                Err(m) => self.validation_error() == Some(m@),
            },
    ;
}

/// Length of a text in bytes of UTF-8, as `str::len` gives it.
pub open spec fn byte_len(s: Seq<char>) -> usize {
    encode_utf8(s).len() as usize
}

/// What a new business account is set up from.
#[derive(Debug)]
pub struct OnboardingRequest {
    pub business_name: String,
    pub business_website: String,
    pub business_sector: String,
    pub revenue: String,
    pub goals: String,
    pub custom_goal_text: Option<String>,
    pub email: String,
    pub job_title: String,
    pub services: Vec<String>,
    pub other_service_text: Option<String>,
    pub platforms: Vec<String>,
    pub generated_username: String,
    pub generated_password: String,
}

impl Validatable for OnboardingRequest {
    /// A business name, an email with `@`, a login name of at least 3 bytes
    /// and a password of at least 6.
    open spec fn validation_error(&self) -> Option<Seq<char>> {
        if self.business_name@.len() == 0 {
            Some("Business name is required"@)
        } else if self.email@.len() == 0 || !self.email@.contains('@') {
            Some("Valid email is required"@)
        } else if byte_len(self.generated_username@) < 3 {
            Some("Username too short"@)
        } else if byte_len(self.generated_password@) < 6 {
            Some("Password too short"@)
        } else {
            None
        }
    }

    fn validate(&self) -> (r: Result<(), String>) {
        if self.business_name.as_str().is_empty() {
            return Err("Business name is required".to_owned());
        }
        if self.email.as_str().is_empty() || !contains_char(self.email.as_str(), '@') {
            return Err("Valid email is required".to_owned());
        }
        if self.generated_username.as_str().len() < 3 {
            return Err("Username too short".to_owned());
        }
        if self.generated_password.as_str().len() < 6 {
            return Err("Password too short".to_owned());
        }
        Ok(())
    }
}

/// Credentials offered at login.
#[derive(Debug)]
pub struct LoginRequest {
    pub username: String,
    pub password: String,
}

impl Validatable for LoginRequest {
    /// Neither field may be blank.
    open spec fn validation_error(&self) -> Option<Seq<char>> {
        if is_blank(self.username@) {
            Some("Username cannot be empty"@)
        } else if is_blank(self.password@) {
            Some("Password cannot be empty"@)
        } else {
            None
        }
    }

    fn validate(&self) -> (r: Result<(), String>) {
        if blank(self.username.as_str()) {
            return Err("Username cannot be empty".to_owned());
        }
        if blank(self.password.as_str()) {
            return Err("Password cannot be empty".to_owned());
        }
        Ok(())
    }
}

/// What a successful login hands back.
#[derive(Debug)]
pub struct LoginResponse {
    pub session_id: String,
    pub client_name: String,
}

/// A new employee's details. The salary is in cents, so it cannot be
/// negative.
#[derive(Debug)]
pub struct CreateEmployeeRequest {
    pub name: String,
    pub title: String,
    pub salary_cents: u64,
    pub status: String,
}

impl Validatable for CreateEmployeeRequest {
    /// The name may not be empty.
    open spec fn validation_error(&self) -> Option<Seq<char>> {
        if self.name@.len() == 0 {
            Some("Employee name is required"@)
        } else {
            None
        }
    }

    fn validate(&self) -> (r: Result<(), String>) {
        if self.name.as_str().is_empty() {
            return Err("Employee name is required".to_owned());
        }
        Ok(())
    }
}

#[derive(Debug)]
pub struct CreateTaskRequest {
    pub title: String,
    pub priority: String,
}

#[derive(Debug)]
pub struct UpdateTaskRequest {
    pub done: bool,
}

#[derive(Debug)]
pub struct UpdateEmployeePaymentRequest {
    pub paid: bool,
}

/// A new event's details; absent description and times are stored empty.
#[derive(Debug)]
pub struct CreateEventRequest {
    pub title: String,
    pub description: Option<String>,
    pub start_date: String,
    pub start_time: Option<String>,
    pub end_date: String,
    pub end_time: Option<String>,
    pub color: String,
}

impl Validatable for CreateEventRequest {
    /// A title and both dates are required.
    open spec fn validation_error(&self) -> Option<Seq<char>> {
        if self.title@.len() == 0 {
            Some("Event title is required"@)
        } else if self.start_date@.len() == 0 || self.end_date@.len() == 0 {
            Some("Start and end dates are required"@)
        } else {
            None
        }
    }

    fn validate(&self) -> (r: Result<(), String>) {
        if self.title.as_str().is_empty() {
            return Err("Event title is required".to_owned());
        }
        if self.start_date.as_str().is_empty() || self.end_date.as_str().is_empty() {
            return Err("Start and end dates are required".to_owned());
        }
        Ok(())
    }
}

/// The envelope every response is sent in.
#[derive(Debug)]
pub struct ApiResponse<T> {
    pub success: bool,
    pub message: String,
    pub data: Option<T>,
}

impl<T> ApiResponse<T> {
    /// A successful response carrying `data`.
    pub fn success(data: T, message: &str) -> (r: Self)
        ensures
            r.success,
            r.message@ == message@,
            r.data == Some(data),
    {
        ApiResponse { success: true, message: message.to_owned(), data: Some(data) }
    }

    /// A failed response with no data.
    pub fn error(message: &str) -> (r: Self)
        ensures
            !r.success,
            r.message@ == message@,
            r.data is None,
    {
        ApiResponse { success: false, message: message.to_owned(), data: None }
    }
}

} // verus!

verus! {

impl AppError {
    /// The text shown for the error.
    pub open spec fn message_spec(&self) -> Seq<char> {
        match self {
            AppError::DbError(m) => "Database Error: "@ + m@,
            AppError::NotFound(m) => "Not Found: "@ + m@,
            AppError::InvalidInput(m) => "Invalid Input: "@ + m@,
            AppError::Unauthorized => "Unauthorized Access"@,
            AppError::InternalError => "Internal Server Error"@,
            AppError::ConstraintViolation(m) => "Constraint Violation: "@ + m@,
        }
    }

    /// The text shown for the error.
    pub fn message(&self) -> (r: String)
        ensures
            r@ == self.message_spec(),
    {
        match self {
            AppError::DbError(m) => "Database Error: ".to_owned().concat(m.as_str()),
            AppError::NotFound(m) => "Not Found: ".to_owned().concat(m.as_str()),
            AppError::InvalidInput(m) => "Invalid Input: ".to_owned().concat(m.as_str()),
            AppError::Unauthorized => "Unauthorized Access".to_owned(),
            AppError::InternalError => "Internal Server Error".to_owned(),
            AppError::ConstraintViolation(m) => "Constraint Violation: ".to_owned().concat(m.as_str()),
        }
    }
}

/// Counters of the running service.
pub struct ServiceMetrics {
    pub active_sessions: u32,
    pub total_requests: u64,
    pub uptime_seconds: u64,
}

impl Default for ServiceMetrics {
    fn default() -> (r: Self)
        ensures
            r.active_sessions == 0,
            r.total_requests == 0,
            r.uptime_seconds == 0,
    {
        ServiceMetrics { active_sessions: 0, total_requests: 0, uptime_seconds: 0 }
    }
}

/// What the service reports of itself.
#[derive(Debug)]
pub struct SystemStatus {
    pub status: String,
    pub version: String,
    pub maintenance_mode: bool,
}

impl Default for SystemStatus {
    fn default() -> (r: Self)
        ensures
            r.status@ == "Operational"@,
            r.version@ == "1.0.0"@,
            !r.maintenance_mode,
    {
        SystemStatus {
            status: "Operational".to_owned(),
            version: "1.0.0".to_owned(),
            maintenance_mode: false,
        }
    }
}

/// A session's tenant and the time it would lapse.
pub struct SessionData {
    pub client_id: String,
    pub expires_at: Timestamp,
}

/// A stored document, as listed to a tenant.
#[derive(Debug)]
pub struct DocumentMetadata {
    pub id: String,
    pub name: String,
    pub size_bytes: u64,
    pub uploaded_at: Timestamp,
    pub file_type: String,
}

impl DocumentMetadata {
    /// Two sample documents.
    pub fn mock_list() -> (r: Vec<Self>)
        ensures
            r@.len() == 2,
            r@[0].name@ == "Q4_Financial_Report.pdf"@,
            r@[0].size_bytes == 1024 * 500,
            r@[0].file_type@ == "application/pdf"@,
            r@[1].name@ == "Employee_Handbook_2025.docx"@,
            r@[1].size_bytes == 1024 * 2500,
            r@[1].file_type@ == "application/vnd.openxmlformats-officedocument.wordprocessingml.document"@,
    {
        let first = DocumentMetadata {
            id: new_uuid(),
            name: "Q4_Financial_Report.pdf".to_owned(),
            size_bytes: 1024 * 500,
            uploaded_at: now_micros(),
            file_type: "application/pdf".to_owned(),
        };
        let second = DocumentMetadata {
            id: new_uuid(),
            name: "Employee_Handbook_2025.docx".to_owned(),
            size_bytes: 1024 * 2500,
            uploaded_at: now_micros(),
            file_type: "application/vnd.openxmlformats-officedocument.wordprocessingml.document".to_owned(),
        };
        vec![first, second]
    }
}

/// A spreadsheet, as listed to a tenant.
#[derive(Debug)]
pub struct SpreadsheetMetadata {
    pub id: String,
    pub name: String,
    pub last_modified: Timestamp,
    pub row_count: u32,
}

impl SpreadsheetMetadata {
    /// Two sample spreadsheets.
    pub fn mock_list() -> (r: Vec<Self>)
        ensures
            r@.len() == 2,
            r@[0].name@ == "Inventory_Tracking_Sheet"@,
            r@[0].row_count == 1542,
            r@[1].name@ == "Q1_Sales_Forecast"@,
            r@[1].row_count == 350,
    {
        let first = SpreadsheetMetadata {
            id: new_uuid(),
            name: "Inventory_Tracking_Sheet".to_owned(),
            last_modified: now_micros(),
            row_count: 1542,
        };
        let second = SpreadsheetMetadata {
            id: new_uuid(),
            name: "Q1_Sales_Forecast".to_owned(),
            last_modified: now_micros(),
            row_count: 350,
        };
        vec![first, second]
    }
}

/// How serious a logged event is.
#[derive(Clone, Copy, Debug, PartialEq, Eq)]
pub enum LogLevel {
    Info,
    Warn,
    Error,
    Debug,
}

/// The answer to a health probe.
#[derive(Debug)]
pub struct HealthCheckResponse {
    pub status: String,
    pub uptime: u64,
    pub database_connected: bool,
    pub timestamp: String,
}

/// An entity with an identifier and a kind name.
pub trait EntityIdentity {
    spec fn entity_id(&self) -> Seq<char>;

    spec fn entity_type(&self) -> Seq<char>;

    fn get_id(&self) -> (r: &str)
        ensures
            r@ == self.entity_id(),
    ;

    fn get_type(&self) -> (r: &str)
        ensures
            r@ == self.entity_type(),
    ;
}

impl EntityIdentity for Client {
    open spec fn entity_id(&self) -> Seq<char> {
        self.id@
    }

    open spec fn entity_type(&self) -> Seq<char> {
        "Client"@
    }

    fn get_id(&self) -> (r: &str) {
        self.id.as_str()
    }

    fn get_type(&self) -> (r: &str) {
        "Client"
    }
}

impl EntityIdentity for Employee {
    open spec fn entity_id(&self) -> Seq<char> {
        self.id@
    }

    open spec fn entity_type(&self) -> Seq<char> {
        "Employee"@
    }

    fn get_id(&self) -> (r: &str) {
        self.id.as_str()
    }

    fn get_type(&self) -> (r: &str) {
        "Employee"
    }
}

impl EntityIdentity for Task {
    open spec fn entity_id(&self) -> Seq<char> {
        self.id@
    }

    open spec fn entity_type(&self) -> Seq<char> {
        "Task"@
    }

    fn get_id(&self) -> (r: &str) {
        self.id.as_str()
    }

    fn get_type(&self) -> (r: &str) {
        "Task"
    }
}

impl EntityIdentity for Event {
    open spec fn entity_id(&self) -> Seq<char> {
        self.id@
    }

    open spec fn entity_type(&self) -> Seq<char> {
        "Event"@
    }

    fn get_id(&self) -> (r: &str) {
        self.id.as_str()
    }

    fn get_type(&self) -> (r: &str) {
        "Event"
    }
}

} // verus!
