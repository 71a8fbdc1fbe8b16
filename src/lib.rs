//! Tenant-isolated persistence and session layer of a multi-tenant
//! business-management backend: clients (tenants) own employees, tasks and
//! events; every operation on those rows is scoped to the owning tenant;
//! sessions map bearer tokens to tenants; dashboard figures are derived from
//! the rows on demand.

pub mod clock;
pub mod ids;
pub mod text;
pub mod rows;
pub mod models;
pub mod storage;
pub mod session;
pub mod service;
pub mod laws;

pub use clock::{parse_stored_timestamp, text_or_epoch, timestamp_or_epoch, timestamp_text, Timestamp, EPOCH};
pub use ids::{generate_secure_token, TOKEN_LEN};
pub use models::{
    ApiResponse, AppError, Client, CreateEmployeeRequest, CreateEventRequest, CreateTaskRequest,
    DashboardStats, DocumentMetadata, Employee, EntityIdentity, Event, HealthCheckResponse,
    LogLevel, LoginRequest, LoginResponse, OnboardingRequest, ServiceMetrics, SessionData,
    SpreadsheetMetadata, SystemStatus, Task, UpdateEmployeePaymentRequest, UpdateTaskRequest,
    Validatable,
};
pub use session::{bearer_token, get_client_id_from_header, SessionRegistry};
pub use storage::Storage;
pub use text::sanitize_string;
