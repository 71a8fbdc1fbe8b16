use vstd::prelude::*;
use crate::models::{
    AppError, Client, CreateEmployeeRequest, CreateEventRequest, CreateTaskRequest, Employee, Event,
    LoginRequest, LoginResponse, OnboardingRequest, Task, UpdateEmployeePaymentRequest,
    UpdateTaskRequest, Validatable,
};
use crate::rows::{has_scoped, scoped_match};
use crate::ids::is_uuid_v4_text;
use crate::session::SessionRegistry;
use crate::storage::{has_username, with_done, with_paid, Storage};

verus! {

/// Whether some client has login name `name` and credential `password`.
pub open spec fn credentials_match(rows: Seq<Client>, name: Seq<char>, password: Seq<char>) -> bool {
    exists|i: int|
        0 <= i < rows.len() && (#[trigger] rows[i]).username@ == name && rows[i].password_hash@
            == password
}

/// The text an optional field is stored as: its value, or empty.
pub open spec fn or_empty(s: Option<String>) -> Seq<char> {
    match s {
        Some(t) => t@,
        None => Seq::empty(),
    }
}

fn take_or_empty(s: &Option<String>) -> (r: String)
    ensures
        r@ == or_empty(*s),
{
    match s {
        Some(t) => t.clone(),
        None => String::new(),
    }
}

/// Sets up a new business account from an onboarding request.
pub fn onboard_client(storage: &mut Storage, req: &OnboardingRequest) -> (r: Result<Client, AppError>)
    requires
        old(storage).wf(),
    ensures
        final(storage).wf(),
        final(storage).employee_rows() == old(storage).employee_rows(),
        final(storage).task_rows() == old(storage).task_rows(),
        final(storage).event_rows() == old(storage).event_rows(),
        match req.validation_error() {
            Some(m) => r matches Err(AppError::InvalidInput(e)) && e@ == m,
            None => {
                &&& has_username(old(storage).client_rows(), req.generated_username@) ==> (r matches Err(
                    AppError::ConstraintViolation(_),
                ))
                &&& !has_username(old(storage).client_rows(), req.generated_username@) ==> (r is Ok || ((
                r matches Err(AppError::ConstraintViolation(_))) && exists|i: int|
                    0 <= i < old(storage).client_rows().len() && (#[trigger] old(storage).client_rows()[i]).id@.len()
                        == 36))
            },
        },
        !(r is Ok) ==> final(storage).client_rows() == old(storage).client_rows(),
        r is Err ==> (r matches Err(AppError::InvalidInput(_))) || (r matches Err(
            AppError::ConstraintViolation(_),
        )),
        r matches Ok(c) ==> {
            &&& req.validation_error() is None
            &&& final(storage).client_rows() == old(storage).client_rows().push(c)
            &&& c.username == req.generated_username
            &&& c.password_hash == req.generated_password
            &&& c.business_name == req.business_name
            &&& c.business_website == req.business_website
            &&& c.business_sector == req.business_sector
            &&& c.revenue == req.revenue
            &&& c.goals == req.goals
            &&& c.email == req.email
            &&& c.job_title == req.job_title
        },
{
    match req.validate() {
        Ok(()) => {},
        Err(e) => {
            return Err(AppError::InvalidInput(e));
        },
    }
    let client = Client::new(
        req.business_name.clone(),
        req.business_website.clone(),
        req.business_sector.clone(),
        req.revenue.clone(),
        req.goals.clone(),
        req.email.clone(),
        req.job_title.clone(),
        req.generated_username.clone(),
        req.generated_password.clone(),
    );
    match storage.create_client(&client) {
        Ok(()) => Ok(client),
        Err(e) => Err(e),
    }
}

/// The client that a login request's credentials belong to.
pub fn check_credentials(storage: &Storage, req: &LoginRequest) -> (r: Result<Client, AppError>)
    requires
        storage.wf(),
    ensures
        match req.validation_error() {
            Some(m) => r matches Err(AppError::InvalidInput(e)) && e@ == m,
            None => {
                &&& !has_username(storage.client_rows(), req.username@) ==> (r matches Err(
                    AppError::NotFound(m),
                ) && m@ == "User not found"@)
                &&& has_username(storage.client_rows(), req.username@) && !credentials_match(
                    storage.client_rows(),
                    req.username@,
                    req.password@,
                ) ==> (r matches Err(AppError::Unauthorized))
                &&& credentials_match(storage.client_rows(), req.username@, req.password@) ==> r is Ok
            },
        },
        r matches Ok(c) ==> exists|i: int|
            0 <= i < storage.client_rows().len() && storage.client_rows()[i] == c && c.username@
                == req.username@ && c.password_hash@ == req.password@,
{
    match req.validate() {
        Ok(()) => {},
        Err(e) => {
            return Err(AppError::InvalidInput(e));
        },
    }
    match storage.get_client_by_username(req.username.as_str()) {
        Ok(Some(client)) => {
            if client.password_hash == req.password {
                Ok(client)
            } else {
                proof {
                    assert forall|i: int|
                        0 <= i < storage.client_rows().len() && (#[trigger] storage.client_rows()[i]).username@
                            == req.username@ implies storage.client_rows()[i].password_hash@
                        != req.password@ by {
                        let j = choose|j: int|
                            0 <= j < storage.client_rows().len() && storage.client_rows()[j] == client;
                        if i != j {
                            assert(storage.client_rows()[i].username@ != storage.client_rows()[j].username@);
                        }
                    }
                }
                Err(AppError::Unauthorized)
            }
        },
        Ok(None) => Err(AppError::NotFound("User not found".to_owned())),
        Err(e) => Err(e),
    }
}

/// Checks credentials and opens a session under a fresh token for the
/// client they belong to.
pub fn login_client(storage: &Storage, sessions: &mut SessionRegistry, req: &LoginRequest) -> (r: Result<LoginResponse, AppError>)
    requires
        storage.wf(),
    ensures
        match req.validation_error() {
            Some(m) => r matches Err(AppError::InvalidInput(e)) && e@ == m,
            None => {
                &&& !has_username(storage.client_rows(), req.username@) ==> (r matches Err(
                    AppError::NotFound(m),
                ) && m@ == "User not found"@)
                &&& has_username(storage.client_rows(), req.username@) && !credentials_match(
                    storage.client_rows(),
                    req.username@,
                    req.password@,
                ) ==> (r matches Err(AppError::Unauthorized))
                &&& credentials_match(storage.client_rows(), req.username@, req.password@) ==> r is Ok
            },
        },
        r is Err ==> forall|t: Seq<char>| #[trigger] final(sessions).binding(t) == old(sessions).binding(t),
        r is Err ==> forall|t: Seq<char>| #[trigger] final(sessions).issued(t) == old(sessions).issued(t),
        r matches Ok(resp) ==> !old(sessions).issued(resp.session_id@),
        r matches Ok(resp) ==> resp.session_id@.len() >= 36 && is_uuid_v4_text(resp.session_id@.subrange(0, 36)),
        r matches Ok(resp) ==> exists|i: int|
            0 <= i < storage.client_rows().len() && (#[trigger] storage.client_rows()[i]).username@
                == req.username@ && storage.client_rows()[i].password_hash@ == req.password@
                && resp.client_name == storage.client_rows()[i].business_name
                && final(sessions).binding(resp.session_id@) == Some(storage.client_rows()[i].id@),
        r matches Ok(resp) ==> forall|t: Seq<char>|
            t != resp.session_id@ ==> #[trigger] final(sessions).binding(t) == old(sessions).binding(t),
{
    match check_credentials(storage, req) {
        Ok(client) => {
            let session_id = sessions.create_session(client.id.as_str());
            Ok(LoginResponse { session_id, client_name: client.business_name })
        },
        Err(e) => Err(e),
    }
}

/// Adds an employee to `client_id` from a request.
pub fn create_employee(storage: &mut Storage, client_id: &str, body: &CreateEmployeeRequest) -> (r: Result<Employee, AppError>)
    requires
        old(storage).wf(),
    ensures
        final(storage).wf(),
        final(storage).client_rows() == old(storage).client_rows(),
        final(storage).task_rows() == old(storage).task_rows(),
        final(storage).event_rows() == old(storage).event_rows(),
        match body.validation_error() {
            Some(m) => r matches Err(AppError::InvalidInput(e)) && e@ == m,
            None => r is Ok || ((r matches Err(AppError::ConstraintViolation(_))) && exists|i: int|
                0 <= i < old(storage).employee_rows().len() && (#[trigger] old(storage).employee_rows()[i]).id@.len() == 36),
        },
        r is Err ==> final(storage).employee_rows() == old(storage).employee_rows(),
        r matches Ok(e) ==> {
            &&& e.client_id@ == client_id@
            &&& e.name == body.name
            &&& e.title == body.title
            &&& e.salary_cents == body.salary_cents
            &&& e.status == body.status
            &&& !e.paid
            &&& exists|p: int|
                0 <= p <= old(storage).employee_rows().len() && final(storage).employee_rows()
                    == old(storage).employee_rows().insert(p, e)
        },
{
    match body.validate() {
        Ok(()) => {},
        Err(e) => {
            return Err(AppError::InvalidInput(e));
        },
    }
    let employee = Employee::new(
        client_id.to_owned(),
        body.name.clone(),
        body.title.clone(),
        body.salary_cents,
        body.status.clone(),
    );
    match storage.create_employee(&employee) {
        Ok(()) => Ok(employee),
        Err(e) => Err(e),
    }
}

/// Deletes employee `id` of `client_id`; not found where the tenant owns no such employee.
pub fn delete_employee(storage: &mut Storage, client_id: &str, id: &str) -> (r: Result<(), AppError>)
    requires
        old(storage).wf(),
    ensures
        final(storage).wf(),
        final(storage).client_rows() == old(storage).client_rows(),
        final(storage).task_rows() == old(storage).task_rows(),
        final(storage).event_rows() == old(storage).event_rows(),
        r is Ok <==> has_scoped(old(storage).employee_rows(), id@, client_id@),
        r is Err ==> (r matches Err(AppError::NotFound(m)) && m@ == "Employee not found"@),
        r is Err ==> final(storage).employee_rows() == old(storage).employee_rows(),
        r is Ok ==> exists|i: int|
            0 <= i < old(storage).employee_rows().len() && scoped_match(old(storage).employee_rows()[i], id@, client_id@)
                && final(storage).employee_rows() == old(storage).employee_rows().remove(i),
{
    match storage.delete_employee(id, client_id) {
        Ok(n) => {
            if n > 0 {
                Ok(())
            } else {
                Err(AppError::NotFound("Employee not found".to_owned()))
            }
        },
        Err(e) => Err(e),
    }
}

/// Sets the paid flag of employee `id` of `client_id`; not found where the tenant owns no such employee.
pub fn update_employee_payment(storage: &mut Storage, client_id: &str, id: &str, body: &UpdateEmployeePaymentRequest) -> (r: Result<(), AppError>)
    requires
        old(storage).wf(),
    ensures
        final(storage).wf(),
        final(storage).client_rows() == old(storage).client_rows(),
        final(storage).task_rows() == old(storage).task_rows(),
        final(storage).event_rows() == old(storage).event_rows(),
        r is Ok <==> has_scoped(old(storage).employee_rows(), id@, client_id@),
        r is Err ==> (r matches Err(AppError::NotFound(m)) && m@ == "Employee not found"@),
        r is Err ==> final(storage).employee_rows() == old(storage).employee_rows(),
        r is Ok ==> exists|i: int|
            0 <= i < old(storage).employee_rows().len() && scoped_match(old(storage).employee_rows()[i], id@, client_id@)
                && final(storage).employee_rows() == old(storage).employee_rows().update(
                i,
                with_paid(old(storage).employee_rows()[i], body.paid),
            ),
{
    match storage.update_employee_paid_status(id, client_id, body.paid) {
        Ok(n) => {
            if n > 0 {
                Ok(())
            } else {
                Err(AppError::NotFound("Employee not found".to_owned()))
            }
        },
        Err(e) => Err(e),
    }
}

/// Adds a task to `client_id` from a request.
pub fn create_task(storage: &mut Storage, client_id: &str, body: &CreateTaskRequest) -> (r: Result<Task, AppError>)
    requires
        old(storage).wf(),
    ensures
        final(storage).wf(),
        final(storage).client_rows() == old(storage).client_rows(),
        final(storage).employee_rows() == old(storage).employee_rows(),
        final(storage).event_rows() == old(storage).event_rows(),
        r is Ok || ((r matches Err(AppError::ConstraintViolation(_))) && exists|i: int|
            0 <= i < old(storage).task_rows().len() && (#[trigger] old(storage).task_rows()[i]).id@.len() == 36),
        r is Err ==> final(storage).task_rows() == old(storage).task_rows(),
        r matches Ok(t) ==> {
            &&& t.client_id@ == client_id@
            &&& t.title == body.title
            &&& t.priority == body.priority
            &&& !t.done
            &&& exists|p: int|
                0 <= p <= old(storage).task_rows().len() && final(storage).task_rows()
                    == old(storage).task_rows().insert(p, t)
        },
{
    let task = Task::new(client_id.to_owned(), body.title.clone(), body.priority.clone());
    match storage.create_task(&task) {
        Ok(()) => Ok(task),
        Err(e) => Err(e),
    }
}

/// Sets the done flag of task `id` of `client_id`; not found where the tenant owns no such task.
pub fn update_task_status(storage: &mut Storage, client_id: &str, id: &str, body: &UpdateTaskRequest) -> (r: Result<(), AppError>)
    requires
        old(storage).wf(),
    ensures
        final(storage).wf(),
        final(storage).client_rows() == old(storage).client_rows(),
        final(storage).employee_rows() == old(storage).employee_rows(),
        final(storage).event_rows() == old(storage).event_rows(),
        r is Ok <==> has_scoped(old(storage).task_rows(), id@, client_id@),
        r is Err ==> (r matches Err(AppError::NotFound(m)) && m@ == "Task not found"@),
        r is Err ==> final(storage).task_rows() == old(storage).task_rows(),
        r is Ok ==> exists|i: int|
            0 <= i < old(storage).task_rows().len() && scoped_match(old(storage).task_rows()[i], id@, client_id@)
                && final(storage).task_rows() == old(storage).task_rows().update(
                i,
                with_done(old(storage).task_rows()[i], body.done),
            ),
{
    match storage.update_task_status(id, client_id, body.done) {
        Ok(n) => {
            if n > 0 {
                Ok(())
            } else {
                Err(AppError::NotFound("Task not found".to_owned()))
            }
        },
        Err(e) => Err(e),
    }
}

/// Deletes task `id` of `client_id`; not found where the tenant owns no such task.
pub fn delete_task(storage: &mut Storage, client_id: &str, id: &str) -> (r: Result<(), AppError>)
    requires
        old(storage).wf(),
    ensures
        final(storage).wf(),
        final(storage).client_rows() == old(storage).client_rows(),
        final(storage).employee_rows() == old(storage).employee_rows(),
        final(storage).event_rows() == old(storage).event_rows(),
        r is Ok <==> has_scoped(old(storage).task_rows(), id@, client_id@),
        r is Err ==> (r matches Err(AppError::NotFound(m)) && m@ == "Task not found"@),
        r is Err ==> final(storage).task_rows() == old(storage).task_rows(),
        r is Ok ==> exists|i: int|
            0 <= i < old(storage).task_rows().len() && scoped_match(old(storage).task_rows()[i], id@, client_id@)
                && final(storage).task_rows() == old(storage).task_rows().remove(i),
{
    match storage.delete_task(id, client_id) {
        Ok(n) => {
            if n > 0 {
                Ok(())
            } else {
                Err(AppError::NotFound("Task not found".to_owned()))
            }
        },
        Err(e) => Err(e),
    }
}

/// Adds an event to `client_id` from a request; an absent description or
/// time is stored empty.
pub fn create_event(storage: &mut Storage, client_id: &str, body: &CreateEventRequest) -> (r: Result<Event, AppError>)
    requires
        old(storage).wf(),
    ensures
        final(storage).wf(),
        final(storage).client_rows() == old(storage).client_rows(),
        final(storage).employee_rows() == old(storage).employee_rows(),
        final(storage).task_rows() == old(storage).task_rows(),
        match body.validation_error() {
            Some(m) => r matches Err(AppError::InvalidInput(e)) && e@ == m,
            None => r is Ok || ((r matches Err(AppError::ConstraintViolation(_))) && exists|i: int|
                0 <= i < old(storage).event_rows().len() && (#[trigger] old(storage).event_rows()[i]).id@.len() == 36),
        },
        r is Err ==> final(storage).event_rows() == old(storage).event_rows(),
        r matches Ok(e) ==> {
            &&& e.client_id@ == client_id@
            &&& e.title == body.title
            &&& e.description@ == or_empty(body.description)
            &&& e.start_date == body.start_date
            &&& e.start_time@ == or_empty(body.start_time)
            &&& e.end_date == body.end_date
            &&& e.end_time@ == or_empty(body.end_time)
            &&& e.color == body.color
            &&& exists|p: int|
                0 <= p <= old(storage).event_rows().len() && final(storage).event_rows()
                    == old(storage).event_rows().insert(p, e)
        },
{
    match body.validate() {
        Ok(()) => {},
        Err(e) => {
            return Err(AppError::InvalidInput(e));
        },
    }
    let event = Event::new(
        client_id.to_owned(),
        body.title.clone(),
        take_or_empty(&body.description),
        body.start_date.clone(),
        take_or_empty(&body.start_time),
        body.end_date.clone(),
        take_or_empty(&body.end_time),
        body.color.clone(),
    );
    match storage.create_event(&event) {
        Ok(()) => Ok(event),
        Err(e) => Err(e),
    }
}

/// Deletes event `id` of `client_id`; not found where the tenant owns no such event.
pub fn delete_event(storage: &mut Storage, client_id: &str, id: &str) -> (r: Result<(), AppError>)
    requires
        old(storage).wf(),
    ensures
        final(storage).wf(),
        final(storage).client_rows() == old(storage).client_rows(),
        final(storage).employee_rows() == old(storage).employee_rows(),
        final(storage).task_rows() == old(storage).task_rows(),
        r is Ok <==> has_scoped(old(storage).event_rows(), id@, client_id@),
        r is Err ==> (r matches Err(AppError::NotFound(m)) && m@ == "Event not found"@),
        r is Err ==> final(storage).event_rows() == old(storage).event_rows(),
        r is Ok ==> exists|i: int|
            0 <= i < old(storage).event_rows().len() && scoped_match(old(storage).event_rows()[i], id@, client_id@)
                && final(storage).event_rows() == old(storage).event_rows().remove(i),
{
    match storage.delete_event(id, client_id) {
        Ok(n) => {
            if n > 0 {
                Ok(())
            } else {
                Err(AppError::NotFound("Event not found".to_owned()))
            }
        },
        Err(e) => Err(e),
    }
}

} // verus!
