use vstd::prelude::*;
use crate::models::{AppError, Client, DashboardStats, Employee, Event, Task};
use crate::rows::{
    find_scoped, has_id, has_scoped, insert_in_order, in_listing_order, lemma_owned_in_order,
    owned_by, remove_scoped, rows_owned_by, scoped_match, table_wf, contains_id, Row,
};
use crate::text::text_eq;

verus! {

/// Whether some client of `rows` has login name `name`.
pub open spec fn has_username(rows: Seq<Client>, name: Seq<char>) -> bool {
    exists|i: int| 0 <= i < rows.len() && (#[trigger] rows[i]).username@ == name
}

/// Whether some client of `rows` has identifier `id`.
pub open spec fn has_client_id(rows: Seq<Client>, id: Seq<char>) -> bool {
    exists|i: int| 0 <= i < rows.len() && (#[trigger] rows[i]).id@ == id
}

/// No two clients share a login name or an identifier.
pub open spec fn clients_unique(rows: Seq<Client>) -> bool {
    forall|i: int, j: int|
        #![trigger rows[i], rows[j]]
        0 <= i < rows.len() && 0 <= j < rows.len() && i != j ==> rows[i].username@ != rows[j].username@
            && rows[i].id@ != rows[j].id@
}

/// Sum of the salaries of `rows`, in cents.
pub open spec fn salary_total(rows: Seq<Employee>) -> int
    decreases rows.len(),
{
    if rows.len() == 0 {
        0
    } else {
        salary_total(rows.drop_last()) + rows.last().salary_cents
    }
}

/// Number of tasks of `rows` not yet done.
pub open spec fn pending_count(rows: Seq<Task>) -> int
    decreases rows.len(),
{
    if rows.len() == 0 {
        0
    } else {
        pending_count(rows.drop_last()) + if rows.last().done { 0int } else { 1int }
    }
}

/// `e` with its paid flag set to `paid`.
pub open spec fn with_paid(e: Employee, paid: bool) -> Employee {
    Employee { paid, ..e }
}

/// `t` with its done flag set to `done`.
pub open spec fn with_done(t: Task, done: bool) -> Task {
    Task { done, ..t }
}

/// The dashboard figures of `tenant` over the given tables.
pub open spec fn stats_of(
    employees: Seq<Employee>,
    tasks: Seq<Task>,
    events: Seq<Event>,
    tenant: Seq<char>,
) -> DashboardStats {
    DashboardStats {
        total_employees: owned_by(employees, tenant).len() as u64,
        monthly_payroll_cents: salary_total(owned_by(employees, tenant)) as u128,
        active_tasks: pending_count(owned_by(tasks, tenant)) as u64,
        total_events: owned_by(events, tenant).len() as u64,
    }
}

/// The store of clients, employees, tasks and events. Every operation on
/// employees, tasks or events names the tenant it acts for and touches only
/// rows that tenant owns.
pub struct Storage {
    db_path: String,
    clients: Vec<Client>,
    employees: Vec<Employee>,
    tasks: Vec<Task>,
    events: Vec<Event>,
}

impl Storage {
    pub closed spec fn path(&self) -> Seq<char> {
        self.db_path@
    }

    pub closed spec fn client_rows(&self) -> Seq<Client> {
        self.clients@
    }

    /// Employees, by name.
    pub closed spec fn employee_rows(&self) -> Seq<Employee> {
        self.employees@
    }

    /// Tasks, newest first.
    pub closed spec fn task_rows(&self) -> Seq<Task> {
        self.tasks@
    }

    /// Events, by start date.
    pub closed spec fn event_rows(&self) -> Seq<Event> {
        self.events@
    }

    /// Each table keeps its listing order and unique keys.
    pub open spec fn wf(&self) -> bool {
        &&& clients_unique(self.client_rows())
        &&& table_wf(self.employee_rows())
        &&& table_wf(self.task_rows())
        &&& table_wf(self.event_rows())
    }

    /// An empty store for the database at `path`.
    pub fn new(path: &str) -> (r: Self)
        ensures
            r.wf(),
            r.path() == path@,
            r.client_rows().len() == 0,
            r.employee_rows().len() == 0,
            r.task_rows().len() == 0,
            r.event_rows().len() == 0,
    {
        Storage {
            db_path: path.to_string(),
            clients: Vec::new(),
            employees: Vec::new(),
            tasks: Vec::new(),
            events: Vec::new(),
        }
    }

    /// Where the store is kept.
    pub fn db_path(&self) -> (r: &str)
        ensures
            r@ == self.path(),
    {
        self.db_path.as_str()
    }

    fn username_taken(&self, name: &str) -> (r: bool)
        ensures
            r == has_username(self.client_rows(), name@),
    {
        let mut i: usize = 0;
        while i < self.clients.len()
            invariant
                0 <= i <= self.clients@.len(),
                forall|k: int| 0 <= k < i ==> (#[trigger] self.clients@[k]).username@ != name@,
            decreases self.clients@.len() - i,
        {
            if text_eq(self.clients[i].username.as_str(), name) {
                return true;
            }
            i = i + 1;
        }
        false
    }

    fn client_id_taken(&self, id: &str) -> (r: bool)
        ensures
            r == has_client_id(self.client_rows(), id@),
    {
        let mut i: usize = 0;
        while i < self.clients.len()
            invariant
                0 <= i <= self.clients@.len(),
                forall|k: int| 0 <= k < i ==> (#[trigger] self.clients@[k]).id@ != id@,
            decreases self.clients@.len() - i,
        {
            if text_eq(self.clients[i].id.as_str(), id) {
                return true;
            }
            i = i + 1;
        }
        false
    }

    /// Adds a client. A login name already in use is a constraint
    /// violation, and so is an identifier already in use.
    pub fn create_client(&mut self, client: &Client) -> (r: Result<(), AppError>)
        requires
            old(self).wf(),
        ensures
            final(self).wf(),
            final(self).path() == old(self).path(),
            final(self).employee_rows() == old(self).employee_rows(),
            final(self).task_rows() == old(self).task_rows(),
            final(self).event_rows() == old(self).event_rows(),
            has_username(old(self).client_rows(), client.username@) ==> r matches Err(
                AppError::ConstraintViolation(_),
            ),
            !has_username(old(self).client_rows(), client.username@) && has_client_id(
                old(self).client_rows(),
                client.id@,
            ) ==> r matches Err(AppError::ConstraintViolation(_)),
            r is Ok <==> !has_username(old(self).client_rows(), client.username@) && !has_client_id(
                old(self).client_rows(),
                client.id@,
            ),
            r is Ok ==> final(self).client_rows() == old(self).client_rows().push(*client),
            r is Err ==> final(self).client_rows() == old(self).client_rows(),
    {
        if self.username_taken(client.username.as_str()) {
            return Err(AppError::ConstraintViolation("login name already in use".to_string()));
        }
        if self.client_id_taken(client.id.as_str()) {
            return Err(AppError::ConstraintViolation("client id already in use".to_string()));
        }
        let ghost before = self.clients@;
        self.clients.push(client.duplicate());
        proof {
            let after = self.clients@;
            assert forall|i: int, j: int|
                #![trigger after[i], after[j]]
                0 <= i < after.len() && 0 <= j < after.len() && i != j implies after[i].username@
                != after[j].username@ && after[i].id@ != after[j].id@ by {
                if i < before.len() && j < before.len() {
                    assert(after[i] == before[i] && after[j] == before[j]);
                } else if i < before.len() {
                    assert(after[i] == before[i]);
                } else {
                    assert(after[j] == before[j]);
                }
            }
        }
        Ok(())
    }

    /// The client with login name `username`, if there is one.
    pub fn get_client_by_username(&self, username: &str) -> (r: Result<Option<Client>, AppError>)
        requires
            self.wf(),
        ensures
            match r {
                Ok(Some(c)) => has_username(self.client_rows(), username@) && exists|i: int|
                    0 <= i < self.client_rows().len() && self.client_rows()[i] == c
                        && c.username@ == username@,
                Ok(None) => !has_username(self.client_rows(), username@),
                Err(_) => false,
            },
    {
        let mut i: usize = 0;
        while i < self.clients.len()
            invariant
                0 <= i <= self.clients@.len(),
                forall|k: int| 0 <= k < i ==> (#[trigger] self.clients@[k]).username@ != username@,
            decreases self.clients@.len() - i,
        {
            if text_eq(self.clients[i].username.as_str(), username) {
                let c = self.clients[i].duplicate();
                assert(self.clients@[i as int] == c);
                return Ok(Some(c));
            }
            i = i + 1;
        }
        Ok(None)
    }
}


impl Storage {
    /// Adds an employee at its place in name order. An identifier already
    /// in use is a constraint violation.
    pub fn create_employee(&mut self, employee: &Employee) -> (r: Result<(), AppError>)
        requires
            old(self).wf(),
        ensures
            final(self).wf(),
            final(self).path() == old(self).path(),
            final(self).client_rows() == old(self).client_rows(),
            final(self).task_rows() == old(self).task_rows(),
            final(self).event_rows() == old(self).event_rows(),
            r is Ok <==> !has_id(old(self).employee_rows(), employee.id@),
            r is Err ==> (r matches Err(AppError::ConstraintViolation(_))),
            r is Err ==> final(self).employee_rows() == old(self).employee_rows(),
            r is Ok ==> exists|p: int|
                0 <= p <= old(self).employee_rows().len() && final(self).employee_rows()
                    == old(self).employee_rows().insert(p, *employee),
    {
        if contains_id(&self.employees, employee.id.as_str()) {
            return Err(AppError::ConstraintViolation("employee id already in use".to_string()));
        }
        insert_in_order(&mut self.employees, employee.duplicate());
        Ok(())
    }

    /// The employees `client_id` owns, by name.
    pub fn get_employees(&self, client_id: &str) -> (r: Result<Vec<Employee>, AppError>)
        requires
            self.wf(),
        ensures
            match r {
                Ok(v) => v@ == owned_by(self.employee_rows(), client_id@) && in_listing_order(v@),
                Err(_) => false,
            },
    {
        proof {
            lemma_owned_in_order(self.employees@, client_id@);
        }
        Ok(rows_owned_by(&self.employees, client_id))
    }

    /// Deletes the employee `id` if `client_id` owns it; returns how many
    /// rows went (0 or 1).
    pub fn delete_employee(&mut self, id: &str, client_id: &str) -> (r: Result<usize, AppError>)
        requires
            old(self).wf(),
        ensures
            final(self).wf(),
            final(self).path() == old(self).path(),
            final(self).client_rows() == old(self).client_rows(),
            final(self).task_rows() == old(self).task_rows(),
            final(self).event_rows() == old(self).event_rows(),
            match r {
                Ok(n) => {
                    &&& n == 1 <==> has_scoped(old(self).employee_rows(), id@, client_id@)
                    &&& n == 0 <==> !has_scoped(old(self).employee_rows(), id@, client_id@)
                    &&& n == 0 ==> final(self).employee_rows() == old(self).employee_rows()
                    &&& n == 1 ==> exists|i: int|
                        0 <= i < old(self).employee_rows().len() && scoped_match(
                            old(self).employee_rows()[i],
                            id@,
                            client_id@,
                        ) && final(self).employee_rows() == old(self).employee_rows().remove(i)
                },
                Err(_) => false,
            },
    {
        Ok(remove_scoped(&mut self.employees, id, client_id))
    }

    /// Sets the paid flag of employee `id` if `client_id` owns it; returns
    /// how many rows changed (0 or 1).
    pub fn update_employee_paid_status(&mut self, id: &str, client_id: &str, paid: bool) -> (r: Result<usize, AppError>)
        requires
            old(self).wf(),
        ensures
            final(self).wf(),
            final(self).path() == old(self).path(),
            final(self).client_rows() == old(self).client_rows(),
            final(self).task_rows() == old(self).task_rows(),
            final(self).event_rows() == old(self).event_rows(),
            match r {
                Ok(n) => {
                    &&& n == 1 <==> has_scoped(old(self).employee_rows(), id@, client_id@)
                    &&& n == 0 <==> !has_scoped(old(self).employee_rows(), id@, client_id@)
                    &&& n == 0 ==> final(self).employee_rows() == old(self).employee_rows()
                    &&& n == 1 ==> exists|i: int|
                        0 <= i < old(self).employee_rows().len() && scoped_match(
                            old(self).employee_rows()[i],
                            id@,
                            client_id@,
                        ) && final(self).employee_rows() == old(self).employee_rows().update(
                            i,
                            with_paid(old(self).employee_rows()[i], paid),
                        )
                },
                Err(_) => false,
            },
    {
        match find_scoped(&self.employees, id, client_id) {
            Some(i) => {
                let ghost before = self.employees@;
                let mut e = self.employees[i].duplicate();
                e.paid = paid;
                self.employees.set(i, e);
                proof {
                    let after = self.employees@;
                    assert forall|a: int, b: int|
                        #![trigger after[a], after[b]]
                        0 <= a < b < after.len() implies after[a].listed_before(&after[b]) by {
                        assert(before[a].listed_before(&before[b]));
                    }
                    assert forall|a: int, b: int|
                        0 <= a < after.len() && 0 <= b < after.len() && a != b implies (#[trigger] after[a]).row_id()
                        != (#[trigger] after[b]).row_id() by {
                        assert(before[a].row_id() != before[b].row_id());
                    }
                }
                Ok(1)
            },
            None => Ok(0),
        }
    }

    /// Adds a task at its place, newest first. An identifier already in use
    /// is a constraint violation.
    pub fn create_task(&mut self, task: &Task) -> (r: Result<(), AppError>)
        requires
            old(self).wf(),
        ensures
            final(self).wf(),
            final(self).path() == old(self).path(),
            final(self).client_rows() == old(self).client_rows(),
            final(self).employee_rows() == old(self).employee_rows(),
            final(self).event_rows() == old(self).event_rows(),
            r is Ok <==> !has_id(old(self).task_rows(), task.id@),
            r is Err ==> (r matches Err(AppError::ConstraintViolation(_))),
            r is Err ==> final(self).task_rows() == old(self).task_rows(),
            r is Ok ==> exists|p: int|
                0 <= p <= old(self).task_rows().len() && final(self).task_rows()
                    == old(self).task_rows().insert(p, *task),
    {
        if contains_id(&self.tasks, task.id.as_str()) {
            return Err(AppError::ConstraintViolation("task id already in use".to_string()));
        }
        insert_in_order(&mut self.tasks, task.duplicate());
        Ok(())
    }

    /// The tasks `client_id` owns, newest first.
    pub fn get_tasks(&self, client_id: &str) -> (r: Result<Vec<Task>, AppError>)
        requires
            self.wf(),
        ensures
            match r {
                Ok(v) => v@ == owned_by(self.task_rows(), client_id@) && in_listing_order(v@),
                Err(_) => false,
            },
    {
        proof {
            lemma_owned_in_order(self.tasks@, client_id@);
        }
        Ok(rows_owned_by(&self.tasks, client_id))
    }

    /// Sets the done flag of task `id` if `client_id` owns it; returns how
    /// many rows changed (0 or 1).
    pub fn update_task_status(&mut self, id: &str, client_id: &str, done: bool) -> (r: Result<usize, AppError>)
        requires
            old(self).wf(),
        ensures
            final(self).wf(),
            final(self).path() == old(self).path(),
            final(self).client_rows() == old(self).client_rows(),
            final(self).employee_rows() == old(self).employee_rows(),
            final(self).event_rows() == old(self).event_rows(),
            match r {
                Ok(n) => {
                    &&& n == 1 <==> has_scoped(old(self).task_rows(), id@, client_id@)
                    &&& n == 0 <==> !has_scoped(old(self).task_rows(), id@, client_id@)
                    &&& n == 0 ==> final(self).task_rows() == old(self).task_rows()
                    &&& n == 1 ==> exists|i: int|
                        0 <= i < old(self).task_rows().len() && scoped_match(
                            old(self).task_rows()[i],
                            id@,
                            client_id@,
                        ) && final(self).task_rows() == old(self).task_rows().update(
                            i,
                            with_done(old(self).task_rows()[i], done),
                        )
                },
                Err(_) => false,
            },
    {
        match find_scoped(&self.tasks, id, client_id) {
            Some(i) => {
                let ghost before = self.tasks@;
                let mut t = self.tasks[i].duplicate();
                t.done = done;
                self.tasks.set(i, t);
                proof {
                    let after = self.tasks@;
                    assert forall|a: int, b: int|
                        #![trigger after[a], after[b]]
                        0 <= a < b < after.len() implies after[a].listed_before(&after[b]) by {
                        assert(before[a].listed_before(&before[b]));
                    }
                    assert forall|a: int, b: int|
                        0 <= a < after.len() && 0 <= b < after.len() && a != b implies (#[trigger] after[a]).row_id()
                        != (#[trigger] after[b]).row_id() by {
                        assert(before[a].row_id() != before[b].row_id());
                    }
                }
                Ok(1)
            },
            None => Ok(0),
        }
    }

    /// Deletes the task `id` if `client_id` owns it; returns how many rows
    /// went (0 or 1).
    pub fn delete_task(&mut self, id: &str, client_id: &str) -> (r: Result<usize, AppError>)
        requires
            old(self).wf(),
        ensures
            final(self).wf(),
            final(self).path() == old(self).path(),
            final(self).client_rows() == old(self).client_rows(),
            final(self).employee_rows() == old(self).employee_rows(),
            final(self).event_rows() == old(self).event_rows(),
            match r {
                Ok(n) => {
                    &&& n == 1 <==> has_scoped(old(self).task_rows(), id@, client_id@)
                    &&& n == 0 <==> !has_scoped(old(self).task_rows(), id@, client_id@)
                    &&& n == 0 ==> final(self).task_rows() == old(self).task_rows()
                    &&& n == 1 ==> exists|i: int|
                        0 <= i < old(self).task_rows().len() && scoped_match(
                            old(self).task_rows()[i],
                            id@,
                            client_id@,
                        ) && final(self).task_rows() == old(self).task_rows().remove(i)
                },
                Err(_) => false,
            },
    {
        Ok(remove_scoped(&mut self.tasks, id, client_id))
    }

    /// Adds an event at its place in start-date order. An identifier
    /// already in use is a constraint violation.
    pub fn create_event(&mut self, event: &Event) -> (r: Result<(), AppError>)
        requires
            old(self).wf(),
        ensures
            final(self).wf(),
            final(self).path() == old(self).path(),
            final(self).client_rows() == old(self).client_rows(),
            final(self).employee_rows() == old(self).employee_rows(),
            final(self).task_rows() == old(self).task_rows(),
            r is Ok <==> !has_id(old(self).event_rows(), event.id@),
            r is Err ==> (r matches Err(AppError::ConstraintViolation(_))),
            r is Err ==> final(self).event_rows() == old(self).event_rows(),
            r is Ok ==> exists|p: int|
                0 <= p <= old(self).event_rows().len() && final(self).event_rows()
                    == old(self).event_rows().insert(p, *event),
    {
        if contains_id(&self.events, event.id.as_str()) {
            return Err(AppError::ConstraintViolation("event id already in use".to_string()));
        }
        insert_in_order(&mut self.events, event.duplicate());
        Ok(())
    }

    /// The events `client_id` owns, by start date.
    pub fn get_events(&self, client_id: &str) -> (r: Result<Vec<Event>, AppError>)
        requires
            self.wf(),
        ensures
            match r {
                Ok(v) => v@ == owned_by(self.event_rows(), client_id@) && in_listing_order(v@),
                Err(_) => false,
            },
    {
        proof {
            lemma_owned_in_order(self.events@, client_id@);
        }
        Ok(rows_owned_by(&self.events, client_id))
    }

    /// Deletes the event `id` if `client_id` owns it; returns how many rows
    /// went (0 or 1).
    pub fn delete_event(&mut self, id: &str, client_id: &str) -> (r: Result<usize, AppError>)
        requires
            old(self).wf(),
        ensures
            final(self).wf(),
            final(self).path() == old(self).path(),
            final(self).client_rows() == old(self).client_rows(),
            final(self).employee_rows() == old(self).employee_rows(),
            final(self).task_rows() == old(self).task_rows(),
            match r {
                Ok(n) => {
                    &&& n == 1 <==> has_scoped(old(self).event_rows(), id@, client_id@)
                    &&& n == 0 <==> !has_scoped(old(self).event_rows(), id@, client_id@)
                    &&& n == 0 ==> final(self).event_rows() == old(self).event_rows()
                    &&& n == 1 ==> exists|i: int|
                        0 <= i < old(self).event_rows().len() && scoped_match(
                            old(self).event_rows()[i],
                            id@,
                            client_id@,
                        ) && final(self).event_rows() == old(self).event_rows().remove(i)
                },
                Err(_) => false,
            },
    {
        Ok(remove_scoped(&mut self.events, id, client_id))
    }
}

/// Sum of the salaries of `rows`, in cents.
fn payroll_of(rows: &Vec<Employee>) -> (r: u128)
    ensures
        r as int == salary_total(rows@),
{
    let mut total: u128 = 0;
    let mut i: usize = 0;
    while i < rows.len()
        invariant
            0 <= i <= rows@.len(),
            total as int == salary_total(rows@.subrange(0, i as int)),
            total as int <= i as int * (u64::MAX as int),
        decreases rows@.len() - i,
    {
        let ghost next = rows@.subrange(0, i + 1);
        assert(next.drop_last() =~= rows@.subrange(0, i as int));
        let s: u64 = rows[i].salary_cents;
        proof {
            let ii = i as int;
            assert(ii + 1 <= usize::MAX + 1);
            assert((ii + 1) * (u64::MAX as int) <= (usize::MAX as int + 1) * (u64::MAX as int))
                by (nonlinear_arith)
                requires ii + 1 <= usize::MAX as int + 1, ii >= 0;
            assert(ii * (u64::MAX as int) + u64::MAX as int == (ii + 1) * (u64::MAX as int))
                by (nonlinear_arith);
        }
        total = total + s as u128;
        i = i + 1;
    }
    assert(rows@.subrange(0, rows@.len() as int) =~= rows@);
    total
}

/// Number of tasks of `rows` not yet done.
fn pending_of(rows: &Vec<Task>) -> (r: u64)
    ensures
        r as int == pending_count(rows@),
{
    let mut n: u64 = 0;
    let mut i: usize = 0;
    while i < rows.len()
        invariant
            0 <= i <= rows@.len(),
            n as int == pending_count(rows@.subrange(0, i as int)),
            n as int <= i as int,
        decreases rows@.len() - i,
    {
        let ghost next = rows@.subrange(0, i + 1);
        assert(next.drop_last() =~= rows@.subrange(0, i as int));
        if !rows[i].done {
            n = n + 1;
        }
        i = i + 1;
    }
    assert(rows@.subrange(0, rows@.len() as int) =~= rows@);
    n
}

impl Storage {
    /// The dashboard figures of `client_id`: how many employees it has,
    /// their salaries summed, how many of its tasks are not done, and how
    /// many events it has. Computed afresh from the rows on every call.
    pub fn get_dashboard_stats(&self, client_id: &str) -> (r: Result<DashboardStats, AppError>)
        requires
            self.wf(),
        ensures
            match r {
                Ok(s) => s == stats_of(
                    self.employee_rows(),
                    self.task_rows(),
                    self.event_rows(),
                    client_id@,
                ),
                Err(_) => false,
            },
    {
        let employees = rows_owned_by(&self.employees, client_id);
        let tasks = rows_owned_by(&self.tasks, client_id);
        let events = rows_owned_by(&self.events, client_id);
        let payroll: u128 = payroll_of(&employees);
        let pending: u64 = pending_of(&tasks);
        Ok(DashboardStats {
            total_employees: employees.len() as u64,
            monthly_payroll_cents: payroll,
            active_tasks: pending,
            total_events: events.len() as u64,
        })
    }
}

} // verus!
