use vstd::prelude::*;
use crate::models::{Client, Employee, Event, Task};
use crate::session::{bearer_prefix, header_token, strip_bearer};
use crate::text::text_le;
use crate::ids::{is_lower_hex, is_uuid_v4_text};
use crate::rows::{has_scoped, ids_unique, owned_by, scoped_match, table_wf, Row};
use crate::storage::{has_username, stats_of};
use crate::rows::in_listing_order;

verus! {

/// Isolation: a row owned by one tenant is out of reach of every other
/// tenant. No scoped operation of another tenant matches it (so a delete or
/// update on its behalf affects no row), and it is not among the rows listed
/// for another tenant.
pub proof fn lemma_isolation<R: Row>(rows: Seq<R>, i: int, other: Seq<char>)
    requires
        table_wf(rows),
        0 <= i < rows.len(),
        rows[i].row_owner() != other,
    ensures
        !has_scoped(rows, rows[i].row_id(), other),
        !owned_by(rows, other).contains(rows[i]),
{
    if has_scoped(rows, rows[i].row_id(), other) {
        let j = choose|j: int| 0 <= j < rows.len() && scoped_match(#[trigger] rows[j], rows[i].row_id(), other);
        assert(ids_unique(rows));
        assert(i != j);
        assert(rows[i].row_id() != rows[j].row_id());
    }
    if owned_by(rows, other).contains(rows[i]) {
        let f = owned_by(rows, other);
        let k = choose|k: int| 0 <= k < f.len() && f[k] == rows[i];
        rows.lemma_filter_pred(|r: R| r.row_owner() == other, k);
    }
}

/// Round trip: a row just added to a table is listed, unchanged, for the
/// tenant that owns it.
pub proof fn lemma_created_row_listed<R: Row>(before: Seq<R>, p: int, row: R)
    requires
        0 <= p <= before.len(),
    ensures
        owned_by(before.insert(p, row), row.row_owner()).contains(row),
{
    let after = before.insert(p, row);
    assert(after[p] == row);
    after.lemma_filter_contains(|r: R| r.row_owner() == row.row_owner(), p);
}

/// Deleting twice: the row `id` of `tenant` matches a scoped delete before
/// it goes, and nothing matches once it has gone, so the first delete
/// affects one row and the second none.
pub proof fn lemma_delete_idempotent<R: Row>(rows: Seq<R>, i: int, id: Seq<char>, tenant: Seq<char>)
    requires
        table_wf(rows),
        0 <= i < rows.len(),
        scoped_match(rows[i], id, tenant),
    ensures
        has_scoped(rows, id, tenant),
        !has_scoped(rows.remove(i), id, tenant),
{
    let after = rows.remove(i);
    if has_scoped(after, id, tenant) {
        let j = choose|j: int| 0 <= j < after.len() && scoped_match(#[trigger] after[j], id, tenant);
        let jj = if j < i { j } else { j + 1 };
        assert(after[j] == rows[jj]);
        assert(ids_unique(rows));
        assert(rows[i].row_id() != rows[jj].row_id());
    }
}

/// Uniqueness: once a client is stored, its login name is taken, so a
/// second client with that name is refused and the first stays as it was.
pub proof fn lemma_username_taken_after_create(rows: Seq<Client>, client: Client)
    ensures
        has_username(rows.push(client), client.username@),
{
    assert(rows.push(client)[rows.len() as int] == client);
}

proof fn lemma_owned_single<R: Row>(row: R, tenant: Seq<char>)
    requires
        row.row_owner() != tenant,
    ensures
        owned_by(seq![row], tenant) == Seq::<R>::empty(),
{
    reveal(Seq::filter);
    assert(seq![row].drop_last() =~= Seq::<R>::empty());
    assert(seq![row].last() == row);
    assert(owned_by(Seq::<R>::empty(), tenant) == Seq::<R>::empty());
    assert(owned_by(seq![row], tenant) == owned_by(seq![row].drop_last(), tenant));
}

/// Adding a row owned by another tenant leaves the rows `tenant` sees
/// unchanged.
pub proof fn lemma_other_tenant_insert_invisible<R: Row>(rows: Seq<R>, p: int, row: R, tenant: Seq<char>)
    requires
        0 <= p <= rows.len(),
        row.row_owner() != tenant,
    ensures
        owned_by(rows.insert(p, row), tenant) == owned_by(rows, tenant),
{
    let a = rows.subrange(0, p);
    let b = rows.subrange(p, rows.len() as int);
    let pred = |r: R| r.row_owner() == tenant;
    assert(rows.insert(p, row) =~= a + seq![row] + b);
    assert(rows =~= a + b);
    Seq::filter_distributes_over_add(a + seq![row], b, pred);
    Seq::filter_distributes_over_add(a, seq![row], pred);
    Seq::filter_distributes_over_add(a, b, pred);
    lemma_owned_single(row, tenant);
    assert(owned_by(a, tenant) + Seq::<R>::empty() =~= owned_by(a, tenant));
}

/// Removing a row owned by another tenant leaves the rows `tenant` sees
/// unchanged.
pub proof fn lemma_other_tenant_remove_invisible<R: Row>(rows: Seq<R>, i: int, tenant: Seq<char>)
    requires
        0 <= i < rows.len(),
        rows[i].row_owner() != tenant,
    ensures
        owned_by(rows.remove(i), tenant) == owned_by(rows, tenant),
{
    let rest = rows.remove(i);
    assert(rest.insert(i, rows[i]) =~= rows);
    lemma_other_tenant_insert_invisible(rest, i, rows[i], tenant);
}

/// Changing a row of another tenant, without moving it to `tenant`, leaves
/// the rows `tenant` sees unchanged.
pub proof fn lemma_other_tenant_update_invisible<R: Row>(rows: Seq<R>, i: int, row: R, tenant: Seq<char>)
    requires
        0 <= i < rows.len(),
        rows[i].row_owner() != tenant,
        row.row_owner() != tenant,
    ensures
        owned_by(rows.update(i, row), tenant) == owned_by(rows, tenant),
{
    lemma_other_tenant_remove_invisible(rows, i, tenant);
    assert(rows.remove(i).insert(i, row) =~= rows.update(i, row));
    lemma_other_tenant_insert_invisible(rows.remove(i), i, row, tenant);
}

/// A tenant's dashboard figures depend on its own rows alone: stores that
/// agree on the rows `tenant` owns give it the same figures, whatever rows
/// of other tenants they hold.
pub proof fn lemma_stats_depend_on_own_rows(
    employees1: Seq<Employee>,
    tasks1: Seq<Task>,
    events1: Seq<Event>,
    employees2: Seq<Employee>,
    tasks2: Seq<Task>,
    events2: Seq<Event>,
    tenant: Seq<char>,
)
    requires
        owned_by(employees1, tenant) == owned_by(employees2, tenant),
        owned_by(tasks1, tenant) == owned_by(tasks2, tenant),
        owned_by(events1, tenant) == owned_by(events2, tenant),
    ensures
        stats_of(employees1, tasks1, events1, tenant) == stats_of(employees2, tasks2, events2, tenant),
{
}

/// Tasks listed in order come newest first: of two tasks with different
/// creation times, the one listed earlier was created later.
pub proof fn lemma_tasks_newest_first(tasks: Seq<Task>, i: int, j: int)
    requires
        in_listing_order(tasks),
        0 <= i < j < tasks.len(),
        tasks[i].created_at != tasks[j].created_at,
    ensures
        tasks[i].created_at > tasks[j].created_at,
{
    assert(tasks[i].listed_before(&tasks[j]));
}

/// Employees listed in order come by name: an employee listed earlier has a
/// name no later in byte order than one listed after it.
pub proof fn lemma_employees_by_name(employees: Seq<Employee>, i: int, j: int)
    requires
        in_listing_order(employees),
        0 <= i < j < employees.len(),
    ensures
        text_le(employees[i].name@, employees[j].name@),
{
    assert(employees[i].listed_before(&employees[j]));
}

/// A token that does not start with `B` travels through a bearer
/// `Authorization` header unchanged.
pub proof fn lemma_bearer_header_round_trip(token: Seq<char>)
    requires
        token.len() > 0 ==> token[0] != 'B',
    ensures
        header_token(bearer_prefix() + token) == Some(token),
{
    let h = bearer_prefix() + token;
    assert(h.subrange(0, 7) =~= bearer_prefix());
    assert(h.subrange(7, h.len() as int) =~= token);
    if token.len() >= 7 && token.subrange(0, 7) == bearer_prefix() {
        assert(token.subrange(0, 7)[0] == token[0]);
    }
    assert(strip_bearer(token) == token);
    assert(strip_bearer(h) == strip_bearer(token));
}

/// A session token handed out at login travels through a bearer
/// `Authorization` header unchanged: it starts with a hex digit, never `B`.
pub proof fn lemma_session_token_in_header(token: Seq<char>)
    requires
        token.len() >= 36,
        is_uuid_v4_text(token.subrange(0, 36)),
    ensures
        header_token(bearer_prefix() + token) == Some(token),
{
    assert(token.subrange(0, 36)[0] == token[0]);
    assert(is_lower_hex(token[0]));
    lemma_bearer_header_round_trip(token);
}

/// Ordering of three tasks: a listing that holds exactly tasks created at
/// times `t1 < t2 < t3` gives them as `[t3, t2, t1]`.
pub proof fn lemma_three_tasks_newest_first(listed: Seq<Task>, first: Task, second: Task, third: Task)
    requires
        in_listing_order(listed),
        listed.len() == 3,
        listed.contains(first),
        listed.contains(second),
        listed.contains(third),
        first.created_at < second.created_at,
        second.created_at < third.created_at,
    ensures
        listed == seq![third, second, first],
{
    let i1 = choose|i: int| 0 <= i < 3 && listed[i] == first;
    let i2 = choose|i: int| 0 <= i < 3 && listed[i] == second;
    let i3 = choose|i: int| 0 <= i < 3 && listed[i] == third;
    if i1 < i2 {
        assert(listed[i1].listed_before(&listed[i2]));
    }
    if i2 < i3 {
        assert(listed[i2].listed_before(&listed[i3]));
    }
    if i1 < i3 {
        assert(listed[i1].listed_before(&listed[i3]));
    }
    assert(i3 == 0 && i2 == 1 && i1 == 2);
    assert(listed =~= seq![third, second, first]);
}

} // verus!
