use vstd::prelude::*;

verus! {

/// A row of a tenant-owned table: it has an identifier, an owning tenant,
/// and a place in the order in which its table is listed.
pub trait Row: Sized {
    /// The row's primary identifier.
    spec fn row_id(&self) -> Seq<char>;

    /// The identifier of the tenant that owns the row.
    spec fn row_owner(&self) -> Seq<char>;

    /// Whether `self` may be listed before `other`.
    spec fn listed_before(&self, other: &Self) -> bool;

    proof fn lemma_listed_before_total(a: &Self, b: &Self)
        ensures
            a.listed_before(b) || b.listed_before(a),
    ;

    proof fn lemma_listed_before_trans(a: &Self, b: &Self, c: &Self)
        requires
            a.listed_before(b),
            b.listed_before(c),
        ensures
            a.listed_before(c),
    ;

    fn id_text(&self) -> (r: &str)
        ensures
            r@ == self.row_id(),
    ;

    fn owner_text(&self) -> (r: &str)
        ensures
            r@ == self.row_owner(),
    ;

    fn comes_before(&self, other: &Self) -> (r: bool)
        ensures
            r == self.listed_before(other),
    ;

    fn duplicate(&self) -> (r: Self)
        ensures
            r == *self,
    ;
}

/// The rows of `rows` that `tenant` owns, in table order.
pub open spec fn owned_by<R: Row>(rows: Seq<R>, tenant: Seq<char>) -> Seq<R> {
    rows.filter(|r: R| r.row_owner() == tenant)
}

/// Whether `r` is the row with identifier `id` owned by `tenant`.
pub open spec fn scoped_match<R: Row>(r: R, id: Seq<char>, tenant: Seq<char>) -> bool {
    r.row_id() == id && r.row_owner() == tenant
}

/// Whether some row of `rows` is the row `id` owned by `tenant`.
pub open spec fn has_scoped<R: Row>(rows: Seq<R>, id: Seq<char>, tenant: Seq<char>) -> bool {
    exists|i: int| 0 <= i < rows.len() && scoped_match(#[trigger] rows[i], id, tenant)
}

/// Whether some row of `rows` has identifier `id`.
pub open spec fn has_id<R: Row>(rows: Seq<R>, id: Seq<char>) -> bool {
    exists|i: int| 0 <= i < rows.len() && (#[trigger] rows[i]).row_id() == id
}

/// Whether the rows stand in listing order.
pub open spec fn in_listing_order<R: Row>(rows: Seq<R>) -> bool {
    forall|i: int, j: int|
        #![trigger rows[i], rows[j]]
        0 <= i < j < rows.len() ==> rows[i].listed_before(&rows[j])
}

/// Whether no two rows share an identifier.
pub open spec fn ids_unique<R: Row>(rows: Seq<R>) -> bool {
    forall|i: int, j: int|
        0 <= i < rows.len() && 0 <= j < rows.len() && i != j ==> (#[trigger] rows[i]).row_id()
            != (#[trigger] rows[j]).row_id()
}

/// A well-formed table: in listing order, identifiers unique.
pub open spec fn table_wf<R: Row>(rows: Seq<R>) -> bool {
    in_listing_order(rows) && ids_unique(rows)
}

proof fn lemma_owned_bounded<R: Row>(rows: Seq<R>, tenant: Seq<char>, x: R)
    requires
        forall|i: int| 0 <= i < rows.len() ==> (#[trigger] rows[i]).listed_before(&x),
    ensures
        forall|k: int|
            0 <= k < owned_by(rows, tenant).len() ==> (#[trigger] owned_by(rows, tenant)[k]).listed_before(&x),
    decreases rows.len(),
{
    reveal(Seq::filter);
    if rows.len() > 0 {
        let d = rows.drop_last();
        assert forall|i: int| 0 <= i < d.len() implies (#[trigger] d[i]).listed_before(&x) by {
            assert(d[i] == rows[i]);
        }
        lemma_owned_bounded(d, tenant, x);
        let fd = owned_by(d, tenant);
        let f = owned_by(rows, tenant);
        assert(rows.last() == rows[rows.len() - 1]);
        assert forall|k: int| 0 <= k < f.len() implies (#[trigger] f[k]).listed_before(&x) by {
            if k < fd.len() {
                assert(f[k] == fd[k]);
            }
        }
    }
}

/// The rows a tenant owns keep the table's listing order.
pub proof fn lemma_owned_in_order<R: Row>(rows: Seq<R>, tenant: Seq<char>)
    requires
        in_listing_order(rows),
    ensures
        in_listing_order(owned_by(rows, tenant)),
    decreases rows.len(),
{
    reveal(Seq::filter);
    if rows.len() > 0 {
        let d = rows.drop_last();
        let last = rows.last();
        assert forall|i: int, j: int|
            #![trigger d[i], d[j]]
            0 <= i < j < d.len() implies d[i].listed_before(&d[j]) by {
            assert(d[i] == rows[i] && d[j] == rows[j]);
        }
        lemma_owned_in_order(d, tenant);
        assert forall|i: int| 0 <= i < d.len() implies (#[trigger] d[i]).listed_before(&last) by {
            assert(d[i] == rows[i] && last == rows[rows.len() - 1]);
        }
        lemma_owned_bounded(d, tenant, last);
        let fd = owned_by(d, tenant);
        let f = owned_by(rows, tenant);
        assert forall|i: int, j: int|
            #![trigger f[i], f[j]]
            0 <= i < j < f.len() implies f[i].listed_before(&f[j]) by {
            if j < fd.len() {
                assert(f[i] == fd[i] && f[j] == fd[j]);
            } else {
                assert(f[i] == fd[i] && f[j] == last);
            }
        }
    }
}

/// The rows that `tenant` owns, copied out in table order.
pub fn rows_owned_by<R: Row>(rows: &Vec<R>, tenant: &str) -> (r: Vec<R>)
    ensures
        r@ == owned_by(rows@, tenant@),
{
    let mut out: Vec<R> = Vec::new();
    let mut i: usize = 0;
    while i < rows.len()
        invariant
            0 <= i <= rows@.len(),
            out@ == owned_by(rows@.subrange(0, i as int), tenant@),
        decreases rows@.len() - i,
    {
        let ghost pre = rows@.subrange(0, i as int);
        let ghost next = rows@.subrange(0, i + 1);
        assert(next.drop_last() =~= pre);
        assert(next.last() == rows@[i as int]);
        reveal(Seq::filter);
        if crate::text::text_eq(rows[i].owner_text(), tenant) {
            out.push(rows[i].duplicate());
        }
        i = i + 1;
    }
    assert(rows@.subrange(0, rows@.len() as int) =~= rows@);
    out
}

/// The position of the row `id` owned by `tenant`, if there is one.
pub fn find_scoped<R: Row>(rows: &Vec<R>, id: &str, tenant: &str) -> (r: Option<usize>)
    ensures
        match r {
            Some(i) => i < rows@.len() && scoped_match(rows@[i as int], id@, tenant@),
            None => !has_scoped(rows@, id@, tenant@),
        },
{
    let mut i: usize = 0;
    while i < rows.len()
        invariant
            0 <= i <= rows@.len(),
            forall|k: int| 0 <= k < i ==> !scoped_match(#[trigger] rows@[k], id@, tenant@),
        decreases rows@.len() - i,
    {
        if crate::text::text_eq(rows[i].id_text(), id) && crate::text::text_eq(
            rows[i].owner_text(),
            tenant,
        ) {
            return Some(i);
        }
        i = i + 1;
    }
    None
}

/// Whether some row has identifier `id`.
pub fn contains_id<R: Row>(rows: &Vec<R>, id: &str) -> (r: bool)
    ensures
        r == has_id(rows@, id@),
{
    let mut i: usize = 0;
    while i < rows.len()
        invariant
            0 <= i <= rows@.len(),
            forall|k: int| 0 <= k < i ==> (#[trigger] rows@[k]).row_id() != id@,
        decreases rows@.len() - i,
    {
        if crate::text::text_eq(rows[i].id_text(), id) {
            return true;
        }
        i = i + 1;
    }
    false
}

/// The place where `row` goes in a table in listing order: after every row
/// it may follow, before the first one it may not.
pub fn insertion_point<R: Row>(rows: &Vec<R>, row: &R) -> (r: usize)
    requires
        in_listing_order(rows@),
    ensures
        r <= rows@.len(),
        forall|k: int| 0 <= k < r ==> (#[trigger] rows@[k]).listed_before(row),
        forall|k: int| #![trigger rows@[k]] r <= k < rows@.len() ==> row.listed_before(&rows@[k]),
{
    let mut i: usize = 0;
    while i < rows.len()
        invariant
            0 <= i <= rows@.len(),
            in_listing_order(rows@),
            forall|k: int| 0 <= k < i ==> (#[trigger] rows@[k]).listed_before(row),
        decreases rows@.len() - i,
    {
        if !rows[i].comes_before(row) {
            proof {
                R::lemma_listed_before_total(&rows@[i as int], row);
                assert forall|k: int| i <= k < rows@.len() implies row.listed_before(
                    &rows@[k],
                ) by {
                    if k > i {
                        assert(rows@[i as int].listed_before(&rows@[k]));
                        R::lemma_listed_before_trans(row, &rows@[i as int], &rows@[k]);
                    }
                }
            }
            return i;
        }
        i = i + 1;
    }
    i
}

/// Adds a row with a fresh identifier at its place in listing order.
pub fn insert_in_order<R: Row>(rows: &mut Vec<R>, row: R)
    requires
        table_wf(old(rows)@),
        !has_id(old(rows)@, row.row_id()),
    ensures
        table_wf(final(rows)@),
        exists|p: int| 0 <= p <= old(rows)@.len() && final(rows)@ == old(rows)@.insert(p, row),
{
    let p: usize = insertion_point(rows, &row);
    let ghost before = rows@;
    rows.insert(p, row);
    proof {
        let after = rows@;
        assert forall|i: int, j: int|
            #![trigger after[i], after[j]]
            0 <= i < j < after.len() implies after[i].listed_before(&after[j]) by {
            if i < p && j == p {
            } else if i == p && j > p {
                assert(after[j] == before[j - 1]);
            } else if i < p && j > p {
                assert(after[j] == before[j - 1]);
            } else if j < p {
            } else {
                assert(after[i] == before[i - 1] && after[j] == before[j - 1]);
            }
        }
        assert forall|i: int, j: int|
            0 <= i < after.len() && 0 <= j < after.len() && i != j implies (#[trigger] after[i]).row_id()
            != (#[trigger] after[j]).row_id() by {
            if i == p {
                let jj = if j < p { j } else { j - 1 };
                assert(after[j] == before[jj]);
            } else if j == p {
                let ii = if i < p { i } else { i - 1 };
                assert(after[i] == before[ii]);
            } else {
                let ii = if i < p { i } else { i - 1 };
                let jj = if j < p { j } else { j - 1 };
                assert(after[i] == before[ii] && after[j] == before[jj]);
            }
        }
    }
}

/// Deletes the row `id` owned by `tenant`, if there is one, and returns how
/// many rows went (0 or 1).
pub fn remove_scoped<R: Row>(rows: &mut Vec<R>, id: &str, tenant: &str) -> (r: usize)
    requires
        table_wf(old(rows)@),
    ensures
        table_wf(final(rows)@),
        r == 1 <==> has_scoped(old(rows)@, id@, tenant@),
        r == 0 <==> !has_scoped(old(rows)@, id@, tenant@),
        r == 0 ==> final(rows)@ == old(rows)@,
        r == 1 ==> exists|i: int|
            0 <= i < old(rows)@.len() && scoped_match(old(rows)@[i], id@, tenant@) && final(rows)@
                == old(rows)@.remove(i),
{
    match find_scoped(rows, id, tenant) {
        Some(i) => {
            let ghost before = rows@;
            rows.remove(i);
            proof {
                let after = rows@;
                assert forall|a: int, b: int|
                    #![trigger after[a], after[b]]
                    0 <= a < b < after.len() implies after[a].listed_before(&after[b]) by {
                    let aa = if a < i { a } else { a + 1 };
                    let bb = if b < i { b } else { b + 1 };
                    assert(after[a] == before[aa] && after[b] == before[bb]);
                }
                assert forall|a: int, b: int|
                    0 <= a < after.len() && 0 <= b < after.len() && a != b implies (#[trigger] after[a]).row_id()
                    != (#[trigger] after[b]).row_id() by {
                    let aa = if a < i { a } else { a + 1 };
                    let bb = if b < i { b } else { b + 1 };
                    assert(after[a] == before[aa] && after[b] == before[bb]);
                }
                assert(scoped_match(before[i as int], id@, tenant@));
            }
            1
        },
        None => 0,
    }
}

} // verus!
