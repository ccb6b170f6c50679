use vstd::prelude::*;

use crate::handlers::{
    complete, handle_request, payload_view, request_plan, response_of, Command, CommandView, Outcome,
    OutcomeView, Plan, PlanView, Response, ResponseView,
};
use crate::model::{User, UserView};

verus! {

/// A table of users as mathematical values: its rows in order, and the id the
/// next insert receives.
pub struct TableView {
    pub rows: Seq<UserView>,
    pub next: int,
}

/// Every row has an id between 1 and `next - 1`, and ids rise strictly from row to row.
pub open spec fn table_wf(t: TableView) -> bool {
    &&& 1 <= t.next <= i32::MAX + 1
    &&& forall|i: int|
        0 <= i < t.rows.len() ==> (#[trigger] t.rows[i]).id is Some && 1 <= t.rows[i].id->0 < t.next
    &&& forall|i: int, j: int|
        0 <= i < j < t.rows.len() ==> (#[trigger] t.rows[i]).id->0 < (#[trigger] t.rows[j]).id->0
}

/// The first index at or after `i` whose row has id `id`, or the number of rows.
pub open spec fn find_row(rows: Seq<UserView>, id: i32, i: int) -> int
    decreases rows.len() - i,
{
    if 0 <= i < rows.len() && rows[i].id != Some(id) {
        find_row(rows, id, i + 1)
    } else {
        i
    }
}

pub open spec fn has_row(rows: Seq<UserView>, id: i32) -> bool {
    exists|j: int| 0 <= j < rows.len() && (#[trigger] rows[j]).id == Some(id)
}

/// The rows that have id `id`: none or one.
pub open spec fn rows_with_id(rows: Seq<UserView>, id: i32) -> Seq<UserView> {
    let k = find_row(rows, id, 0);
    if k < rows.len() {
        seq![rows[k]]
    } else {
        Seq::empty()
    }
}

/// What running a command does to a table, and what it reports. An insert
/// fails once every positive `i32` id has been given out; an update or delete
/// of a missing id changes nothing and is still done.
pub open spec fn run(t: TableView, c: CommandView) -> (TableView, OutcomeView) {
    match c {
        CommandView::Insert { name, email } => if t.next <= i32::MAX {
            (
                TableView {
                    rows: t.rows.push(UserView { id: Some(t.next as i32), name, email }),
                    next: t.next + 1,
                },
                OutcomeView::Done,
            )
        } else {
            (t, OutcomeView::Failed)
        },
        CommandView::SelectOne { id } => (t, OutcomeView::Rows(rows_with_id(t.rows, id))),
        CommandView::SelectAll => (t, OutcomeView::Rows(t.rows)),
        CommandView::Update { id, name, email } => {
            let k = find_row(t.rows, id, 0);
            if k < t.rows.len() {
                (
                    TableView {
                        rows: t.rows.update(k, UserView { id: Some(id), name, email }),
                        next: t.next,
                    },
                    OutcomeView::Done,
                )
            } else {
                (t, OutcomeView::Done)
            }
        },
        CommandView::Delete { id } => {
            let k = find_row(t.rows, id, 0);
            if k < t.rows.len() {
                (TableView { rows: t.rows.remove(k), next: t.next }, OutcomeView::Done)
            } else {
                (t, OutcomeView::Done)
            }
        },
    }
}

pub proof fn lemma_find_row_bounds(rows: Seq<UserView>, id: i32, i: int)
    requires
        0 <= i <= rows.len(),
    ensures
        i <= find_row(rows, id, i) <= rows.len(),
        find_row(rows, id, i) < rows.len() ==> rows[find_row(rows, id, i)].id == Some(id),
        forall|j: int| i <= j < find_row(rows, id, i) ==> (#[trigger] rows[j]).id != Some(id),
    decreases rows.len() - i,
{
    if 0 <= i < rows.len() && rows[i].id != Some(id) {
        lemma_find_row_bounds(rows, id, i + 1);
    }
}

/// The first match is the only one where some row has the id.
pub proof fn lemma_find_row_exact(rows: Seq<UserView>, id: i32, k: int)
    requires
        0 <= k <= rows.len(),
        k < rows.len() ==> rows[k].id == Some(id),
        forall|j: int| 0 <= j < k ==> (#[trigger] rows[j]).id != Some(id),
    ensures
        find_row(rows, id, 0) == k,
{
    lemma_find_row_bounds(rows, id, 0);
    let f = find_row(rows, id, 0);
    if f < k {
        assert(rows[f].id != Some(id));
    } else if f > k {
        assert(rows[k].id != Some(id));
    }
}

/// A whole request served against a table: the table after it, and the answer.
pub open spec fn serve_spec(t: TableView, raw: Seq<char>, payload: Option<UserView>) -> (
    TableView,
    ResponseView,
) {
    match request_plan(raw, payload) {
        PlanView::Respond(r) => (t, r),
        PlanView::Run(c) => (run(t, c).0, response_of(c, run(t, c).1)),
    }
}

/// A table that holds its rows in memory and runs commands as `run` says.
/// It is the storage model that the laws of this crate speak of: they hold of
/// `run`, and so of this table, not of a database that a program runs the same
/// commands against.
pub struct UserTable {
    rows: Vec<User>,
    next_id: i64,
}

impl View for UserTable {
    type V = TableView;

    closed spec fn view(&self) -> TableView {
        TableView { rows: self.rows@.map_values(|u: User| u@), next: self.next_id as int }
    }
}

impl UserTable {
    pub open spec fn wf(&self) -> bool {
        table_wf(self@)
    }

    /// An empty table whose first insert receives id 1.
    pub fn new() -> (r: UserTable)
        ensures
            r.wf(),
            r@.rows.len() == 0,
            r@.next == 1,
    {
        let r = UserTable { rows: Vec::new(), next_id: 1 };
        assert(r@.rows =~= Seq::<UserView>::empty());
        r
    }

    /// The number of rows.
    pub fn len(&self) -> (r: usize)
        ensures
            r == self@.rows.len(),
    {
        self.rows.len()
    }

    fn position(&self, id: i32) -> (r: usize)
        ensures
            r == find_row(self@.rows, id, 0),
            r <= self@.rows.len(),
    {
        let ghost rows = self@.rows;
        let mut k: usize = 0;
        while k < self.rows.len() && self.rows[k].id != Some(id)
            invariant
                rows == self@.rows,
                rows == self.rows@.map_values(|u: User| u@),
                k <= self.rows@.len(),
                find_row(rows, id, k as int) == find_row(rows, id, 0),
            decreases self.rows@.len() - k,
        {
            assert(rows[k as int] == self.rows@[k as int]@);
            k = k + 1;
        }
        proof {
            if k < self.rows.len() {
                assert(rows[k as int] == self.rows@[k as int]@);
            }
        }
        k
    }

    /// Copies of all rows, in order.
    fn all_rows(&self) -> (r: Vec<User>)
        ensures
            r@.map_values(|u: User| u@) == self@.rows,
    {
        let mut r: Vec<User> = Vec::new();
        let mut i: usize = 0;
        while i < self.rows.len()
            invariant
                i <= self.rows@.len(),
                r@.len() == i,
                forall|j: int| 0 <= j < i ==> (#[trigger] r@[j])@ == self.rows@[j]@,
            decreases self.rows@.len() - i,
        {
            r.push(self.rows[i].duplicate());
            i = i + 1;
        }
        assert(r@.map_values(|u: User| u@) =~= self@.rows);
        r
    }

    /// Runs one command against the table.
    pub fn execute(&mut self, c: &Command) -> (o: Outcome)
        requires
            old(self).wf(),
        ensures
            final(self).wf(),
            (final(self)@, o@) == run(old(self)@, c@),
    {
        let ghost t = self@;
        match c {
            Command::Insert { name, email } => {
                if self.next_id > i32::MAX as i64 {
                    return Outcome::Failed;
                }
                self.rows.push(
                    User { id: Some(self.next_id as i32), name: name.clone(), email: email.clone() },
                );
                self.next_id = self.next_id + 1;
                assert(self@.rows =~= t.rows.push(
                    UserView { id: Some(t.next as i32), name: name@, email: email@ },
                ));
                Outcome::Done
            },
            Command::SelectOne { id } => {
                let k = self.position(*id);
                let mut v: Vec<User> = Vec::new();
                if k < self.rows.len() {
                    v.push(self.rows[k].duplicate());
                }
                assert(v@.map_values(|u: User| u@) =~= rows_with_id(t.rows, *id));
                Outcome::Rows(v)
            },
            Command::SelectAll => Outcome::Rows(self.all_rows()),
            Command::Update { id, name, email } => {
                let k = self.position(*id);
                proof {
                    lemma_find_row_bounds(t.rows, *id, 0);
                }
                if k < self.rows.len() {
                    self.rows.set(k, User { id: Some(*id), name: name.clone(), email: email.clone() });
                    assert(self@.rows =~= t.rows.update(
                        k as int,
                        UserView { id: Some(*id), name: name@, email: email@ },
                    ));
                }
                Outcome::Done
            },
            Command::Delete { id } => {
                let k = self.position(*id);
                if k < self.rows.len() {
                    self.rows.remove(k);
                    assert(self@.rows =~= t.rows.remove(k as int));
                }
                Outcome::Done
            },
        }
    }

    /// Serves one request: routes it, runs the command its handler chose, and answers.
    /// `payload` is what the request's body decoded to as a user, `None` where it did not.
    pub fn serve(&mut self, raw: &str, payload: Option<User>) -> (r: Response)
        requires
            old(self).wf(),
        ensures
            final(self).wf(),
            (final(self)@, r@) == serve_spec(old(self)@, raw@, payload_view(payload)),
    {
        match handle_request(raw, payload) {
            Plan::Respond(r) => r,
            Plan::Run(c) => {
                let o = self.execute(&c);
                complete(&c, &o)
            },
        }
    }
}

} // verus!
