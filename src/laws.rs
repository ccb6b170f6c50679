use vstd::prelude::*;

use crate::handlers::{
    answer, request_plan, response_of, route_of, CommandView, OutcomeView, PlanView, ResponseView,
    Route, Status,
};
use crate::json::{decimal_digit, int_text, nat_text, user_json_text, users_json_text};
use crate::model::UserView;
use crate::request::{
    line_end, path_id, all_digits, digit_value, digits_value, id_value, is_digit, request_method, request_path,
    unsigned_part,
};
use crate::text::{find_char, is_blank, skip_blanks, token_end};
use crate::store::{
    find_row, has_row, lemma_find_row_bounds, lemma_find_row_exact, rows_with_id, run, serve_spec,
    table_wf, TableView,
};

verus! {

/// The answer to reading one id from a table.
pub open spec fn read_one(t: TableView, id: i32) -> ResponseView {
    let c = CommandView::SelectOne { id };
    response_of(c, run(t, c).1)
}

/// How many records reading all of a table lists.
pub open spec fn read_all_count(t: TableView) -> int {
    match run(t, CommandView::SelectAll).1 {
        OutcomeView::Rows(rows) => rows.len() as int,
        _ => -1,
    }
}

/// A create that succeeds stores the payload under the id the table gave
/// out, and reading that id answers with exactly that record.
pub proof fn law_create_then_read(t: TableView, name: Seq<char>, email: Seq<char>)
    requires
        table_wf(t),
        t.next <= i32::MAX,
    ensures
        ({
            let (t2, o) = run(t, CommandView::Insert { name, email });
            let u = UserView { id: Some(t.next as i32), name, email };
            &&& o == OutcomeView::Done
            &&& run(t2, CommandView::SelectOne { id: t.next as i32 }).1 == OutcomeView::Rows(
                seq![u],
            )
            &&& read_one(t2, t.next as i32) == ResponseView {
                status: Status::Success,
                body: user_json_text(u),
            }
        }),
{
    let t2 = run(t, CommandView::Insert { name, email }).0;
    let id = t.next as i32;
    assert forall|j: int| 0 <= j < t.rows.len() implies (#[trigger] t2.rows[j]).id != Some(id) by {
        assert(t2.rows[j] == t.rows[j]);
    }
    lemma_find_row_exact(t2.rows, id, t.rows.len() as int);
}

/// Every successful create adds exactly one record to what reading all lists.
pub proof fn law_create_adds_one(t: TableView, name: Seq<char>, email: Seq<char>)
    requires
        table_wf(t),
    ensures
        run(t, CommandView::Insert { name, email }).1 == OutcomeView::Done ==> read_all_count(
            run(t, CommandView::Insert { name, email }).0,
        ) == read_all_count(t) + 1,
{
}

/// Deleting an id that a record has removes exactly one record from what
/// reading all lists.
pub proof fn law_delete_removes_one(t: TableView, id: i32)
    requires
        table_wf(t),
        has_row(t.rows, id),
    ensures
        run(t, CommandView::Delete { id }).1 == OutcomeView::Done,
        read_all_count(run(t, CommandView::Delete { id }).0) == read_all_count(t) - 1,
{
    lemma_find_row_bounds(t.rows, id, 0);
    let j = choose|j: int| 0 <= j < t.rows.len() && (#[trigger] t.rows[j]).id == Some(id);
    assert(find_row(t.rows, id, 0) <= j);
}

/// An update changes the record it targets, and reading any other id
/// answers as it did before.
pub proof fn law_update_only_target(
    t: TableView,
    id: i32,
    name: Seq<char>,
    email: Seq<char>,
    other: i32,
)
    requires
        table_wf(t),
        other != id,
    ensures
        ({
            let t2 = run(t, CommandView::Update { id, name, email }).0;
            &&& run(t2, CommandView::SelectOne { id: other }).1 == run(
                t,
                CommandView::SelectOne { id: other },
            ).1
            &&& read_one(t2, other) == read_one(t, other)
            &&& has_row(t.rows, id) ==> run(t2, CommandView::SelectOne { id }).1
                == OutcomeView::Rows(seq![UserView { id: Some(id), name, email }])
        }),
{
    let t2 = run(t, CommandView::Update { id, name, email }).0;
    let k = find_row(t.rows, id, 0);
    lemma_find_row_bounds(t.rows, id, 0);
    if k < t.rows.len() {
        assert forall|j: int| 0 <= j < t.rows.len() implies (#[trigger] t2.rows[j]).id
            == t.rows[j].id by {}
        let f = find_row(t.rows, other, 0);
        lemma_find_row_bounds(t.rows, other, 0);
        assert forall|j: int| 0 <= j < f implies (#[trigger] t2.rows[j]).id != Some(other) by {
            assert(t2.rows[j].id == t.rows[j].id);
        }
        lemma_find_row_exact(t2.rows, other, f);
        if f < t.rows.len() {
            assert(t2.rows[f] == t.rows[f]);
        }
        assert(rows_with_id(t2.rows, other) == rows_with_id(t.rows, other));
        assert forall|j: int| 0 <= j < k implies (#[trigger] t2.rows[j]).id != Some(id) by {
            assert(t2.rows[j].id == t.rows[j].id);
        }
        lemma_find_row_exact(t2.rows, id, k);
    } else {
        if has_row(t.rows, id) {
            let j = choose|j: int| 0 <= j < t.rows.len() && (#[trigger] t.rows[j]).id == Some(id);
            assert(t.rows[j].id != Some(id));
        }
    }
}

/// Reading an id that no record has answers "not found" with `User not found`.
pub proof fn law_read_missing(t: TableView, id: i32)
    requires
        !has_row(t.rows, id),
    ensures
        read_one(t, id) == (ResponseView { status: Status::NotFound, body: "User not found"@ }),
{
    lemma_find_row_bounds(t.rows, id, 0);
    let k = find_row(t.rows, id, 0);
    if k < t.rows.len() {
        assert(t.rows[k].id == Some(id));
    }
}

/// A request whose path does not start with `/users` is answered "not found"
/// with `Not Found`, whatever its method and body.
pub proof fn law_unknown_path_not_found(raw: Seq<char>, payload: Option<UserView>)
    requires
        !"/users"@.is_prefix_of(request_path(raw)),
    ensures
        request_plan(raw, payload) == answer(Status::NotFound, "Not Found"@),
{
    reveal_strlit("/users");
    reveal_strlit("/users/");
    let p = request_path(raw);
    if "/users/"@.is_prefix_of(p) {
        assert(p.subrange(0, 6) =~= "/users/"@.subrange(0, 6));
        assert("/users/"@.subrange(0, 6) =~= "/users"@);
    }
}

/// A create or update whose body did not decode is answered with an error
/// and leaves the table as it was.
pub proof fn law_malformed_payload_stores_nothing(t: TableView, raw: Seq<char>)
    requires
        route_of(request_method(raw), request_path(raw)) == Route::Create || route_of(
            request_method(raw),
            request_path(raw),
        ) == Route::Update,
    ensures
        serve_spec(t, raw, None) == (t, ResponseView { status: Status::ServerError, body: "Error"@ }),
{
}

/// GET on a path that starts with `/users/` reads one record, never all; GET
/// on `/users` without a trailing slash reads all, never one.
pub proof fn law_route_precedence(path: Seq<char>)
    ensures
        "/users/"@.is_prefix_of(path) ==> route_of("GET"@, path) == Route::ReadOne,
        "/users"@.is_prefix_of(path) && !"/users/"@.is_prefix_of(path) ==> route_of("GET"@, path)
            == Route::ReadAll,
{
    reveal_strlit("GET");
    reveal_strlit("POST");
    assert("GET"@.len() != "POST"@.len());
}

/// A GET request whose path starts with `/users/` is never planned as a read
/// of all records, and a GET of exactly `/users` never as a read of one.
pub proof fn law_request_precedence(raw: Seq<char>, payload: Option<UserView>)
    requires
        request_method(raw) == "GET"@,
    ensures
        "/users/"@.is_prefix_of(request_path(raw)) ==> request_plan(raw, payload)
            != PlanView::Run(CommandView::SelectAll),
        request_path(raw) == "/users"@ ==> request_plan(raw, payload) == PlanView::Run(
            CommandView::SelectAll,
        ),
{
    reveal_strlit("/users");
    reveal_strlit("/users/");
    law_route_precedence(request_path(raw));
    assert(!"/users/"@.is_prefix_of("/users"@));
    assert("/users"@.is_prefix_of("/users"@)) by {
        assert("/users"@.subrange(0, 6) =~= "/users"@);
    }
}

/// Every `i32`, written in decimal as storage ids are, reads back as itself.
pub proof fn law_id_text_round_trip(k: i32)
    ensures
        id_value(int_text(k as int)) == Some(k),
{
    let n: nat = if k < 0 {
        (-k) as nat
    } else {
        k as nat
    };
    lemma_nat_text_digits(n);
    let s = int_text(k as int);
    if k < 0 {
        assert(s[0] == '-');
        assert(unsigned_part(s) =~= nat_text(n));
    } else {
        let t = nat_text(n);
        assert(is_digit(t[0]));
        assert(unsigned_part(s) == t);
    }
}

proof fn lemma_nat_text_digits(n: nat)
    ensures
        nat_text(n).len() > 0,
        all_digits(nat_text(n)),
        digits_value(nat_text(n)) == n,
    decreases n,
{
    let d = (n % 10) as int;
    assert(is_digit(decimal_digit(d)) && digit_value(decimal_digit(d)) == d) by {
        assert(0 <= d < 10);
        if d == 0 {} else if d == 1 {} else if d == 2 {} else if d == 3 {} else if d == 4 {
        } else if d == 5 {} else if d == 6 {} else if d == 7 {} else if d == 8 {} else {}
    }
    if n < 10 {
        let t = nat_text(n);
        assert(t.drop_last() =~= Seq::<char>::empty());
        assert(t.last() == decimal_digit(d));
        assert(n % 10 == n);
        assert(digits_value(t) == digits_value(t.drop_last()) * 10 + digit_value(t.last()));
        assert(digits_value(Seq::<char>::empty()) == 0);
    } else {
        lemma_nat_text_digits(n / 10);
        let t = nat_text(n);
        let h = nat_text(n / 10);
        assert(t.drop_last() =~= h);
        assert(t.last() == decimal_digit(d));
        assert(digits_value(t) == digits_value(h) * 10 + d);
        assert(n == (n / 10) * 10 + n % 10) by (nonlinear_arith);
        assert forall|i: int| 0 <= i < t.len() implies is_digit(#[trigger] t[i]) by {
            if i < h.len() {
                assert(t[i] == h[i]);
            }
        }
    }
}

proof fn lemma_find_char_from(s: Seq<char>, c: char, i: int)
    requires
        0 <= i <= s.len(),
    ensures
        i <= find_char(s, c, i) <= s.len(),
        find_char(s, c, i) < s.len() ==> s[find_char(s, c, i)] == c,
    decreases s.len() - i,
{
    if i < s.len() && s[i] != c {
        lemma_find_char_from(s, c, i + 1);
    }
}

proof fn lemma_find_char_past(s: Seq<char>, c: char, i: int, m: int)
    requires
        0 <= i <= m <= s.len(),
        forall|j: int| i <= j < m ==> s[j] != c,
    ensures
        m <= find_char(s, c, i) <= s.len(),
        find_char(s, c, i) < s.len() ==> s[find_char(s, c, i)] == c,
        m < s.len() && s[m] == c ==> find_char(s, c, i) == m,
    decreases m - i,
{
    if i < m {
        lemma_find_char_past(s, c, i + 1, m);
    } else {
        lemma_find_char_from(s, c, i);
    }
}

proof fn lemma_skip_blanks_to(s: Seq<char>, i: int, end: int, m: int)
    requires
        0 <= i <= m <= end <= s.len(),
        forall|j: int| i <= j < m ==> is_blank(s[j]),
        m < end ==> !is_blank(s[m]),
    ensures
        skip_blanks(s, i, end) == m,
    decreases m - i,
{
    if i < m {
        lemma_skip_blanks_to(s, i + 1, end, m);
    }
}

proof fn lemma_token_end_to(s: Seq<char>, i: int, end: int, m: int)
    requires
        0 <= i <= m <= end <= s.len(),
        forall|j: int| i <= j < m ==> !is_blank(s[j]),
        m < end ==> is_blank(s[m]),
    ensures
        token_end(s, i, end) == m,
    decreases m - i,
{
    if i < m {
        lemma_token_end_to(s, i + 1, end, m);
    }
}

/// The request text `<method> /users/<k>` followed by `rest`.
pub open spec fn id_request(method: Seq<char>, k: i32, rest: Seq<char>) -> Seq<char> {
    method + " /users/"@ + int_text(k as int) + rest
}

/// A method word: not empty, and free of white space and `/`.
pub open spec fn method_word(m: Seq<char>) -> bool {
    &&& m.len() > 0
    &&& forall|j: int| 0 <= j < m.len() ==> !is_blank(#[trigger] m[j]) && m[j] != '/'
}

/// A request `<method> /users/<k>` followed by a space reads as that method,
/// a path under `/users/`, and the id `k`.
pub proof fn law_id_request_parts(m: Seq<char>, k: i32, rest: Seq<char>)
    requires
        method_word(m),
        rest.len() > 0,
        rest[0] == ' ',
    ensures
        request_method(id_request(m, k, rest)) == m,
        request_path(id_request(m, k, rest)) == "/users/"@ + int_text(k as int),
        "/users/"@.is_prefix_of(request_path(id_request(m, k, rest))),
        id_value(path_id(id_request(m, k, rest))) == Some(k),
{
    reveal_strlit(" /users/");
    reveal_strlit("/users/");
    let x = int_text(k as int);
    let raw = id_request(m, k, rest);
    let ml = m.len() as int;
    let l = x.len() as int;
    let st = ml + 8;
    let n: nat = if k < 0 {
        (-k) as nat
    } else {
        k as nat
    };
    lemma_nat_text_digits(n);
    assert forall|j: int| 0 <= j < l implies x[j] == '-' || is_digit(#[trigger] x[j]) by {
        if k < 0 && j > 0 {
            assert(x[j] == nat_text(n)[j - 1]);
        }
    }
    assert forall|j: int| 0 <= j < ml implies raw[j] == #[trigger] m[j] by {}
    assert forall|j: int| st <= j < st + l implies raw[j] == #[trigger] x[j - st] by {}
    assert(raw[st + l] == ' ');
    assert(raw[ml] == ' ' && raw[ml + 1] == '/' && raw[ml + 7] == '/');
    assert forall|j: int| 0 <= j < st + l implies (raw[j] != '\n' && raw[j] != '\r' && (j == ml
        || !is_blank(raw[j])) && (raw[j] != '/' || j == ml + 1 || j == ml + 7)) by {
        if j >= st {
            assert(raw[j] == x[j - st]);
        } else if j < ml {
            assert(raw[j] == m[j]);
        }
    }
    lemma_find_char_past(raw, '\n', 0, st + l + 1);
    lemma_find_char_past(raw, '\r', 0, st + l + 1);
    let le = line_end(raw);
    lemma_skip_blanks_to(raw, 0, le, 0);
    lemma_token_end_to(raw, 0, le, ml);
    lemma_skip_blanks_to(raw, ml, le, ml + 1);
    lemma_token_end_to(raw, ml + 1, le, st + l);
    assert(request_method(raw) =~= m);
    assert(request_path(raw) =~= "/users/"@ + x);
    assert(request_path(raw).subrange(0, 7) =~= "/users/"@);
    lemma_find_char_past(raw, '/', 0, ml + 1);
    lemma_find_char_past(raw, '/', ml + 2, ml + 7);
    lemma_find_char_past(raw, '/', st, st + l);
    let e = find_char(raw, '/', st);
    lemma_skip_blanks_to(raw, st, e, st);
    lemma_token_end_to(raw, st, e, st + l);
    assert(path_id(raw) =~= x);
    law_id_text_round_trip(k);
}

/// `GET /users/<k> ...` plans to read exactly the record with id `k`.
pub proof fn law_read_request_plan(k: i32, rest: Seq<char>, payload: Option<UserView>)
    requires
        rest.len() > 0,
        rest[0] == ' ',
    ensures
        request_plan(id_request("GET"@, k, rest), payload) == PlanView::Run(
            CommandView::SelectOne { id: k },
        ),
{
    reveal_strlit("GET");
    reveal_strlit("POST");
    assert(method_word("GET"@));
    law_id_request_parts("GET"@, k, rest);
    law_route_precedence(request_path(id_request("GET"@, k, rest)));
    assert("GET"@.len() != "POST"@.len());
}

/// `PUT /users/<k> ...` with a payload plans to update exactly the record with id `k`.
pub proof fn law_update_request_plan(k: i32, rest: Seq<char>, u: UserView)
    requires
        rest.len() > 0,
        rest[0] == ' ',
    ensures
        request_plan(id_request("PUT"@, k, rest), Some(u)) == PlanView::Run(
            CommandView::Update { id: k, name: u.name, email: u.email },
        ),
{
    reveal_strlit("PUT");
    reveal_strlit("GET");
    reveal_strlit("POST");
    assert(method_word("PUT"@));
    law_id_request_parts("PUT"@, k, rest);
    assert("PUT"@ != "GET"@ && "PUT"@ != "POST"@) by {
        assert("PUT"@[0] != "GET"@[0]);
    }
}

/// `DELETE /users/<k> ...` plans to delete exactly the record with id `k`.
pub proof fn law_delete_request_plan(k: i32, rest: Seq<char>, payload: Option<UserView>)
    requires
        rest.len() > 0,
        rest[0] == ' ',
    ensures
        request_plan(id_request("DELETE"@, k, rest), payload) == PlanView::Run(
            CommandView::Delete { id: k },
        ),
{
    reveal_strlit("DELETE");
    reveal_strlit("PUT");
    reveal_strlit("GET");
    reveal_strlit("POST");
    assert(method_word("DELETE"@));
    law_id_request_parts("DELETE"@, k, rest);
    assert("DELETE"@.len() != "GET"@.len() && "DELETE"@.len() != "POST"@.len()
        && "DELETE"@.len() != "PUT"@.len());
}

/// A create request that succeeds, then `GET /users/<k>` for the id `k` that
/// the table gave out, answers with the created record: same name and email.
pub proof fn law_create_then_read_request(
    t: TableView,
    create: Seq<char>,
    u: UserView,
    rest: Seq<char>,
)
    requires
        table_wf(t),
        t.next <= i32::MAX,
        route_of(request_method(create), request_path(create)) == Route::Create,
        rest.len() > 0,
        rest[0] == ' ',
    ensures
        ({
            let (t2, r1) = serve_spec(t, create, Some(u));
            let k = t.next as i32;
            &&& r1 == (ResponseView { status: Status::Success, body: "User created"@ })
            &&& serve_spec(t2, id_request("GET"@, k, rest), None) == (
                t2,
                ResponseView {
                    status: Status::Success,
                    body: user_json_text(UserView { id: Some(k), name: u.name, email: u.email }),
                },
            )
        }),
{
    law_create_then_read(t, u.name, u.email);
    law_read_request_plan(t.next as i32, rest, None);
}

/// A create request that succeeds adds one record to what a read-all request
/// lists, and a delete request for an id that a record has removes one; the
/// read-all answer lists exactly the table's records.
pub proof fn law_count_requests(
    t: TableView,
    create: Seq<char>,
    all: Seq<char>,
    u: UserView,
    k: i32,
    rest: Seq<char>,
)
    requires
        table_wf(t),
        route_of(request_method(create), request_path(create)) == Route::Create,
        route_of(request_method(all), request_path(all)) == Route::ReadAll,
        rest.len() > 0,
        rest[0] == ' ',
    ensures
        serve_spec(t, all, None) == (t, ResponseView {
            status: Status::Success,
            body: users_json_text(t.rows),
        }),
        serve_spec(t, create, Some(u)).1 == (ResponseView {
            status: Status::Success,
            body: "User created"@,
        }) ==> serve_spec(t, create, Some(u)).0.rows.len() == t.rows.len() + 1,
        has_row(t.rows, k) ==> serve_spec(t, id_request("DELETE"@, k, rest), None).0.rows.len()
            == t.rows.len() - 1,
{
    law_delete_request_plan(k, rest, None);
    if has_row(t.rows, k) {
        law_delete_removes_one(t, k);
    }
}

/// An update request changes the record it targets, and a read request for
/// any other id answers as it did before.
pub proof fn law_update_request_keeps_others(
    t: TableView,
    k: i32,
    other: i32,
    u: UserView,
    rest: Seq<char>,
)
    requires
        table_wf(t),
        k != other,
        rest.len() > 0,
        rest[0] == ' ',
    ensures
        ({
            let (t2, r) = serve_spec(t, id_request("PUT"@, k, rest), Some(u));
            &&& r == (ResponseView { status: Status::Success, body: "User updated"@ })
            &&& serve_spec(t2, id_request("GET"@, other, rest), None).1 == serve_spec(
                t,
                id_request("GET"@, other, rest),
                None,
            ).1
            &&& has_row(t.rows, k) ==> serve_spec(t2, id_request("GET"@, k, rest), None).1 == (
            ResponseView {
                status: Status::Success,
                body: user_json_text(UserView { id: Some(k), name: u.name, email: u.email }),
            })
        }),
{
    law_update_request_plan(k, rest, u);
    law_read_request_plan(k, rest, None);
    law_read_request_plan(other, rest, None);
    law_update_only_target(t, k, u.name, u.email, other);
}

/// Create, read, update, read, delete, read: each step answers as it should,
/// and the last read finds nothing.
pub proof fn law_round_trip(
    t: TableView,
    create: Seq<char>,
    first: UserView,
    second: UserView,
    rest: Seq<char>,
)
    requires
        table_wf(t),
        t.next <= i32::MAX,
        route_of(request_method(create), request_path(create)) == Route::Create,
        rest.len() > 0,
        rest[0] == ' ',
    ensures
        ({
            let k = t.next as i32;
            let (t1, r1) = serve_spec(t, create, Some(first));
            let (t2, r2) = serve_spec(t1, id_request("GET"@, k, rest), None);
            let (t3, r3) = serve_spec(t2, id_request("PUT"@, k, rest), Some(second));
            let (t4, r4) = serve_spec(t3, id_request("GET"@, k, rest), None);
            let (t5, r5) = serve_spec(t4, id_request("DELETE"@, k, rest), None);
            let (t6, r6) = serve_spec(t5, id_request("GET"@, k, rest), None);
            &&& r1 == (ResponseView { status: Status::Success, body: "User created"@ })
            &&& r2 == (ResponseView {
                status: Status::Success,
                body: user_json_text(UserView { id: Some(k), name: first.name, email: first.email }),
            })
            &&& r3 == (ResponseView { status: Status::Success, body: "User updated"@ })
            &&& r4 == (ResponseView {
                status: Status::Success,
                body: user_json_text(
                    UserView { id: Some(k), name: second.name, email: second.email },
                ),
            })
            &&& r5 == (ResponseView { status: Status::Success, body: "User deleted"@ })
            &&& r6 == (ResponseView { status: Status::NotFound, body: "User not found"@ })
        }),
{
    let k = t.next as i32;
    let n = t.rows.len() as int;
    law_create_then_read_request(t, create, first, rest);
    let t1 = serve_spec(t, create, Some(first)).0;
    assert(t1.rows[n].id == Some(k));
    assert(has_row(t1.rows, k));
    let other: i32 = if k == 0 {
        1
    } else {
        0
    };
    law_update_request_keeps_others(t1, k, other, second, rest);
    let t3 = serve_spec(t1, id_request("PUT"@, k, rest), Some(second)).0;
    law_update_request_plan(k, rest, second);
    assert forall|j: int| 0 <= j < n implies (#[trigger] t1.rows[j]).id != Some(k) by {
        assert(t1.rows[j] == t.rows[j]);
    }
    lemma_find_row_exact(t1.rows, k, n);
    assert(t3.rows == t1.rows.update(n, UserView { id: Some(k), name: second.name, email: second.email }));
    assert forall|j: int| 0 <= j < n implies (#[trigger] t3.rows[j]).id != Some(k) by {
        assert(t3.rows[j] == t.rows[j]);
    }
    lemma_find_row_exact(t3.rows, k, n);
    law_delete_request_plan(k, rest, None);
    law_read_request_plan(k, rest, None);
    let t5 = serve_spec(t3, id_request("DELETE"@, k, rest), None).0;
    assert(t5.rows =~= t.rows);
    if has_row(t.rows, k) {
        let j = choose|j: int| 0 <= j < t.rows.len() && (#[trigger] t.rows[j]).id == Some(k);
        assert(t.rows[j].id->0 < t.next);
    }
    law_read_missing(t5, k);
}

} // verus!
