use vstd::prelude::*;

use crate::json::{user_json, user_json_text, users_json, users_json_text};
use crate::model::{User, UserView};
use crate::request::{get_id, id_value, parse_id, parse_request, path_id, request_method, request_path};
use crate::text::{same_text, starts_with};

verus! {

/// The three kinds of answer a handler gives.
#[derive(PartialEq, Eq, Structural, Clone, Copy, Debug)]
pub enum Status {
    Success,
    NotFound,
    ServerError,
}

/// A handler's answer: a status and a body text.
pub struct Response {
    pub status: Status,
    pub body: String,
}

pub struct ResponseView {
    pub status: Status,
    pub body: Seq<char>,
}

impl View for Response {
    type V = ResponseView;

    open spec fn view(&self) -> ResponseView {
        ResponseView { status: self.status, body: self.body@ }
    }
}

/// The one statement a handler asks storage to run.
pub enum Command {
    Insert { name: String, email: String },
    SelectOne { id: i32 },
    SelectAll,
    Update { id: i32, name: String, email: String },
    Delete { id: i32 },
}

pub enum CommandView {
    Insert { name: Seq<char>, email: Seq<char> },
    SelectOne { id: i32 },
    SelectAll,
    Update { id: i32, name: Seq<char>, email: Seq<char> },
    Delete { id: i32 },
}

impl View for Command {
    type V = CommandView;

    open spec fn view(&self) -> CommandView {
        match self {
            Command::Insert { name, email } => CommandView::Insert { name: name@, email: email@ },
            Command::SelectOne { id } => CommandView::SelectOne { id: *id },
            Command::SelectAll => CommandView::SelectAll,
            Command::Update { id, name, email } => CommandView::Update {
                id: *id,
                name: name@,
                email: email@,
            },
            Command::Delete { id } => CommandView::Delete { id: *id },
        }
    }
}

/// What storage reports after running a command: a failure (to connect or to
/// run it), a statement done, or the rows that a query returned.
pub enum Outcome {
    Failed,
    Done,
    Rows(Vec<User>),
}

pub enum OutcomeView {
    Failed,
    Done,
    Rows(Seq<UserView>),
}

impl View for Outcome {
    type V = OutcomeView;

    open spec fn view(&self) -> OutcomeView {
        match self {
            Outcome::Failed => OutcomeView::Failed,
            Outcome::Done => OutcomeView::Done,
            Outcome::Rows(v) => OutcomeView::Rows(v@.map_values(|u: User| u@)),
        }
    }
}

/// What a handler decides before storage is reached: run a command, or answer at once.
pub enum Plan {
    Run(Command),
    Respond(Response),
}

pub enum PlanView {
    Run(CommandView),
    Respond(ResponseView),
}

impl View for Plan {
    type V = PlanView;

    open spec fn view(&self) -> PlanView {
        match self {
            Plan::Run(c) => PlanView::Run(c@),
            Plan::Respond(r) => PlanView::Respond(r@),
        }
    }
}

/// The handler that a request goes to.
#[derive(PartialEq, Eq, Structural, Clone, Copy, Debug)]
pub enum Route {
    Create,
    ReadOne,
    ReadAll,
    Update,
    Delete,
    NotFound,
}

/// First match wins: POST on `/users…` creates; GET on `/users/…` reads one
/// and GET on any other `/users…` reads all; PUT on `/users/…` updates;
/// DELETE on `/users/…` deletes; nothing else is found.
pub open spec fn route_of(method: Seq<char>, path: Seq<char>) -> Route {
    if method == "POST"@ && "/users"@.is_prefix_of(path) {
        Route::Create
    } else if method == "GET"@ && "/users/"@.is_prefix_of(path) {
        Route::ReadOne
    } else if method == "GET"@ && "/users"@.is_prefix_of(path) {
        Route::ReadAll
    } else if method == "PUT"@ && "/users/"@.is_prefix_of(path) {
        Route::Update
    } else if method == "DELETE"@ && "/users/"@.is_prefix_of(path) {
        Route::Delete
    } else {
        Route::NotFound
    }
}

pub open spec fn payload_view(p: Option<User>) -> Option<UserView> {
    match p {
        Some(u) => Some(u@),
        None => None,
    }
}

pub open spec fn answer(status: Status, body: Seq<char>) -> PlanView {
    PlanView::Respond(ResponseView { status, body })
}

pub open spec fn error_answer() -> PlanView {
    answer(Status::ServerError, "Error"@)
}

pub open spec fn create_plan(payload: Option<UserView>) -> PlanView {
    match payload {
        Some(u) => PlanView::Run(CommandView::Insert { name: u.name, email: u.email }),
        None => error_answer(),
    }
}

pub open spec fn read_one_plan(request: Seq<char>) -> PlanView {
    match id_value(path_id(request)) {
        Some(id) => PlanView::Run(CommandView::SelectOne { id }),
        None => error_answer(),
    }
}

pub open spec fn update_plan(request: Seq<char>, payload: Option<UserView>) -> PlanView {
    match (id_value(path_id(request)), payload) {
        (Some(id), Some(u)) => PlanView::Run(
            CommandView::Update { id, name: u.name, email: u.email },
        ),
        _ => error_answer(),
    }
}

pub open spec fn delete_plan(request: Seq<char>) -> PlanView {
    match id_value(path_id(request)) {
        Some(id) => PlanView::Run(CommandView::Delete { id }),
        None => error_answer(),
    }
}

/// What a whole request leads to, given the payload that its body decoded to.
pub open spec fn request_plan(request: Seq<char>, payload: Option<UserView>) -> PlanView {
    match route_of(request_method(request), request_path(request)) {
        Route::Create => create_plan(payload),
        Route::ReadOne => read_one_plan(request),
        Route::ReadAll => PlanView::Run(CommandView::SelectAll),
        Route::Update => update_plan(request, payload),
        Route::Delete => delete_plan(request),
        Route::NotFound => answer(Status::NotFound, "Not Found"@),
    }
}

/// The answer to a command, given what storage reported. A statement that
/// changed no row still counts as done.
pub open spec fn response_of(c: CommandView, o: OutcomeView) -> ResponseView {
    match (c, o) {
        (CommandView::Insert { .. }, OutcomeView::Done) => ResponseView {
            status: Status::Success,
            body: "User created"@,
        },
        (CommandView::Update { .. }, OutcomeView::Done) => ResponseView {
            status: Status::Success,
            body: "User updated"@,
        },
        (CommandView::Delete { .. }, OutcomeView::Done) => ResponseView {
            status: Status::Success,
            body: "User deleted"@,
        },
        (CommandView::SelectOne { .. }, OutcomeView::Rows(rows)) => if rows.len() == 0 {
            ResponseView { status: Status::NotFound, body: "User not found"@ }
        } else {
            ResponseView { status: Status::Success, body: user_json_text(rows[0]) }
        },
        (CommandView::SelectAll, OutcomeView::Rows(rows)) => ResponseView {
            status: Status::Success,
            body: users_json_text(rows),
        },
        _ => ResponseView { status: Status::ServerError, body: "Error"@ },
    }
}

fn respond(status: Status, body: &str) -> (r: Plan)
    ensures
        r@ == answer(status, body@),
{
    Plan::Respond(Response { status, body: String::from_str(body) })
}

fn error_plan() -> (r: Plan)
    ensures
        r@ == error_answer(),
{
    respond(Status::ServerError, "Error")
}

/// Chooses the handler for a method and a path.
pub fn route(method: &str, path: &str) -> (r: Route)
    ensures
        r == route_of(method@, path@),
{
    if same_text(method, "POST") && starts_with(path, "/users") {
        Route::Create
    } else if same_text(method, "GET") && starts_with(path, "/users/") {
        Route::ReadOne
    } else if same_text(method, "GET") && starts_with(path, "/users") {
        Route::ReadAll
    } else if same_text(method, "PUT") && starts_with(path, "/users/") {
        Route::Update
    } else if same_text(method, "DELETE") && starts_with(path, "/users/") {
        Route::Delete
    } else {
        Route::NotFound
    }
}

/// Create: insert the payload's name and email; a payload that did not decode is an error.
pub fn handle_post_request(payload: Option<User>) -> (r: Plan)
    ensures
        r@ == create_plan(payload_view(payload)),
{
    match payload {
        Some(u) => Plan::Run(Command::Insert { name: u.name, email: u.email }),
        None => error_plan(),
    }
}

/// Read one: look up the record whose id the path gives; an id that does not
/// read as an `i32` is an error.
pub fn handle_get_request(request: &str) -> (r: Plan)
    ensures
        r@ == read_one_plan(request@),
{
    match parse_id(get_id(request)) {
        Some(id) => Plan::Run(Command::SelectOne { id }),
        None => error_plan(),
    }
}

/// Read all: list every record.
pub fn handle_get_all_request() -> (r: Plan)
    ensures
        r@ == PlanView::Run(CommandView::SelectAll),
{
    Plan::Run(Command::SelectAll)
}

/// Update: set name and email of the record whose id the path gives; an id
/// that does not read as an `i32`, or a payload that did not decode, is an error.
pub fn handle_put_request(request: &str, payload: Option<User>) -> (r: Plan)
    ensures
        r@ == update_plan(request@, payload_view(payload)),
{
    match (parse_id(get_id(request)), payload) {
        (Some(id), Some(u)) => Plan::Run(Command::Update { id, name: u.name, email: u.email }),
        _ => error_plan(),
    }
}

/// Delete: remove the record whose id the path gives; an id that does not
/// read as an `i32` is an error.
pub fn handle_delete_request(request: &str) -> (r: Plan)
    ensures
        r@ == delete_plan(request@),
{
    match parse_id(get_id(request)) {
        Some(id) => Plan::Run(Command::Delete { id }),
        None => error_plan(),
    }
}

/// Routes a raw request and runs its handler. `payload` is what the request's
/// body decoded to as a user, `None` where it did not decode.
pub fn handle_request(raw: &str, payload: Option<User>) -> (r: Plan)
    ensures
        r@ == request_plan(raw@, payload_view(payload)),
{
    let req = parse_request(raw);
    match route(req.method.as_str(), req.path.as_str()) {
        Route::Create => handle_post_request(payload),
        Route::ReadOne => handle_get_request(raw),
        Route::ReadAll => handle_get_all_request(),
        Route::Update => handle_put_request(raw, payload),
        Route::Delete => handle_delete_request(raw),
        Route::NotFound => respond(Status::NotFound, "Not Found"),
    }
}

/// The answer to a command once storage has reported on it.
pub fn complete(c: &Command, o: &Outcome) -> (r: Response)
    ensures
        r@ == response_of(c@, o@),
{
    match (c, o) {
        (Command::Insert { .. }, Outcome::Done) => Response {
            status: Status::Success,
            body: String::from_str("User created"),
        },
        (Command::Update { .. }, Outcome::Done) => Response {
            status: Status::Success,
            body: String::from_str("User updated"),
        },
        (Command::Delete { .. }, Outcome::Done) => Response {
            status: Status::Success,
            body: String::from_str("User deleted"),
        },
        (Command::SelectOne { .. }, Outcome::Rows(rows)) => if rows.len() == 0 {
            Response { status: Status::NotFound, body: String::from_str("User not found") }
        } else {
            Response { status: Status::Success, body: user_json(&rows[0]) }
        },
        (Command::SelectAll, Outcome::Rows(rows)) => Response {
            status: Status::Success,
            body: users_json(rows),
        },
        _ => Response { status: Status::ServerError, body: String::from_str("Error") },
    }
}

} // verus!
