use vstd::prelude::*;

use crate::handlers::{Response, Status};

verus! {

/// The status line and headers that open a response of each kind.
pub open spec fn status_head(s: Status) -> Seq<char> {
    match s {
        Status::Success => "HTTP/1.1 200 OK\r\nContent-Type: application/json\r\n\r\n"@,
        Status::NotFound => "HTTP/1.1 404 NOT FOUND\r\n\r\n"@,
        Status::ServerError => "HTTP/1.1 500 INTERNAL SERVER ERROR\r\n\r\n"@,
    }
}

pub fn status_text(s: Status) -> (r: &'static str)
    ensures
        r@ == status_head(s),
{
    match s {
        Status::Success => "HTTP/1.1 200 OK\r\nContent-Type: application/json\r\n\r\n",
        Status::NotFound => "HTTP/1.1 404 NOT FOUND\r\n\r\n",
        Status::ServerError => "HTTP/1.1 500 INTERNAL SERVER ERROR\r\n\r\n",
    }
}

/// The bytes a response goes out as: its status head, then its body.
pub fn render(r: &Response) -> (t: String)
    ensures
        t@ == status_head(r.status) + r.body@,
{
    let mut t = String::from_str(status_text(r.status));
    t.append(r.body.as_str());
    t
}

} // verus!
