use vstd::prelude::*;

use crate::model::{User, UserView};

verus! {

pub open spec fn hex_digit(n: int) -> char {
    seq!['0', '1', '2', '3', '4', '5', '6', '7', '8', '9', 'a', 'b', 'c', 'd', 'e', 'f'][n]
}

pub open spec fn decimal_digit(n: int) -> char {
    seq!['0', '1', '2', '3', '4', '5', '6', '7', '8', '9'][n]
}

/// How one character stands inside a JSON string literal: quote, backslash
/// and the control characters are escaped, every other character stands as it is.
pub open spec fn escape_char(c: char) -> Seq<char> {
    if c == '"' {
        seq!['\\', '"']
    } else if c == '\\' {
        seq!['\\', '\\']
    } else if c == '\x08' {
        seq!['\\', 'b']
    } else if c == '\x0c' {
        seq!['\\', 'f']
    } else if c == '\n' {
        seq!['\\', 'n']
    } else if c == '\r' {
        seq!['\\', 'r']
    } else if c == '\t' {
        seq!['\\', 't']
    } else if (c as u32) < 0x20 {
        seq!['\\', 'u', '0', '0', hex_digit(c as int / 16), hex_digit(c as int % 16)]
    } else {
        seq![c]
    }
}

pub open spec fn escaped(s: Seq<char>) -> Seq<char>
    decreases s.len(),
{
    if s.len() == 0 {
        Seq::empty()
    } else {
        escaped(s.drop_last()) + escape_char(s.last())
    }
}

/// `s` as a JSON string literal.
pub open spec fn quoted(s: Seq<char>) -> Seq<char> {
    seq!['"'] + escaped(s) + seq!['"']
}

/// The decimal digits of `n`, without leading zeros.
pub open spec fn nat_text(n: nat) -> Seq<char>
    decreases n,
{
    if n < 10 {
        seq![decimal_digit(n as int)]
    } else {
        nat_text(n / 10) + seq![decimal_digit((n % 10) as int)]
    }
}

/// `n` in decimal, with a `-` in front where it is negative.
pub open spec fn int_text(n: int) -> Seq<char> {
    if n < 0 {
        seq!['-'] + nat_text((-n) as nat)
    } else {
        nat_text(n as nat)
    }
}

/// An optional integer as JSON: `null` or the number.
pub open spec fn optional_int_text(n: Option<i32>) -> Seq<char> {
    match n {
        None => seq!['n', 'u', 'l', 'l'],
        Some(k) => int_text(k as int),
    }
}

/// A user as a compact JSON object, fields in the order id, name, email.
pub open spec fn user_json_text(u: UserView) -> Seq<char> {
    "{\"id\":"@ + optional_int_text(u.id) + ",\"name\":"@ + quoted(u.name) + ",\"email\":"@
        + quoted(u.email) + "}"@
}

/// The objects of the first `n` users, separated by commas.
pub open spec fn joined_users(us: Seq<UserView>, n: int) -> Seq<char>
    decreases n,
{
    if n <= 0 {
        Seq::empty()
    } else if n == 1 {
        user_json_text(us[0])
    } else {
        joined_users(us, n - 1) + ","@ + user_json_text(us[n - 1])
    }
}

/// A list of users as a compact JSON array.
pub open spec fn users_json_text(us: Seq<UserView>) -> Seq<char> {
    "["@ + joined_users(us, us.len() as int) + "]"@
}

/// Relies on serde_json::to_string on a `str`: a JSON string literal, the text
/// escaped as serde_json's escape table gives it. Writing into memory cannot
/// fail, so the error arm is never taken.
#[verifier::external_body]
fn json_string(s: &str) -> (r: String)
    ensures
        r@ == quoted(s@),
{
    match serde_json::to_string(s) {
        Ok(t) => t,
        Err(_) => String::new(),
    }
}

/// Relies on serde_json::to_string on an `Option<i32>`: `null`, or the number
/// in decimal. Writing into memory cannot fail, so the error arm is never taken.
#[verifier::external_body]
fn json_optional_int(n: Option<i32>) -> (r: String)
    ensures
        r@ == optional_int_text(n),
{
    match serde_json::to_string(&n) {
        Ok(t) => t,
        Err(_) => String::new(),
    }
}

/// A user as a compact JSON object.
pub fn user_json(u: &User) -> (r: String)
    ensures
        r@ == user_json_text(u@),
{
    let mut r = String::from_str("{\"id\":");
    let id = json_optional_int(u.id);
    r.append(id.as_str());
    r.append(",\"name\":");
    let name = json_string(u.name.as_str());
    r.append(name.as_str());
    r.append(",\"email\":");
    let email = json_string(u.email.as_str());
    r.append(email.as_str());
    r.append("}");
    r
}

/// A list of users as a compact JSON array; `[]` where there are none.
pub fn users_json(us: &Vec<User>) -> (r: String)
    ensures
        r@ == users_json_text(us@.map_values(|u: User| u@)),
{
    let ghost vs = us@.map_values(|u: User| u@);
    let mut r = String::from_str("[");
    let mut i: usize = 0;
    while i < us.len()
        invariant
            i <= us@.len(),
            vs == us@.map_values(|u: User| u@),
            r@ == "["@ + joined_users(vs, i as int),
        decreases us@.len() - i,
    {
        if i > 0 {
            r.append(",");
        }
        let t = user_json(&us[i]);
        r.append(t.as_str());
        assert(vs[i as int] == us@[i as int]@);
        i = i + 1;
    }
    r.append("]");
    r
}

} // verus!
