use vstd::prelude::*;

use crate::text::{
    find_char, find_char_at, skip_blanks, skip_blanks_at, text_chars, token_end, token_end_at,
};

verus! {

/// The three parts of a request that the router and the handlers read.
pub struct Request {
    pub method: String,
    pub path: String,
    pub body: String,
}

/// Where the first line of `s` ends: at its first carriage return or line feed.
pub open spec fn line_end(s: Seq<char>) -> int {
    let n = find_char(s, '\n', 0);
    let r = find_char(s, '\r', 0);
    if n <= r {
        n
    } else {
        r
    }
}

/// Where the first token of the first line starts and ends.
pub open spec fn method_span(s: Seq<char>) -> (int, int) {
    let a = skip_blanks(s, 0, line_end(s));
    (a, token_end(s, a, line_end(s)))
}

/// Where the second token of the first line starts and ends.
pub open spec fn path_span(s: Seq<char>) -> (int, int) {
    let a = skip_blanks(s, method_span(s).1, line_end(s));
    (a, token_end(s, a, line_end(s)))
}

pub open spec fn request_method(s: Seq<char>) -> Seq<char> {
    s.subrange(method_span(s).0, method_span(s).1)
}

pub open spec fn request_path(s: Seq<char>) -> Seq<char> {
    s.subrange(path_span(s).0, path_span(s).1)
}

/// Whether the blank-line separator `\r\n\r\n` starts at `i`.
pub open spec fn separator_at(s: Seq<char>, i: int) -> bool {
    &&& 0 <= i
    &&& i + 4 <= s.len()
    &&& s[i] == '\r'
    &&& s[i + 1] == '\n'
    &&& s[i + 2] == '\r'
    &&& s[i + 3] == '\n'
}

/// The first index at or after `i` where the separator starts, or the length of `s`.
pub open spec fn find_separator(s: Seq<char>, i: int) -> int
    decreases s.len() - i,
{
    if i < 0 || i + 4 > s.len() {
        s.len() as int
    } else if separator_at(s, i) {
        i
    } else {
        find_separator(s, i + 1)
    }
}

/// Everything after the first separator; empty where there is none.
pub open spec fn request_body_text(s: Seq<char>) -> Seq<char> {
    let k = find_separator(s, 0);
    if k + 4 <= s.len() {
        s.subrange(k + 4, s.len() as int)
    } else {
        Seq::empty()
    }
}

/// Where the identifier lies: the third `/`-delimited segment, blanks around
/// it and anything after a blank left out; `(0, 0)` where there is no such segment.
pub open spec fn id_span(s: Seq<char>) -> (int, int) {
    let p0 = find_char(s, '/', 0);
    if p0 >= s.len() {
        (0, 0)
    } else {
        let p1 = find_char(s, '/', p0 + 1);
        if p1 >= s.len() {
            (0, 0)
        } else {
            let e = find_char(s, '/', p1 + 1);
            let a = skip_blanks(s, p1 + 1, e);
            (a, token_end(s, a, e))
        }
    }
}

pub open spec fn path_id(s: Seq<char>) -> Seq<char> {
    s.subrange(id_span(s).0, id_span(s).1)
}

pub open spec fn is_digit(c: char) -> bool {
    '0' <= c && c <= '9'
}

pub open spec fn digit_value(c: char) -> int {
    c as int - '0' as int
}

pub open spec fn all_digits(s: Seq<char>) -> bool {
    forall|i: int| 0 <= i < s.len() ==> is_digit(#[trigger] s[i])
}

/// The number that a run of decimal digits writes.
pub open spec fn digits_value(s: Seq<char>) -> int
    decreases s.len(),
{
    if s.len() == 0 {
        0
    } else {
        digits_value(s.drop_last()) * 10 + digit_value(s.last())
    }
}

/// The digits of a signed decimal: `s` without a leading `+` or `-`.
pub open spec fn unsigned_part(s: Seq<char>) -> Seq<char> {
    if s.len() > 0 && (s[0] == '-' || s[0] == '+') {
        s.drop_first()
    } else {
        s
    }
}

/// The `i32` that `s` writes in decimal, with an optional sign; `None` where
/// `s` is no such number or the number does not fit.
pub open spec fn id_value(s: Seq<char>) -> Option<i32> {
    let d = unsigned_part(s);
    let v = if s.len() > 0 && s[0] == '-' {
        -digits_value(d)
    } else {
        digits_value(d)
    };
    if d.len() == 0 || !all_digits(d) || v < i32::MIN || v > i32::MAX {
        None
    } else {
        Some(v as i32)
    }
}

fn find_separator_at(s: &Vec<char>) -> (r: usize)
    ensures
        r == find_separator(s@, 0),
        r < s@.len() ==> r + 4 <= s@.len(),
{
    let n = s.len();
    let mut i: usize = 0;
    while n - i >= 4 && !(s[i] == '\r' && s[i + 1] == '\n' && s[i + 2] == '\r' && s[i + 3]
        == '\n')
        invariant
            n == s@.len(),
            i <= n,
            find_separator(s@, i as int) == find_separator(s@, 0),
        decreases n - i,
    {
        i = i + 1;
    }
    if n - i < 4 {
        n
    } else {
        i
    }
}

/// Splits raw request text into its method (first token of the first line),
/// path (second token of the first line) and body (what follows the first
/// blank line). A part that is missing comes out empty.
pub fn parse_request(raw: &str) -> (r: Request)
    ensures
        r.method@ == request_method(raw@),
        r.path@ == request_path(raw@),
        r.body@ == request_body_text(raw@),
{
    let s = text_chars(raw);
    let n = find_char_at(&s, '\n', 0);
    let c = find_char_at(&s, '\r', 0);
    let le = if n <= c {
        n
    } else {
        c
    };
    let ma = skip_blanks_at(&s, 0, le);
    let mb = token_end_at(&s, ma, le);
    let pa = skip_blanks_at(&s, mb, le);
    let pb = token_end_at(&s, pa, le);
    let k = find_separator_at(&s);
    let body = if k < s.len() {
        String::from_str(raw.substring_char(k + 4, s.len()))
    } else {
        String::new()
    };
    Request {
        method: String::from_str(raw.substring_char(ma, mb)),
        path: String::from_str(raw.substring_char(pa, pb)),
        body,
    }
}

/// The body of a request: what follows the first blank line, or nothing.
pub fn request_body(raw: &str) -> (r: &str)
    ensures
        r@ == request_body_text(raw@),
{
    let s = text_chars(raw);
    let k = find_separator_at(&s);
    if k < s.len() {
        raw.substring_char(k + 4, s.len())
    } else {
        raw.substring_char(0, 0)
    }
}

/// The identifier in a request such as `GET /users/7 HTTP/1.1`: the third
/// `/`-delimited segment, up to the first blank; empty where there is none.
pub fn get_id(request: &str) -> (r: &str)
    ensures
        r@ == path_id(request@),
{
    let s = text_chars(request);
    let p0 = find_char_at(&s, '/', 0);
    if p0 >= s.len() {
        return request.substring_char(0, 0);
    }
    let p1 = find_char_at(&s, '/', p0 + 1);
    if p1 >= s.len() {
        return request.substring_char(0, 0);
    }
    let e = find_char_at(&s, '/', p1 + 1);
    let a = skip_blanks_at(&s, p1 + 1, e);
    let b = token_end_at(&s, a, e);
    request.substring_char(a, b)
}

/// Reads a signed decimal `i32` as `str::parse` does: an optional `+` or `-`,
/// then at least one digit, and a value in range.
pub fn parse_id(t: &str) -> (r: Option<i32>)
    ensures
        r == id_value(t@),
{
    let s = text_chars(t);
    let n = s.len();
    let neg = n > 0 && s[0] == '-';
    let start: usize = if n > 0 && (s[0] == '-' || s[0] == '+') {
        1
    } else {
        0
    };
    let ghost d = unsigned_part(t@);
    assert(d =~= s@.subrange(start as int, n as int));
    if start == n {
        assert(d.len() == 0);
        return None;
    }
    let mut acc: i64 = 0;
    let mut big = false;
    let mut i = start;
    while i < n
        invariant
            start <= i <= n,
            n == s@.len(),
            s@ == t@,
            d == unsigned_part(t@),
            d == s@.subrange(start as int, n as int),
            all_digits(s@.subrange(start as int, i as int)),
            !big ==> acc == digits_value(s@.subrange(start as int, i as int)),
            !big ==> 0 <= acc <= 2147483648,
            big ==> digits_value(s@.subrange(start as int, i as int)) > 2147483648,
        decreases n - i,
    {
        let c = s[i];
        if !('0' <= c && c <= '9') {
            assert(d[i - start] == c);
            assert(!is_digit(d[i - start]));
            return None;
        }
        let ghost prev = s@.subrange(start as int, i as int);
        let ghost next = s@.subrange(start as int, i + 1);
        assert(next.drop_last() =~= prev);
        assert(next.last() == c);
        proof {
            if big {
                assert(digits_value(next) == digits_value(prev) * 10 + digit_value(c));
                assert(digits_value(next) > 2147483648) by (nonlinear_arith)
                    requires
                        digits_value(next) == digits_value(prev) * 10 + digit_value(c),
                        digits_value(prev) > 2147483648,
                        digit_value(c) >= 0,
                ;
            }
        }
        if !big {
            let v = acc * 10 + (c as u32 - '0' as u32) as i64;
            if v > 2147483648 {
                big = true;
            } else {
                acc = v;
            }
        }
        assert(all_digits(next));
        i = i + 1;
    }
    assert(s@.subrange(start as int, n as int) == d);
    if big {
        None
    } else if neg {
        Some((-acc) as i32)
    } else if acc <= 2147483647 {
        Some(acc as i32)
    } else {
        None
    }
}

} // verus!
