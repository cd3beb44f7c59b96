//! HTTP/1.0 requests to the Docker daemon, and the status and body of its replies.
use vstd::prelude::*;
use vstd::utf8::encode_utf8;
use crate::text::{
    chars_of, decimal, format_u64, is_digit, is_white_space, lemma_decimal_digits,
    lemma_u16_decimal_round_trip, parse_u16, parse_u16_spec, white_space,
};

verus! {

/// The reply of the daemon: its status code and the body after the header.
pub struct Reply {
    pub status: u16,
    pub body: String,
}

/// The text of a request: request line, fixed headers, the JSON headers and the body when
/// there is one. `Content-Length` counts the body's UTF-8 bytes.
pub open spec fn request_text(method: Seq<char>, path: Seq<char>, body: Option<Seq<char>>) -> Seq<char> {
    let head = method + " "@ + path + " HTTP/1.0\r\nHost: localhost\r\nAccept: application/json\r\n"@;
    match body {
        Some(b) => head + "Content-Type: application/json\r\n"@ + "Content-Length: "@ + decimal(
            encode_utf8(b).len(),
        ) + "\r\n"@ + "\r\n"@ + b,
        None => head + "\r\n"@,
    }
}

/// Builds the request that asks `method` of `path`, with `json_body` as its body.
pub fn build_request(method: &str, path: &str, json_body: Option<&str>) -> (r: String)
    ensures
        r@ == request_text(method@, path@, match json_body { Some(b) => Some(b@), None => None }),
{
    let mut request = String::from_str(method);
    request.append(" ");
    request.append(path);
    request.append(" HTTP/1.0\r\nHost: localhost\r\nAccept: application/json\r\n");
    match json_body {
        Some(body) => {
            request.append("Content-Type: application/json\r\n");
            request.append("Content-Length: ");
            let length = format_u64(body.as_bytes().len() as u64);
            request.append(length.as_str());
            request.append("\r\n");
            request.append("\r\n");
            request.append(body);
        },
        None => {
            request.append("\r\n");
        },
    }
    request
}

/// The request line is the method, a space, the path exactly as given (query string and all)
/// and the protocol, whether or not there is a body; a request without a body is that line,
/// the two fixed headers and an empty line, nothing more.
pub proof fn lemma_request_line(method: Seq<char>, path: Seq<char>, body: Option<Seq<char>>)
    ensures
        request_text(method, path, body).len() >= method.len() + path.len() + 12,
        request_text(method, path, body).subrange(0, method.len() + path.len() + 12int)
            == method + " "@ + path + " HTTP/1.0\r\n"@,
        request_text(method, path, None) == method + " "@ + path
            + " HTTP/1.0\r\nHost: localhost\r\nAccept: application/json\r\n\r\n"@,
{
    reveal_strlit(" ");
    reveal_strlit(" HTTP/1.0\r\n");
    reveal_strlit(" HTTP/1.0\r\nHost: localhost\r\nAccept: application/json\r\n");
    reveal_strlit(" HTTP/1.0\r\nHost: localhost\r\nAccept: application/json\r\n\r\n");
    reveal_strlit("\r\n");
    let line = " HTTP/1.0\r\n"@;
    let head_rest = " HTTP/1.0\r\nHost: localhost\r\nAccept: application/json\r\n"@;
    assert(line.len() == 11);
    assert(head_rest.subrange(0, 11) =~= line);
    let head = method + " "@ + path + head_rest;
    let n: int = method.len() + path.len() + 12int;
    assert(head.subrange(0, n) =~= method + " "@ + path + line);
    assert(request_text(method, path, body).subrange(0, n) =~= head.subrange(0, n));
    assert(head_rest + "\r\n"@ =~= " HTTP/1.0\r\nHost: localhost\r\nAccept: application/json\r\n\r\n"@);
    assert(request_text(method, path, None) =~= method + " "@ + path
        + " HTTP/1.0\r\nHost: localhost\r\nAccept: application/json\r\n\r\n"@);
}

/// The first index at or after `i` where `c` stands in `s`.
pub open spec fn find_char(s: Seq<char>, c: char, i: int) -> Option<int>
    decreases s.len() - i,
{
    if i < 0 || i >= s.len() {
        None
    } else if s[i] == c {
        Some(i)
    } else {
        find_char(s, c, i + 1)
    }
}

/// The first line of `s`, as `str::lines` yields it: the text before the first `\n`, without a
/// `\r` just before that `\n`; all of `s` when it holds no `\n`.
pub open spec fn first_line(s: Seq<char>) -> Seq<char> {
    match find_char(s, '\n', 0) {
        Some(k) => if k > 0 && s[k - 1] == '\r' {
            s.take(k - 1)
        } else {
            s.take(k)
        },
        None => s,
    }
}

/// The index of the first character at or after `i` that is not white space.
pub open spec fn skip_white_space(s: Seq<char>, i: int) -> int
    decreases s.len() - i,
{
    if 0 <= i < s.len() && is_white_space(s[i]) {
        skip_white_space(s, i + 1)
    } else {
        i
    }
}

/// The index just past the run of characters that are not white space starting at `i`.
pub open spec fn token_end(s: Seq<char>, i: int) -> int
    decreases s.len() - i,
{
    if 0 <= i < s.len() && !is_white_space(s[i]) {
        token_end(s, i + 1)
    } else {
        i
    }
}

/// The second white-space separated word of `s`, as `split_whitespace().nth(1)` gives it.
pub open spec fn second_word(s: Seq<char>) -> Option<Seq<char>> {
    let a = skip_white_space(s, 0);
    let b = token_end(s, a);
    let c = skip_white_space(s, b);
    let d = token_end(s, c);
    if a >= s.len() || c >= s.len() {
        None
    } else {
        Some(s.subrange(c, d))
    }
}

/// The status code of a reply: the second word of its first line, read as a number.
pub open spec fn status_of(r: Seq<char>) -> Option<u16> {
    match second_word(first_line(r)) {
        Some(w) => parse_u16_spec(w),
        None => None,
    }
}

/// Whether the empty line that ends the header (`\r\n\r\n`) starts at `k`.
pub open spec fn blank_line_at(r: Seq<char>, k: int) -> bool {
    0 <= k && k + 4 <= r.len() && r.subrange(k, k + 4) == seq!['\r', '\n', '\r', '\n']
}

/// The first index at or after `i` where the header ends.
pub open spec fn find_blank_line(r: Seq<char>, i: int) -> Option<int>
    decreases r.len() - i,
{
    if i < 0 || i + 4 > r.len() {
        None
    } else if blank_line_at(r, i) {
        Some(i)
    } else {
        find_blank_line(r, i + 1)
    }
}

/// The body of a reply: what follows the first `\r\n\r\n`, or nothing.
pub open spec fn body_of(r: Seq<char>) -> Seq<char> {
    match find_blank_line(r, 0) {
        Some(k) => r.skip(k + 4),
        None => Seq::empty(),
    }
}

fn find_newline(v: &Vec<char>) -> (r: Option<usize>)
    ensures
        match r {
            Some(k) => find_char(v@, '\n', 0) == Some(k as int) && k < v.len(),
            None => find_char(v@, '\n', 0) is None,
        },
{
    let mut i: usize = 0;
    while i < v.len()
        invariant
            i <= v.len(),
            find_char(v@, '\n', 0) == find_char(v@, '\n', i as int),
        decreases v.len() - i,
    {
        if v[i] == '\n' {
            return Some(i);
        }
        i = i + 1;
    }
    None
}

fn skip_spaces(v: &Vec<char>, end: usize, from: usize) -> (r: usize)
    requires
        from <= end <= v.len(),
    ensures
        r == skip_white_space(v@.take(end as int), from as int),
        from <= r <= end,
{
    let ghost s = v@.take(end as int);
    let mut i = from;
    while i < end && white_space(v[i])
        invariant
            from <= i <= end <= v.len(),
            s == v@.take(end as int),
            skip_white_space(s, from as int) == skip_white_space(s, i as int),
        decreases end - i,
    {
        i = i + 1;
    }
    i
}

fn skip_word(v: &Vec<char>, end: usize, from: usize) -> (r: usize)
    requires
        from <= end <= v.len(),
    ensures
        r == token_end(v@.take(end as int), from as int),
        from <= r <= end,
{
    let ghost s = v@.take(end as int);
    let mut i = from;
    while i < end && !white_space(v[i])
        invariant
            from <= i <= end <= v.len(),
            s == v@.take(end as int),
            token_end(s, from as int) == token_end(s, i as int),
        decreases end - i,
    {
        i = i + 1;
    }
    i
}

fn find_header_end(v: &Vec<char>) -> (r: Option<usize>)
    ensures
        match r {
            Some(k) => find_blank_line(v@, 0) == Some(k as int) && k + 4 <= v.len(),
            None => find_blank_line(v@, 0) is None,
        },
{
    let mut i: usize = 0;
    while v.len() >= 4 && i <= v.len() - 4
        invariant
            i <= v.len(),
            find_blank_line(v@, 0) == find_blank_line(v@, i as int),
        decreases v.len() - i,
    {
        if v[i] == '\r' && v[i + 1] == '\n' && v[i + 2] == '\r' && v[i + 3] == '\n' {
            assert(blank_line_at(v@, i as int)) by {
                assert(v@.subrange(i as int, i + 4) =~= seq!['\r', '\n', '\r', '\n']);
            }
            return Some(i);
        }
        assert(!blank_line_at(v@, i as int)) by {
            if blank_line_at(v@, i as int) {
                assert(v@.subrange(i as int, i + 4)[0] == v@[i as int]);
                assert(v@.subrange(i as int, i + 4)[1] == v@[i + 1]);
                assert(v@.subrange(i as int, i + 4)[2] == v@[i + 2]);
                assert(v@.subrange(i as int, i + 4)[3] == v@[i + 3]);
            }
        }
        i = i + 1;
    }
    None
}

/// What `parse_response` gives for the reply text `r`.
pub open spec fn response_outcome(r: Seq<char>) -> Result<(u16, Seq<char>), Seq<char>> {
    if r.len() == 0 {
        Err("Empty response"@)
    } else {
        match status_of(r) {
            Some(status) => Ok((status, body_of(r))),
            None => Err("Malformed HTTP response"@),
        }
    }
}

/// Reads the status code and the body out of the daemon's reply.
pub fn parse_response(response: &str) -> (r: Result<Reply, String>)
    ensures
        match response_outcome(response@) {
            Ok((status, body)) => r matches Ok(reply) && reply.status == status && reply.body@ == body,
            Err(e) => r matches Err(m) && m@ == e,
        },
{
    let v = chars_of(response);
    if v.len() == 0 {
        return Err(String::from_str("Empty response"));
    }
    let line_end = match find_newline(&v) {
        Some(k) => if k > 0 && v[k - 1] == '\r' {
            k - 1
        } else {
            k
        },
        None => v.len(),
    };
    let ghost line = v@.take(line_end as int);
    assert(line =~= first_line(v@));
    let a = skip_spaces(&v, line_end, 0);
    let b = skip_word(&v, line_end, a);
    let c = skip_spaces(&v, line_end, b);
    let d = skip_word(&v, line_end, c);
    if a >= line_end || c >= line_end {
        return Err(String::from_str("Malformed HTTP response"));
    }
    assert(line.subrange(c as int, d as int) =~= v@.subrange(c as int, d as int));
    let status = match parse_u16(&v, c, d) {
        Some(s) => s,
        None => {
            return Err(String::from_str("Malformed HTTP response"));
        },
    };
    let body = match find_header_end(&v) {
        Some(k) => String::from_str(response.substring_char(k + 4, v.len())),
        None => String::new(),
    };
    proof {
        if let Some(k) = find_blank_line(v@, 0) {
            assert(v@.subrange(k + 4, v@.len() as int) =~= v@.skip(k + 4));
        }
    }
    Ok(Reply { status, body })
}


proof fn lemma_find_char_at(s: Seq<char>, c: char, i: int, k: int)
    requires
        0 <= i <= k < s.len(),
        s[k] == c,
        forall|j: int| i <= j < k ==> s[j] != c,
    ensures
        find_char(s, c, i) == Some(k),
    decreases k - i,
{
    if i < k {
        lemma_find_char_at(s, c, i + 1, k);
    }
}

proof fn lemma_token_end_at(s: Seq<char>, i: int, k: int)
    requires
        0 <= i <= k <= s.len(),
        forall|j: int| i <= j < k ==> !is_white_space(s[j]),
        k == s.len() || is_white_space(s[k]),
    ensures
        token_end(s, i) == k,
    decreases k - i,
{
    if i < k {
        lemma_token_end_at(s, i + 1, k);
    }
}

proof fn lemma_find_blank_line_at(r: Seq<char>, i: int, k: int)
    requires
        0 <= i <= k,
        blank_line_at(r, k),
        forall|j: int| i <= j < k ==> !blank_line_at(r, j),
    ensures
        find_blank_line(r, i) == Some(k),
    decreases k - i,
{
    if i < k {
        lemma_find_blank_line_at(r, i + 1, k);
    }
}

/// The line break of HTTP.
pub open spec fn crlf() -> Seq<char> {
    seq!['\r', '\n']
}

/// A status line: the protocol version, a space, the status code in decimal, and the rest.
pub open spec fn status_line(version: Seq<char>, status: u16, reason: Seq<char>) -> Seq<char> {
    version + seq![' '] + decimal(status as nat) + reason
}

/// A reply is read back as it was written: for a status line whose version is one word and
/// whose rest holds no line break and starts with white space (or is empty), followed by header
/// lines that hold no empty line, an empty line and a body, the status code and the body are
/// those of the reply.
pub proof fn lemma_reply_read_back(version: Seq<char>, status: u16, reason: Seq<char>, fields: Seq<char>, body: Seq<char>)
    requires
        version.len() > 0,
        forall|i: int| 0 <= i < version.len() ==> !is_white_space(#[trigger] version[i]),
        reason.len() == 0 || is_white_space(reason[0]),
        forall|i: int| 0 <= i < reason.len() ==> #[trigger] reason[i] != '\n',
        fields.len() == 0 || (fields.len() >= 2 && fields.subrange(fields.len() - 2, fields.len() as int) == crlf()),
        find_blank_line(status_line(version, status, reason) + crlf() + fields, 0) is None,
    ensures
        response_outcome(status_line(version, status, reason) + crlf() + fields + crlf() + body)
            == Ok::<(u16, Seq<char>), Seq<char>>((status, body)),
{
    let digits = decimal(status as nat);
    let line = status_line(version, status, reason);
    let head = line + crlf() + fields;
    let r = head + crlf() + body;
    let v = version.len() as int;
    let n = digits.len() as int;
    lemma_decimal_digits(status as nat);
    lemma_u16_decimal_round_trip(status);
    assert forall|j: int| 0 <= j < n implies !is_white_space(#[trigger] digits[j]) by {
        assert(is_digit(digits[j]));
    }
    // The first line is the status line.
    assert forall|j: int| 0 <= j < line.len() implies #[trigger] line[j] != '\n' by {
        if j < v {
            assert(line[j] == version[j]);
            assert(!is_white_space(version[j]));
        } else if j == v {
        } else if j < v + 1 + n {
            assert(line[j] == digits[j - v - 1]);
            assert(!is_white_space(digits[j - v - 1]));
        } else {
            assert(line[j] == reason[j - v - 1 - n]);
        }
    }
    assert forall|j: int| 0 <= j < line.len() + 1 implies #[trigger] r[j] != '\n' by {
        if j < line.len() {
            assert(r[j] == line[j]);
        }
    }
    lemma_find_char_at(r, '\n', 0, line.len() as int + 1);
    assert(first_line(r) =~= line);
    // Its second word is the status code.
    assert(!is_white_space(line[0]));
    assert(skip_white_space(line, 0) == 0);
    assert forall|j: int| 0 <= j < v implies !is_white_space(#[trigger] line[j]) by {
        assert(line[j] == version[j]);
    }
    lemma_token_end_at(line, 0, v);
    assert(line[v] == ' ');
    assert(line[v + 1] == digits[0]);
    assert(skip_white_space(line, v + 1) == v + 1);
    assert(skip_white_space(line, v) == v + 1);
    assert forall|j: int| v + 1 <= j < v + 1 + n implies !is_white_space(#[trigger] line[j]) by {
        assert(line[j] == digits[j - v - 1]);
    }
    if reason.len() > 0 {
        assert(line[v + 1 + n] == reason[0]);
    }
    lemma_token_end_at(line, v + 1, v + 1 + n);
    assert(line.subrange(v + 1, v + 1 + n) =~= digits);
    assert(second_word(line) == Some(digits));
    // The header ends at the first empty line.
    let k = head.len() - 2;
    assert(head.subrange(k, k + 2) =~= crlf()) by {
        if fields.len() == 0 {
        } else {
            assert(head.subrange(k, k + 2) =~= fields.subrange(fields.len() - 2, fields.len() as int));
        }
    }
    assert(r.subrange(k, k + 4) =~= seq!['\r', '\n', '\r', '\n']) by {
        assert(r[k] == head[k]);
        assert(r[k + 1] == head[k + 1]);
        assert(head[k] == head.subrange(k, k + 2)[0]);
        assert(head[k + 1] == head.subrange(k, k + 2)[1]);
    }
    assert forall|j: int| 0 <= j < k implies !blank_line_at(r, j) by {
        if blank_line_at(r, j) {
            if j + 4 <= head.len() {
                assert(head.subrange(j, j + 4) =~= r.subrange(j, j + 4));
                assert(blank_line_at(head, j));
                assert(find_blank_line(head, 0) is Some) by {
                    lemma_find_blank_line_first(head, 0, j);
                }
            } else {
                assert(j == k - 1);
                assert(r.subrange(j, j + 4)[1] == r[k]);
                assert(r[k] == '\r');
            }
        }
    }
    lemma_find_blank_line_at(r, 0, k);
    assert(r.skip(k + 4) =~= body);
}

proof fn lemma_find_blank_line_first(r: Seq<char>, i: int, j: int)
    requires
        0 <= i <= j,
        blank_line_at(r, j),
    ensures
        find_blank_line(r, i) is Some,
    decreases j - i,
{
    if i < j && !blank_line_at(r, i) {
        lemma_find_blank_line_first(r, i + 1, j);
    }
}

} // verus!
