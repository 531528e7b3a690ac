//! The demo web server: reading the target of an HTTP request and building the
//! response.
use vstd::prelude::*;

use crate::libc::{append_bytes, digits, format_unsigned, slice_copy};

verus! {

/// The request has no complete request line yet.
pub struct IncompleteHttpRequest;

/// A response: its headers, in the order they are sent, and its body.
pub struct HttpResponse {
    headers: Vec<(Vec<u8>, Vec<u8>)>,
    body: Vec<u8>,
}

/// Index of the first `b` in `s` at or after `from`, or the length of `s`.
pub open spec fn index_of(s: Seq<u8>, from: int, b: u8) -> int
    decreases s.len() - from,
{
    if from < 0 || from >= s.len() {
        s.len() as int
    } else if s[from] == b {
        from
    } else {
        index_of(s, from + 1, b)
    }
}

/// Index of the first CR LF pair in `s` at or after `from`, or `None`.
pub open spec fn crlf_index(s: Seq<u8>, from: int) -> Option<int>
    decreases s.len() - from,
{
    if from < 0 || from + 1 >= s.len() {
        None
    } else if s[from] == 13 && s[from + 1] == 10 {
        Some(from)
    } else {
        crlf_index(s, from + 1)
    }
}

/// The target of the request line `line`: the second of its space separated parts,
/// `None` when there is no space.
pub open spec fn request_target(line: Seq<u8>) -> Option<Seq<u8>> {
    let sp1 = index_of(line, 0, 32);
    if sp1 >= line.len() {
        None
    } else {
        Some(line.subrange(sp1 + 1, index_of(line, sp1 + 1, 32)))
    }
}

/// The path of a target: what comes before the first `?`.
pub open spec fn target_path(uri: Seq<u8>) -> Seq<u8> {
    uri.subrange(0, index_of(uri, 0, 63))
}

/// The query of a target: what comes after the first `?`, if there is one.
pub open spec fn target_params(uri: Seq<u8>) -> Option<Seq<u8>> {
    let q = index_of(uri, 0, 63);
    if q >= uri.len() {
        None
    } else {
        Some(uri.subrange(q + 1, uri.len() as int))
    }
}

/// `Content-Length`.
pub open spec fn content_length_name() -> Seq<u8> {
    seq![67u8, 111, 110, 116, 101, 110, 116, 45, 76, 101, 110, 103, 116, 104]
}

/// `Content-Type`.
pub open spec fn content_type_name() -> Seq<u8> {
    seq![67u8, 111, 110, 116, 101, 110, 116, 45, 84, 121, 112, 101]
}

/// `Connection`.
pub open spec fn connection_name() -> Seq<u8> {
    seq![67u8, 111, 110, 110, 101, 99, 116, 105, 111, 110]
}

/// `close`.
pub open spec fn close_value() -> Seq<u8> {
    seq![99u8, 108, 111, 115, 101]
}

/// `text/html`.
pub open spec fn text_html() -> Seq<u8> {
    seq![116u8, 101, 120, 116, 47, 104, 116, 109, 108]
}

/// `Got form request with params: `.
pub open spec fn form_reply_prefix() -> Seq<u8> {
    seq![
        71u8, 111, 116, 32, 102, 111, 114, 109, 32, 114, 101, 113, 117, 101, 115, 116, 32, 119,
        105, 116, 104, 32, 112, 97, 114, 97, 109, 115, 58, 32,
    ]
}

/// `Uh oh`.
pub open spec fn not_found_body() -> Seq<u8> {
    seq![85u8, 104, 32, 111, 104]
}

/// `/`.
pub open spec fn root_path() -> Seq<u8> {
    seq![47u8]
}

/// `/form`.
pub open spec fn form_path() -> Seq<u8> {
    seq![47u8, 102, 111, 114, 109]
}

/// The status line, `HTTP/1.1 200 OK` and CR LF.
pub open spec fn status_line() -> Seq<u8> {
    seq![72u8, 84, 84, 80, 47, 49, 46, 49, 32, 50, 48, 48, 32, 79, 75, 13, 10]
}

fn bytes_of(s: &[u8]) -> (r: Vec<u8>)
    ensures
        r@ == s@,
{
    let mut v: Vec<u8> = Vec::new();
    append_bytes(&mut v, s);
    v
}

impl HttpResponse {
    /// The headers, name and value, in order.
    pub closed spec fn header_list(&self) -> Seq<(Seq<u8>, Seq<u8>)> {
        self.headers@.map_values(|h: (Vec<u8>, Vec<u8>)| (h.0@, h.1@))
    }

    /// The body.
    pub closed spec fn body_bytes(&self) -> Seq<u8> {
        self.body@
    }

    /// A response carrying `body` of type `content_type`, with its length and a
    /// request to close the connection.
    pub fn new(body: Vec<u8>, content_type: Vec<u8>) -> (r: HttpResponse)
        ensures
            r.body_bytes() == body@,
            r.header_list() == seq![
                (content_length_name(), digits(body@.len(), 10)),
                (content_type_name(), content_type@),
                (connection_name(), close_value()),
            ],
    {
        let length = format_unsigned(body.len() as u64, 10);
        let mut headers: Vec<(Vec<u8>, Vec<u8>)> = Vec::new();
        let name = bytes_of(&[67u8, 111, 110, 116, 101, 110, 116, 45, 76, 101, 110, 103, 116, 104]);
        headers.push((name, length));
        let name = bytes_of(&[67u8, 111, 110, 116, 101, 110, 116, 45, 84, 121, 112, 101]);
        headers.push((name, content_type));
        let name = bytes_of(&[67u8, 111, 110, 110, 101, 99, 116, 105, 111, 110]);
        let value = bytes_of(&[99u8, 108, 111, 115, 101]);
        headers.push((name, value));
        let r = HttpResponse { headers, body };
        assert(r.header_list() =~= seq![
            (content_length_name(), digits(body@.len(), 10)),
            (content_type_name(), content_type@),
            (connection_name(), close_value()),
        ]);
        r
    }
}

/// The headers as sent: each as its name, `: `, its value and CR LF.
pub open spec fn headers_bytes(hs: Seq<(Seq<u8>, Seq<u8>)>) -> Seq<u8>
    decreases hs.len(),
{
    if hs.len() == 0 {
        Seq::empty()
    } else {
        headers_bytes(hs.drop_last()) + hs.last().0 + seq![58u8, 32] + hs.last().1 + seq![
            13u8,
            10,
        ]
    }
}

impl HttpResponse {
    /// The response as sent: the status line, the headers, an empty line and the body.
    pub fn to_bytes(&self) -> (r: Vec<u8>)
        ensures
            r@ == status_line() + headers_bytes(self.header_list()) + seq![13u8, 10]
                + self.body_bytes(),
    {
        let mut out = bytes_of(&[72u8, 84, 84, 80, 47, 49, 46, 49, 32, 50, 48, 48, 32, 79, 75, 13, 10]);
        let ghost hs = self.header_list();
        let mut i: usize = 0;
        while i < self.headers.len()
            invariant
                i <= self.headers@.len(),
                hs == self.header_list(),
                hs.len() == self.headers@.len(),
                out@ == status_line() + headers_bytes(hs.take(i as int)),
            decreases self.headers@.len() - i,
        {
            append_bytes(&mut out, self.headers[i].0.as_slice());
            append_bytes(&mut out, &[58u8, 32]);
            append_bytes(&mut out, self.headers[i].1.as_slice());
            append_bytes(&mut out, &[13u8, 10]);
            proof {
                assert(hs.take(i + 1).drop_last() =~= hs.take(i as int));
                assert(hs[i as int] == (self.headers@[i as int].0@, self.headers@[i as int].1@));
            }
            i += 1;
        }
        proof {
            assert(hs.take(hs.len() as int) =~= hs);
        }
        append_bytes(&mut out, &[13u8, 10]);
        append_bytes(&mut out, self.body.as_slice());
        out
    }
}

/// Index of the first `b` in `s` at or after `from`, or the length of `s`.
fn find_byte(s: &[u8], from: usize, b: u8) -> (r: usize)
    requires
        from <= s@.len(),
    ensures
        r == index_of(s@, from as int, b),
        from <= r <= s@.len(),
{
    let n = s.len();
    let mut i = from;
    while i < n && s[i] != b
        invariant
            from <= i <= n,
            n == s@.len(),
            index_of(s@, from as int, b) == index_of(s@, i as int, b),
        decreases n - i,
    {
        i += 1;
    }
    i
}

/// Index of the first CR LF pair in `s`.
fn find_crlf(s: &[u8]) -> (r: Option<usize>)
    ensures
        r matches Some(i) ==> crlf_index(s@, 0) == Some(i as int) && i + 1 < s@.len(),
        r is None ==> crlf_index(s@, 0) is None,
{
    let n = s.len();
    let mut i: usize = 0;
    while i < n && i + 1 < n
        invariant
            n == s@.len(),
            crlf_index(s@, 0) == crlf_index(s@, i as int),
        decreases n - i,
    {
        if s[i] == 13 && s[i + 1] == 10 {
            return Some(i);
        }
        i += 1;
    }
    None
}

/// Whether a request can be answered: unless it targets `/form` without a query.
pub open spec fn request_answerable(data: Seq<u8>) -> bool {
    crlf_index(data, 0) matches Some(e) ==> (request_target(data.subrange(0, e)) matches Some(
        uri,
    ) ==> (target_path(uri) == form_path() ==> target_params(uri) is Some))
}

/// Checks [`request_answerable`].
pub fn check_request_answerable(data: &[u8]) -> (r: bool)
    ensures
        r == request_answerable(data@),
{
    let first_line_end = match find_crlf(data) {
        Some(e) => e,
        None => {
            return true;
        },
    };
    let line = slice_copy(data, 0, first_line_end);
    let sp1 = find_byte(line.as_slice(), 0, 32);
    if sp1 >= line.len() {
        return true;
    }
    let sp2 = find_byte(line.as_slice(), sp1 + 1, 32);
    let uri = slice_copy(line.as_slice(), sp1 + 1, sp2);
    let q = find_byte(uri.as_slice(), 0, 63);
    let path = slice_copy(uri.as_slice(), 0, q);
    let is_form = path.len() == 5 && path[0] == 47 && path[1] == 102 && path[2] == 111 && path[3]
        == 114 && path[4] == 109;
    proof {
        assert(is_form <==> path@ =~= form_path());
    }
    !is_form || q < uri.len()
}

/// The response to the request that starts `data`, by the path its request line
/// targets: `index_page` for `/`, an echo of the query for `/form`, and a short note
/// for anything else; all as HTML.
pub fn handle_http_request(data: &[u8], index_page: &[u8]) -> (r: Result<
    HttpResponse,
    IncompleteHttpRequest,
>)
    requires
        request_answerable(data@),
    ensures
        r is Err <==> crlf_index(data@, 0) is None || request_target(
            data@.subrange(0, crlf_index(data@, 0)->0),
        ) is None,
        r matches Ok(resp) ==> {
            let uri = request_target(data@.subrange(0, crlf_index(data@, 0)->0))->0;
            let path = target_path(uri);
            let body = if path == root_path() {
                index_page@
            } else if path == form_path() {
                form_reply_prefix() + target_params(uri)->0
            } else {
                not_found_body()
            };
            &&& resp.body_bytes() == body
            &&& resp.header_list() == seq![
                (content_length_name(), digits(body.len(), 10)),
                (content_type_name(), text_html()),
                (connection_name(), close_value()),
            ]
        },
{
    let first_line_end = match find_crlf(data) {
        Some(e) => e,
        None => {
            return Err(IncompleteHttpRequest);
        },
    };
    let line = slice_copy(data, 0, first_line_end);
    let sp1 = find_byte(line.as_slice(), 0, 32);
    if sp1 >= line.len() {
        return Err(IncompleteHttpRequest);
    }
    let sp2 = find_byte(line.as_slice(), sp1 + 1, 32);
    let uri = slice_copy(line.as_slice(), sp1 + 1, sp2);
    let q = find_byte(uri.as_slice(), 0, 63);
    let path = slice_copy(uri.as_slice(), 0, q);
    let content_type = bytes_of(&[116u8, 101, 120, 116, 47, 104, 116, 109, 108]);
    let is_root = path.len() == 1 && path[0] == 47;
    let is_form = path.len() == 5 && path[0] == 47 && path[1] == 102 && path[2] == 111 && path[3]
        == 114 && path[4] == 109;
    proof {
        assert(is_root <==> path@ =~= root_path());
        assert(is_form <==> path@ =~= form_path());
    }
    let body = if is_root {
        bytes_of(index_page)
    } else if is_form {
        let mut b = bytes_of(
            &[
                71u8, 111, 116, 32, 102, 111, 114, 109, 32, 114, 101, 113, 117, 101, 115, 116, 32,
                119, 105, 116, 104, 32, 112, 97, 114, 97, 109, 115, 58, 32,
            ],
        );
        let params = slice_copy(uri.as_slice(), q + 1, uri.len());
        append_bytes(&mut b, params.as_slice());
        b
    } else {
        bytes_of(&[85u8, 104, 32, 111, 104])
    };
    Ok(HttpResponse::new(body, content_type))
}

} // verus!
