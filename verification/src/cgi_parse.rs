//! The CGI gateway's response translation: interpreting a CGI process's
//! raw output bytes as an HTTP response.
//!
//! Per the CGI output contract, the byte stream begins with a block of
//! `name: value` header lines terminated by a blank line, followed by the
//! response body. A `Status` pseudo-header, when present, supplies the
//! outbound HTTP status code; every other header line passes through
//! verbatim; with no `Status` header the status defaults to `200`. Lines
//! end in a line feed, with an optional carriage return belonging to the
//! terminator. The blank-line terminator — not the first line terminator —
//! separates head from body, so a head of several header lines is kept
//! whole.

use vstd::prelude::*;
use vstd::string::StrSliceExecFns;
use vstd::string::StringSliceAdditionalSpecFns;
use crate::util::{first_occ, find_byte, copy_range, bytes_eq};
use crate::response::{Header, HttpResponse, GatewayError, headers_model, error_model, error_response};

verus! {

/// The line feed byte.
pub open spec fn lf() -> u8 {
    10u8
}

/// The carriage return byte.
pub open spec fn cr() -> u8 {
    13u8
}

/// A line with its terminator's optional carriage return removed.
pub open spec fn strip_cr(line: Seq<u8>) -> Seq<u8> {
    if line.len() > 0 && line.last() == cr() {
        line.drop_last()
    } else {
        line
    }
}

/// Splits raw CGI output at the blank-line terminator: the header lines
/// (each without its terminator) and the body that follows the blank line.
/// `None` when no blank line terminates the head.
pub open spec fn split_head(s: Seq<u8>) -> Option<(Seq<Seq<u8>>, Seq<u8>)>
    decreases s.len(),
{
    match first_occ(s, lf()) {
        Some(nl) => if 0 <= nl < s.len() {
            let line = strip_cr(s.take(nl));
            let rest = s.skip(nl + 1);
            if line.len() == 0 {
                Some((Seq::<Seq<u8>>::empty(), rest))
            } else {
                match split_head(rest) {
                    Some(p) => Some((seq![line] + p.0, p.1)),
                    None => None,
                }
            }
        } else {
            None
        },
        None => None,
    }
}

/// A header value with leading spaces and tabs removed.
pub open spec fn trim_leading_ws(s: Seq<u8>) -> Seq<u8>
    decreases s.len(),
{
    if s.len() > 0 && (s[0] == 32u8 || s[0] == 9u8) {
        trim_leading_ws(s.drop_first())
    } else {
        s
    }
}

/// Parses one header line as `name: value`: the name is everything before
/// the first colon, the value everything after it with leading blanks
/// dropped. A line without a colon is malformed.
pub open spec fn parse_header_line(line: Seq<u8>) -> Option<(Seq<u8>, Seq<u8>)> {
    match first_occ(line, 58u8) {
        Some(c) => if 0 <= c < line.len() {
            Some((line.take(c), trim_leading_ws(line.skip(c + 1))))
        } else {
            None
        },
        None => None,
    }
}

/// Parses every header line of the head; `None` as soon as one line is
/// malformed.
pub open spec fn parse_header_lines(lines: Seq<Seq<u8>>) -> Option<Seq<(Seq<u8>, Seq<u8>)>>
    decreases lines.len(),
{
    if lines.len() == 0 {
        Some(Seq::<(Seq<u8>, Seq<u8>)>::empty())
    } else {
        match parse_header_line(lines[0]) {
            Some(h) => match parse_header_lines(lines.drop_first()) {
                Some(t) => Some(seq![h] + t),
                None => None,
            },
            None => None,
        }
    }
}

/// The name of the CGI `Status` pseudo-header, as bytes.
pub open spec fn status_name() -> Seq<u8> {
    ("Status").spec_bytes()
}

/// Interprets the parsed headers: the first `Status` header's value (if
/// any) supplies the status, and every header not named `Status` passes
/// through, in order.
pub open spec fn split_status(hs: Seq<(Seq<u8>, Seq<u8>)>) -> (
    Option<Seq<u8>>,
    Seq<(Seq<u8>, Seq<u8>)>,
)
    decreases hs.len(),
{
    if hs.len() == 0 {
        (None::<Seq<u8>>, Seq::<(Seq<u8>, Seq<u8>)>::empty())
    } else {
        let rest = split_status(hs.drop_first());
        if hs[0].0 == status_name() {
            (Some(hs[0].1), rest.1)
        } else {
            (rest.0, seq![hs[0]] + rest.1)
        }
    }
}

/// Whether a byte is an ASCII decimal digit.
pub open spec fn is_digit(b: u8) -> bool {
    48 <= b <= 57
}

/// The longest digit prefix of a `Status` value.
pub open spec fn leading_digits(s: Seq<u8>) -> Seq<u8>
    decreases s.len(),
{
    if s.len() > 0 && is_digit(s[0]) {
        seq![s[0]] + leading_digits(s.drop_first())
    } else {
        Seq::<u8>::empty()
    }
}

/// The number a digit sequence denotes in decimal.
pub open spec fn digits_value(ds: Seq<u8>) -> int
    decreases ds.len(),
{
    if ds.len() == 0 {
        0
    } else {
        digits_value(ds.drop_last()) * 10 + (ds.last() - 48)
    }
}

/// The status code a `Status` value supplies: the number its one to three
/// leading digits denote, as in `404 Not Found`. A value not starting with
/// one to three digits is unusable.
pub open spec fn parse_status_value(v: Seq<u8>) -> Option<int> {
    let ds = leading_digits(v);
    if 1 <= ds.len() <= 3 {
        Some(digits_value(ds))
    } else {
        None
    }
}

/// The full interpretation of raw CGI output as an HTTP response model:
/// status code, pass-through headers, body bytes. `None` exactly when the
/// output is malformed: no blank-line terminator, a header line without a
/// colon, or an unusable `Status` value.
pub open spec fn cgi_interp(s: Seq<u8>) -> Option<(int, Seq<(Seq<u8>, Seq<u8>)>, Seq<u8>)> {
    match split_head(s) {
        Some(hb) => match parse_header_lines(hb.0) {
            Some(hs) => {
                let st = split_status(hs);
                match st.0 {
                    Some(v) => match parse_status_value(v) {
                        Some(code) => Some((code, st.1, hb.1)),
                        None => None,
                    },
                    None => Some((200int, st.1, hb.1)),
                }
            },
            None => None,
        },
        None => None,
    }
}

/// The response model of the whole gateway step, given the child's exit
/// verdict and its raw output: a failing child yields the fixed `500`
/// error and its output is discarded; otherwise the output's
/// interpretation, or the fixed malformed-output error.
pub open spec fn gateway_model(exit_success: bool, out: Seq<u8>) -> (
    int,
    Seq<(Seq<u8>, Seq<u8>)>,
    Seq<u8>,
) {
    if !exit_success {
        error_model(GatewayError::ScriptExecutionFailure)
    } else {
        match cgi_interp(out) {
            Some(m) => m,
            None => error_model(GatewayError::MalformedCgiOutput),
        }
    }
}

/// The mathematical content of a list of raw lines.
pub open spec fn lines_model(ls: Seq<Vec<u8>>) -> Seq<Seq<u8>> {
    ls.map_values(|l: Vec<u8>| l@)
}

/// Cuts the raw output at the blank-line terminator into the list of
/// header lines and the body bytes; the malformed-output error when no
/// blank line ends the head.
#[verifier::loop_isolation(false)]
fn split_head_exec(output: &Vec<u8>) -> (r: Result<(Vec<Vec<u8>>, Vec<u8>), GatewayError>)
    ensures
        match r {
            Ok(p) => split_head(output@) == Some((lines_model(p.0@), p.1@)),
            Err(e) => split_head(output@) is None && e == GatewayError::MalformedCgiOutput,
        },
{
    let ghost s = output@;
    let mut lines: Vec<Vec<u8>> = Vec::new();
    let mut pos: usize = 0;
    proof {
        assert(s.skip(0) =~= s);
        assert(lines_model(lines@) =~= Seq::<Seq<u8>>::empty());
    }
    loop
        invariant
            pos <= output.len(),
            split_head(s) == (match split_head(s.skip(pos as int)) {
                Some(p) => Some((lines_model(lines@) + p.0, p.1)),
                None => None::<(Seq<Seq<u8>>, Seq<u8>)>,
            }),
        decreases output.len() - pos,
    {
        let ghost t = s.skip(pos as int);
        match find_byte(output, pos, 10u8) {
            None => {
                proof {
                    assert(split_head(t) is None);
                }
                return Err(GatewayError::MalformedCgiOutput);
            },
            Some(nl) => {
                let mut line = copy_range(output, pos, nl);
                proof {
                    assert(t.take(nl - pos as int) =~= s.subrange(pos as int, nl as int));
                }
                if line.len() > 0 && line[line.len() - 1] == 13u8 {
                    line.pop();
                }
                proof {
                    assert(line@ =~= strip_cr(t.take(nl - pos as int)));
                }
                if line.len() == 0 {
                    let body = copy_range(output, nl + 1, output.len());
                    proof {
                        assert(body@ =~= t.skip(nl - pos as int + 1));
                        assert(split_head(t) == Some((Seq::<Seq<u8>>::empty(), body@)));
                        assert(lines_model(lines@) + Seq::<Seq<u8>>::empty() =~= lines_model(
                            lines@,
                        ));
                    }
                    return Ok((lines, body));
                } else {
                    proof {
                        assert(t.skip(nl - pos as int + 1) =~= s.skip(nl + 1));
                        assert(split_head(t) == (match split_head(s.skip(nl + 1)) {
                            Some(p) => Some((seq![line@] + p.0, p.1)),
                            None => None::<(Seq<Seq<u8>>, Seq<u8>)>,
                        }));
                    }
                    let ghost old_lines = lines@;
                    lines.push(line);
                    pos = nl + 1;
                    proof {
                        assert(lines_model(lines@) =~= lines_model(old_lines).push(
                            lines@.last()@,
                        ));
                        if split_head(s.skip(pos as int)) is Some {
                            let p = split_head(s.skip(pos as int))->Some_0;
                            assert(lines_model(lines@) + p.0 =~= lines_model(old_lines) + (seq![
                                lines@.last()@,
                            ] + p.0));
                        }
                    }
                }
            },
        }
    }
}

/// Parses each raw header line into a name/value header; the
/// malformed-output error as soon as a line has no colon.
#[verifier::loop_isolation(false)]
fn parse_lines_exec(lines: &Vec<Vec<u8>>) -> (r: Result<Vec<Header>, GatewayError>)
    ensures
        match r {
            Ok(hs) => parse_header_lines(lines_model(lines@)) == Some(headers_model(hs@)),
            Err(e) => parse_header_lines(lines_model(lines@)) is None && e
                == GatewayError::MalformedCgiOutput,
        },
{
    let ghost ll = lines_model(lines@);
    let mut headers: Vec<Header> = Vec::new();
    let mut i: usize = 0;
    proof {
        assert(ll.skip(0) =~= ll);
        assert(headers_model(headers@) =~= Seq::<(Seq<u8>, Seq<u8>)>::empty());
    }
    while i < lines.len()
        invariant
            i <= lines.len(),
            parse_header_lines(ll) == (match parse_header_lines(ll.skip(i as int)) {
                Some(t) => Some(headers_model(headers@) + t),
                None => None::<Seq<(Seq<u8>, Seq<u8>)>>,
            }),
        decreases lines.len() - i,
    {
        let li = &lines[i];
        proof {
            assert(ll.skip(i as int).len() > 0);
            assert(ll.skip(i as int)[0] == li@);
            assert(ll.skip(i as int).drop_first() =~= ll.skip(i as int + 1));
        }
        match find_byte(li, 0, 58u8) {
            None => {
                proof {
                    assert(li@.skip(0) =~= li@);
                    assert(parse_header_line(li@) is None);
                    assert(parse_header_lines(ll.skip(i as int)) is None);
                }
                return Err(GatewayError::MalformedCgiOutput);
            },
            Some(c) => {
                let name = copy_range(li, 0, c);
                proof {
                    assert(li@.skip(0) =~= li@);
                    assert(name@ =~= li@.take(c as int));
                }
                let mut w: usize = c + 1;
                proof {
                    assert(li@.skip(c as int + 1) =~= li@.skip(w as int));
                }
                while w < li.len() && (li[w] == 32u8 || li[w] == 9u8)
                    invariant
                        c < w <= li.len(),
                        trim_leading_ws(li@.skip(c as int + 1)) == trim_leading_ws(
                            li@.skip(w as int),
                        ),
                    decreases li.len() - w,
                {
                    proof {
                        assert(li@.skip(w as int).drop_first() =~= li@.skip(w as int + 1));
                    }
                    w = w + 1;
                }
                let value = copy_range(li, w, li.len());
                proof {
                    assert(value@ =~= li@.skip(w as int));
                    assert(trim_leading_ws(li@.skip(w as int)) == li@.skip(w as int));
                    assert(parse_header_line(li@) == Some((name@, value@)));
                }
                let ghost old_headers = headers@;
                headers.push(Header { name, value });
                i = i + 1;
                proof {
                    assert(headers_model(headers@) =~= headers_model(old_headers).push(
                        headers@.last()@,
                    ));
                    if parse_header_lines(ll.skip(i as int)) is Some {
                        let t = parse_header_lines(ll.skip(i as int))->Some_0;
                        assert(headers_model(headers@) + t =~= headers_model(old_headers) + (seq![
                            headers@.last()@,
                        ] + t));
                    }
                }
            },
        }
    }
    proof {
        assert(ll.skip(lines.len() as int) =~= Seq::<Seq<u8>>::empty());
        assert(headers_model(headers@) + Seq::<(Seq<u8>, Seq<u8>)>::empty() =~= headers_model(
            headers@,
        ));
    }
    Ok(headers)
}

/// Interprets the parsed headers executably: takes the first `Status`
/// value out and keeps every other header, in order.
#[verifier::loop_isolation(false)]
fn split_status_exec(headers: Vec<Header>) -> (r: (Option<Vec<u8>>, Vec<Header>))
    ensures
        ((match r.0 {
            Some(v) => Some(v@),
            None => None::<Seq<u8>>,
        }), headers_model(r.1@)) == split_status(headers_model(headers@)),
{
    let ghost hh = headers_model(headers@);
    let mut h = headers;
    let mut status: Option<Vec<u8>> = None;
    let mut out: Vec<Header> = Vec::new();
    let status_nm = ("Status").as_bytes_vec();
    proof {
        assert(hh.skip(hh.len() as int) =~= Seq::<(Seq<u8>, Seq<u8>)>::empty());
        assert(headers_model(out@) =~= Seq::<(Seq<u8>, Seq<u8>)>::empty());
    }
    while h.len() > 0
        invariant
            headers_model(h@) =~= hh.subrange(0, h@.len() as int),
            h@.len() <= hh.len(),
            ((match status {
                Some(v) => Some(v@),
                None => None::<Seq<u8>>,
            }), headers_model(out@)) == split_status(hh.skip(h@.len() as int)),
        decreases h.len(),
    {
        let ghost k = h@.len() - 1;
        let ghost old_h = h@;
        let hd = match h.pop() {
            Some(x) => x,
            None => {
                return (None, out);
            },
        };
        proof {
            assert(hd == old_h[k]);
            assert(headers_model(old_h)[k] == old_h[k]@);
            assert(hd@ == hh.subrange(0, k + 1)[k]);
            assert(hd@ == hh[k]);
            assert(headers_model(h@) =~= hh.subrange(0, k));
            assert(hh.skip(k).drop_first() =~= hh.skip(k + 1));
            assert(hh.skip(k)[0] == hh[k]);
        }
        let is_status = bytes_eq(&hd.name, &status_nm);
        if is_status {
            proof {
                assert(hd.name@ == status_name());
            }
            status = Some(hd.value);
        } else {
            let ghost old_out = out@;
            out.insert(0, hd);
            proof {
                assert(headers_model(out@) =~= seq![out@[0]@] + headers_model(old_out));
            }
        }
    }
    proof {
        assert(hh.skip(0) =~= hh);
    }
    (status, out)
}

/// Reads the status code from a `Status` value: the number its one to
/// three leading digits denote; `None` when the value does not start with
/// one to three digits.
#[verifier::loop_isolation(false)]
fn parse_status_exec(v: &Vec<u8>) -> (r: Option<u16>)
    ensures
        match r {
            Some(code) => parse_status_value(v@) == Some(code as int),
            None => parse_status_value(v@) is None,
        },
{
    let mut n: usize = 0;
    proof {
        assert(v@.subrange(0, 0) =~= Seq::<u8>::empty());
        assert(v@.skip(0) =~= v@);
    }
    while n < v.len() && v[n] >= 48u8 && v[n] <= 57u8
        invariant
            n <= v.len(),
            leading_digits(v@) == v@.subrange(0, n as int) + leading_digits(v@.skip(n as int)),
            forall|j: int| 0 <= j < n ==> is_digit(v@[j]),
        decreases v.len() - n,
    {
        proof {
            assert(v@.skip(n as int).drop_first() =~= v@.skip(n as int + 1));
            assert(v@.subrange(0, n as int) + (seq![v@[n as int]] + leading_digits(
                v@.skip(n as int + 1),
            )) =~= v@.subrange(0, n as int + 1) + leading_digits(v@.skip(n as int + 1)));
        }
        n = n + 1;
    }
    proof {
        assert(leading_digits(v@.skip(n as int)) =~= Seq::<u8>::empty());
        assert(leading_digits(v@) =~= v@.subrange(0, n as int));
    }
    if n == 0 || n > 3 {
        return None;
    }
    let mut code: u16 = 0;
    let mut j: usize = 0;
    proof {
        assert(v@.subrange(0, 0) =~= Seq::<u8>::empty());
    }
    while j < n
        invariant
            j <= n <= 3,
            n <= v.len(),
            forall|t: int| 0 <= t < n ==> is_digit(v@[t]),
            code == digits_value(v@.subrange(0, j as int)),
            code < 1000,
            j < 3 ==> code < 100,
            j < 2 ==> code < 10,
            j < 1 ==> code == 0,
        decreases n - j,
    {
        let d = v[j];
        proof {
            assert(is_digit(v@[j as int]));
            assert(v@.subrange(0, j as int + 1).drop_last() =~= v@.subrange(0, j as int));
            assert(v@.subrange(0, j as int + 1).last() == v@[j as int]);
        }
        code = code * 10 + (d - 48) as u16;
        j = j + 1;
    }
    proof {
        assert(v@.subrange(0, n as int) == leading_digits(v@));
    }
    Some(code)
}

/// Interprets raw CGI output as an HTTP response, exactly as
/// [`cgi_interp`] states it: head and body split at the blank-line
/// terminator, each header line parsed as `name: value`, the first
/// `Status` header consumed for the status code (default `200`), every
/// other header forwarded in order, and the body passed through verbatim.
/// The malformed-output error exactly when [`cgi_interp`] has no value.
pub fn parse_cgi_output(output: &Vec<u8>) -> (r: Result<HttpResponse, GatewayError>)
    ensures
        match r {
            Ok(resp) => cgi_interp(output@) == Some(resp.model()),
            Err(e) => cgi_interp(output@) is None && e == GatewayError::MalformedCgiOutput,
        },
{
    let (lines, body) = match split_head_exec(output) {
        Ok(p) => p,
        Err(e) => {
            return Err(e);
        },
    };
    let headers = match parse_lines_exec(&lines) {
        Ok(hs) => hs,
        Err(e) => {
            return Err(e);
        },
    };
    let (status_val, out_headers) = split_status_exec(headers);
    let status: u16 = match status_val {
        None => 200,
        Some(v) => match parse_status_exec(&v) {
            Some(code) => code,
            None => {
                return Err(GatewayError::MalformedCgiOutput);
            },
        },
    };
    Ok(HttpResponse { status, headers: out_headers, body })
}

/// The gateway's whole response step, after the child process has been
/// reaped: a child that exited unsuccessfully yields the fixed `500`
/// error response with its output discarded; otherwise its output is
/// interpreted as the response, and malformed output yields the fixed
/// malformed-output error.
pub fn gateway_response(exit_success: bool, output: &Vec<u8>) -> (r: HttpResponse)
    ensures
        r.model() == gateway_model(exit_success, output@),
{
    if !exit_success {
        return error_response(GatewayError::ScriptExecutionFailure);
    }
    match parse_cgi_output(output) {
        Ok(resp) => resp,
        Err(_) => error_response(GatewayError::MalformedCgiOutput),
    }
}

/// No header line is lost: every parsed header whose name is not `Status`
/// appears among the forwarded headers, however many header lines the
/// head spans.
pub proof fn lemma_headers_forwarded(hs: Seq<(Seq<u8>, Seq<u8>)>, i: int)
    requires
        0 <= i < hs.len(),
        hs[i].0 != status_name(),
    ensures
        split_status(hs).1.contains(hs[i]),
    decreases hs.len(),
{
    if i == 0 {
        assert(split_status(hs).1[0] == hs[0]);
    } else {
        lemma_headers_forwarded(hs.drop_first(), i - 1);
        assert(hs.drop_first()[i - 1] == hs[i]);
        let rest = split_status(hs.drop_first());
        let w = choose|w: int| 0 <= w < rest.1.len() && rest.1[w] == hs[i];
        if hs[0].0 == status_name() {
            assert(split_status(hs).1[w] == hs[i]);
        } else {
            assert(split_status(hs).1[w + 1] == hs[i]);
        }
    }
}

/// A child that exits unsuccessfully always produces the same `500`
/// response, whatever it wrote: nothing of its output reaches the client.
pub proof fn lemma_failed_script_discards_output(out1: Seq<u8>, out2: Seq<u8>)
    ensures
        gateway_model(false, out1) == gateway_model(false, out2),
        gateway_model(false, out1).0 == 500,
{
}

/// Repeating a request is idempotent on the gateway side: the response is
/// a function of the child's exit verdict and output bytes alone, so two
/// runs that end alike answer alike.
pub proof fn lemma_gateway_idempotent(
    exit_success: bool,
    out: Seq<u8>,
    r1: (int, Seq<(Seq<u8>, Seq<u8>)>, Seq<u8>),
    r2: (int, Seq<(Seq<u8>, Seq<u8>)>, Seq<u8>),
)
    requires
        r1 == gateway_model(exit_success, out),
        r2 == gateway_model(exit_success, out),
    ensures
        r1 == r2,
{
}

} // verus!
