//! The response codec: a status line `<code> <meta>`, then a body that runs
//! to the end of the stream.

use vstd::prelude::*;

use crate::text::{
    chars_of, digit_value, is_digit, join_lines, lines, push_chars, slice_chars, split_lines,
    string_of, trim, trim_chars, views,
};

verus! {

#[derive(PartialEq, Eq, Structural, Clone, Copy, Debug)]
pub enum Status {
    Input,
    SensitiveInput,
    Success,
    TemporaryRedirect,
    PermanentRedirect,
    TemporaryFailure,
    ServerUnavailable,
    CgiError,
    ProxyError,
    SlowDown,
    PermanentFailure,
    NotFound,
    Gone,
    ProxyRequestRefused,
    BadRequest,
    ClientCertificateRequired,
    CertificateNotAuthorized,
    CertificateNotValid,
}

/// The status that a two-digit code names.
pub open spec fn status_for_code(n: nat) -> Option<Status> {
    if n == 10 {
        Some(Status::Input)
    } else if n == 11 {
        Some(Status::SensitiveInput)
    } else if n == 20 {
        Some(Status::Success)
    } else if n == 30 {
        Some(Status::TemporaryRedirect)
    } else if n == 31 {
        Some(Status::PermanentRedirect)
    } else if n == 40 {
        Some(Status::TemporaryFailure)
    } else if n == 41 {
        Some(Status::ServerUnavailable)
    } else if n == 42 {
        Some(Status::CgiError)
    } else if n == 43 {
        Some(Status::ProxyError)
    } else if n == 44 {
        Some(Status::SlowDown)
    } else if n == 50 {
        Some(Status::PermanentFailure)
    } else if n == 51 {
        Some(Status::NotFound)
    } else if n == 52 {
        Some(Status::Gone)
    } else if n == 53 {
        Some(Status::ProxyRequestRefused)
    } else if n == 59 {
        Some(Status::BadRequest)
    } else if n == 60 {
        Some(Status::ClientCertificateRequired)
    } else if n == 61 {
        Some(Status::CertificateNotAuthorized)
    } else if n == 62 {
        Some(Status::CertificateNotValid)
    } else {
        None
    }
}

/// The status written as `s`: exactly two ASCII digits of a known code.
pub open spec fn status_of(s: Seq<char>) -> Option<Status> {
    if s.len() == 2 && is_digit(s[0]) && is_digit(s[1]) {
        status_for_code(10 * digit_value(s[0]) + digit_value(s[1]))
    } else {
        None
    }
}

impl Status {
    /// The class of a status is the first digit of its code.
    pub open spec fn class(self) -> nat {
        match self {
            Status::Input | Status::SensitiveInput => 1,
            Status::Success => 2,
            Status::TemporaryRedirect | Status::PermanentRedirect => 3,
            Status::TemporaryFailure | Status::ServerUnavailable | Status::CgiError
            | Status::ProxyError | Status::SlowDown => 4,
            Status::PermanentFailure | Status::NotFound | Status::Gone
            | Status::ProxyRequestRefused | Status::BadRequest => 5,
            Status::ClientCertificateRequired | Status::CertificateNotAuthorized
            | Status::CertificateNotValid => 6,
        }
    }

    pub fn is_redirect(&self) -> (r: bool)
        ensures
            r == (self.class() == 3),
    {
        match self {
            Status::TemporaryRedirect | Status::PermanentRedirect => true,
            _ => false,
        }
    }

    /// The status written as `s`.
    pub fn from_chars(s: &Vec<char>) -> (r: Result<Status, ParseStatusError>)
        ensures
            match r {
                Ok(st) => status_of(s@) == Some(st),
                Err(ParseStatusError::InvalidStatus(t)) => status_of(s@).is_none() && t@ == s@,
            },
    {
        if s.len() == 2 && '0' <= s[0] && s[0] <= '9' && '0' <= s[1] && s[1] <= '9' {
            let n: u32 = 10 * (s[0] as u32 - '0' as u32) + (s[1] as u32 - '0' as u32);
            let st = if n == 10 {
                Some(Status::Input)
            } else if n == 11 {
                Some(Status::SensitiveInput)
            } else if n == 20 {
                Some(Status::Success)
            } else if n == 30 {
                Some(Status::TemporaryRedirect)
            } else if n == 31 {
                Some(Status::PermanentRedirect)
            } else if n == 40 {
                Some(Status::TemporaryFailure)
            } else if n == 41 {
                Some(Status::ServerUnavailable)
            } else if n == 42 {
                Some(Status::CgiError)
            } else if n == 43 {
                Some(Status::ProxyError)
            } else if n == 44 {
                Some(Status::SlowDown)
            } else if n == 50 {
                Some(Status::PermanentFailure)
            } else if n == 51 {
                Some(Status::NotFound)
            } else if n == 52 {
                Some(Status::Gone)
            } else if n == 53 {
                Some(Status::ProxyRequestRefused)
            } else if n == 59 {
                Some(Status::BadRequest)
            } else if n == 60 {
                Some(Status::ClientCertificateRequired)
            } else if n == 61 {
                Some(Status::CertificateNotAuthorized)
            } else if n == 62 {
                Some(Status::CertificateNotValid)
            } else {
                None
            };
            match st {
                Some(st) => {
                    return Ok(st);
                },
                None => {},
            }
        }
        Err(ParseStatusError::InvalidStatus(string_of(copy(s))))
    }
}

fn copy(v: &Vec<char>) -> (r: Vec<char>)
    ensures
        r@ == v@,
{
    let mut r: Vec<char> = Vec::new();
    push_chars(&mut r, v);
    r
}

pub enum ParseStatusError {
    InvalidStatus(String),
}

pub struct Header {
    pub status: Status,
    pub meta: String,
}

pub enum ParseHeaderError {
    MissingStatus,
    MissingMeta,
    InvalidStatus(ParseStatusError),
}

/// The index of the first space at or after `i` in `t`, or its length.
pub open spec fn space_at(t: Seq<char>, i: int) -> int
    decreases t.len() - i,
{
    if i < t.len() && t[i] != ' ' {
        space_at(t, i + 1)
    } else {
        i
    }
}

/// What reading a status line gives. The line is trimmed; the status code is
/// the text before the first space and the meta all the text after it. The
/// result is the status and meta, or the code that names no status
/// (`Err(Some(code))`), or no meta (`Err(None)`): no space, or nothing after it.
pub open spec fn header_of(line: Seq<char>) -> Result<(Status, Seq<char>), Option<Seq<char>>> {
    let t = trim(line);
    let k = space_at(t, 0);
    match status_of(t.take(k)) {
        None => Err(Some(t.take(k))),
        Some(st) => if k + 1 >= t.len() {
            Err(None)
        } else {
            Ok((st, t.skip(k + 1)))
        },
    }
}

/// A header error as the `Err` of `header_of` describes it.
pub open spec fn header_error_is(e: ParseHeaderError, h: Option<Seq<char>>) -> bool {
    match (e, h) {
        (ParseHeaderError::InvalidStatus(ParseStatusError::InvalidStatus(t)), Some(w)) => t@ == w,
        (ParseHeaderError::MissingMeta, None) => true,
        _ => false,
    }
}

impl Header {
    /// Reads a status line: it is trimmed; the status code is the text before
    /// the first space and the meta all the text after it.
    pub fn from_chars(line: &Vec<char>) -> (r: Result<Header, ParseHeaderError>)
        ensures
            match r {
                Ok(h) => header_of(line@) == Ok::<(Status, Seq<char>), Option<Seq<char>>>(
                    (h.status, h.meta@),
                ),
                Err(e) => header_of(line@).is_err() && header_error_is(
                    e,
                    header_of(line@)->Err_0,
                ),
            },
    {
        let t = trim_chars(line);
        let mut k: usize = 0;
        while k < t.len() && t[k] != ' '
            invariant
                k <= t@.len(),
                space_at(t@, 0) == space_at(t@, k as int),
            decreases t.len() - k,
        {
            k += 1;
        }
        let code = slice_chars(&t, 0, k);
        assert(code@ =~= t@.take(k as int));
        let status = match Status::from_chars(&code) {
            Ok(st) => st,
            Err(e) => {
                return Err(ParseHeaderError::InvalidStatus(e));
            },
        };
        if k + 1 >= t.len() {
            return Err(ParseHeaderError::MissingMeta);
        }
        let meta = slice_chars(&t, k + 1, t.len());
        assert(meta@ =~= t@.skip(k + 1));
        Ok(Header { status, meta: string_of(meta) })
    }
}

pub struct Page {
    pub url: String,
    pub header: Header,
    pub body: Option<String>,
}

pub enum ParsePageError {
    MissingHeader,
    InvalidHeader(ParseHeaderError),
}

/// The body of a response whose lines are `ls`: the lines after the status
/// line joined by `\n`, or nothing when that is empty.
pub open spec fn body_of(ls: Seq<Seq<char>>) -> Option<Seq<char>> {
    let b = join_lines(ls.drop_first());
    if b.len() == 0 {
        None
    } else {
        Some(b)
    }
}

/// Joins `ls[from..]` with `\n` between them.
fn join_from(ls: &Vec<Vec<char>>, from: usize) -> (r: Vec<char>)
    requires
        from <= ls@.len(),
    ensures
        r@ == join_lines(views(ls@).skip(from as int)),
{
    let mut out: Vec<char> = Vec::new();
    let mut i = from;
    assert(views(ls@).skip(from as int).take(0) =~= seq![]);
    while i < ls.len()
        invariant
            from <= i <= ls@.len(),
            out@ == join_lines(views(ls@).skip(from as int).take(i - from)),
        decreases ls.len() - i,
    {
        let ghost k = i - from;
        let ghost all = views(ls@).skip(from as int);
        assert(all.take(k + 1).drop_last() =~= all.take(k));
        assert(all.take(k + 1).last() == ls@[i as int]@);
        if i > from {
            out.push('\n');
        }
        push_chars(&mut out, &ls[i]);
        i += 1;
    }
    assert(views(ls@).skip(from as int).take(i - from) =~= views(ls@).skip(from as int));
    out
}

impl Page {
    /// Reads a whole response fetched from `url`.
    pub fn parse(url: String, response: &str) -> (r: Result<Page, ParsePageError>)
        ensures
            lines(response@).len() == 0 <==> r matches Err(ParsePageError::MissingHeader),
            lines(response@).len() > 0 ==> match r {
                Ok(p) => header_of(lines(response@)[0]) == Ok::<
                    (Status, Seq<char>),
                    Option<Seq<char>>,
                >((p.header.status, p.header.meta@)) && p.url@ == url@ && (match p.body {
                    Some(b) => body_of(lines(response@)) == Some(b@),
                    None => body_of(lines(response@)).is_none(),
                }),
                Err(ParsePageError::InvalidHeader(e)) => header_of(lines(response@)[0]).is_err()
                    && header_error_is(e, header_of(lines(response@)[0])->Err_0),
                Err(ParsePageError::MissingHeader) => false,
            },
    {
        let text = chars_of(response);
        let ls = split_lines(&text);
        if ls.len() == 0 {
            return Err(ParsePageError::MissingHeader);
        }
        assert(views(ls@)[0] == ls@[0]@);
        let header = match Header::from_chars(&ls[0]) {
            Ok(h) => h,
            Err(e) => {
                return Err(ParsePageError::InvalidHeader(e));
            },
        };
        let body = join_from(&ls, 1);
        assert(views(ls@).skip(1) =~= views(ls@).drop_first());
        let body = if body.len() == 0 {
            None
        } else {
            Some(string_of(body))
        };
        Ok(Page { url, header, body })
    }
}

} // verus!
