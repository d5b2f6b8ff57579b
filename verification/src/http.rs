//! The responder that the pool serves: which page a request is answered
//! with, and the bytes of the answer.
//!
//! A request whose first bytes are exactly the request line for the root
//! path gets the greeting page with status 200; every other request gets the
//! not-found page with status 404. A response is the status line, one
//! `Content-Length` header that gives the body's length in bytes, a blank
//! line, and the body.

use vstd::prelude::*;
use vstd::string::*;

verus! {

/// The bytes of a piece of ASCII text, one per character.
pub open spec fn octets(text: Seq<char>) -> Seq<u8> {
    Seq::new(text.len(), |i: int| text[i] as u8)
}

/// The request line that is answered with the greeting page.
pub open spec fn root_request_line() -> Seq<u8> {
    octets("GET / HTTP/1.1\r\n"@)
}

/// The decimal digits of `n` in ASCII, most significant first, without
/// leading zeros.
pub open spec fn decimal(n: nat) -> Seq<u8>
    decreases n,
{
    if n < 10 {
        seq![(48 + n) as u8]
    } else {
        decimal(n / 10).push((48 + n % 10) as u8)
    }
}

/// The number that a sequence of ASCII digits denotes.
pub open spec fn decimal_value(digits: Seq<u8>) -> nat
    decreases digits.len(),
{
    if digits.len() == 0 {
        0
    } else {
        (10 * decimal_value(digits.drop_last()) + (digits.last() - 48)) as nat
    }
}

/// The page that a request is answered with.
#[derive(Debug, Clone, Copy, PartialEq, Eq, Structural)]
pub enum Page {
    /// The greeting page, served with status 200.
    Hello,
    /// The page for everything else, served with status 404.
    NotFound,
}

impl Page {
    /// The status line of a response that carries this page.
    pub open spec fn status_text(self) -> Seq<char> {
        match self {
            Page::Hello => "HTTP/1.1 200 OK"@,
            Page::NotFound => "HTTP/1.1 404 NOT FOUND"@,
        }
    }

    /// The name of the file that holds this page's contents.
    pub open spec fn file_text(self) -> Seq<char> {
        match self {
            Page::Hello => "hello.html"@,
            Page::NotFound => "404.html"@,
        }
    }

    /// The status line of a response that carries this page.
    pub fn status_line(&self) -> (line: &'static str)
        ensures
            line@ == self.status_text(),
            line.is_ascii(),
    {
        proof {
            reveal_strlit("HTTP/1.1 200 OK");
            reveal_strlit("HTTP/1.1 404 NOT FOUND");
        }
        match self {
            Page::Hello => "HTTP/1.1 200 OK",
            Page::NotFound => "HTTP/1.1 404 NOT FOUND",
        }
    }

    /// The name of the file that holds this page's contents.
    pub fn file_name(&self) -> (name: &'static str)
        ensures
            name@ == self.file_text(),
    {
        match self {
            Page::Hello => "hello.html",
            Page::NotFound => "404.html",
        }
    }
}

/// The page that answers `request`.
pub open spec fn page_for(request: Seq<u8>) -> Page {
    if root_request_line().is_prefix_of(request) {
        Page::Hello
    } else {
        Page::NotFound
    }
}

/// The response that carries `body` as the contents of `page`.
pub open spec fn response_bytes(page: Page, body: Seq<u8>) -> Seq<u8> {
    octets(page.status_text()) + octets("\r\nContent-Length: "@) + decimal(body.len()) + octets(
        "\r\n\r\n"@,
    ) + body
}

/// Whether `bytes` begins with `prefix`.
pub fn starts_with(bytes: &[u8], prefix: &[u8]) -> (found: bool)
    ensures
        found == prefix@.is_prefix_of(bytes@),
{
    if prefix.len() > bytes.len() {
        return false;
    }
    let mut i: usize = 0;
    while i < prefix.len()
        invariant
            i <= prefix.len() <= bytes.len(),
            forall|k: int| 0 <= k < i ==> prefix@[k] == bytes@[k],
        decreases prefix.len() - i,
    {
        if prefix[i] != bytes[i] {
            assert(bytes@.subrange(0, prefix@.len() as int)[i as int] == bytes@[i as int]);
            return false;
        }
        i += 1;
    }
    true
}

/// Chooses the page for a request from the bytes that were read of it.
pub fn select_page(request: &[u8]) -> (page: Page)
    ensures
        page == page_for(request@),
{
    let line = "GET / HTTP/1.1\r\n";
    proof {
        reveal_strlit("GET / HTTP/1.1\r\n");
        is_ascii_spec_bytes(line);
    }
    if starts_with(request, line.as_bytes()) {
        Page::Hello
    } else {
        Page::NotFound
    }
}

/// Writes `n` in decimal.
pub fn decimal_digits(n: usize) -> (digits: Vec<u8>)
    ensures
        digits@ == decimal(n as nat),
    decreases n,
{
    if n < 10 {
        let mut digits: Vec<u8> = Vec::new();
        digits.push(48 + n as u8);
        assert(digits@ =~= decimal(n as nat));
        digits
    } else {
        let mut digits = decimal_digits(n / 10);
        digits.push(48 + (n % 10) as u8);
        digits
    }
}

/// Appends `bytes` to `out`.
fn append(out: &mut Vec<u8>, bytes: &[u8])
    ensures
        final(out)@ == old(out)@ + bytes@,
{
    let mut i: usize = 0;
    while i < bytes.len()
        invariant
            i <= bytes.len(),
            out@ == old(out)@ + bytes@.subrange(0, i as int),
        decreases bytes.len() - i,
    {
        out.push(bytes[i]);
        assert(bytes@.subrange(0, i + 1) =~= bytes@.subrange(0, i as int).push(bytes@[i as int]));
        i += 1;
    }
    assert(bytes@.subrange(0, i as int) =~= bytes@);
}

/// Builds the response that carries `body` as the contents of `page`.
pub fn format_response(page: Page, body: &[u8]) -> (response: Vec<u8>)
    ensures
        response@ == response_bytes(page, body@),
{
    let status = page.status_line();
    let header = "\r\nContent-Length: ";
    let blank = "\r\n\r\n";
    proof {
        reveal_strlit("\r\nContent-Length: ");
        reveal_strlit("\r\n\r\n");
        is_ascii_spec_bytes(status);
        is_ascii_spec_bytes(header);
        is_ascii_spec_bytes(blank);
    }
    let length = decimal_digits(body.len());
    let mut response: Vec<u8> = Vec::new();
    append(&mut response, status.as_bytes());
    append(&mut response, header.as_bytes());
    append(&mut response, length.as_slice());
    append(&mut response, blank.as_bytes());
    append(&mut response, body);
    assert(response@ =~= response_bytes(page, body@));
    response
}

/// The digits written for a number are decimal digits without a leading
/// zero, and they denote that number.
pub proof fn lemma_decimal_denotes(n: nat)
    ensures
        decimal(n).len() >= 1,
        forall|i: int| 0 <= i < decimal(n).len() ==> 48 <= #[trigger] decimal(n)[i] <= 57,
        n > 0 ==> decimal(n)[0] != 48,
        decimal_value(decimal(n)) == n,
    decreases n,
{
    if n < 10 {
        let digits = decimal(n);
        assert(digits.drop_last() =~= Seq::<u8>::empty());
        assert(decimal_value(digits) == 10 * decimal_value(digits.drop_last()) + (digits.last()
            - 48));
    } else {
        let shorter = decimal(n / 10);
        let digits = decimal(n);
        lemma_decimal_denotes(n / 10);
        assert(digits.drop_last() =~= shorter);
        assert(digits[0] == shorter[0]);
        assert forall|i: int| 0 <= i < digits.len() implies 48 <= #[trigger] digits[i] <= 57 by {
            if i < shorter.len() {
                assert(digits[i] == shorter[i]);
            }
        }
    }
}

/// A request that begins with the request line for the root path is
/// answered with status 200 and the body it is given, whose length in bytes
/// the `Content-Length` header states.
pub proof fn lemma_root_request_is_served(request: Seq<u8>, body: Seq<u8>)
    requires
        root_request_line().is_prefix_of(request),
    ensures
        page_for(request) == Page::Hello,
        response_bytes(page_for(request), body) == octets(
            "HTTP/1.1 200 OK\r\nContent-Length: "@,
        ) + decimal(body.len()) + octets("\r\n\r\n"@) + body,
        decimal_value(decimal(body.len())) == body.len(),
{
    reveal_strlit("HTTP/1.1 200 OK");
    reveal_strlit("\r\nContent-Length: ");
    reveal_strlit("HTTP/1.1 200 OK\r\nContent-Length: ");
    assert(octets("HTTP/1.1 200 OK"@) + octets("\r\nContent-Length: "@) =~= octets(
        "HTTP/1.1 200 OK\r\nContent-Length: "@,
    ));
    lemma_decimal_denotes(body.len());
}

/// Every other request is answered with status 404 and the body it is
/// given, whose length in bytes the `Content-Length` header states.
pub proof fn lemma_other_request_is_not_found(request: Seq<u8>, body: Seq<u8>)
    requires
        !root_request_line().is_prefix_of(request),
    ensures
        page_for(request) == Page::NotFound,
        response_bytes(page_for(request), body) == octets(
            "HTTP/1.1 404 NOT FOUND\r\nContent-Length: "@,
        ) + decimal(body.len()) + octets("\r\n\r\n"@) + body,
        decimal_value(decimal(body.len())) == body.len(),
{
    reveal_strlit("HTTP/1.1 404 NOT FOUND");
    reveal_strlit("\r\nContent-Length: ");
    reveal_strlit("HTTP/1.1 404 NOT FOUND\r\nContent-Length: ");
    assert(octets("HTTP/1.1 404 NOT FOUND"@) + octets("\r\nContent-Length: "@) =~= octets(
        "HTTP/1.1 404 NOT FOUND\r\nContent-Length: "@,
    ));
    lemma_decimal_denotes(body.len());
}

} // verus!
