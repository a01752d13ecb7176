use vstd::prelude::*;
use vstd::string::StringSliceAdditionalSpecFns;

verus! {

/// The text that `String::from_utf8_lossy` makes of `bytes`.
pub uninterp spec fn utf8_lossy(bytes: Seq<u8>) -> Seq<char>;

/// Whether every byte of `bytes` is ASCII.
pub open spec fn all_ascii(bytes: Seq<u8>) -> bool {
    forall|i: int| 0 <= i < bytes.len() ==> #[trigger] bytes[i] < 0x80
}

/// `String::from_utf8_lossy(bytes)`, owned. Its text is named `utf8_lossy(bytes)`. For valid
/// UTF-8 it is the decoded text, and so for ASCII bytes (one character per byte) it is those
/// bytes as characters; what replaces invalid sequences is left to the name.
#[verifier::external_body]
fn lossy_string(bytes: &[u8]) -> (s: String)
    ensures
        s@ == utf8_lossy(bytes@),
        vstd::utf8::valid_utf8(bytes@) ==> s@ == vstd::utf8::decode_utf8(bytes@),
        all_ascii(bytes@) ==> s@ == bytes@.map_values(|b: u8| b as char),
{
    String::from_utf8_lossy(bytes).into_owned()
}

/// Where the URL of request `req` ends: the first space at or after position 4.
pub open spec fn url_end(req: Seq<u8>) -> int {
    choose|i: int| 4 <= i < req.len() && req[i] == 0x20 && forall|j: int| 4 <= j < i ==> #[trigger] req[j] != 0x20
}

/// Whether `req` has a space at or after position 4.
pub open spec fn has_url_end(req: Seq<u8>) -> bool {
    exists|i: int| 4 <= i < req.len() && #[trigger] req[i] == 0x20
}

/// The URL of an HTTP request line `req` ("GET <url> ..."): the text of the bytes from
/// position 4 up to the first space after them.
pub fn get_url_from_tcp_request(req: &[u8]) -> (url: String)
    requires
        has_url_end(req@),
    ensures
        4 <= url_end(req@) < req@.len(),
        req@[url_end(req@)] == 0x20,
        forall|j: int| 4 <= j < url_end(req@) ==> #[trigger] req@[j] != 0x20,
        url@ == utf8_lossy(req@.subrange(4, url_end(req@))),
        all_ascii(req@.subrange(4, url_end(req@))) ==> url@ == req@.subrange(4, url_end(req@)).map_values(
            |b: u8| b as char,
        ),
{
    let mut index: usize = 0;
    let mut i: usize = 4;
    while i < req.len()
        invariant_except_break
            4 <= i <= req@.len(),
            forall|j: int| 4 <= j < i ==> #[trigger] req@[j] != 0x20,
            index == 0,
            has_url_end(req@),
        ensures
            4 <= index < req@.len(),
            req@[index as int] == 0x20,
            forall|j: int| 4 <= j < index ==> #[trigger] req@[j] != 0x20,
        decreases req@.len() - i,
    {
        if req[i] == 0x20 {
            index = i;
            break;
        }
        i = i + 1;
    }
    proof {
        let e = url_end(req@);
        assert(4 <= index < req@.len() && req@[index as int] == 0x20 && forall|j: int| 4 <= j < index ==> #[trigger] req@[j] != 0x20);
        if e < index {
            assert(req@[e] != 0x20);
        } else if e > index {
            assert(req@[index as int] != 0x20);
        }
    }
    let mut bytes: Vec<u8> = Vec::new();
    let mut k: usize = 4;
    while k < index
        invariant
            4 <= k <= index,
            index < req@.len(),
            bytes@ == req@.subrange(4, k as int),
        decreases index - k,
    {
        bytes.push(req[k]);
        k = k + 1;
    }
    lossy_string(bytes.as_slice())
}

/// Whether `buf` starts with the bytes of "GET ".
pub open spec fn starts_with_get(buf: Seq<u8>) -> bool {
    buf.len() >= 4 && buf[0] == 0x47 && buf[1] == 0x45 && buf[2] == 0x54 && buf[3] == 0x20
}

/// How the web server answers a request.
#[derive(Clone, Copy, Debug, PartialEq, Eq, Structural)]
pub enum HttpReply {
    /// Not a GET request: nothing is sent and the connection stays up.
    NotHttp,
    /// A request for "/close": the closing page is sent and the server stops.
    Close,
    /// Any other GET request: the main page is sent.
    Page,
}

/// What the server does with the first `len` bytes read into `buf`: a request that is
/// shorter than 4 bytes or does not start with "GET " is refused; a GET of "/close" closes
/// the server; any other GET is answered with the main page.
pub fn classify_tcp_request(buf: &[u8], len: isize) -> (r: HttpReply)
    requires
        len >= 4 ==> buf@.len() >= 4,
        len >= 4 && starts_with_get(buf@) ==> has_url_end(buf@),
    ensures
        r == if len < 4 || !starts_with_get(buf@) {
            HttpReply::NotHttp
        } else if utf8_lossy(buf@.subrange(4, url_end(buf@))) == "/close"@ {
            HttpReply::Close
        } else {
            HttpReply::Page
        },
{
    if len < 4 || !(buf[0] == 0x47 && buf[1] == 0x45 && buf[2] == 0x54 && buf[3] == 0x20) {
        return HttpReply::NotHttp;
    }
    let url = get_url_from_tcp_request(buf);
    reply_for_url(&url)
}

/// The reply to a GET of `url`: the server closes on "/close" and sends its page otherwise.
pub fn reply_for_url(url: &String) -> (r: HttpReply)
    ensures
        r == if url@ == "/close"@ { HttpReply::Close } else { HttpReply::Page },
{
    let close = "/close".to_owned();
    if *url == close {
        HttpReply::Close
    } else {
        HttpReply::Page
    }
}

/// The decimal digits of `n` as ASCII bytes, most significant first.
pub open spec fn decimal(n: nat) -> Seq<u8>
    decreases n,
{
    if n < 10 {
        seq![(48 + n) as u8]
    } else {
        decimal(n / 10).push((48 + n % 10) as u8)
    }
}

/// The response that the web server sends for a page: a "200 OK" status line, the
/// content type, the content length in bytes, the connection header, an empty line, and the
/// page itself.
pub open spec fn http_response_bytes(content: Seq<u8>) -> Seq<u8> {
    "HTTP/1.1 200 OK\r\nContent-Type: text/html\r\nContent-Length: ".spec_bytes() + decimal(content.len())
        + "\r\nConnecion: Close\r\n\r\n".spec_bytes() + content
}

/// Appends the bytes of `bytes` to `out`.
fn push_bytes(out: &mut Vec<u8>, bytes: &[u8])
    ensures
        final(out)@ == old(out)@ + bytes@,
{
    let mut i: usize = 0;
    while i < bytes.len()
        invariant
            i <= bytes@.len(),
            out@ == old(out)@ + bytes@.subrange(0, i as int),
        decreases bytes@.len() - i,
    {
        out.push(bytes[i]);
        i = i + 1;
        proof {
            assert(bytes@.subrange(0, i as int) =~= bytes@.subrange(0, i - 1).push(bytes@[i - 1]));
        }
    }
    proof {
        assert(bytes@.subrange(0, bytes@.len() as int) =~= bytes@);
    }
}

/// Appends the decimal digits of `n` to `out`.
fn push_decimal(out: &mut Vec<u8>, n: usize)
    ensures
        final(out)@ == old(out)@ + decimal(n as nat),
    decreases n,
{
    if n >= 10 {
        push_decimal(out, n / 10);
    }
    let digit: u8 = (n % 10) as u8;
    out.push(48 + digit);
    proof {
        if n >= 10 {
            assert(old(out)@ + decimal(n as nat) =~= old(out)@ + decimal((n / 10) as nat) + seq![(48 + n % 10) as u8]);
        } else {
            assert(old(out)@ + decimal(n as nat) =~= old(out)@ + seq![(48 + n) as u8]);
        }
    }
}

/// The bytes the web server sends to answer with page `content`: the status line and
/// headers, with the length of `content` in bytes, followed by `content`.
pub fn http_response(content: &str) -> (r: Vec<u8>)
    ensures
        r@ == http_response_bytes(content.spec_bytes()),
{
    let mut out: Vec<u8> = Vec::new();
    push_bytes(&mut out, "HTTP/1.1 200 OK\r\nContent-Type: text/html\r\nContent-Length: ".as_bytes());
    let body = content.as_bytes();
    push_decimal(&mut out, body.len());
    push_bytes(&mut out, "\r\nConnecion: Close\r\n\r\n".as_bytes());
    push_bytes(&mut out, body);
    proof {
        assert(out@ =~= http_response_bytes(content.spec_bytes()));
    }
    out
}

/// The number that the ASCII decimal digits `s` denote, read most significant first.
pub open spec fn digits_value(s: Seq<u8>) -> int
    decreases s.len(),
{
    if s.len() == 0 {
        0
    } else {
        digits_value(s.drop_last()) * 10 + (s.last() - 48)
    }
}

/// Whether `s` is a decimal numeral: at least one digit, all ASCII digits, and no leading
/// zero unless it is the single digit 0.
pub open spec fn is_numeral(s: Seq<u8>) -> bool {
    &&& s.len() > 0
    &&& forall|i: int| 0 <= i < s.len() ==> 48 <= #[trigger] s[i] <= 57
    &&& s.len() > 1 ==> s[0] != 48
}

/// The digits written for a length read back as that length: for every `n`, `decimal(n)`
/// is a decimal numeral without leading zeros and denotes `n`.
pub proof fn law_decimal_reads_back(n: nat)
    ensures
        is_numeral(decimal(n)),
        digits_value(decimal(n)) == n,
        decimal(n)[0] == 48 <==> n == 0,
    decreases n,
{
    let e = decimal(n);
    if n >= 10 {
        law_decimal_reads_back(n / 10);
        let d = decimal(n / 10);
        assert(e == d.push((48 + n % 10) as u8));
        assert(e.drop_last() =~= d);
        assert(e.last() == (48 + n % 10) as u8);
        assert(e.last() - 48 == n % 10);
        assert(digits_value(e) == digits_value(d) * 10 + (e.last() - 48));
        assert(n == (n / 10) * 10 + n % 10);
        assert forall|i: int| 0 <= i < e.len() implies 48 <= #[trigger] e[i] <= 57 by {
            if i < d.len() {
                assert(e[i] == d[i]);
            }
        }
        assert(e[0] == d[0]);
        assert(n / 10 != 0);
    } else {
        assert(e == seq![(48 + n) as u8]);
        assert(e.drop_last() =~= Seq::<u8>::empty());
        assert(e.last() - 48 == n);
        assert(digits_value(e) == digits_value(e.drop_last()) * 10 + (e.last() - 48));
    }
}

/// The Content-Length header carries the page's length: the response is the status line and
/// the header name, then a decimal numeral that reads back as the number of bytes of
/// `content`, then the rest of the header lines, then `content` itself.
pub proof fn law_response_length_reads_back(content: Seq<u8>)
    ensures
        exists|digits: Seq<u8>|
            #![trigger digits_value(digits)]
            is_numeral(digits) && digits_value(digits) == content.len() && http_response_bytes(content)
                == "HTTP/1.1 200 OK\r\nContent-Type: text/html\r\nContent-Length: ".spec_bytes() + digits
                + "\r\nConnecion: Close\r\n\r\n".spec_bytes() + content,
{
    law_decimal_reads_back(content.len());
    let digits = decimal(content.len());
    assert(digits_value(digits) == content.len());
}

} // verus!
