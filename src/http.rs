use vstd::prelude::*;
use vstd::string::{StrSliceExecFns, StringSliceAdditionalSpecFns};
use crate::args::{digits_value, is_digit};

verus! {

/// Carriage return and line feed.
pub open spec fn crlf() -> Seq<u8> {
    seq![13u8, 10u8]
}

/// The bytes of `HTTP/1.1 `.
pub open spec fn http_version() -> Seq<u8> {
    seq![72u8, 84u8, 84u8, 80u8, 47u8, 49u8, 46u8, 49u8, 32u8]
}

/// The decimal digits of `n`, most significant first.
pub open spec fn decimal(n: nat) -> Seq<u8>
    decreases n,
{
    if n < 10 {
        seq![(48 + n) as u8]
    } else {
        decimal(n / 10).push((48 + n % 10) as u8)
    }
}

/// The header lines `key: value` of `headers`, each ended by CRLF.
pub open spec fn header_lines(headers: Seq<(Seq<u8>, Seq<u8>)>) -> Seq<u8>
    decreases headers.len(),
{
    if headers.len() == 0 {
        Seq::empty()
    } else {
        header_lines(headers.drop_last()) + headers.last().0 + seq![58u8, 32u8]
            + headers.last().1 + crlf()
    }
}

/// The bytes of a response: status line, header lines, an empty line, and
/// the body.
pub open spec fn response_bytes(
    status_code: nat,
    reason: Seq<u8>,
    headers: Seq<(Seq<u8>, Seq<u8>)>,
    body: Seq<u8>,
) -> Seq<u8> {
    http_version() + decimal(status_code) + seq![32u8] + reason + crlf() + header_lines(headers)
        + crlf() + body
}

/// Appends the bytes of `src` to `out`.
pub fn append_bytes(out: &mut Vec<u8>, src: &[u8])
    ensures
        final(out)@ == old(out)@ + src@,
{
    let n = src.len();
    let mut i: usize = 0;
    while i < n
        invariant
            i <= n,
            n == src@.len(),
            out@ == old(out)@ + src@.subrange(0, i as int),
        decreases n - i,
    {
        out.push(src[i]);
        i = i + 1;
        assert(out@ =~= old(out)@ + src@.subrange(0, i as int));
    }
    assert(src@.subrange(0, n as int) =~= src@);
}

/// Appends the decimal digits of `n` to `out`.
pub fn push_decimal(out: &mut Vec<u8>, n: u64)
    ensures
        final(out)@ == old(out)@ + decimal(n as nat),
    decreases n,
{
    if n >= 10 {
        push_decimal(out, n / 10);
    }
    out.push((48 + n % 10) as u8);
    assert(final(out)@ =~= old(out)@ + decimal(n as nat));
}

/// An HTTP/1.1 response.
pub struct HttpResponse {
    status_code: u16,
    reason: Vec<u8>,
    headers: Vec<(Vec<u8>, Vec<u8>)>,
    body: Vec<u8>,
}

/// The value of a header list.
pub open spec fn headers_view(h: Seq<(Vec<u8>, Vec<u8>)>) -> Seq<(Seq<u8>, Seq<u8>)> {
    h.map_values(|p: (Vec<u8>, Vec<u8>)| (p.0@, p.1@))
}

impl HttpResponse {
    pub closed spec fn spec_status(&self) -> u16 {
        self.status_code
    }

    pub closed spec fn spec_reason(&self) -> Seq<u8> {
        self.reason@
    }

    pub closed spec fn spec_headers(&self) -> Seq<(Seq<u8>, Seq<u8>)> {
        headers_view(self.headers@)
    }

    pub closed spec fn spec_body(&self) -> Seq<u8> {
        self.body@
    }

    /// A response with a status line and nothing else.
    pub fn new(status_code: u16, reason: &str) -> (r: HttpResponse)
        ensures
            r.spec_status() == status_code,
            r.spec_reason() == reason.spec_bytes(),
            r.spec_headers() == Seq::<(Seq<u8>, Seq<u8>)>::empty(),
            r.spec_body() == Seq::<u8>::empty(),
    {
        let mut text: Vec<u8> = Vec::new();
        append_bytes(&mut text, reason.as_bytes());
        let r = HttpResponse { status_code, reason: text, headers: Vec::new(), body: Vec::new() };
        assert(headers_view(r.headers@) =~= Seq::<(Seq<u8>, Seq<u8>)>::empty());
        r
    }

    fn push_header(&mut self, key: Vec<u8>, value: Vec<u8>)
        ensures
            final(self).spec_status() == old(self).spec_status(),
            final(self).spec_reason() == old(self).spec_reason(),
            final(self).spec_body() == old(self).spec_body(),
            final(self).spec_headers() == old(self).spec_headers().push((key@, value@)),
    {
        let ghost k = key@;
        let ghost v = value@;
        self.headers.push((key, value));
        assert(headers_view(self.headers@) =~= headers_view(old(self).headers@).push((k, v)));
    }

    /// Adds the header `key: value`.
    pub fn add_header(&mut self, key: &str, value: &str)
        ensures
            final(self).spec_status() == old(self).spec_status(),
            final(self).spec_reason() == old(self).spec_reason(),
            final(self).spec_body() == old(self).spec_body(),
            final(self).spec_headers() == old(self).spec_headers().push(
                (key.spec_bytes(), value.spec_bytes()),
            ),
    {
        let mut k: Vec<u8> = Vec::new();
        append_bytes(&mut k, key.as_bytes());
        let mut v: Vec<u8> = Vec::new();
        append_bytes(&mut v, value.as_bytes());
        self.push_header(k, v);
    }

    /// Sets the body.
    pub fn set_body(&mut self, body: Vec<u8>)
        ensures
            final(self).spec_status() == old(self).spec_status(),
            final(self).spec_reason() == old(self).spec_reason(),
            final(self).spec_headers() == old(self).spec_headers(),
            final(self).spec_body() == body@,
    {
        self.body = body;
    }

    /// Sets the body, with the headers `Content-Type` and `Content-Length`
    /// that describe it.
    pub fn set_content(&mut self, content_type: &str, body: Vec<u8>)
        ensures
            final(self).spec_status() == old(self).spec_status(),
            final(self).spec_reason() == old(self).spec_reason(),
            final(self).spec_body() == body@,
            final(self).spec_headers() == old(self).spec_headers().push(
                (content_type_name(), content_type.spec_bytes()),
            ).push((content_length_name(), decimal(body@.len()))),
    {
        let mut k: Vec<u8> = Vec::new();
        push_content_type_name(&mut k);
        let mut v: Vec<u8> = Vec::new();
        append_bytes(&mut v, content_type.as_bytes());
        self.push_header(k, v);
        let mut k2: Vec<u8> = Vec::new();
        push_content_length_name(&mut k2);
        let mut digits: Vec<u8> = Vec::new();
        push_decimal(&mut digits, body.len() as u64);
        self.push_header(k2, digits);
        self.body = body;
    }

    /// The bytes of this response on the wire.
    pub fn to_bytes(&self) -> (r: Vec<u8>)
        ensures
            r@ == response_bytes(
                self.spec_status() as nat,
                self.spec_reason(),
                self.spec_headers(),
                self.spec_body(),
            ),
    {
        let mut out: Vec<u8> = Vec::new();
        out.push(72u8);
        out.push(84u8);
        out.push(84u8);
        out.push(80u8);
        out.push(47u8);
        out.push(49u8);
        out.push(46u8);
        out.push(49u8);
        out.push(32u8);
        assert(out@ =~= http_version());
        push_decimal(&mut out, self.status_code as u64);
        out.push(32u8);
        append_bytes(&mut out, self.reason.as_slice());
        out.push(13u8);
        out.push(10u8);
        let ghost start = out@;
        assert(start =~= http_version() + decimal(self.status_code as nat) + seq![32u8]
            + self.reason@ + crlf());
        let n = self.headers.len();
        let mut i: usize = 0;
        while i < n
            invariant
                i <= n,
                n == self.headers@.len(),
                out@ == start + header_lines(headers_view(self.headers@).subrange(0, i as int)),
            decreases n - i,
        {
            let ghost before = out@;
            append_bytes(&mut out, self.headers[i].0.as_slice());
            out.push(58u8);
            out.push(32u8);
            append_bytes(&mut out, self.headers[i].1.as_slice());
            out.push(13u8);
            out.push(10u8);
            let ghost h = headers_view(self.headers@);
            assert(h.subrange(0, i + 1).drop_last() =~= h.subrange(0, i as int));
            assert(out@ =~= before + self.headers@[i as int].0@ + seq![58u8, 32u8]
                + self.headers@[i as int].1@ + crlf());
            i = i + 1;
        }
        assert(headers_view(self.headers@).subrange(0, n as int) =~= headers_view(self.headers@));
        out.push(13u8);
        out.push(10u8);
        append_bytes(&mut out, self.body.as_slice());
        assert(out@ =~= response_bytes(
            self.status_code as nat,
            self.reason@,
            headers_view(self.headers@),
            self.body@,
        ));
        out
    }
}

/// The bytes of `Content-Type`.
pub open spec fn content_type_name() -> Seq<u8> {
    seq![67u8, 111u8, 110u8, 116u8, 101u8, 110u8, 116u8, 45u8, 84u8, 121u8, 112u8, 101u8]
}

/// The bytes of `Content-Length`.
pub open spec fn content_length_name() -> Seq<u8> {
    seq![
        67u8,
        111u8,
        110u8,
        116u8,
        101u8,
        110u8,
        116u8,
        45u8,
        76u8,
        101u8,
        110u8,
        103u8,
        116u8,
        104u8,
    ]
}

fn push_content_type_name(out: &mut Vec<u8>)
    requires
        old(out)@.len() == 0,
    ensures
        final(out)@ == content_type_name(),
{
    let text: [u8; 12] = [67, 111, 110, 116, 101, 110, 116, 45, 84, 121, 112, 101];
    append_bytes(out, text.as_slice());
    assert(final(out)@ =~= content_type_name());
}

fn push_content_length_name(out: &mut Vec<u8>)
    requires
        old(out)@.len() == 0,
    ensures
        final(out)@ == content_length_name(),
{
    let text: [u8; 14] = [67, 111, 110, 116, 101, 110, 116, 45, 76, 101, 110, 103, 116, 104];
    append_bytes(out, text.as_slice());
    assert(final(out)@ =~= content_length_name());
}

/// The name of the header that gives the length of a body, lower case,
/// with its colon.
pub open spec fn content_length_prefix() -> Seq<char> {
    "content-length:"@
}

/// Whether `a` is `b`, or its upper-case ASCII form when `b` is a
/// lower-case ASCII letter.
pub open spec fn same_ignoring_case(a: char, b: char) -> bool {
    a == b || ('a' <= b && b <= 'z' && a as u32 + 32 == b as u32)
}

/// Whether `c` is ASCII white space.
pub open spec fn is_space(c: char) -> bool {
    c == ' ' || c == '\t' || c == '\r' || c == '\n'
}

/// The position of the first colon in `s` at or after `i`, or its length.
pub open spec fn colon_from(s: Seq<char>, i: int) -> int
    decreases s.len() - i,
{
    if i >= s.len() {
        s.len() as int
    } else if s[i] == ':' {
        i
    } else {
        colon_from(s, i + 1)
    }
}

/// `s` without leading white space.
pub open spec fn trim_start(s: Seq<char>) -> Seq<char>
    decreases s.len(),
{
    if s.len() > 0 && is_space(s[0]) {
        trim_start(s.drop_first())
    } else {
        s
    }
}

/// `s` without trailing white space.
pub open spec fn trim_end(s: Seq<char>) -> Seq<char>
    decreases s.len(),
{
    if s.len() > 0 && is_space(s.last()) {
        trim_end(s.drop_last())
    } else {
        s
    }
}

/// What a header line says of the body length: nothing when it is not a
/// `Content-Length` line (the name in any case); otherwise the number
/// between the colon and the next colon, without surrounding white space,
/// or zero when that is not a decimal number that fits in a `usize`.
pub open spec fn content_length_of(line: Seq<char>) -> Option<nat> {
    let n = content_length_prefix().len() as int;
    if line.len() < n || !(forall|i: int|
        0 <= i < n ==> same_ignoring_case(#[trigger] line[i], content_length_prefix()[i])) {
        None
    } else {
        let t = trim_end(trim_start(line.subrange(n, colon_from(line, n))));
        if t.len() > 0 && (forall|i: int| 0 <= i < t.len() ==> #[trigger] is_digit(t[i]))
            && digits_value(t) <= usize::MAX {
            Some(digits_value(t))
        } else {
            Some(0)
        }
    }
}

proof fn lemma_trim_start_at(s: Seq<char>, i: int)
    requires
        0 <= i <= s.len(),
        forall|k: int| 0 <= k < i ==> #[trigger] is_space(s[k]),
        i == s.len() || !is_space(s[i]),
    ensures
        trim_start(s) == s.subrange(i, s.len() as int),
    decreases i,
{
    if i > 0 {
        let t = s.drop_first();
        assert forall|k: int| 0 <= k < i - 1 implies #[trigger] is_space(t[k]) by {
            assert(t[k] == s[k + 1]);
        }
        if i < s.len() {
            assert(t[i - 1] == s[i]);
        }
        lemma_trim_start_at(t, i - 1);
        assert(t.subrange(i - 1, t.len() as int) =~= s.subrange(i, s.len() as int));
    } else {
        assert(s.subrange(0, s.len() as int) =~= s);
    }
}

proof fn lemma_trim_end_at(s: Seq<char>, j: int)
    requires
        0 <= j <= s.len(),
        forall|k: int| j <= k < s.len() ==> #[trigger] is_space(s[k]),
        j == 0 || !is_space(s[j - 1]),
    ensures
        trim_end(s) == s.subrange(0, j),
    decreases s.len() - j,
{
    if j < s.len() {
        let t = s.drop_last();
        assert forall|k: int| j <= k < t.len() implies #[trigger] is_space(t[k]) by {
            assert(t[k] == s[k]);
        }
        if j > 0 {
            assert(t[j - 1] == s[j - 1]);
        }
        lemma_trim_end_at(t, j);
        assert(t.subrange(0, j) =~= s.subrange(0, j));
    } else {
        assert(s.subrange(0, j) =~= s);
    }
}

proof fn lemma_colon_from(s: Seq<char>, i: int, j: int)
    requires
        0 <= i <= j <= s.len(),
        forall|k: int| i <= k < j ==> #[trigger] s[k] != ':',
        j == s.len() || s[j] == ':',
    ensures
        colon_from(s, i) == j,
    decreases j - i,
{
    if i < j {
        lemma_colon_from(s, i + 1, j);
    }
}

/// Reads the body length from a header line (see `content_length_of`).
pub fn content_length(line: &str) -> (r: Option<usize>)
    ensures
        match content_length_of(line@) {
            Some(n) => r == Some(n as usize),
            None => r is None,
        },
{
    let prefix: &str = "content-length:";
    let len = line.unicode_len();
    let n = prefix.unicode_len();
    proof {
        reveal_strlit("content-length:");
    }
    assert(prefix@ == content_length_prefix());
    if len < n {
        return None;
    }
    let mut i: usize = 0;
    while i < n
        invariant
            n == prefix@.len(),
            prefix@ == content_length_prefix(),
            len == line@.len(),
            n <= len,
            i <= n,
            forall|k: int| 0 <= k < i ==> same_ignoring_case(#[trigger] line@[k], prefix@[k]),
        decreases n - i,
    {
        let a = line.get_char(i);
        let b = prefix.get_char(i);
        if !(a == b || ('a' <= b && b <= 'z' && a as u32 + 32 == b as u32)) {
            assert(!same_ignoring_case(line@[i as int], prefix@[i as int]));
            return None;
        }
        i = i + 1;
    }
    let ghost s = line@;
    // End of the field: the next colon, or the end of the line.
    let mut end: usize = n;
    while end < len && line.get_char(end) != ':'
        invariant
            len == s.len(),
            s == line@,
            n <= end <= len,
            forall|k: int| n <= k < end ==> #[trigger] s[k] != ':',
        decreases len - end,
    {
        end = end + 1;
    }
    proof {
        lemma_colon_from(s, n as int, end as int);
    }
    let ghost field = s.subrange(n as int, end as int);
    let mut start: usize = n;
    while start < end && is_space_char(line.get_char(start))
        invariant
            len == s.len(),
            s == line@,
            field == s.subrange(n as int, end as int),
            n <= start <= end <= len,
            forall|k: int| n <= k < start ==> #[trigger] is_space(s[k]),
        decreases end - start,
    {
        start = start + 1;
    }
    proof {
        assert forall|k: int| 0 <= k < start - n implies #[trigger] is_space(field[k]) by {
            assert(field[k] == s[k + n]);
        }
        if start < end {
            assert(field[start - n] == s[start as int]);
        }
        lemma_trim_start_at(field, start - n);
    }
    let ghost lead = field.subrange(start - n, field.len() as int);
    let mut stop: usize = end;
    while stop > start && is_space_char(line.get_char(stop - 1))
        invariant
            len == s.len(),
            s == line@,
            n <= start <= stop <= end <= len,
            forall|k: int| stop <= k < end ==> #[trigger] is_space(s[k]),
        decreases stop - start,
    {
        stop = stop - 1;
    }
    let ghost t = s.subrange(start as int, stop as int);
    proof {
        assert(lead =~= s.subrange(start as int, end as int));
        assert forall|k: int| stop - start <= k < lead.len() implies #[trigger] is_space(lead[k]) by {
            assert(lead[k] == s[k + start]);
        }
        if stop > start {
            assert(lead[stop - start - 1] == s[stop - 1]);
        }
        lemma_trim_end_at(lead, stop - start);
        assert(lead.subrange(0, stop - start) =~= t);
    }
    if stop == start {
        return Some(0);
    }
    let mut value: usize = 0;
    let mut k: usize = start;
    while k < stop
        invariant
            len == s.len(),
            s == line@,
            t == s.subrange(start as int, stop as int),
            content_length_of(s) == (if t.len() > 0 && (forall|i: int|
                0 <= i < t.len() ==> #[trigger] is_digit(t[i])) && digits_value(t) <= usize::MAX {
                Some(digits_value(t))
            } else {
                Some(0nat)
            }),
            start < stop <= len,
            start <= k <= stop,
            forall|j: int| 0 <= j < k - start ==> #[trigger] is_digit(t[j]),
            value == digits_value(t.subrange(0, k - start)),
        decreases stop - k,
    {
        let c = line.get_char(k);
        assert(c == t[k - start]);
        if !('0' <= c && c <= '9') {
            assert(!is_digit(t[k - start]));
            return Some(0);
        }
        let digit = (c as u32 - '0' as u32) as usize;
        assert(t.subrange(0, k - start + 1).drop_last() =~= t.subrange(0, k - start));
        if value > (usize::MAX - digit) / 10 {
            proof {
                assert(value * 10 + digit > usize::MAX) by (nonlinear_arith)
                    requires
                        value > (usize::MAX - digit) / 10,
                        digit <= 9,
                ;
                digits_overflow_stays(t, k - start + 1);
            }
            return Some(0);
        }
        value = value * 10 + digit;
        k = k + 1;
    }
    assert(t.subrange(0, stop - start) =~= t);
    Some(value)
}

fn is_space_char(c: char) -> (r: bool)
    ensures
        r == is_space(c),
{
    c == ' ' || c == '\t' || c == '\r' || c == '\n'
}

/// When a prefix of the digits `t` is already past `usize::MAX`, either
/// some later character is not a digit or the whole number is past it too.
proof fn digits_overflow_stays(t: Seq<char>, j: int)
    requires
        0 <= j <= t.len(),
        digits_value(t.subrange(0, j)) > usize::MAX,
    ensures
        !(forall|i: int| 0 <= i < t.len() ==> #[trigger] is_digit(t[i])) || digits_value(t)
            > usize::MAX,
{
    if forall|i: int| 0 <= i < t.len() ==> #[trigger] is_digit(t[i]) {
        crate::args::lemma_digits_prefix_monotone(t, j);
    }
}

} // verus!
