//! The framing of JSON-RPC messages on the language server's pipes: a
//! header block of `Name: value` lines ended by an empty line, then a body
//! of `Content-Length` bytes.
use vstd::prelude::*;
use vstd::string::StringExecFns;

use super::starts_with;

verus! {

/// What std's `char::is_whitespace` answers for a char beyond ASCII
/// (Unicode's White_Space property).
pub uninterp spec fn spec_non_ascii_whitespace(c: char) -> bool;

/// Unicode's White_Space property: among ASCII chars, tab, line feed,
/// vertical tab, form feed, carriage return and space.
pub open spec fn spec_is_whitespace(c: char) -> bool {
    if (c as u32) < 0x80 {
        (9 <= (c as u32) <= 13) || c == ' '
    } else {
        spec_non_ascii_whitespace(c)
    }
}

/// std's `char::is_whitespace`: whether the char has Unicode's White_Space
/// property. For ASCII chars the property is stated in full; for others it
/// is the named result, which comes from Unicode's tables.
#[verifier::external_body]
fn char_is_whitespace(c: char) -> (r: bool)
    ensures
        (c as u32) < 0x80 ==> r == ((9 <= (c as u32) <= 13) || c == ' '),
        (c as u32) >= 0x80 ==> r == spec_non_ascii_whitespace(c),
{
    c.is_whitespace()
}

/// The index of the first char of `s` that is not whitespace, from `i` on.
pub open spec fn first_non_ws(s: Seq<char>, i: int) -> int
    decreases s.len() - i,
{
    if i >= s.len() || i < 0 {
        s.len() as int
    } else if !spec_is_whitespace(s[i]) {
        i
    } else {
        first_non_ws(s, i + 1)
    }
}

/// One past the index of the last char of `s[lo..j]` that is not whitespace
/// (`lo` when there is none).
pub open spec fn end_non_ws(s: Seq<char>, lo: int, j: int) -> int
    decreases j - lo,
{
    if j <= lo {
        lo
    } else if !spec_is_whitespace(s[j - 1]) {
        j
    } else {
        end_non_ws(s, lo, j - 1)
    }
}

/// `s` without its leading and trailing whitespace.
pub open spec fn spec_trim(s: Seq<char>) -> Seq<char> {
    let lo = first_non_ws(s, 0);
    s.subrange(lo, end_non_ws(s, lo, s.len() as int))
}

proof fn lemma_first_non_ws(s: Seq<char>, i: int)
    requires
        0 <= i <= s.len(),
    ensures
        i <= first_non_ws(s, i) <= s.len(),
    decreases s.len() - i,
{
    if i < s.len() && spec_is_whitespace(s[i]) {
        lemma_first_non_ws(s, i + 1);
    }
}

proof fn lemma_end_non_ws(s: Seq<char>, lo: int, j: int)
    requires
        lo <= j,
    ensures
        lo <= end_non_ws(s, lo, j) <= j,
    decreases j - lo,
{
    if j > lo && spec_is_whitespace(s[j - 1]) {
        lemma_end_non_ws(s, lo, j - 1);
    }
}

/// std's `str::trim`, over the chars of the text.
pub fn trim(s: &str) -> (r: &str)
    ensures
        r@ == spec_trim(s@),
{
    let n = s.unicode_len();
    let mut lo = 0usize;
    while lo < n && char_is_whitespace(s.get_char(lo))
        invariant
            n == s@.len(),
            lo <= n,
            first_non_ws(s@, 0) == first_non_ws(s@, lo as int),
        decreases n - lo,
    {
        lo += 1;
    }
    let mut hi = n;
    proof {
        lemma_first_non_ws(s@, 0);
    }
    while hi > lo && char_is_whitespace(s.get_char(hi - 1))
        invariant
            n == s@.len(),
            lo <= hi <= n,
            lo == first_non_ws(s@, 0),
            end_non_ws(s@, lo as int, n as int) == end_non_ws(s@, lo as int, hi as int),
        decreases hi - lo,
    {
        hi -= 1;
    }
    s.substring_char(lo, hi)
}

/// The digits of a decimal numeral, each `'0'..='9'`.
pub open spec fn all_digits(s: Seq<char>) -> bool {
    forall|i: int| 0 <= i < s.len() ==> '0' <= #[trigger] s[i] <= '9'
}

/// The value of a decimal numeral.
pub open spec fn digits_value(s: Seq<char>) -> nat
    decreases s.len(),
{
    if s.len() == 0 {
        0
    } else {
        digits_value(s.drop_last()) * 10 + (s.last() as u32 - '0' as u32) as nat
    }
}

/// The digits std's unsigned parse reads: all of `s`, after one optional `+`.
pub open spec fn unsigned_digits(s: Seq<char>) -> Seq<char> {
    if s.len() > 0 && s[0] == '+' {
        s.skip(1)
    } else {
        s
    }
}

/// What `s.parse::<usize>()` gives: the value of a non-empty decimal numeral
/// (after an optional `+`) that fits `usize`; nothing otherwise.
pub open spec fn spec_parse_usize(s: Seq<char>) -> Option<usize> {
    let d = unsigned_digits(s);
    if d.len() > 0 && all_digits(d) && digits_value(d) <= usize::MAX {
        Some(digits_value(d) as usize)
    } else {
        None
    }
}

proof fn lemma_digits_value_mono(s: Seq<char>, i: int)
    requires
        0 <= i <= s.len(),
        all_digits(s),
    ensures
        digits_value(s.take(i)) <= digits_value(s),
    decreases s.len() - i,
{
    if i < s.len() {
        lemma_digits_value_mono(s, i + 1);
        assert(s.take(i + 1).drop_last() =~= s.take(i));
        assert(s.take(i + 1).last() == s[i]);
    } else {
        assert(s.take(i) =~= s);
    }
}

/// std's `usize::from_str`, over the chars of the text.
pub fn parse_usize(s: &str) -> (r: Option<usize>)
    ensures
        r == spec_parse_usize(s@),
{
    let n = s.unicode_len();
    let start: usize = if n > 0 && s.get_char(0) == '+' {
        1
    } else {
        0
    };
    let ghost d = unsigned_digits(s@);
    proof {
        assert(d =~= s@.skip(start as int));
    }
    if start >= n {
        return None;
    }
    let mut acc: usize = 0;
    let mut i = start;
    while i < n
        invariant
            start <= i <= n,
            n == s@.len(),
            d == s@.skip(start as int),
            d == unsigned_digits(s@),
            forall|k: int| 0 <= k < i - start ==> '0' <= #[trigger] d[k] <= '9',
            acc == digits_value(d.take(i - start)),
        decreases n - i,
    {
        let c = s.get_char(i);
        if !('0' <= c && c <= '9') {
            proof {
                assert(d[i - start] == c);
            }
            return None;
        }
        let digit = (c as u32 - '0' as u32) as usize;
        proof {
            assert(d.take(i + 1 - start).drop_last() =~= d.take(i - start));
            assert(d.take(i + 1 - start).last() == c);
        }
        let times_ten = match acc.checked_mul(10) {
            Some(v) => v,
            None => {
                proof {
                    assert forall|k: int| 0 <= k < i + 1 - start implies '0' <= #[trigger] d[k]
                        <= '9' by {}
                    if all_digits(d) {
                        lemma_digits_value_mono(d, i + 1 - start);
                    }
                }
                return None;
            },
        };
        acc = match times_ten.checked_add(digit) {
            Some(v) => v,
            None => {
                proof {
                    if all_digits(d) {
                        lemma_digits_value_mono(d, i + 1 - start);
                    }
                }
                return None;
            },
        };
        i += 1;
    }
    proof {
        assert(d.take(n - start) =~= d);
    }
    Some(acc)
}

/// What one header line means to the reader.
#[derive(Debug, Clone, Copy, PartialEq, Eq, Structural)]
pub enum HeaderLine {
    /// The empty line that ends the headers.
    End,
    /// A `Content-Length` header with its value.
    ContentLength(usize),
    /// A `Content-Length` header whose value is not a number.
    BadLength,
    /// Any other header.
    Other,
}

/// The name of the length header, with its separator.
pub open spec fn length_header() -> Seq<char> {
    "Content-Length: "@
}

/// How a header line is read: it is trimmed; empty it ends the headers;
/// `Content-Length: ` followed by a number sets the body's length.
pub open spec fn spec_header_line(line: Seq<char>) -> HeaderLine {
    let t = spec_trim(line);
    if t.len() == 0 {
        HeaderLine::End
    } else if t.len() >= length_header().len() && t.take(length_header().len() as int)
        == length_header() {
        match spec_parse_usize(t.skip(length_header().len() as int)) {
            Some(n) => HeaderLine::ContentLength(n),
            None => HeaderLine::BadLength,
        }
    } else {
        HeaderLine::Other
    }
}

/// Classifies one header line read from the server.
pub fn header_line(line: &str) -> (r: HeaderLine)
    ensures
        r == spec_header_line(line@),
{
    let trimmed = trim(line);
    if trimmed.unicode_len() == 0 {
        return HeaderLine::End;
    }
    let name = "Content-Length: ";
    proof {
        reveal_strlit("Content-Length: ");
    }
    if starts_with(trimmed, name) {
        let k = name.unicode_len();
        let value = trimmed.substring_char(k, trimmed.unicode_len());
        match parse_usize(value) {
            Some(n) => HeaderLine::ContentLength(n),
            None => HeaderLine::BadLength,
        }
    } else {
        HeaderLine::Other
    }
}

/// Why a message could not be read.
#[derive(Debug, Clone, Copy, PartialEq, Eq, Structural)]
pub enum TransportError {
    /// The server closed its output.
    Closed,
    /// A `Content-Length` value was not a number.
    BadLength,
    /// The headers gave no length, or a length of zero.
    MissingLength,
}

/// The state of a header block being read: the length seen so far.
pub struct HeaderState {
    pub content_length: usize,
}

/// What the reader does after a header line.
#[derive(Debug, Clone, Copy, PartialEq, Eq, Structural)]
pub enum HeaderAction {
    /// Read another header line.
    ReadLine,
    /// Read a body of this many bytes.
    ReadBody(usize),
    /// Give up with this error.
    Fail(TransportError),
}

/// The reader's step on a header line (`None` when the server closed its
/// output): later `Content-Length` headers replace earlier ones, and the
/// empty line asks for a body of the last length given, which must not be
/// zero.
pub open spec fn spec_header_step(length: usize, line: Option<Seq<char>>) -> (usize, HeaderAction) {
    match line {
        None => (length, HeaderAction::Fail(TransportError::Closed)),
        Some(l) => match spec_header_line(l) {
            HeaderLine::End => if length == 0 {
                (length, HeaderAction::Fail(TransportError::MissingLength))
            } else {
                (length, HeaderAction::ReadBody(length))
            },
            HeaderLine::ContentLength(n) => (n, HeaderAction::ReadLine),
            HeaderLine::BadLength => (length, HeaderAction::Fail(TransportError::BadLength)),
            HeaderLine::Other => (length, HeaderAction::ReadLine),
        },
    }
}

impl HeaderState {
    pub fn new() -> (r: Self)
        ensures
            r.content_length == 0,
    {
        HeaderState { content_length: 0 }
    }

    /// Takes one header line (`None` when the server closed its output) and
    /// says what to do next.
    pub fn step(&mut self, line: Option<&str>) -> (r: HeaderAction)
        ensures
            (final(self).content_length, r) == spec_header_step(
                old(self).content_length,
                match line {
                    Some(l) => Some(l@),
                    None => None,
                },
            ),
    {
        let l = match line {
            Some(l) => l,
            None => return HeaderAction::Fail(TransportError::Closed),
        };
        match header_line(l) {
            HeaderLine::End => if self.content_length == 0 {
                HeaderAction::Fail(TransportError::MissingLength)
            } else {
                HeaderAction::ReadBody(self.content_length)
            },
            HeaderLine::ContentLength(n) => {
                self.content_length = n;
                HeaderAction::ReadLine
            },
            HeaderLine::BadLength => HeaderAction::Fail(TransportError::BadLength),
            HeaderLine::Other => HeaderAction::ReadLine,
        }
    }
}

/// The char of a decimal digit.
pub open spec fn digit_char(d: nat) -> char {
    if d == 0 {
        '0'
    } else if d == 1 {
        '1'
    } else if d == 2 {
        '2'
    } else if d == 3 {
        '3'
    } else if d == 4 {
        '4'
    } else if d == 5 {
        '5'
    } else if d == 6 {
        '6'
    } else if d == 7 {
        '7'
    } else if d == 8 {
        '8'
    } else {
        '9'
    }
}

/// The decimal numeral of `n`.
pub open spec fn decimal(n: nat) -> Seq<char>
    decreases n,
{
    if n < 10 {
        seq![digit_char(n)]
    } else {
        decimal(n / 10).push(digit_char(n % 10))
    }
}

/// The decimal numeral of `n`.
pub fn decimal_string(n: u64) -> (r: String)
    ensures
        r@ == decimal(n as nat),
    decreases n,
{
    let digit = n % 10;
    let mut s = if n < 10 {
        String::new()
    } else {
        decimal_string(n / 10)
    };
    let digits = "0123456789";
    proof {
        reveal_strlit("0123456789");
    }
    let one = digits.substring_char(digit as usize, digit as usize + 1);
    proof {
        assert(one@ =~= seq![digit_char(digit as nat)]);
    }
    s.append(one);
    s
}

/// The header that goes before a body of `len` bytes.
pub open spec fn spec_frame_header(len: nat) -> Seq<char> {
    length_header() + decimal(len) + "\r\n\r\n"@
}

/// The header written before a message body of `body_len` bytes.
pub fn frame_header(body_len: usize) -> (r: String)
    ensures
        r@ == spec_frame_header(body_len as nat),
{
    let name = "Content-Length: ";
    let end = "\r\n\r\n";
    proof {
        reveal_strlit("Content-Length: ");
        reveal_strlit("\r\n\r\n");
    }
    let mut s = String::from_str(name);
    let digits = decimal_string(body_len as u64);
    s.append(digits.as_str());
    s.append(end);
    s
}


proof fn lemma_decimal(n: nat)
    ensures
        decimal(n).len() > 0,
        all_digits(decimal(n)),
        digits_value(decimal(n)) == n,
        '0' <= decimal(n).last() <= '9',
    decreases n,
{
    let k = n % 10;
    assert((digit_char(k) as u32 - '0' as u32) as nat == k);
    if n < 10 {
        assert(decimal(n).drop_last() =~= Seq::<char>::empty());
        assert(decimal(n).last() == digit_char(n));
        assert(digits_value(Seq::<char>::empty()) == 0);
        assert(digits_value(decimal(n).drop_last()) == 0);
        assert(k == n);
        assert(digits_value(decimal(n)) == n);
    } else {
        lemma_decimal(n / 10);
        let d = decimal(n);
        assert(d.drop_last() =~= decimal(n / 10));
        assert(d.last() == digit_char(k));
        assert((n / 10) * 10 + k == n);
        assert(digits_value(d) == digits_value(d.drop_last()) * 10 + (d.last() as u32 - '0' as u32) as nat);
        assert(digits_value(d.drop_last()) == n / 10);
        assert(digits_value(d) == (n / 10) * 10 + k);
        assert forall|i: int| 0 <= i < d.len() implies '0' <= #[trigger] d[i] <= '9' by {
            if i < d.len() - 1 {
                assert(d[i] == decimal(n / 10)[i]);
            }
        }
    }
}

/// Reading back a header block written by `frame_header` gives the length
/// that was written: its first line sets the length and the empty line
/// that follows asks for a body of that many bytes.
pub proof fn law_frame_header_reads_back(n: usize)
    requires
        n > 0,
    ensures
        ({
            let first = length_header() + decimal(n as nat) + "\r\n"@;
            &&& spec_header_step(0, Some(first)) == (n, HeaderAction::ReadLine)
            &&& spec_header_step(n, Some("\r\n"@)) == (n, HeaderAction::ReadBody(n))
            &&& spec_frame_header(n as nat) == first + "\r\n"@
        }),
{
    reveal_strlit("Content-Length: ");
    reveal_strlit("\r\n");
    reveal_strlit("\r\n\r\n");
    lemma_decimal(n as nat);
    let d = decimal(n as nat);
    let h = length_header();
    let first = h + d + "\r\n"@;
    let core = h + d;
    assert(first.len() == core.len() + 2);
    assert(first[0] == 'C');
    assert(first_non_ws(first, 0) == 0);
    assert(first[first.len() - 1] == '\n');
    assert(first[first.len() - 2] == '\r');
    assert(first[core.len() - 1] == d.last());
    assert('0' <= first[core.len() - 1] <= '9');
    assert(end_non_ws(first, 0, core.len() as int) == core.len());
    assert(end_non_ws(first, 0, first.len() - 1) == core.len());
    assert(end_non_ws(first, 0, first.len() as int) == core.len());
    assert(spec_trim(first) =~= core);
    assert(core.take(h.len() as int) =~= h);
    assert(core.skip(h.len() as int) =~= d);
    assert(unsigned_digits(d) == d);
    let blank = "\r\n"@;
    assert(blank.len() == 2);
    assert(first_non_ws(blank, 2) == 2);
    assert(first_non_ws(blank, 1) == 2);
    assert(first_non_ws(blank, 0) == 2);
    assert(spec_trim(blank) =~= Seq::<char>::empty());
    assert(spec_frame_header(n as nat) =~= first + "\r\n"@);
}

} // verus!
