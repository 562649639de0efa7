//! Line and character helpers shared by the editor.
pub mod rope;

use vstd::prelude::*;

use ropey::RopeSlice;

use self::rope::slice_text;

verus! {

/// The length of a line without its trailing LF or CR LF.
pub open spec fn display_len(line: Seq<char>) -> nat {
    let n = line.len();
    if n == 0 {
        0
    } else if line[n - 1] == '\n' {
        if n >= 2 && line[n - 2] == '\r' {
            (n - 2) as nat
        } else {
            (n - 1) as nat
        }
    } else {
        n
    }
}

/// Returns the display length of a line, excluding trailing newline/CR.
pub fn line_display_len(line: RopeSlice) -> (n: usize)
    ensures
        n == display_len(slice_text(line)),
{
    let len = line.len_chars();
    if len == 0 {
        return 0;
    }
    let last = line.char(len - 1);
    if last == '\n' {
        if len >= 2 && line.char(len - 2) == '\r' {
            len - 2
        } else {
            len - 1
        }
    } else {
        len
    }
}

/// Whether two strings hold the same chars.
pub(crate) fn text_eq(a: &str, b: &str) -> (r: bool)
    ensures
        r == (a@ == b@),
{
    let n = a.unicode_len();
    if n != b.unicode_len() {
        return false;
    }
    let mut i = 0usize;
    while i < n
        invariant
            n == a@.len(),
            n == b@.len(),
            i <= n,
            forall|k: int| 0 <= k < i ==> a@[k] == b@[k],
        decreases n - i,
    {
        if a.get_char(i) != b.get_char(i) {
            return false;
        }
        i += 1;
    }
    assert(a@ =~= b@);
    true
}

/// What std's `char::is_alphanumeric` answers for a char (Unicode's
/// Alphabetic or Numeric property).
pub uninterp spec fn spec_is_alphanumeric(c: char) -> bool;

/// std's `char::is_alphanumeric`. Its result is the named property of the
/// char; for ASCII chars that property holds exactly of letters and digits.
/// What it answers for other chars comes from Unicode's tables and is not stated.
#[verifier::external_body]
fn char_is_alphanumeric(c: char) -> (r: bool)
    ensures
        r == spec_is_alphanumeric(c),
        (c as u32) < 0x80 ==> (r <==> ('a' <= c <= 'z' || 'A' <= c <= 'Z' || '0' <= c <= '9')),
{
    c.is_alphanumeric()
}

/// A word character: alphanumeric or `_`.
pub open spec fn spec_is_word_char(c: char) -> bool {
    spec_is_alphanumeric(c) || c == '_'
}

/// Returns true if the character is a word character (alphanumeric or _).
pub fn is_word_char(ch: char) -> (r: bool)
    ensures
        r == spec_is_word_char(ch),
        (ch as u32) < 0x80 ==> (r <==> ('a' <= ch <= 'z' || 'A' <= ch <= 'Z' || '0' <= ch
            <= '9' || ch == '_')),
{
    char_is_alphanumeric(ch) || ch == '_'
}

} // verus!
