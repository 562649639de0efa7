//! A text document: a rope plus its file path, modified flag and version.
use vstd::prelude::*;

use ropey::Rope;

use crate::buffer;
use crate::buffer::display_len;
use crate::buffer::rope::{
    is_line_break_char, lemma_insert_keeps_line_start, lemma_line_starts, line_count, line_start, line_text, rope_remove,
    rope_text,
};
use crate::editor::selection::Position;

verus! {

pub struct Document {
    pub rope: Rope,
    pub path: Option<String>,
    pub modified: bool,
    pub version: i64,
}

/// The display length of line `row`, or 0 when there is no such line.
pub open spec fn spec_line_len(text: Seq<char>, row: int) -> nat {
    if 0 <= row < line_count(text) {
        display_len(line_text(text, row))
    } else {
        0
    }
}

/// The char index of a position: the start of its line plus its column.
pub open spec fn char_index(text: Seq<char>, pos: Position) -> int {
    line_start(text, pos.row as int) + pos.col
}

/// What std's `Path::file_name` gives for a path, as text.
pub uninterp spec fn spec_path_file_name(path: Seq<char>) -> Option<Seq<char>>;

/// std's `Path::file_name` on a path given as text, with the final component
/// turned back into text. Which component that is follows std's path parsing
/// and is not stated beyond this name.
#[verifier::external_body]
fn path_file_name(path: &str) -> (r: Option<&str>)
    ensures
        match r {
            Some(n) => spec_path_file_name(path@) == Some(n@),
            None => spec_path_file_name(path@) is None,
        },
{
    std::path::Path::new(path).file_name().and_then(|n| n.to_str())
}

/// Backspace undoes typing: after a char that is not a line break is typed
/// at a position of a line, a backspace one column to the right removes it,
/// gives the text back and puts the cursor where it was.
pub proof fn law_backspace_undoes_insert(t: Seq<char>, pos: Position, ch: char)
    requires
        pos.row < line_count(t),
        char_index(t, pos) <= t.len(),
        pos.col < usize::MAX,
        !is_line_break_char(ch),
    ensures
        ({
            let i = char_index(t, pos);
            let t1 = t.insert(i, ch);
            let next = Position { row: pos.row, col: (pos.col + 1) as usize };
            &&& next.row <= line_count(t1)
            &&& char_index(t1, next) == i + 1
            &&& char_index(t1, next) <= t1.len()
            &&& t1.take(char_index(t1, next) - 1) + t1.skip(char_index(t1, next)) == t
            &&& Position { row: next.row, col: (next.col - 1) as usize } == pos
        }),
{
    let i = char_index(t, pos);
    let t1 = t.insert(i, ch);
    lemma_line_starts(t);
    lemma_insert_keeps_line_start(t, pos.row as int, i, ch);
    assert(t1.take(i) + t1.skip(i + 1) =~= t);
}

impl Document {
    pub open spec fn text(&self) -> Seq<char> {
        rope_text(self.rope)
    }

    /// A document for a file path: with the file's contents when it exists
    /// (`content`), or a single empty line when it does not.
    pub fn from_file(path: String, content: Option<&str>) -> (d: Self)
        ensures
            d.text() == (match content {
                Some(c) => c@,
                None => seq!['\n'],
            }),
            d.path == Some(path),
            !d.modified,
            d.version == 0,
    {
        let rope = match content {
            Some(c) => Rope::from_str(c),
            None => {
                let nl = "\n";
                proof {
                    reveal_strlit("\n");
                }
                Rope::from_str(nl)
            },
        };
        Self { rope, path: Some(path), modified: false, version: 0 }
    }

    pub fn new_empty() -> (d: Self)
        ensures
            d.text() == seq!['\n'],
            d.path is None,
            !d.modified,
            d.version == 0,
    {
        let nl = "\n";
        proof {
            reveal_strlit("\n");
        }
        Self { rope: Rope::from_str(nl), path: None, modified: false, version: 0 }
    }

    pub fn line_count(&self) -> (n: usize)
        ensures
            n == line_count(self.text()),
    {
        self.rope.len_lines()
    }

    pub fn line_len(&self, row: usize) -> (n: usize)
        ensures
            n == spec_line_len(self.text(), row as int),
    {
        if row >= self.rope.len_lines() {
            return 0;
        }
        buffer::line_display_len(self.rope.line(row))
    }

    pub fn bump_version(&mut self)
        requires
            old(self).version < i64::MAX,
        ensures
            final(self).version == old(self).version + 1,
            final(self).rope == old(self).rope,
            final(self).path == old(self).path,
            final(self).modified == old(self).modified,
    {
        self.version += 1;
    }

    pub fn insert_char(&mut self, pos: Position, ch: char)
        requires
            pos.row <= line_count(old(self).text()),
            char_index(old(self).text(), pos) <= old(self).text().len(),
            old(self).version < i64::MAX,
        ensures
            final(self).text() == old(self).text().insert(char_index(old(self).text(), pos), ch),
            final(self).modified,
            final(self).version == old(self).version + 1,
            final(self).path == old(self).path,
    {
        let idx = self.pos_to_char_idx(pos);
        self.rope.insert_char(idx, ch);
        self.modified = true;
        self.bump_version();
    }

    pub fn insert_newline(&mut self, pos: Position)
        requires
            pos.row <= line_count(old(self).text()),
            char_index(old(self).text(), pos) <= old(self).text().len(),
            old(self).version < i64::MAX,
        ensures
            final(self).text() == old(self).text().insert(
                char_index(old(self).text(), pos),
                '\n',
            ),
            final(self).modified,
            final(self).version == old(self).version + 1,
            final(self).path == old(self).path,
    {
        let idx = self.pos_to_char_idx(pos);
        self.rope.insert_char(idx, '\n');
        self.modified = true;
        self.bump_version();
    }

    /// Deletes the char before `pos` (joining lines at a line start). Returns
    /// where the cursor goes, or `None` when nothing precedes `pos`.
    pub fn delete_char_backward(&mut self, pos: Position) -> (r: Option<Position>)
        requires
            !(pos.col == 0 && pos.row == 0) ==> {
                &&& pos.row <= line_count(old(self).text())
                &&& char_index(old(self).text(), pos) <= old(self).text().len()
                &&& old(self).version < i64::MAX
            },
        ensures
            ({
                let t = old(self).text();
                let idx = char_index(t, pos);
                if (pos.col == 0 && pos.row == 0) || idx == 0 {
                    &&& r is None
                    &&& *final(self) == *old(self)
                } else {
                    let t2 = t.take(idx - 1) + t.skip(idx);
                    &&& final(self).text() == t2
                    &&& final(self).modified
                    &&& final(self).version == old(self).version + 1
                    &&& final(self).path == old(self).path
                    &&& r == Some(
                        if pos.col > 0 {
                            Position { row: pos.row, col: (pos.col - 1) as usize }
                        } else {
                            Position {
                                row: (pos.row - 1) as usize,
                                col: spec_line_len(t2, pos.row - 1) as usize,
                            }
                        },
                    )
                }
            }),
    {
        if pos.col == 0 && pos.row == 0 {
            return None;
        }
        let idx = self.pos_to_char_idx(pos);
        if idx == 0 {
            return None;
        }
        rope_remove(&mut self.rope, idx - 1, idx);
        self.modified = true;
        self.bump_version();

        if pos.col > 0 {
            Some(Position { row: pos.row, col: pos.col - 1 })
        } else {
            // Merged with previous line
            let new_row = pos.row - 1;
            let new_col = self.line_len(new_row);
            Some(Position { row: new_row, col: new_col })
        }
    }

    /// Deletes the char at `pos`, unless `pos` is at or past the end of the
    /// last line or of the text.
    pub fn delete_char_forward(&mut self, pos: Position)
        requires
            pos.row < line_count(old(self).text()) ==> char_index(old(self).text(), pos)
                <= usize::MAX,
            old(self).version < i64::MAX,
        ensures
            ({
                let t = old(self).text();
                let idx = char_index(t, pos);
                if (pos.col >= spec_line_len(t, pos.row as int) && pos.row + 1 >= line_count(t))
                    || idx >= t.len() {
                    *final(self) == *old(self)
                } else {
                    &&& final(self).text() == t.take(idx) + t.skip(idx + 1)
                    &&& final(self).modified
                    &&& final(self).version == old(self).version + 1
                    &&& final(self).path == old(self).path
                }
            }),
    {
        let line_len = self.line_len(pos.row);
        if pos.col >= line_len && pos.row >= self.line_count().saturating_sub(1) {
            return;
        }
        let idx = self.pos_to_char_idx(pos);
        if idx >= self.rope.len_chars() {
            return;
        }
        rope_remove(&mut self.rope, idx, idx + 1);
        self.modified = true;
        self.bump_version();
    }

    /// Deletes line `row` with its line break. A document of one line keeps a
    /// single empty line.
    pub fn delete_line(&mut self, row: usize)
        requires
            line_count(old(self).text()) > 1 ==> row < line_count(old(self).text()) || (row
                == line_count(old(self).text()) && row < usize::MAX),
            old(self).version < i64::MAX,
        ensures
            ({
                let t = old(self).text();
                if line_count(t) <= 1 {
                    if t.len() > 0 {
                        &&& final(self).text() == seq!['\n']
                        &&& final(self).modified
                        &&& final(self).version == old(self).version + 1
                        &&& final(self).path == old(self).path
                    } else {
                        *final(self) == *old(self)
                    }
                } else {
                    let start = line_start(t, row as int);
                    let end = line_start(t, row + 1);
                    if start < end {
                        &&& final(self).text() == t.take(start) + t.skip(end)
                        &&& final(self).modified
                        &&& final(self).version == old(self).version + 1
                        &&& final(self).path == old(self).path
                    } else {
                        *final(self) == *old(self)
                    }
                }
            }),
    {
        proof {
            lemma_line_starts(self.text());
        }
        if self.line_count() <= 1 {
            // Clear the only line but keep the newline
            let len = self.rope.len_chars();
            if len > 0 {
                rope_remove(&mut self.rope, 0, len);
                let nl = "\n";
                proof {
                    reveal_strlit("\n");
                }
                self.rope.insert(0, nl);
                self.modified = true;
                self.bump_version();
            }
            return;
        }
        let start = self.rope.line_to_char(row);
        let end = if row + 1 < self.rope.len_lines() {
            self.rope.line_to_char(row + 1)
        } else {
            self.rope.len_chars()
        };
        if start < end {
            rope_remove(&mut self.rope, start, end);
            self.modified = true;
            self.bump_version();
        }
    }

    /// The file name of the document's path, or `[No Name]`.
    pub fn file_name(&self) -> (r: &str)
        ensures
            match self.path {
                Some(p) => match spec_path_file_name(p@) {
                    Some(n) => r@ == n,
                    None => r@ == "[No Name]"@,
                },
                None => r@ == "[No Name]"@,
            },
    {
        match &self.path {
            Some(p) => match path_file_name(p.as_str()) {
                Some(n) => n,
                None => "[No Name]",
            },
            None => "[No Name]",
        }
    }

    /// Replaces the chars `start..end` with `s`.
    pub fn replace_range(&mut self, start: usize, end: usize, s: &str)
        requires
            start <= end <= old(self).text().len(),
            old(self).version < i64::MAX,
        ensures
            final(self).text() == old(self).text().take(start as int) + s@ + old(self).text().skip(
                end as int,
            ),
            final(self).modified,
            final(self).version == old(self).version + 1,
            final(self).path == old(self).path,
    {
        let ghost t = self.text();
        rope_remove(&mut self.rope, start, end);
        let ghost t1 = self.text();
        assert(t1.take(start as int) =~= t.take(start as int));
        assert(t1.skip(start as int) =~= t.skip(end as int));
        self.rope.insert(start, s);
        self.modified = true;
        self.bump_version();
    }

    /// Inserts the chars `v` at `idx` (a single edit).
    pub fn insert_chars(&mut self, idx: usize, v: &Vec<char>)
        requires
            idx <= old(self).text().len(),
            old(self).version < i64::MAX,
        ensures
            v@.len() > 0 ==> final(self).text() == old(self).text().take(idx as int) + v@ + old(
                self,
            ).text().skip(idx as int),
            v@.len() > 0 ==> final(self).modified,
            v@.len() > 0 ==> final(self).version == old(self).version + 1,
            v@.len() == 0 ==> *final(self) == *old(self),
            final(self).path == old(self).path,
    {
        if v.len() == 0 {
            return;
        }
        let ghost t = self.text();
        let mut k = 0usize;
        while k < v.len()
            invariant
                k <= v@.len(),
                idx <= t.len(),
                self.text() == t.take(idx as int) + v@.take(k as int) + t.skip(idx as int),
                self.version == old(self).version,
                self.path == old(self).path,
            decreases v@.len() - k,
        {
            let ghost cur = self.text();
            assert(cur.len() == t.len() + k);
            let len = self.rope.len_chars();
            assert(idx + k <= len);
            self.rope.insert_char(idx + k, v[k]);
            assert(self.text() =~= t.take(idx as int) + v@.take(k + 1) + t.skip(idx as int));
            k += 1;
        }
        assert(v@.take(v@.len() as int) =~= v@);
        self.modified = true;
        self.bump_version();
    }

    /// The chars `start..end` of the text.
    pub fn chars_between(&self, start: usize, end: usize) -> (v: Vec<char>)
        requires
            start <= end <= self.text().len(),
        ensures
            v@ == self.text().subrange(start as int, end as int),
    {
        let mut v: Vec<char> = Vec::new();
        let mut i = start;
        while i < end
            invariant
                start <= i <= end,
                end <= self.text().len(),
                v@ == self.text().subrange(start as int, i as int),
            decreases end - i,
        {
            v.push(self.rope.char(i));
            i += 1;
            assert(v@ =~= self.text().subrange(start as int, i as int));
        }
        v
    }

    /// Puts `ch` in place of the char at `idx`.
    pub fn set_char(&mut self, idx: usize, ch: char)
        requires
            idx < old(self).text().len(),
            old(self).version < i64::MAX,
        ensures
            final(self).text() == old(self).text().update(idx as int, ch),
            final(self).modified,
            final(self).version == old(self).version + 1,
            final(self).path == old(self).path,
    {
        let ghost t = self.text();
        let len = self.rope.len_chars();
        assert(idx < len);
        rope_remove(&mut self.rope, idx, idx + 1);
        self.rope.insert_char(idx, ch);
        assert(self.text() =~= t.update(idx as int, ch));
        self.modified = true;
        self.bump_version();
    }

    /// Inserts `n` copies of `ch` at `idx` (a single edit).
    pub fn insert_repeated(&mut self, idx: usize, ch: char, n: usize)
        requires
            idx <= old(self).text().len(),
            old(self).version < i64::MAX,
        ensures
            n > 0 ==> final(self).text() == old(self).text().take(idx as int) + Seq::new(
                n as nat,
                |i: int| ch,
            ) + old(self).text().skip(idx as int),
            n > 0 ==> final(self).modified,
            n > 0 ==> final(self).version == old(self).version + 1,
            n == 0 ==> *final(self) == *old(self),
            final(self).path == old(self).path,
    {
        if n == 0 {
            return;
        }
        let ghost t = self.text();
        let mut k = 0usize;
        while k < n
            invariant
                k <= n,
                idx <= t.len(),
                self.text() == t.take(idx as int) + Seq::new(k as nat, |i: int| ch) + t.skip(idx as int),
                self.version == old(self).version,
                self.path == old(self).path,
            decreases n - k,
        {
            let ghost cur = self.text();
            self.rope.insert_char(idx, ch);
            assert(self.text() =~= t.take(idx as int) + Seq::new((k + 1) as nat, |i: int| ch) + t.skip(idx as int));
            k += 1;
        }
        self.modified = true;
        self.bump_version();
    }

    fn pos_to_char_idx(&self, pos: Position) -> (idx: usize)
        requires
            pos.row <= line_count(self.text()),
            char_index(self.text(), pos) <= usize::MAX || char_index(self.text(), pos)
                <= self.text().len(),
        ensures
            idx == char_index(self.text(), pos),
    {
        let line_start = self.rope.line_to_char(pos.row);
        line_start + pos.col
    }
}

} // verus!
