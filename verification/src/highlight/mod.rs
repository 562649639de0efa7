//! Syntax highlight spans and their lookup.
pub mod style;
pub mod theme;

use vstd::prelude::*;

use ropey::Rope;
use streaming_iterator::StreamingIterator;

use crate::buffer::rope::{
    byte_len, char_at_byte, lemma_line_text_len, line_count, line_start, line_text, rope_text,
    rope_to_string,
};
use self::style::SyntaxStyle;
use self::theme::{colored, default_style, spec_style_for_capture, style_for_capture};

verus! {

/// Per-line highlight spans: Vec of (start_col, end_col, SyntaxStyle) per visible line.
pub type LineStyles = Vec<Vec<(usize, usize, SyntaxStyle)>>;

/// The style of the last of the first `n` spans that covers column `col`, or
/// the default style when none does.
pub open spec fn last_covering(spans: Seq<(usize, usize, SyntaxStyle)>, col: nat, n: nat) -> SyntaxStyle
    decreases n,
{
    if n == 0 {
        colored(171, 178, 191)
    } else if spans[n - 1].0 <= col < spans[n - 1].1 {
        spans[n - 1].2
    } else {
        last_covering(spans, col, (n - 1) as nat)
    }
}

/// A span covers exactly the columns from its start up to, not including,
/// its end.
pub open spec fn covers(span: (usize, usize, SyntaxStyle), col: nat) -> bool {
    span.0 <= col && col < span.1
}

proof fn lemma_last_covering(spans: Seq<(usize, usize, SyntaxStyle)>, col: nat, n: nat)
    requires
        n <= spans.len(),
    ensures
        (forall|i: int| 0 <= i < n ==> !covers(#[trigger] spans[i], col)) ==> last_covering(spans, col, n)
            == colored(171, 178, 191),
        (exists|i: int| 0 <= i < n && covers(#[trigger] spans[i], col)) ==> exists|i: int|
            0 <= i < n && covers(#[trigger] spans[i], col) && last_covering(spans, col, n) == spans[i].2
                && forall|j: int| i < j < n ==> !covers(#[trigger] spans[j], col),
    decreases n,
{
    if n > 0 {
        lemma_last_covering(spans, col, (n - 1) as nat);
        if covers(spans[n - 1], col) {
            assert(covers(spans[n - 1], col) && last_covering(spans, col, n) == spans[n - 1].2);
        } else {
            if exists|i: int| 0 <= i < n && covers(#[trigger] spans[i], col) {
                let i = choose|i: int| 0 <= i < n && covers(#[trigger] spans[i], col);
                assert(i < n - 1);
                assert(exists|i: int| 0 <= i < n - 1 && covers(#[trigger] spans[i], col));
            }
        }
    }
}

/// The spans of line `rel_line`, none past the last line.
pub open spec fn line_spans(
    line_styles: Seq<Vec<(usize, usize, SyntaxStyle)>>,
    rel_line: nat,
) -> Seq<(usize, usize, SyntaxStyle)> {
    if rel_line < line_styles.len() {
        line_styles[rel_line as int]@
    } else {
        Seq::empty()
    }
}

/// The style at a column is the style of the last span of that line that
/// covers the column (spans run from their start up to, not including, their
/// end), and the default style where no span covers it.
pub proof fn law_style_at_covering(
    line_styles: Seq<Vec<(usize, usize, SyntaxStyle)>>,
    rel_line: nat,
    col: nat,
)
    ensures
        (forall|i: int|
            0 <= i < line_spans(line_styles, rel_line).len() ==> !covers(
                #[trigger] line_spans(line_styles, rel_line)[i],
                col,
            )) ==> spec_style_at(line_styles, rel_line, col) == colored(171, 178, 191),
        (exists|i: int|
            0 <= i < line_spans(line_styles, rel_line).len() && covers(
                #[trigger] line_spans(line_styles, rel_line)[i],
                col,
            )) ==> exists|i: int|
            0 <= i < line_spans(line_styles, rel_line).len() && covers(
                #[trigger] line_spans(line_styles, rel_line)[i],
                col,
            ) && spec_style_at(line_styles, rel_line, col) == line_spans(line_styles, rel_line)[i].2
                && forall|j: int|
                i < j < line_spans(line_styles, rel_line).len() ==> !covers(
                    #[trigger] line_spans(line_styles, rel_line)[j],
                    col,
                ),
{
    let spans = line_spans(line_styles, rel_line);
    lemma_last_covering(spans, col, spans.len());
    if rel_line < line_styles.len() {
        assert(spec_style_at(line_styles, rel_line, col) == last_covering(spans, col, spans.len()));
    } else {
        assert(spec_style_at(line_styles, rel_line, col) == colored(171, 178, 191));
    }
}

/// The style at column `col` of line `rel_line`: the last span there that
/// covers the column, or the default style.
pub open spec fn spec_style_at(
    line_styles: Seq<Vec<(usize, usize, SyntaxStyle)>>,
    rel_line: nat,
    col: nat,
) -> SyntaxStyle {
    if rel_line < line_styles.len() {
        last_covering(line_styles[rel_line as int]@, col, line_styles[rel_line as int]@.len())
    } else {
        colored(171, 178, 191)
    }
}

/// Look up the highlight style for a specific position.
pub fn style_at(line_styles: &[Vec<(usize, usize, SyntaxStyle)>], rel_line: usize, col: usize) -> (s:
    SyntaxStyle)
    ensures
        s == spec_style_at(line_styles@, rel_line as nat, col as nat),
{
    if rel_line < line_styles.len() {
        let mut result = default_style();
        let spans = &line_styles[rel_line];
        let mut i = 0usize;
        while i < spans.len()
            invariant
                i <= spans@.len(),
                spans@ == line_styles@[rel_line as int]@,
                result == last_covering(spans@, col as nat, i as nat),
            decreases spans@.len() - i,
        {
            let (start, end, style) = spans[i];
            if col >= start && col < end {
                result = style;
            }
            i += 1;
        }
        result
    } else {
        default_style()
    }
}

/// The char column within line `line` of a byte column within it (capped at
/// the end of the text).
pub open spec fn spec_byte_col_to_char_col(text: Seq<char>, line: int, byte_col: int) -> int {
    let line_byte_start = byte_len(text.take(line_start(text, line)));
    let abs_byte = line_byte_start + byte_col;
    let capped = if abs_byte <= byte_len(text) {
        abs_byte
    } else {
        byte_len(text) as int
    };
    let abs_char = char_at_byte(text, capped);
    let ls = line_start(text, line);
    if abs_char >= ls {
        abs_char - ls
    } else {
        0
    }
}

/// Convert a byte column offset within a line to a char column offset.
fn byte_col_to_char_col(rope: &Rope, line: usize, byte_col: usize) -> (c: usize)
    requires
        line <= line_count(rope_text(*rope)),
    ensures
        c == spec_byte_col_to_char_col(rope_text(*rope), line as int, byte_col as int),
{
    let line_byte_start = rope.line_to_byte(line);
    let abs_byte = line_byte_start.saturating_add(byte_col);
    let len = rope.len_bytes();
    let abs_byte = if abs_byte < len {
        abs_byte
    } else {
        len
    };
    let abs_char = rope.byte_to_char(abs_byte);
    let line_char_start = rope.line_to_char(line);
    abs_char.saturating_sub(line_char_start)
}

/// The char columns that a capture running from (start_row, start byte
/// column) to (end_row, end byte column) covers on line `line`, when that is
/// a non-empty span.
pub open spec fn capture_span_on_line(
    text: Seq<char>,
    line: int,
    start_row: int,
    start_col: int,
    end_row: int,
    end_col: int,
) -> Option<(int, int)> {
    let col_start = if line == start_row {
        spec_byte_col_to_char_col(text, line, start_col)
    } else {
        0
    };
    let col_end = if line == end_row {
        spec_byte_col_to_char_col(text, line, end_col)
    } else {
        line_text(text, line).len() as int
    };
    if col_start < col_end {
        Some((col_start, col_end))
    } else {
        None
    }
}

/// The spans that line `start_line + k` gains from a capture.
pub open spec fn capture_added(
    text: Seq<char>,
    name: Seq<char>,
    start_row: int,
    start_col: int,
    end_row: int,
    end_col: int,
    start_line: int,
    k: int,
) -> Seq<(usize, usize, SyntaxStyle)> {
    let line = start_line + k;
    if start_row <= line <= end_row {
        match capture_span_on_line(text, line, start_row, start_col, end_row, end_col) {
            Some((a, b)) => seq![(a as usize, b as usize, spec_style_for_capture(name))],
            None => Seq::empty(),
        }
    } else {
        Seq::empty()
    }
}

/// A capture gives spans only to the lines from its start row to its end
/// row, at most one per line and in the capture's style, and a line strictly
/// between the two gets the whole line (without its line break).
pub proof fn law_capture_spans_lines(
    text: Seq<char>,
    name: Seq<char>,
    start_row: int,
    start_col: int,
    end_row: int,
    end_col: int,
    start_line: int,
    k: int,
)
    requires
        0 <= start_line + k < line_count(text),
        line_text(text, start_line + k).len() <= usize::MAX,
    ensures
        ({
            let added = capture_added(text, name, start_row, start_col, end_row, end_col, start_line, k);
            let line = start_line + k;
            &&& added.len() <= 1
            &&& (line < start_row || line > end_row) ==> added.len() == 0
            &&& added.len() == 1 ==> added[0].2 == spec_style_for_capture(name)
            &&& start_row < line < end_row && line_text(text, line).len() > 0 ==> added == seq![
                (0usize, line_text(text, line).len() as usize, spec_style_for_capture(name)),
            ]
        }),
{
}

/// The lines `start_line..end_line` that a capture from `start_row` to
/// `end_row` touches all exist in the text.
pub open spec fn capture_rows_exist(
    text: Seq<char>,
    start_row: int,
    end_row: int,
    start_line: int,
    end_line: int,
) -> bool {
    let lo = if start_row > start_line {
        start_row
    } else {
        start_line
    };
    let hi = if end_row + 1 < end_line {
        end_row + 1
    } else {
        end_line
    };
    lo >= hi || hi <= line_count(text)
}

/// Adds the spans of one tree-sitter capture (named `name`, from
/// (start_row, start byte column) to (end_row, end byte column)) to the
/// per-line styles of lines `start_line..start_line + result.len()`.
pub fn add_capture_spans(
    result: &mut LineStyles,
    rope: &Rope,
    name: &str,
    start_row: usize,
    start_col: usize,
    end_row: usize,
    end_col: usize,
    start_line: usize,
)
    requires
        start_line + old(result)@.len() <= usize::MAX,
        capture_rows_exist(
            rope_text(*rope),
            start_row as int,
            end_row as int,
            start_line as int,
            start_line + old(result)@.len(),
        ),
    ensures
        final(result)@.len() == old(result)@.len(),
        forall|k: int|
            0 <= k < old(result)@.len() ==> #[trigger] final(result)@[k]@ == old(result)@[k]@
                + capture_added(
                rope_text(*rope),
                name@,
                start_row as int,
                start_col as int,
                end_row as int,
                end_col as int,
                start_line as int,
                k,
            ),
{
    let ghost text = rope_text(*rope);
    let style = style_for_capture(name);
    let end_line = start_line + result.len();
    // Only the lines of the window that the capture spans gain a span.
    let mut line = if start_row > start_line {
        start_row
    } else {
        start_line
    };
    let stop = if end_row < end_line {
        end_row + 1
    } else {
        end_line
    };
    let ghost before = result@;
    while line < stop
        invariant
            text == rope_text(*rope),
            start_line <= line,
            start_row <= line,
            stop <= end_line,
            stop <= end_row + 1,
            end_line == start_line + before.len(),
            capture_rows_exist(text, start_row as int, end_row as int, start_line as int, end_line as int),
            style == spec_style_for_capture(name@),
            result@.len() == before.len(),
            forall|k: int|
                0 <= k < before.len() ==> #[trigger] result@[k]@ == before[k]@ + (if start_line + k
                    < line {
                    capture_added(text, name@, start_row as int, start_col as int, end_row as int, end_col as int, start_line as int, k)
                } else {
                    Seq::empty()
                }),
        decreases stop - line,
    {
        proof {
            assert(line < line_count(text));
            lemma_line_text_len(text, line as int);
        }
        let rel_line = line - start_line;
        let col_start = if line == start_row {
            byte_col_to_char_col(rope, line, start_col)
        } else {
            0
        };
        let col_end = if line == end_row {
            byte_col_to_char_col(rope, line, end_col)
        } else {
            rope.line(line).len_chars()
        };
        let ghost mid = result@;
        if col_start < col_end {
            result[rel_line].push((col_start, col_end, style));
        }
        proof {
            assert forall|k: int| 0 <= k < before.len() implies #[trigger] result@[k]@ == before[k]@
                + (if start_line + k < line + 1 {
                capture_added(text, name@, start_row as int, start_col as int, end_row as int, end_col as int, start_line as int, k)
            } else {
                Seq::empty()
            }) by {
                if k == rel_line {
                    assert(mid[k]@ == before[k]@);
                    if col_start < col_end {
                        assert(result@[k]@ =~= mid[k]@ + seq![(col_start, col_end, style)]);
                    }
                    assert(before[k]@ + Seq::<(usize, usize, SyntaxStyle)>::empty() =~= before[k]@);
                } else {
                    assert(result@[k] == mid[k]);
                }
            }
        }
        line += 1;
    }
    proof {
        assert forall|k: int| 0 <= k < before.len() implies #[trigger] result@[k]@ == before[k]@
            + capture_added(text, name@, start_row as int, start_col as int, end_row as int, end_col as int, start_line as int, k) by {
            if start_line + k >= line {
                assert(capture_added(text, name@, start_row as int, start_col as int, end_row as int, end_col as int, start_line as int, k) =~= Seq::<(usize, usize, SyntaxStyle)>::empty());
            }
        }
    }
}

/// A prefix of a text has no more UTF-8 bytes than the text.
proof fn lemma_prefix_bytes(s: Seq<char>, n: int)
    requires
        0 <= n <= s.len(),
    ensures
        byte_len(s.take(n)) <= byte_len(s),
    decreases s.len(),
{
    if n > 0 {
        lemma_prefix_bytes(s.skip(1), n - 1);
        assert(s.take(n).skip(1) =~= s.skip(1).take(n - 1));
    }
}


// ── The tree-sitter highlighter ────────────────────────────────────

#[verifier::external_type_specification]
#[verifier::external_body]
pub struct ExParser(tree_sitter::Parser);

#[verifier::external_type_specification]
#[verifier::external_body]
pub struct ExQuery(tree_sitter::Query);

#[verifier::external_type_specification]
#[verifier::external_body]
pub struct ExTree(tree_sitter::Tree);

/// One capture of the highlights query: its name and where its node runs,
/// as (row, byte column) positions.
#[derive(Debug, Clone)]
pub struct Capture {
    pub name: String,
    pub start_row: usize,
    pub start_col: usize,
    pub end_row: usize,
    pub end_col: usize,
}

/// tree-sitter's `Parser::new`: a parser with no language yet.
#[verifier::external_body]
fn new_parser() -> (p: tree_sitter::Parser) {
    tree_sitter::Parser::new()
}

/// Whether tree-sitter-rust's grammar is the language of a parser.
pub uninterp spec fn holds_rust_grammar(parser: tree_sitter::Parser) -> bool;

/// tree-sitter's `Parser::set_language` with tree-sitter-rust's grammar. It
/// succeeds: the grammar's ABI version (15) lies within the versions this
/// tree-sitter accepts (13 to 15), and the parser then holds that grammar.
#[verifier::external_body]
fn set_rust_language(parser: &mut tree_sitter::Parser) -> (ok: bool)
    ensures
        ok,
        holds_rust_grammar(*final(parser)),
{
    parser.set_language(&tree_sitter_rust::LANGUAGE.into()).is_ok()
}

/// tree-sitter's `Query::new` on tree-sitter-rust's bundled highlights
/// query; whether that query compiles is not stated here.
#[verifier::external_body]
fn rust_highlights_query() -> (q: Option<tree_sitter::Query>) {
    tree_sitter::Query::new(&tree_sitter_rust::LANGUAGE.into(), tree_sitter_rust::HIGHLIGHTS_QUERY).ok()
}

/// The syntax tree that tree-sitter-rust's parser builds for a text, given
/// the old tree that it may reuse. With no old tree this is the fresh parse
/// of the text, whose nodes all lie within the text's bytes.
pub uninterp spec fn parsed_tree(text: Seq<char>, old: Option<tree_sitter::Tree>) -> tree_sitter::Tree;

/// The old tree that a call hands to the parser, as a value.
pub open spec fn old_tree_of(old_tree: Option<&tree_sitter::Tree>) -> Option<tree_sitter::Tree> {
    match old_tree {
        Some(t) => Some(*t),
        None => None,
    }
}

/// tree-sitter's `Parser::parse` on a text, reusing an old tree. With a
/// language set, and no timeout or cancellation flag (this library sets
/// neither), it returns the parse of the text, and the parser keeps its
/// language. The tree's nodes are not stated beyond the name `parsed_tree`.
#[verifier::external_body]
fn parse_text(parser: &mut tree_sitter::Parser, text: &str, old_tree: Option<&tree_sitter::Tree>) -> (t:
    Option<tree_sitter::Tree>)
    requires
        holds_rust_grammar(*old(parser)),
    ensures
        t == Some(parsed_tree(text@, old_tree_of(old_tree))),
        holds_rust_grammar(*final(parser)),
{
    parser.parse(text, old_tree)
}

/// What the highlights query captures over a tree of a source text within
/// the byte range `start_byte..end_byte`, in tree-sitter's order.
pub uninterp spec fn spec_query_captures(
    query: tree_sitter::Query,
    tree: tree_sitter::Tree,
    source: Seq<char>,
    start_byte: nat,
    end_byte: nat,
) -> Seq<Capture>;

/// tree-sitter's `QueryCursor::captures` of `query` over the tree of
/// `source`, restricted to the byte range `start_byte..end_byte`, each
/// capture turned into its name and node positions. The result is the named
/// capture list of exactly these arguments. The tree must be the fresh parse
/// of `source`: the query's text predicates slice `source` by each node's
/// byte range, which panics for a node past its end.
#[verifier::external_body]
fn query_captures(
    query: &tree_sitter::Query,
    tree: &tree_sitter::Tree,
    source: &str,
    start_byte: usize,
    end_byte: usize,
) -> (caps: Vec<Capture>)
    requires
        *tree == parsed_tree(source@, None),
    ensures
        caps@ == spec_query_captures(*query, *tree, source@, start_byte as nat, end_byte as nat),
{
    let mut cursor = tree_sitter::QueryCursor::new();
    cursor.set_byte_range(start_byte..end_byte);
    let names = query.capture_names();
    let mut captures = cursor.captures(query, tree.root_node(), source.as_bytes());
    let mut out = Vec::new();
    while let Some(&(ref m, i)) = captures.next() {
        let c = &m.captures[i];
        let (s, e) = (c.node.start_position(), c.node.end_position());
        let name = names[c.index as usize].to_string();
        out.push(Capture { name, start_row: s.row, start_col: s.column, end_row: e.row, end_col: e.column });
    }
    out
}

/// The spans that line `start_line + k` gets from the captures, in order.
pub open spec fn spans_from(text: Seq<char>, caps: Seq<Capture>, start_line: int, k: int) -> Seq<
    (usize, usize, SyntaxStyle),
>
    decreases caps.len(),
{
    if caps.len() == 0 {
        Seq::empty()
    } else {
        let c = caps.last();
        spans_from(text, caps.drop_last(), start_line, k) + capture_added(
            text,
            c.name@,
            c.start_row as int,
            c.start_col as int,
            c.end_row as int,
            c.end_col as int,
            start_line,
            k,
        )
    }
}

/// Every capture touches only lines of the window `start_line..end_line`
/// that exist in the text.
pub open spec fn captures_fit(text: Seq<char>, caps: Seq<Capture>, start_line: int, end_line: int) -> bool {
    forall|i: int|
        0 <= i < caps.len() ==> capture_rows_exist(
            text,
            (#[trigger] caps[i]).start_row as int,
            caps[i].end_row as int,
            start_line,
            end_line,
        )
}

/// The number of lines of the window `start_line..end_line`.
pub open spec fn window_len(start_line: usize, end_line: usize) -> nat {
    if end_line >= start_line {
        (end_line - start_line) as nat
    } else {
        0
    }
}

/// The per-line styles of lines `start_line..end_line` from the captures:
/// each line gets, in capture order, the span each capture covers on it.
pub fn highlight_captures(rope: &Rope, caps: &Vec<Capture>, start_line: usize, end_line: usize) -> (r:
    LineStyles)
    requires
        captures_fit(rope_text(*rope), caps@, start_line as int, start_line + window_len(start_line, end_line)),
    ensures
        r@.len() == window_len(start_line, end_line),
        forall|k: int|
            0 <= k < r@.len() ==> #[trigger] r@[k]@ == spans_from(rope_text(*rope), caps@, start_line as int, k),
{
    let num_lines = end_line.saturating_sub(start_line);
    let ghost text = rope_text(*rope);
    let mut result: LineStyles = Vec::new();
    let mut k = 0usize;
    while k < num_lines
        invariant
            k <= num_lines,
            result@.len() == k,
            forall|j: int| 0 <= j < k ==> (#[trigger] result@[j])@.len() == 0,
        decreases num_lines - k,
    {
        result.push(Vec::new());
        k += 1;
    }
    let mut i = 0usize;
    while i < caps.len()
        invariant
            text == rope_text(*rope),
            i <= caps@.len(),
            num_lines == window_len(start_line, end_line),
            start_line + num_lines <= usize::MAX,
            captures_fit(text, caps@, start_line as int, start_line + num_lines),
            result@.len() == num_lines,
            forall|j: int|
                0 <= j < num_lines ==> #[trigger] result@[j]@ == spans_from(
                    text,
                    caps@.take(i as int),
                    start_line as int,
                    j,
                ),
        decreases caps@.len() - i,
    {
        let c = &caps[i];
        proof {
            assert(capture_rows_exist(text, caps@[i as int].start_row as int, caps@[i as int].end_row as int, start_line as int, start_line + num_lines));
        }
        add_capture_spans(
            &mut result,
            rope,
            c.name.as_str(),
            c.start_row,
            c.start_col,
            c.end_row,
            c.end_col,
            start_line,
        );
        proof {
            assert(caps@.take(i + 1).drop_last() =~= caps@.take(i as int));
            assert(caps@.take(i + 1).last() == caps@[i as int]);
        }
        i += 1;
    }
    proof {
        assert(caps@.take(caps@.len() as int) =~= caps@);
    }
    result
}

fn check_captures_fit(rope: &Rope, caps: &Vec<Capture>, start_line: usize, end_line: usize) -> (r: bool)
    ensures
        r == captures_fit(rope_text(*rope), caps@, start_line as int, end_line as int),
{
    let n = rope.len_lines();
    let mut i = 0usize;
    while i < caps.len()
        invariant
            i <= caps@.len(),
            n == line_count(rope_text(*rope)),
            forall|j: int|
                0 <= j < i ==> capture_rows_exist(
                    rope_text(*rope),
                    (#[trigger] caps@[j]).start_row as int,
                    caps@[j].end_row as int,
                    start_line as int,
                    end_line as int,
                ),
        decreases caps@.len() - i,
    {
        let c = &caps[i];
        let lo = if c.start_row > start_line {
            c.start_row
        } else {
            start_line
        };
        let hi_fits = if c.end_row < end_line {
            c.end_row < n
        } else {
            end_line <= n
        };
        if lo < end_line && lo <= c.end_row && !hi_fits {
            return false;
        }
        i += 1;
    }
    true
}

/// The byte offset where line `line` of a text starts.
pub open spec fn line_start_byte(text: Seq<char>, line: int) -> nat {
    byte_len(text.take(line_start(text, line)))
}

/// The byte range of the window `start_line..end_line` of a text: from the
/// start of `start_line` to the start of `end_line`, or to the end of the text
/// when `end_line` is past its last line.
pub open spec fn window_bytes(text: Seq<char>, start_line: int, end_line: int) -> (nat, nat) {
    (
        line_start_byte(text, start_line),
        if end_line < line_count(text) {
            line_start_byte(text, end_line)
        } else {
            byte_len(text)
        },
    )
}

pub struct Highlighter {
    parser: tree_sitter::Parser,
    query: tree_sitter::Query,
}

impl Highlighter {
    /// The parser holds the Rust grammar.
    pub closed spec fn wf(&self) -> bool {
        holds_rust_grammar(self.parser)
    }

    /// The highlights query in use.
    pub closed spec fn query_of(&self) -> tree_sitter::Query {
        self.query
    }

    /// A highlighter for Rust, when tree-sitter compiles tree-sitter-rust's
    /// highlights query (the grammar itself is always accepted).
    pub fn new() -> (r: Option<Self>)
        ensures
            r matches Some(h) ==> h.wf(),
    {
        let mut parser = new_parser();
        if !set_rust_language(&mut parser) {
            return None;
        }
        let query = rust_highlights_query()?;
        Some(Self { parser, query })
    }

    /// Parse (or reparse) the document. Returns the syntax tree of the
    /// rope's text, which tree-sitter always gives once the parser holds a
    /// grammar.
    pub fn parse(&mut self, rope: &Rope, old_tree: Option<&tree_sitter::Tree>) -> (r: Option<
        tree_sitter::Tree,
    >)
        requires
            old(self).wf(),
        ensures
            r == Some(parsed_tree(rope_text(*rope), old_tree_of(old_tree))),
            final(self).wf(),
            final(self).query_of() == old(self).query_of(),
    {
        let source = rope_to_string(rope);
        parse_text(&mut self.parser, source.as_str(), old_tree)
    }

    /// Compute highlight spans for the given line range [start_line, end_line).
    /// The captures are those of the highlights query over the tree, the rope's
    /// text and the window's byte range; each line of the window gets the spans
    /// they give it (see `spans_from`). The tree is the fresh parse of the
    /// rope's text. The result is `None` exactly when a capture falls on lines
    /// of the window that the text does not have.
    pub fn highlight_lines(&self, tree: &tree_sitter::Tree, rope: &Rope, start_line: usize, end_line: usize) -> (r:
        Option<LineStyles>)
        requires
            start_line <= line_count(rope_text(*rope)),
            *tree == parsed_tree(rope_text(*rope), None),
        ensures
            ({
                let text = rope_text(*rope);
                let bytes = window_bytes(text, start_line as int, end_line as int);
                let caps = spec_query_captures(self.query_of(), *tree, text, bytes.0, bytes.1);
                &&& (r is Some <==> captures_fit(
                    text,
                    caps,
                    start_line as int,
                    start_line + window_len(start_line, end_line),
                ))
                &&& (r matches Some(ls) ==> ls@.len() == window_len(start_line, end_line) && forall|k: int|
                    0 <= k < ls@.len() ==> #[trigger] ls@[k]@ == spans_from(text, caps, start_line as int, k))
            }),
    {
        let source = rope_to_string(rope);
        let start_byte = rope.line_to_byte(start_line);
        let end_byte = if end_line < rope.len_lines() {
            rope.line_to_byte(end_line)
        } else {
            rope.len_bytes()
        };
        let caps = query_captures(&self.query, tree, source.as_str(), start_byte, end_byte);
        let num_lines = end_line.saturating_sub(start_line);
        if !check_captures_fit(rope, &caps, start_line, start_line + num_lines) {
            return None;
        }
        let styles = highlight_captures(rope, &caps, start_line, end_line);
        Some(styles)
    }
}

} // verus!
