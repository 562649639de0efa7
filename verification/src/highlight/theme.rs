use vstd::prelude::*;

use super::style::{RgbColor, SyntaxStyle};
use crate::buffer::text_eq;

verus! {

/// The style of a color, not italic.
pub open spec fn colored(r: u8, g: u8, b: u8) -> SyntaxStyle {
    SyntaxStyle { fg: Some(RgbColor(r, g, b)), italic: false }
}

/// The style that a tree-sitter capture name gets in the One Dark inspired
/// color scheme: the first group of names that holds `name` decides, and
/// any other name gets the default light gray.
pub open spec fn spec_style_for_capture(name: Seq<char>) -> SyntaxStyle {
    if name == "keyword"@ || name == "keyword.control"@ || name == "keyword.control.rust"@ || name == "keyword.modifier"@ || name == "keyword.type"@ || name == "keyword.function"@ || name == "keyword.operator"@ || name == "keyword.import"@ || name == "keyword.repeat"@ || name == "keyword.return"@ || name == "keyword.conditional"@ || name == "keyword.exception"@ || name == "keyword.storage"@ || name == "keyword.coroutine"@ || name == "keyword.directive"@ {
        colored(198, 120, 221)  // purple
    } else if name == "type"@ || name == "type.builtin"@ || name == "type.qualifier"@ {
        colored(229, 192, 123)  // yellow
    } else if name == "constructor"@ {
        colored(229, 192, 123)  // yellow
    } else if name == "function"@ || name == "function.call"@ || name == "function.method"@ || name == "function.method.call"@ || name == "function.macro"@ || name == "function.builtin"@ {
        colored(97, 175, 239)  // blue
    } else if name == "string"@ || name == "string.special"@ || name == "string.escape"@ || name == "string.regexp"@ {
        colored(152, 195, 121)  // green
    } else if name == "character"@ || name == "character.special"@ {
        colored(152, 195, 121)  // green
    } else if name == "number"@ || name == "number.float"@ || name == "float"@ || name == "boolean"@ || name == "constant.builtin"@ {
        colored(209, 154, 102)  // orange
    } else if name == "comment"@ || name == "comment.line"@ || name == "comment.block"@ || name == "comment.documentation"@ {
        SyntaxStyle { fg: Some(RgbColor(92, 99, 112)), italic: true }  // gray italic
    } else if name == "variable.builtin"@ || name == "variable.parameter"@ {
        colored(224, 108, 117)  // red
    } else if name == "constant"@ {
        colored(209, 154, 102)  // orange
    } else if name == "attribute"@ || name == "attribute.builtin"@ {
        colored(229, 192, 123)  // yellow
    } else if name == "label"@ {
        colored(209, 154, 102)  // orange
    } else if name == "punctuation"@ || name == "punctuation.bracket"@ || name == "punctuation.delimiter"@ || name == "punctuation.special"@ {
        colored(171, 178, 191)  // light gray
    } else if name == "operator"@ {
        colored(171, 178, 191)  // light gray
    } else if name == "property"@ || name == "variable.member"@ {
        colored(224, 108, 117)  // red
    } else if name == "escape"@ || name == "string.special.symbol"@ {
        colored(86, 182, 194)  // cyan
    } else if name == "module"@ || name == "namespace"@ {
        colored(229, 192, 123)  // yellow
    } else {
        colored(171, 178, 191)  // default light gray
    }
}

/// Every capture name gets a foreground color, and exactly the comment names
/// ("comment", "comment.line", "comment.block", "comment.documentation") are
/// drawn in italics.
pub proof fn law_capture_styles(name: Seq<char>)
    ensures
        spec_style_for_capture(name).fg is Some,
        spec_style_for_capture(name).italic <==> (name == "comment"@ || name == "comment.line"@
            || name == "comment.block"@ || name == "comment.documentation"@),
{

    if name == "comment"@ || name == "comment.line"@ || name == "comment.block"@ || name
        == "comment.documentation"@ {
        reveal_strlit("comment");
        reveal_strlit("comment.line");
        reveal_strlit("comment.block");
        reveal_strlit("comment.documentation");
        // Every comment name starts with "com", and no name of an earlier
        // group does.
        assert(name[0] == 'c' && name[1] == 'o' && name[2] == 'm');
        reveal_strlit("boolean");
        assert("boolean"@[0] != 'c');
        reveal_strlit("character");
        assert("character"@[1] != 'o');
        reveal_strlit("character.special");
        assert("character.special"@[1] != 'o');
        reveal_strlit("constant.builtin");
        assert("constant.builtin"@[2] != 'm');
        reveal_strlit("constructor");
        assert("constructor"@[2] != 'm');
        reveal_strlit("float");
        assert("float"@[0] != 'c');
        reveal_strlit("function");
        assert("function"@[0] != 'c');
        reveal_strlit("function.builtin");
        assert("function.builtin"@[0] != 'c');
        reveal_strlit("function.call");
        assert("function.call"@[0] != 'c');
        reveal_strlit("function.macro");
        assert("function.macro"@[0] != 'c');
        reveal_strlit("function.method");
        assert("function.method"@[0] != 'c');
        reveal_strlit("function.method.call");
        assert("function.method.call"@[0] != 'c');
        reveal_strlit("keyword");
        assert("keyword"@[0] != 'c');
        reveal_strlit("keyword.conditional");
        assert("keyword.conditional"@[0] != 'c');
        reveal_strlit("keyword.control");
        assert("keyword.control"@[0] != 'c');
        reveal_strlit("keyword.control.rust");
        assert("keyword.control.rust"@[0] != 'c');
        reveal_strlit("keyword.coroutine");
        assert("keyword.coroutine"@[0] != 'c');
        reveal_strlit("keyword.directive");
        assert("keyword.directive"@[0] != 'c');
        reveal_strlit("keyword.exception");
        assert("keyword.exception"@[0] != 'c');
        reveal_strlit("keyword.function");
        assert("keyword.function"@[0] != 'c');
        reveal_strlit("keyword.import");
        assert("keyword.import"@[0] != 'c');
        reveal_strlit("keyword.modifier");
        assert("keyword.modifier"@[0] != 'c');
        reveal_strlit("keyword.operator");
        assert("keyword.operator"@[0] != 'c');
        reveal_strlit("keyword.repeat");
        assert("keyword.repeat"@[0] != 'c');
        reveal_strlit("keyword.return");
        assert("keyword.return"@[0] != 'c');
        reveal_strlit("keyword.storage");
        assert("keyword.storage"@[0] != 'c');
        reveal_strlit("keyword.type");
        assert("keyword.type"@[0] != 'c');
        reveal_strlit("number");
        assert("number"@[0] != 'c');
        reveal_strlit("number.float");
        assert("number.float"@[0] != 'c');
        reveal_strlit("string");
        assert("string"@[0] != 'c');
        reveal_strlit("string.escape");
        assert("string.escape"@[0] != 'c');
        reveal_strlit("string.regexp");
        assert("string.regexp"@[0] != 'c');
        reveal_strlit("string.special");
        assert("string.special"@[0] != 'c');
        reveal_strlit("type");
        assert("type"@[0] != 'c');
        reveal_strlit("type.builtin");
        assert("type.builtin"@[0] != 'c');
        reveal_strlit("type.qualifier");
        assert("type.qualifier"@[0] != 'c');
    }
}

/// One Dark inspired color scheme.
/// Maps tree-sitter capture names to SyntaxStyle.
pub fn style_for_capture(name: &str) -> (s: SyntaxStyle)
    ensures
        s == spec_style_for_capture(name@),
{
    if text_eq(name, "keyword") ||
        text_eq(name, "keyword.control") ||
        text_eq(name, "keyword.control.rust") ||
        text_eq(name, "keyword.modifier") ||
        text_eq(name, "keyword.type") ||
        text_eq(name, "keyword.function") ||
        text_eq(name, "keyword.operator") ||
        text_eq(name, "keyword.import") ||
        text_eq(name, "keyword.repeat") ||
        text_eq(name, "keyword.return") ||
        text_eq(name, "keyword.conditional") ||
        text_eq(name, "keyword.exception") ||
        text_eq(name, "keyword.storage") ||
        text_eq(name, "keyword.coroutine") ||
        text_eq(name, "keyword.directive") {
        SyntaxStyle::default().fg(RgbColor(198, 120, 221))  // purple
    } else if text_eq(name, "type") ||
        text_eq(name, "type.builtin") ||
        text_eq(name, "type.qualifier") {
        SyntaxStyle::default().fg(RgbColor(229, 192, 123))  // yellow
    } else if text_eq(name, "constructor") {
        SyntaxStyle::default().fg(RgbColor(229, 192, 123))  // yellow
    } else if text_eq(name, "function") ||
        text_eq(name, "function.call") ||
        text_eq(name, "function.method") ||
        text_eq(name, "function.method.call") ||
        text_eq(name, "function.macro") ||
        text_eq(name, "function.builtin") {
        SyntaxStyle::default().fg(RgbColor(97, 175, 239))  // blue
    } else if text_eq(name, "string") ||
        text_eq(name, "string.special") ||
        text_eq(name, "string.escape") ||
        text_eq(name, "string.regexp") {
        SyntaxStyle::default().fg(RgbColor(152, 195, 121))  // green
    } else if text_eq(name, "character") ||
        text_eq(name, "character.special") {
        SyntaxStyle::default().fg(RgbColor(152, 195, 121))  // green
    } else if text_eq(name, "number") ||
        text_eq(name, "number.float") ||
        text_eq(name, "float") ||
        text_eq(name, "boolean") ||
        text_eq(name, "constant.builtin") {
        SyntaxStyle::default().fg(RgbColor(209, 154, 102))  // orange
    } else if text_eq(name, "comment") ||
        text_eq(name, "comment.line") ||
        text_eq(name, "comment.block") ||
        text_eq(name, "comment.documentation") {
        SyntaxStyle::default().fg(RgbColor(92, 99, 112)).italic()  // gray italic
    } else if text_eq(name, "variable.builtin") ||
        text_eq(name, "variable.parameter") {
        SyntaxStyle::default().fg(RgbColor(224, 108, 117))  // red
    } else if text_eq(name, "constant") {
        SyntaxStyle::default().fg(RgbColor(209, 154, 102))  // orange
    } else if text_eq(name, "attribute") ||
        text_eq(name, "attribute.builtin") {
        SyntaxStyle::default().fg(RgbColor(229, 192, 123))  // yellow
    } else if text_eq(name, "label") {
        SyntaxStyle::default().fg(RgbColor(209, 154, 102))  // orange
    } else if text_eq(name, "punctuation") ||
        text_eq(name, "punctuation.bracket") ||
        text_eq(name, "punctuation.delimiter") ||
        text_eq(name, "punctuation.special") {
        SyntaxStyle::default().fg(RgbColor(171, 178, 191))  // light gray
    } else if text_eq(name, "operator") {
        SyntaxStyle::default().fg(RgbColor(171, 178, 191))  // light gray
    } else if text_eq(name, "property") ||
        text_eq(name, "variable.member") {
        SyntaxStyle::default().fg(RgbColor(224, 108, 117))  // red
    } else if text_eq(name, "escape") ||
        text_eq(name, "string.special.symbol") {
        SyntaxStyle::default().fg(RgbColor(86, 182, 194))  // cyan
    } else if text_eq(name, "module") ||
        text_eq(name, "namespace") {
        SyntaxStyle::default().fg(RgbColor(229, 192, 123))  // yellow
    } else {
        SyntaxStyle::default().fg(RgbColor(171, 178, 191))  // default light gray
    }
}

/// Default text color (used when no capture matches).
pub fn default_style() -> (s: SyntaxStyle)
    ensures
        s == colored(171, 178, 191),
{
    SyntaxStyle::default().fg(RgbColor(171, 178, 191))
}

} // verus!
