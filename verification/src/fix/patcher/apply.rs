//! Rewriting one line of a file in place: the version of a `go.mod` `go`
//! directive, of a `.tool-versions` entry or of a Gemfile `ruby` directive,
//! and one token of a Dockerfile `EXPOSE` instruction.
use vstd::prelude::*;
use vstd::string::*;
use crate::pattern::{captured_pair, captured_pair_s};
use super::{first_break_s, is_break, line_end_s, line_error_s, line_info, line_start_s};
use crate::text::{chars_eq, decimal_s, from_chars, join_chars, join_s, push_chars, push_decimal, push_str, slice_chars, to_chars, vv, words, words_s};

verus! {

/// A `go.mod` `go` directive: the text before the version, the version,
/// and the rest of the line.
pub const GO_DIRECTIVE_PATTERN: &'static str = r"^(\s*go\s+)(\S+)(.*)$";

/// A `.tool-versions` entry: the tool and the spaces after it, the
/// version, and the rest of the line.
pub const TOOL_VERSIONS_ENTRY_PATTERN: &'static str = r"^(\s*\S+\s+)(\S+)(.*)$";

/// A Gemfile `ruby` directive: the text up to the opening quote, the
/// version, and the closing quote with the rest of the line.
pub const GEMFILE_RUBY_DIRECTIVE_PATTERN: &'static str = r#"^(\s*ruby\s+['"])([^'"]+)(['"].*)$"#;

/// A Dockerfile `EXPOSE` instruction: the keyword with the spaces after
/// it, and its tokens.
pub const EXPOSE_PATTERN: &'static str = r"^(\s*EXPOSE\s+)(.*)$";

/// Groups 1 and 3 of the first match of `GO_DIRECTIVE_PATTERN` in a line,
/// if the pattern matches.
pub open spec fn go_directive_capture(line: Seq<char>) -> Option<(Seq<char>, Seq<char>)> {
    captured_pair_s(GO_DIRECTIVE_PATTERN@, line, 1, 3)
}

/// Groups 1 and 3 of the first match of `TOOL_VERSIONS_ENTRY_PATTERN` in a
/// line, if the pattern matches.
pub open spec fn tool_versions_entry_capture(line: Seq<char>) -> Option<(Seq<char>, Seq<char>)> {
    captured_pair_s(TOOL_VERSIONS_ENTRY_PATTERN@, line, 1, 3)
}

/// Groups 1 and 3 of the first match of `GEMFILE_RUBY_DIRECTIVE_PATTERN` in
/// a line, if the pattern matches.
pub open spec fn gemfile_ruby_directive_capture(line: Seq<char>) -> Option<(Seq<char>, Seq<char>)> {
    captured_pair_s(GEMFILE_RUBY_DIRECTIVE_PATTERN@, line, 1, 3)
}

/// Groups 1 and 2 of the first match of `EXPOSE_PATTERN` in a line, if the
/// pattern matches.
pub open spec fn expose_capture(line: Seq<char>) -> Option<(Seq<char>, Seq<char>)> {
    captured_pair_s(EXPOSE_PATTERN@, line, 1, 2)
}

fn capture_go_directive(line: &str) -> (r: Option<(String, String)>)
    ensures
        match r {
            Some((a, b)) => go_directive_capture(line@) == Some((a@, b@)),
            None => go_directive_capture(line@) is None,
        },
{
    captured_pair(GO_DIRECTIVE_PATTERN, line, 1, 3)
}

fn capture_tool_versions_entry(line: &str) -> (r: Option<(String, String)>)
    ensures
        match r {
            Some((a, b)) => tool_versions_entry_capture(line@) == Some((a@, b@)),
            None => tool_versions_entry_capture(line@) is None,
        },
{
    captured_pair(TOOL_VERSIONS_ENTRY_PATTERN, line, 1, 3)
}

fn capture_gemfile_ruby_directive(line: &str) -> (r: Option<(String, String)>)
    ensures
        match r {
            Some((a, b)) => gemfile_ruby_directive_capture(line@) == Some((a@, b@)),
            None => gemfile_ruby_directive_capture(line@) is None,
        },
{
    captured_pair(GEMFILE_RUBY_DIRECTIVE_PATTERN, line, 1, 3)
}

fn capture_expose(line: &str) -> (r: Option<(String, String)>)
    ensures
        match r {
            Some((a, b)) => expose_capture(line@) == Some((a@, b@)),
            None => expose_capture(line@) is None,
        },
{
    captured_pair(EXPOSE_PATTERN, line, 1, 2)
}

/// A rewrite of one line.
#[derive(Debug, Clone)]
pub enum LineRewrite {
    /// Set the version of a `go.mod` `go` directive.
    GoDirective { value: String },
    /// Set the version of a `.tool-versions` entry.
    ToolVersionsEntry { value: String },
    /// Set the version of a Gemfile `ruby` directive.
    GemfileRuby { value: String },
    /// Replace the token `current` of a Dockerfile `EXPOSE` instruction.
    DockerExpose { current: String, value: String },
}

/// A rewrite of one line, its texts taken as character sequences.
pub enum LineRewriteView {
    GoDirective(Seq<char>),
    ToolVersionsEntry(Seq<char>),
    GemfileRuby(Seq<char>),
    DockerExpose(Seq<char>, Seq<char>),
}

impl View for LineRewrite {
    type V = LineRewriteView;

    open spec fn view(&self) -> LineRewriteView {
        match self {
            LineRewrite::GoDirective { value } => LineRewriteView::GoDirective(value@),
            LineRewrite::ToolVersionsEntry { value } => LineRewriteView::ToolVersionsEntry(value@),
            LineRewrite::GemfileRuby { value } => LineRewriteView::GemfileRuby(value@),
            LineRewrite::DockerExpose { current, value } => LineRewriteView::DockerExpose(current@, value@),
        }
    }
}

/// A text result, its texts taken as character sequences.
pub open spec fn text_result(r: Result<String, String>) -> Result<Seq<char>, Seq<char>> {
    match r {
        Ok(t) => Ok(t@),
        Err(e) => Err(e@),
    }
}

/// The message for a line that is not of the kind `what`.
pub open spec fn not_a_line_error_s(line: nat, what: Seq<char>) -> Seq<char> {
    "Line "@ + decimal_s(line) + " is not a "@ + what
}

/// The message for an `EXPOSE` line without the token.
pub open spec fn missing_expose_token_error_s(line: nat, current: Seq<char>) -> Seq<char> {
    "Line "@ + decimal_s(line) + " did not contain EXPOSE token "@ + current
}

/// Groups 1 and 3 of a match put around the new value, or the error for a
/// line of another kind.
pub open spec fn around_value_s(
    cap: Option<(Seq<char>, Seq<char>)>,
    line: nat,
    what: Seq<char>,
    value: Seq<char>,
) -> Result<Seq<char>, Seq<char>> {
    match cap {
        None => Err(not_a_line_error_s(line, what)),
        Some((head, rest)) => Ok(head + value + rest),
    }
}

/// The tokens with each token equal to `current` replaced by `value`.
pub open spec fn expose_tokens_s(tokens: Seq<Seq<char>>, current: Seq<char>, value: Seq<char>) -> Seq<Seq<char>> {
    tokens.map_values(|t: Seq<char>| if t == current { value } else { t })
}

/// The new text of line `line`, whose text is `original`.
pub open spec fn rewrite_line_s(rw: LineRewriteView, line: nat, original: Seq<char>) -> Result<Seq<char>, Seq<char>> {
    match rw {
        LineRewriteView::GoDirective(value) => around_value_s(
            go_directive_capture(original),
            line,
            "go.mod go directive"@,
            value,
        ),
        LineRewriteView::ToolVersionsEntry(value) => around_value_s(
            tool_versions_entry_capture(original),
            line,
            ".tool-versions entry"@,
            value,
        ),
        LineRewriteView::GemfileRuby(value) => around_value_s(
            gemfile_ruby_directive_capture(original),
            line,
            "Gemfile ruby directive"@,
            value,
        ),
        LineRewriteView::DockerExpose(current, value) => match expose_capture(original) {
            None => Err(not_a_line_error_s(line, "Dockerfile EXPOSE instruction"@)),
            Some((head, rest)) => {
                let tokens = expose_tokens_s(words_s(rest), current, value);
                if tokens.contains(value) {
                    Ok(head + join_s(tokens, " "@))
                } else {
                    Err(missing_expose_token_error_s(line, current))
                }
            },
        },
    }
}

/// The bounds of line `target_line` (1-based) of the content, if it has
/// that line.
pub open spec fn target_line_bounds_s(content: Seq<char>, target_line: nat) -> Option<(int, int)> {
    if target_line == 0 {
        None
    } else {
        match line_start_s(content, target_line) {
            None => None,
            Some(st) => Some((st, line_end_s(content, st))),
        }
    }
}

/// The content with line `target_line` rewritten and everything else kept.
pub open spec fn rewrite_target_line_s(content: Seq<char>, target_line: nat, rw: LineRewriteView) -> Result<
    Seq<char>,
    Seq<char>,
> {
    match target_line_bounds_s(content, target_line) {
        None => Err(line_error_s(target_line)),
        Some((st, en)) => match rewrite_line_s(rw, target_line, content.subrange(st, en)) {
            Err(e) => Err(e),
            Ok(rep) => Ok(content.take(st) + rep + content.skip(en)),
        },
    }
}

proof fn lemma_first_break_bounds(s: Seq<char>, i: int)
    requires
        0 <= i,
    ensures
        first_break_s(s, i) matches Some(j) ==> i <= j < s.len() && is_break(s[j]),
    decreases s.len() - i,
{
    if i < s.len() && !is_break(s[i]) {
        lemma_first_break_bounds(s, i + 1);
    }
}

proof fn lemma_line_start_bounds(s: Seq<char>, k: nat)
    ensures
        line_start_s(s, k) matches Some(st) ==> 0 <= st <= s.len(),
    decreases k,
{
    if k > 1 {
        lemma_line_start_bounds(s, (k - 1) as nat);
        if let Some(st) = line_start_s(s, (k - 1) as nat) {
            lemma_first_break_bounds(s, st);
        }
    }
}

proof fn lemma_line_end_bounds(s: Seq<char>, st: int)
    requires
        0 <= st <= s.len(),
    ensures
        st <= line_end_s(s, st) <= s.len(),
{
    lemma_first_break_bounds(s, st);
}

/// The bounds of a line lie within the content.
proof fn lemma_target_line_bounds(content: Seq<char>, target_line: nat)
    ensures
        target_line_bounds_s(content, target_line) matches Some((st, en)) ==> 0 <= st <= en <= content.len(),
{
    lemma_line_start_bounds(content, target_line);
    if let Some(st) = line_start_s(content, target_line) {
        lemma_line_end_bounds(content, st);
    }
}

fn around_value(cap: Option<(String, String)>, line: usize, what: &str, value: &str) -> (r: Result<String, String>)
    ensures
        text_result(r) == around_value_s(
            match cap {
                Some((a, b)) => Some((a@, b@)),
                None => None,
            },
            line as nat,
            what@,
            value@,
        ),
{
    match cap {
        None => {
            let mut m = String::from_str("Line ");
            push_decimal(&mut m, line as u64);
            push_str(&mut m, " is not a ");
            push_str(&mut m, what);
            Err(m)
        },
        Some((head, rest)) => {
            let mut out = head;
            push_str(&mut out, value);
            push_str(&mut out, rest.as_str());
            Ok(out)
        },
    }
}

/// The `EXPOSE` tokens with `current` replaced, and whether `value` is
/// among them.
fn replace_expose_tokens(tokens: &Vec<Vec<char>>, current: &[char], value: &[char]) -> (r: (Vec<Vec<char>>, bool))
    ensures
        vv(r.0@) == expose_tokens_s(vv(tokens@), current@, value@),
        r.1 == expose_tokens_s(vv(tokens@), current@, value@).contains(value@),
{
    let mut out: Vec<Vec<char>> = Vec::new();
    let mut found = false;
    let mut i: usize = 0;
    while i < tokens.len()
        invariant
            i <= tokens.len(),
            vv(out@) == expose_tokens_s(vv(tokens@).take(i as int), current@, value@),
            found == vv(out@).contains(value@),
        decreases tokens.len() - i,
    {
        let t = &tokens[i];
        let next = if chars_eq(t.as_slice(), current) {
            slice_chars(value, 0, value.len())
        } else {
            slice_chars(t.as_slice(), 0, t.len())
        };
        let is_value = chars_eq(next.as_slice(), value);
        let ghost prev = vv(out@);
        out.push(next);
        proof {
            assert(vv(tokens@).take(i + 1) == vv(tokens@).take(i as int).push(tokens@[i as int]@));
            assert(next@ == (if tokens@[i as int]@ == current@ { value@ } else { tokens@[i as int]@ }));
            assert(expose_tokens_s(vv(tokens@).take(i + 1), current@, value@) =~= expose_tokens_s(
                vv(tokens@).take(i as int),
                current@,
                value@,
            ).push(next@));
            assert(vv(out@) =~= prev.push(next@));
            if is_value {
                assert(vv(out@)[prev.len() as int] == value@);
            }
            if found {
                let k = choose|k: int| 0 <= k < prev.len() && prev[k] == value@;
                assert(vv(out@)[k] == value@);
            }
            if !found && !is_value {
                assert forall|k: int| 0 <= k < vv(out@).len() implies vv(out@)[k] != value@ by {
                    if k < prev.len() {
                        assert(vv(out@)[k] == prev[k]);
                    }
                }
            }
        }
        found = found || is_value;
        i = i + 1;
    }
    assert(vv(tokens@).take(tokens.len() as int) == vv(tokens@));
    (out, found)
}

fn rewrite_line(rw: &LineRewrite, line: usize, original: &str) -> (r: Result<String, String>)
    ensures
        text_result(r) == rewrite_line_s(rw@, line as nat, original@),
{
    match rw {
        LineRewrite::GoDirective { value } => around_value(
            capture_go_directive(original),
            line,
            "go.mod go directive",
            value.as_str(),
        ),
        LineRewrite::ToolVersionsEntry { value } => around_value(
            capture_tool_versions_entry(original),
            line,
            ".tool-versions entry",
            value.as_str(),
        ),
        LineRewrite::GemfileRuby { value } => around_value(
            capture_gemfile_ruby_directive(original),
            line,
            "Gemfile ruby directive",
            value.as_str(),
        ),
        LineRewrite::DockerExpose { current, value } => match capture_expose(original) {
            None => {
                let mut m = String::from_str("Line ");
                push_decimal(&mut m, line as u64);
                push_str(&mut m, " is not a ");
                push_str(&mut m, "Dockerfile EXPOSE instruction");
                Err(m)
            },
            Some((head, rest)) => {
                let rc = to_chars(rest.as_str());
                let ws = words(rc.as_slice());
                let cur = to_chars(current.as_str());
                let val = to_chars(value.as_str());
                let (tokens, found) = replace_expose_tokens(&ws, cur.as_slice(), val.as_slice());
                assert(vv(ws@) == words_s(rest@));
                if !found {
                    let mut m = String::from_str("Line ");
                    push_decimal(&mut m, line as u64);
                    push_str(&mut m, " did not contain EXPOSE token ");
                    push_str(&mut m, current.as_str());
                    Err(m)
                } else {
                    let sep = to_chars(" ");
                    let joined = join_chars(tokens.as_slice(), sep.as_slice());
                    let mut out = head;
                    push_str(&mut out, joined.as_str());
                    Ok(out)
                }
            },
        },
    }
}

/// Rewrite line `target_line` (1-based) of the content, keeping every other
/// character and the line's own break.
pub fn rewrite_target_line(content: &str, target_line: usize, rewrite: &LineRewrite) -> (r: Result<String, String>)
    ensures
        text_result(r) == rewrite_target_line_s(content@, target_line as nat, rewrite@),
{
    proof {
        lemma_target_line_bounds(content@, target_line as nat);
    }
    let info = match line_info(content, target_line) {
        Ok(i) => i,
        Err(e) => return Err(e),
    };
    let replacement = match rewrite_line(rewrite, target_line, info.text.as_str()) {
        Ok(t) => t,
        Err(e) => return Err(e),
    };
    let s = to_chars(content);
    let head = slice_chars(s.as_slice(), 0, info.start);
    let tail = slice_chars(s.as_slice(), info.end, s.len());
    let mut out = from_chars(head.as_slice());
    push_str(&mut out, replacement.as_str());
    push_chars(&mut out, tail.as_slice());
    proof {
        assert(head@ == content@.take(info.start as int));
        assert(tail@ == content@.skip(info.end as int));
    }
    Ok(out)
}

/// Set the version of the `go` directive on line `line` of a `go.mod`.
pub fn apply_go_mod_fix(content: &str, line: usize, value: &str) -> (r: Result<String, String>)
    ensures
        text_result(r) == rewrite_target_line_s(content@, line as nat, LineRewriteView::GoDirective(value@)),
{
    rewrite_target_line(content, line, &LineRewrite::GoDirective { value: String::from_str(value) })
}

/// Set the version of the `.tool-versions` entry on line `line`.
pub fn apply_tool_versions_fix(content: &str, line: usize, value: &str) -> (r: Result<String, String>)
    ensures
        text_result(r) == rewrite_target_line_s(content@, line as nat, LineRewriteView::ToolVersionsEntry(value@)),
{
    rewrite_target_line(content, line, &LineRewrite::ToolVersionsEntry { value: String::from_str(value) })
}

/// Set the version of the Gemfile `ruby` directive on line `line`.
pub fn apply_gemfile_fix(content: &str, line: usize, value: &str) -> (r: Result<String, String>)
    ensures
        text_result(r) == rewrite_target_line_s(content@, line as nat, LineRewriteView::GemfileRuby(value@)),
{
    rewrite_target_line(content, line, &LineRewrite::GemfileRuby { value: String::from_str(value) })
}

/// Replace the token `current` of the Dockerfile `EXPOSE` instruction on
/// line `line` by `value`, the tokens then joined by single spaces.
pub fn apply_docker_expose_fix(content: &str, line: usize, current: &str, value: &str) -> (r: Result<String, String>)
    ensures
        text_result(r) == rewrite_target_line_s(
            content@,
            line as nat,
            LineRewriteView::DockerExpose(current@, value@),
        ),
{
    rewrite_target_line(
        content,
        line,
        &LineRewrite::DockerExpose { current: String::from_str(current), value: String::from_str(value) },
    )
}

/// A rewrite of one line leaves the text before that line, and the text
/// from that line's break on, as they were.
pub proof fn law_rewrite_keeps_other_lines(content: Seq<char>, target_line: nat, rw: LineRewriteView)
    requires
        rewrite_target_line_s(content, target_line, rw) is Ok,
    ensures
        target_line_bounds_s(content, target_line) matches Some((st, en)) && ({
            let t = rewrite_target_line_s(content, target_line, rw)->Ok_0;
            &&& t.take(st) == content.take(st)
            &&& t.skip(t.len() - (content.len() - en)) == content.skip(en)
        }),
{
    lemma_target_line_bounds(content, target_line);
    let (st, en) = target_line_bounds_s(content, target_line)->Some_0;
    let rep = rewrite_line_s(rw, target_line, content.subrange(st, en))->Ok_0;
    let t = content.take(st) + rep + content.skip(en);
    assert(t.take(st) == content.take(st));
    assert(t.skip(t.len() - (content.len() - en)) == content.skip(en));
}

} // verus!
