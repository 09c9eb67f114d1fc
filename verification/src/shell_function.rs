//! Line classifier for shell-function constructs: the three definition
//! syntaxes (`name() {`, `function name {`, `function name() {`), zsh
//! `autoload` declarations, `unset -f name`, and `source` directives; plus
//! body extraction by brace-depth counting.
//!
//! The depth counter scans character by character without string or comment
//! awareness — braces inside quoted strings or comments miscount, a known
//! and deliberate limitation. An unbalanced body runs to the end of the
//! file and counts the remaining lines as body.

use vstd::prelude::*;

use crate::common::{expand_source_path_in, spec_expand_source_path};
use crate::function::{FnChangeModel, FunctionChange, FunctionOperation};
use crate::shell::match_source;
use crate::text::{
    chars_to_string, has_prefix_at, is_ws_char, join_nl_range,
    prefix_at, spec_join_nl, spec_lines, spec_trim, split_lines, to_chars,
    total_len_from, trim_chars, ws_run, ws_run_at, lemma_total_len_nonneg, lemma_total_len_step,
    lemma_lines_total_len,
};

verus! {

/// Maximum number of body lines a definition's stored preview holds.
pub const MAX_BODY_PREVIEW_LINES: usize = 5;

// ---------------------------------------------------------------------------
// Structural matchers
// ---------------------------------------------------------------------------

/// A run of ASCII letters starting at `i`.
pub open spec fn letters_run(s: Seq<char>, i: int) -> int
    decreases s.len() - i,
{
    if 0 <= i < s.len() && (('a' <= s[i] && s[i] <= 'z') || ('A' <= s[i] && s[i] <= 'Z')) {
        1 + letters_run(s, i + 1)
    } else {
        0
    }
}

pub proof fn lemma_letters_run_bounds(s: Seq<char>, i: int)
    requires
        0 <= i <= s.len(),
    ensures
        i <= i + letters_run(s, i) <= s.len(),
    decreases s.len() - i,
{
    if i < s.len() && (('a' <= s[i] && s[i] <= 'z') || ('A' <= s[i] && s[i] <= 'Z')) {
        lemma_letters_run_bounds(s, i + 1);
    }
}

fn letters_run_at(v: &Vec<char>, i: usize) -> (r: usize)
    requires
        i <= v@.len(),
    ensures
        i + r == i + letters_run(v@, i as int),
        i + r <= v@.len(),
{
    proof {
        lemma_letters_run_bounds(v@, i as int);
    }
    let mut j: usize = i;
    while j < v.len() && (('a' <= v[j] && v[j] <= 'z') || ('A' <= v[j] && v[j] <= 'Z'))
        invariant
            i <= j <= v@.len(),
            letters_run(v@, i as int) == (j - i) + letters_run(v@, j as int),
        decreases v@.len() - j,
    {
        j = j + 1;
    }
    j - i
}

/// After the name, at `i`: whether the line continues with `()`, optional
/// blanks, and an opening brace (the POSIX and hybrid forms).
pub open spec fn parens_brace_at(s: Seq<char>, i: int) -> bool {
    has_prefix_at(s, i, "()"@) && ({
        let c = i + 2 + ws_run(s, i + 2);
        c < s.len() && s[c] == '{'
    })
}

/// After the name, at `i`: whether the line continues with optional blanks
/// and an opening brace (the keyword form).
pub open spec fn brace_at(s: Seq<char>, i: int) -> bool {
    ({
        let c = i + ws_run(s, i);
        c < s.len() && s[c] == '{'
    })
}

/// `name() {` — the name at the head of the line, `()`, and a brace.
pub open spec fn match_posix_def(s: Seq<char>, name: Seq<char>) -> bool {
    let a = ws_run(s, 0);
    has_prefix_at(s, a, name) && ({
        let b = a + name.len();
        parens_brace_at(s, b + ws_run(s, b))
    })
}

/// `function name {` or `function name() {`.
pub open spec fn match_keyword_def(s: Seq<char>, name: Seq<char>) -> bool {
    let a = ws_run(s, 0);
    let kw = "function"@;
    has_prefix_at(s, a, kw) && ws_run(s, a + kw.len()) > 0 && ({
        let b = a + kw.len() + ws_run(s, a + kw.len());
        has_prefix_at(s, b, name) && ({
            let c = b + name.len();
            brace_at(s, c) || parens_brace_at(s, c + ws_run(s, c))
        })
    })
}

/// Any of the three definition syntaxes naming `name`.
pub open spec fn match_definition(s: Seq<char>, name: Seq<char>) -> bool {
    match_posix_def(s, name) || match_keyword_def(s, name)
}

/// End of the zsh `autoload` flag groups (`-Uz `, each: a dash, letters,
/// blanks), scanned greedily from `i`.
pub open spec fn autoload_flags_end(s: Seq<char>, i: int) -> int
    decreases s.len() - i,
        via autoload_flags_end_decreases
{
    if 0 <= i < s.len() && s[i] == '-' && letters_run(s, i + 1) > 0 && ws_run(
        s,
        i + 1 + letters_run(s, i + 1),
    ) > 0 {
        autoload_flags_end(s, i + 1 + letters_run(s, i + 1) + ws_run(s, i + 1 + letters_run(s, i + 1)))
    } else {
        i
    }
}

#[via_fn]
proof fn autoload_flags_end_decreases(s: Seq<char>, i: int) {
    if 0 <= i < s.len() && s[i] == '-' && letters_run(s, i + 1) > 0 && ws_run(
        s,
        i + 1 + letters_run(s, i + 1),
    ) > 0 {
        lemma_letters_run_bounds(s, i + 1);
        crate::text::lemma_ws_run_bounds(s, i + 1 + letters_run(s, i + 1));
    }
}

pub proof fn lemma_autoload_flags_end_bounds(s: Seq<char>, i: int)
    requires
        0 <= i <= s.len(),
    ensures
        i <= autoload_flags_end(s, i) <= s.len(),
    decreases s.len() - i,
{
    if 0 <= i < s.len() && s[i] == '-' && letters_run(s, i + 1) > 0 && ws_run(
        s,
        i + 1 + letters_run(s, i + 1),
    ) > 0 {
        lemma_letters_run_bounds(s, i + 1);
        crate::text::lemma_ws_run_bounds(s, i + 1 + letters_run(s, i + 1));
        lemma_autoload_flags_end_bounds(
            s,
            i + 1 + letters_run(s, i + 1) + ws_run(s, i + 1 + letters_run(s, i + 1)),
        );
    }
}

/// `autoload`, optional single-letter flag groups, then `name` followed by a
/// blank or the end of the line.
pub open spec fn match_autoload(s: Seq<char>, name: Seq<char>) -> bool {
    let a = ws_run(s, 0);
    let kw = "autoload"@;
    has_prefix_at(s, a, kw) && ws_run(s, a + kw.len()) > 0 && ({
        let b = a + kw.len() + ws_run(s, a + kw.len());
        let f = autoload_flags_end(s, b);
        has_prefix_at(s, f, name) && (f + name.len() == s.len() || is_ws_char(s[f + name.len()]))
    })
}

/// `unset -f name`, with `name` followed by a blank or the end of the line.
pub open spec fn match_unset_fn(s: Seq<char>, name: Seq<char>) -> bool {
    let a = ws_run(s, 0);
    let kw = "unset"@;
    has_prefix_at(s, a, kw) && ws_run(s, a + kw.len()) > 0 && ({
        let b = a + kw.len() + ws_run(s, a + kw.len());
        has_prefix_at(s, b, "-f"@) && ws_run(s, b + 2) > 0 && ({
            let c = b + 2 + ws_run(s, b + 2);
            has_prefix_at(s, c, name) && (c + name.len() == s.len() || is_ws_char(
                s[c + name.len()],
            ))
        })
    })
}

// ---------------------------------------------------------------------------
// Executable matchers
// ---------------------------------------------------------------------------

/// Name at `i` followed by a blank or the end of the line.
fn name_then_boundary(v: &Vec<char>, i: usize, name: &Vec<char>) -> (r: bool)
    requires
        i <= v@.len(),
    ensures
        r == (has_prefix_at(v@, i as int, name@) && (i + name@.len() == v@.len() || is_ws_char(
            v@[i + name@.len()],
        ))),
{
    let n = v.len();
    if !prefix_at(v, i, name) {
        return false;
    }
    let e = i + name.len();
    e == n || crate::text::ws_char(v[e])
}

fn parens_brace_check(v: &Vec<char>, i: usize) -> (r: bool)
    requires
        i <= v@.len(),
    ensures
        r == parens_brace_at(v@, i as int),
{
    let n = v.len();
    let parens = to_chars("()");
    if !prefix_at(v, i, &parens) {
        return false;
    }
    proof {
        reveal_strlit("()");
    }
    let c = i + 2 + ws_run_at(v, i + 2);
    c < n && v[c] == '{'
}

fn brace_check(v: &Vec<char>, i: usize) -> (r: bool)
    requires
        i <= v@.len(),
    ensures
        r == brace_at(v@, i as int),
{
    let n = v.len();
    let c = i + ws_run_at(v, i);
    c < n && v[c] == '{'
}

pub(crate) fn is_definition_line(v: &Vec<char>, name: &Vec<char>) -> (r: bool)
    ensures
        r == match_definition(v@, name@),
{
    let n = v.len();
    let a = ws_run_at(v, 0);
    let posix = if prefix_at(v, a, name) {
        let b = a + name.len();
        parens_brace_check(v, b + ws_run_at(v, b))
    } else {
        false
    };
    if posix {
        return true;
    }
    let kw = to_chars("function");
    match crate::shell::keyword_head(v, &kw) {
        Some(b) => {
            if prefix_at(v, b, name) {
                let c = b + name.len();
                if brace_check(v, c) {
                    true
                } else {
                    parens_brace_check(v, c + ws_run_at(v, c))
                }
            } else {
                false
            }
        },
        None => false,
    }
}

pub(crate) fn is_autoload_line(v: &Vec<char>, name: &Vec<char>) -> (r: bool)
    ensures
        r == match_autoload(v@, name@),
{
    let kw = to_chars("autoload");
    match crate::shell::keyword_head(v, &kw) {
        Some(b) => {
            proof {
                lemma_autoload_flags_end_bounds(v@, b as int);
            }
            let mut f: usize = b;
            loop
                invariant
                    b <= f <= v@.len(),
                    autoload_flags_end(v@, b as int) == autoload_flags_end(v@, f as int),
                ensures
                    f as int == autoload_flags_end(v@, b as int),
                    f <= v@.len(),
                decreases v@.len() - f,
            {
                if !(f < v.len() && v[f] == '-') {
                    proof {
                        assert(autoload_flags_end(v@, f as int) == f as int);
                    }
                    break;
                }
                let l = letters_run_at(v, f + 1);
                if l == 0 {
                    proof {
                        assert(autoload_flags_end(v@, f as int) == f as int);
                    }
                    break;
                }
                let w = ws_run_at(v, f + 1 + l);
                if w == 0 {
                    proof {
                        assert(autoload_flags_end(v@, f as int) == f as int);
                    }
                    break;
                }
                f = f + 1 + l + w;
            }
            name_then_boundary(v, f, name)
        },
        None => false,
    }
}

pub(crate) fn is_unset_fn_line(v: &Vec<char>, name: &Vec<char>) -> (r: bool)
    ensures
        r == match_unset_fn(v@, name@),
{
    let n = v.len();
    let kw = to_chars("unset");
    match crate::shell::keyword_head(v, &kw) {
        Some(b) => {
            let dashf = to_chars("-f");
            if !prefix_at(v, b, &dashf) {
                return false;
            }
            proof {
                reveal_strlit("-f");
                assert(b + 2 <= n);
            }
            let w = ws_run_at(v, b + 2);
            if w == 0 {
                return false;
            }
            name_then_boundary(v, b + 2 + w, name)
        },
        None => false,
    }
}

// ---------------------------------------------------------------------------
// Body extraction by brace depth
// ---------------------------------------------------------------------------

/// Sum of `+1` for `{` and `-1` for `}` over the characters of `line` from
/// index `i` on. No string or comment awareness, deliberately.
pub open spec fn brace_delta_from(line: Seq<char>, i: int) -> int
    decreases line.len() - i,
{
    if 0 <= i < line.len() {
        (if line[i] == '{' {
            1int
        } else if line[i] == '}' {
            -1int
        } else {
            0int
        }) + brace_delta_from(line, i + 1)
    } else {
        0
    }
}

/// Brace depth change over one whole line.
pub open spec fn brace_delta(line: Seq<char>) -> int {
    brace_delta_from(line, 0)
}

pub proof fn lemma_brace_delta_bound(line: Seq<char>, i: int)
    requires
        0 <= i <= line.len(),
    ensures
        -(line.len() - i) <= brace_delta_from(line, i) <= line.len() - i,
    decreases line.len() - i,
{
    if i < line.len() {
        lemma_brace_delta_bound(line, i + 1);
    }
}

fn line_delta(v: &Vec<char>) -> (r: i128)
    ensures
        r as int == brace_delta(v@),
        -(v@.len() as int) <= r as int <= v@.len() as int,
{
    proof {
        lemma_brace_delta_bound(v@, 0);
    }
    let mut acc: i128 = 0;
    let mut i: usize = 0;
    while i < v.len()
        invariant
            i <= v@.len(),
            -(i as int) <= acc as int <= i as int,
            brace_delta(v@) == acc + brace_delta_from(v@, i as int),
        decreases v@.len() - i,
    {
        proof {
            lemma_brace_delta_bound(v@, i + 1);
        }
        if v[i] == '{' {
            acc = acc + 1;
        } else if v[i] == '}' {
            acc = acc - 1;
        }
        i = i + 1;
    }
    acc
}

/// How many lines from `j` on a definition's body occupies, entering with
/// brace depth `depth`: lines are consumed until the depth first returns to
/// zero at the end of a line; an unbalanced body consumes everything.
pub open spec fn body_scan(lines: Seq<Seq<char>>, j: int, depth: int) -> int
    decreases lines.len() - j,
{
    if 0 <= j < lines.len() {
        let d = depth + brace_delta(lines[j]);
        if d == 0 {
            1
        } else {
            1 + body_scan(lines, j + 1, d)
        }
    } else {
        0
    }
}

pub proof fn lemma_body_scan_bounds(lines: Seq<Seq<char>>, j: int, depth: int)
    requires
        0 <= j <= lines.len(),
    ensures
        0 <= body_scan(lines, j, depth) <= lines.len() - j,
        j < lines.len() ==> body_scan(lines, j, depth) >= 1,
    decreases lines.len() - j,
{
    if j < lines.len() {
        let d = depth + brace_delta(lines[j]);
        if d != 0 {
            lemma_body_scan_bounds(lines, j + 1, d);
        }
    }
}

/// Total number of lines of a definition opening at `start`: the opening
/// line, the body, and the closing line.
pub open spec fn spec_body_total(lines: Seq<Seq<char>>, start: int) -> int {
    body_scan(lines, start, 0)
}

/// The stored preview of a definition's body: the first
/// `MAX_BODY_PREVIEW_LINES` lines after the opening line, joined with
/// newlines, and an ellipsis marker when more follow.
pub open spec fn spec_preview(lines: Seq<Seq<char>>, start: int, total: int) -> Seq<char> {
    let body = lines.subrange(start + 1, start + total);
    if body.len() <= MAX_BODY_PREVIEW_LINES as int {
        spec_join_nl(body)
    } else {
        spec_join_nl(body.take(MAX_BODY_PREVIEW_LINES as int)) + seq!['\n', '.', '.', '.']
    }
}

/// Extract a function body by brace-depth counting from the opening line at
/// `start`. Returns the bounded preview and the total line count.
pub fn extract_function_body(lines: &Vec<Vec<char>>, start: usize) -> (r: (String, usize))
    requires
        start < lines@.len(),
        total_len_from(lines.deep_view(), 0) <= usize::MAX,
    ensures
        r.1 as int == spec_body_total(lines.deep_view(), start as int),
        1 <= r.1 <= lines@.len() - start,
        r.0@ == spec_preview(lines.deep_view(), start as int, r.1 as int),
{
    let ghost dv = lines.deep_view();
    proof {
        lemma_body_scan_bounds(dv, start as int, 0);
        lemma_total_len_nonneg(dv, 0);
        lemma_total_len_nonneg(dv, start as int);
        lemma_total_len_step(dv, 0, start as int);
        assert(dv.len() == lines@.len());
    }
    let n = lines.len();
    let mut depth: i128 = 0;
    let mut j: usize = start;
    let mut total: usize = 0;
    let mut stopped = false;
    while !stopped && j < n
        invariant
            n == lines@.len(),
            dv == lines.deep_view(),
            total_len_from(dv, 0) <= usize::MAX,
            start <= j <= n,
            total == j - start,
            !stopped ==> body_scan(dv, start as int, 0) == (j - start) + body_scan(
                dv,
                j as int,
                depth as int,
            ),
            stopped ==> body_scan(dv, start as int, 0) == total,
            -(total_len_from(dv, start as int) - total_len_from(dv, j as int)) <= depth as int
                <= total_len_from(dv, start as int) - total_len_from(dv, j as int),
            total_len_from(dv, start as int) <= total_len_from(dv, 0),
            total_len_from(dv, j as int) >= 0,
        decreases n - j,
    {
        proof {
            assert(dv[j as int] == lines@[j as int].deep_view());
            assert(lines@[j as int].deep_view() =~= lines@[j as int]@);
            lemma_total_len_nonneg(dv, j + 1);
            lemma_total_len_step(dv, start as int, j as int);
        }
        let d = line_delta(&lines[j]);
        proof {
            assert(total_len_from(dv, j as int) == dv[j as int].len() + total_len_from(
                dv,
                j + 1,
            ));
        }
        depth = depth + d;
        j = j + 1;
        total = total + 1;
        if depth == 0 {
            stopped = true;
        }
    }
    proof {
        if !stopped {
            assert(body_scan(dv, j as int, depth as int) == 0);
        }
        assert(body_scan(dv, start as int, 0) == total);
        lemma_body_scan_bounds(dv, start as int, 0);
    }
    let shown = if total - 1 <= MAX_BODY_PREVIEW_LINES {
        total - 1
    } else {
        MAX_BODY_PREVIEW_LINES
    };
    let mut preview = join_nl_range(lines, start + 1, start + 1 + shown);
    proof {
        let body = dv.subrange(start as int + 1, start as int + total);
        assert(dv.subrange(start as int + 1, start as int + 1 + shown as int) =~= body.take(
            shown as int,
        ));
        if total - 1 <= MAX_BODY_PREVIEW_LINES {
            assert(body.take(shown as int) =~= body);
        }
    }
    if total - 1 > MAX_BODY_PREVIEW_LINES {
        preview.push('\n');
        preview.push('.');
        preview.push('.');
        preview.push('.');
        proof {
            let body = dv.subrange(start as int + 1, start as int + total);
            assert(preview@ =~= spec_join_nl(body.take(MAX_BODY_PREVIEW_LINES as int)) + seq![
                '\n',
                '.',
                '.',
                '.',
            ]);
        }
    }
    (chars_to_string(&preview), total)
}
// ---------------------------------------------------------------------------
// Parsed entries and whole-file parsing
// ---------------------------------------------------------------------------

/// What one line means for the traced function.
pub ghost enum FnLineModel {
    /// Blank, comment, unrecognised, or about another function.
    Skip,
    /// A `source` directive; the raw, trimmed path text follows.
    SourceRaw(Seq<char>),
    /// `unset -f name`.
    UnsetFn,
    /// An `autoload` declaration naming the function.
    AutoloadFn,
    /// One of the three definition syntaxes naming the function.
    DefineFn,
}

/// Classify one line against the traced function name, in the order the
/// constructs are tried: comment, `source`, `unset -f`, `autoload`,
/// definition.
pub open spec fn spec_classify_fn(line: Seq<char>, name: Seq<char>) -> FnLineModel {
    let t = spec_trim(line);
    if t.len() == 0 || t[0] == '#' {
        FnLineModel::Skip
    } else if match_source(line) is Some {
        FnLineModel::SourceRaw(match_source(line)->0)
    } else if match_unset_fn(line, name) {
        FnLineModel::UnsetFn
    } else if match_autoload(line, name) {
        FnLineModel::AutoloadFn
    } else if match_definition(line, name) {
        FnLineModel::DefineFn
    } else {
        FnLineModel::Skip
    }
}

/// Model of a parsed entry.
pub ghost enum FnEntryModel {
    Definition(FnChangeModel),
    Source(Seq<char>),
}

/// A parsed entry from a shell script scanned for a function.
#[derive(Debug)]
pub enum ParsedFunctionEntry {
    /// A function definition, autoload, or removal
    Definition(FunctionChange),
    /// A `source`/`.` directive naming another file
    Source(String),
}

impl View for ParsedFunctionEntry {
    type V = FnEntryModel;

    open spec fn view(&self) -> FnEntryModel {
        match self {
            ParsedFunctionEntry::Definition(c) => FnEntryModel::Definition(c@),
            ParsedFunctionEntry::Source(p) => FnEntryModel::Source(p@),
        }
    }
}

impl DeepView for ParsedFunctionEntry {
    type V = FnEntryModel;

    open spec fn deep_view(&self) -> FnEntryModel {
        self.view()
    }
}

impl ParsedFunctionEntry {
    /// The change of a definition entry.
    pub fn as_definition(&self) -> (r: &FunctionChange)
        requires
            self is Definition,
        ensures
            FnEntryModel::Definition(r@) == self@,
    {
        match self {
            ParsedFunctionEntry::Definition(c) => c,
            ParsedFunctionEntry::Source(_) => vstd::pervasive::unreached(),
        }
    }

    /// Whether this entry is a `source` directive.
    pub fn is_source(&self) -> (r: bool)
        ensures
            r == (self@ is Source),
    {
        match self {
            ParsedFunctionEntry::Source(_) => true,
            ParsedFunctionEntry::Definition(_) => false,
        }
    }
}

/// All entries of a shell file scanned for the function `name`, from line
/// `i` on. A definition consumes its whole body; scanning resumes at the
/// line after the closing brace.
pub open spec fn spec_fn_entries(
    lines: Seq<Seq<char>>,
    i: int,
    path: Seq<char>,
    name: Seq<char>,
    home: Option<Seq<char>>,
) -> Seq<FnEntryModel>
    decreases lines.len() - i,
        via spec_fn_entries_decreases
{
    if 0 <= i < lines.len() {
        match spec_classify_fn(lines[i], name) {
            FnLineModel::Skip => spec_fn_entries(lines, i + 1, path, name, home),
            FnLineModel::SourceRaw(raw) => {
                let rest = spec_fn_entries(lines, i + 1, path, name, home);
                match spec_expand_source_path(raw, home) {
                    Some(p) => seq![FnEntryModel::Source(p)] + rest,
                    None => rest,
                }
            },
            FnLineModel::UnsetFn => seq![
                FnEntryModel::Definition(
                    FnChangeModel {
                        file: path,
                        line_number: i + 1,
                        line_content: lines[i],
                        operation: FunctionOperation::Unset,
                        body: None,
                        body_lines: 0,
                    },
                ),
            ] + spec_fn_entries(lines, i + 1, path, name, home),
            FnLineModel::AutoloadFn => seq![
                FnEntryModel::Definition(
                    FnChangeModel {
                        file: path,
                        line_number: i + 1,
                        line_content: lines[i],
                        operation: FunctionOperation::Autoload,
                        body: None,
                        body_lines: 0,
                    },
                ),
            ] + spec_fn_entries(lines, i + 1, path, name, home),
            FnLineModel::DefineFn => {
                let total = spec_body_total(lines, i);
                seq![
                    FnEntryModel::Definition(
                        FnChangeModel {
                            file: path,
                            line_number: i + 1,
                            line_content: lines[i],
                            operation: FunctionOperation::Define,
                            body: Some(spec_preview(lines, i, total)),
                            body_lines: total,
                        },
                    ),
                ] + spec_fn_entries(lines, i + total, path, name, home)
            },
        }
    } else {
        Seq::empty()
    }
}

#[via_fn]
proof fn spec_fn_entries_decreases(
    lines: Seq<Seq<char>>,
    i: int,
    path: Seq<char>,
    name: Seq<char>,
    home: Option<Seq<char>>,
) {
    if 0 <= i < lines.len() {
        lemma_body_scan_bounds(lines, i, 0);
    }
}

/// Parse shell script content for definitions, autoloads and removals of
/// `target_func`, and for `source` directives.
pub fn parse_shell_content_for_function(content: &str, path: &str, target_func: &str, home: Option<
    &str,
>) -> (r: Vec<ParsedFunctionEntry>)
    ensures
        r.deep_view() == spec_fn_entries(
            spec_lines(content@),
            0,
            path@,
            target_func@,
            match home {
                Some(h) => Some(h@),
                None => None,
            },
        ),
{
    let _content_chars = content.unicode_len();
    proof {
        lemma_lines_total_len(content@, 0);
    }
    let lines = split_lines(content);
    let namec = to_chars(target_func);
    let ghost dv = lines.deep_view();
    let ghost homev: Option<Seq<char>> = match home {
        Some(h) => Some(h@),
        None => None,
    };
    let mut entries: Vec<ParsedFunctionEntry> = Vec::new();
    let mut i: usize = 0;
    while i < lines.len()
        invariant
            dv == lines.deep_view(),
            dv == spec_lines(content@),
            namec@ == target_func@,
            total_len_from(dv, 0) <= usize::MAX,
            homev == (match home {
                Some(h) => Some(h@),
                None => None,
            }),
            i <= lines@.len(),
            spec_fn_entries(dv, 0, path@, target_func@, homev) == entries.deep_view()
                + spec_fn_entries(dv, i as int, path@, target_func@, homev),
        decreases lines@.len() - i,
    {
        proof {
            assert(dv[i as int] == lines@[i as int].deep_view());
            assert(lines@[i as int].deep_view() =~= lines@[i as int]@);
        }
        let ghost i0 = i as int;
        let line = &lines[i];
        let t = trim_chars(line);
        let mut step: usize = 1;
        let mut new_entry: Option<ParsedFunctionEntry> = None;
        if t.len() == 0 || t[0] == '#' {
            // comment or blank line
        } else if let Some(raw) = crate::shell::source_of(line) {
            let raws = chars_to_string(&raw);
            let homeowned = match home {
                Some(h) => Some(h.to_owned()),
                None => None,
            };
            match expand_source_path_in(raws.as_str(), &homeowned) {
                Some(p) => {
                    new_entry = Some(ParsedFunctionEntry::Source(p));
                },
                None => {},
            }
        } else if is_unset_fn_line(line, &namec) {
            new_entry = Some(
                ParsedFunctionEntry::Definition(
                    FunctionChange {
                        file: path.to_owned(),
                        line_number: i + 1,
                        line_content: chars_to_string(line),
                        operation: FunctionOperation::Unset,
                        body: None,
                        body_lines: 0,
                    },
                ),
            );
        } else if is_autoload_line(line, &namec) {
            new_entry = Some(
                ParsedFunctionEntry::Definition(
                    FunctionChange {
                        file: path.to_owned(),
                        line_number: i + 1,
                        line_content: chars_to_string(line),
                        operation: FunctionOperation::Autoload,
                        body: None,
                        body_lines: 0,
                    },
                ),
            );
        } else if is_definition_line(line, &namec) {
            let (preview, total) = extract_function_body(&lines, i);
            new_entry = Some(
                ParsedFunctionEntry::Definition(
                    FunctionChange {
                        file: path.to_owned(),
                        line_number: i + 1,
                        line_content: chars_to_string(line),
                        operation: FunctionOperation::Define,
                        body: Some(preview),
                        body_lines: total,
                    },
                ),
            );
            step = total;
        }
        match new_entry {
            Some(entry) => {
                let ghost edv = entries.deep_view();
                let ghost em = entry@;
                entries.push(entry);
                proof {
                    assert(entries.deep_view() =~= edv + seq![em]);
                    assert(edv + (seq![em] + spec_fn_entries(dv, i0 + step, path@, target_func@,
                        homev)) =~= (edv + seq![em]) + spec_fn_entries(dv, i0 + step, path@,
                        target_func@, homev));
                }
            },
            None => {},
        }
        i = i + step;
    }
    proof {
        assert(entries.deep_view() =~= spec_fn_entries(dv, 0, path@, target_func@, homev));
    }
    entries
}
} // verus!
