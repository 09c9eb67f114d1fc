//! Line classifier for shell scripts, and the value algebra: which of the
//! recognised constructs a line is, and — for an assignment — whether it
//! sets, appends to or prepends to the running value, and what the value
//! becomes.
//!
//! Recognised constructs, tried in this order (the first match decides):
//! a `source`/`.` directive, a guarded conditional export, `unset NAME`,
//! `export NAME=value`, `export NAME` alone, and a bare `NAME=value`.
//! Blank lines and lines whose first non-blank character is `#` are skipped.

use vstd::prelude::*;

use crate::common::{expand_source_path_in, spec_expand_source_path, spec_strip_quotes,
    strip_quotes_chars};
use crate::text::{
    chars_to_string, ends_with, eq_chars, has_prefix, has_prefix_at, ident_run, ident_run_at,
    is_ident_char, is_ident_start_char, prefix_at,
    push_all, spec_lines, spec_replace, spec_trim, split_lines, starts_with, subvec, to_chars,
    trim_chars, replace_chars, ws_run, ws_run_at,
};
use crate::variable::{ChangeModel, Operation, VariableChange, value_after_change};

verus! {

// ---------------------------------------------------------------------------
// Structural matchers for the recognised line shapes
// ---------------------------------------------------------------------------

/// `export NAME=rhs`: optional leading blanks, the word `export`, at least
/// one blank, a maximal identifier, `=`, and the rest of the line as `rhs`.
pub open spec fn match_export_assign(s: Seq<char>) -> Option<(Seq<char>, Seq<char>)> {
    let a = ws_run(s, 0);
    let kw = "export"@;
    if has_prefix_at(s, a, kw) && ws_run(s, a + kw.len()) > 0 {
        let b = a + kw.len() + ws_run(s, a + kw.len());
        let l = ident_run(s, b);
        if l > 0 && is_ident_start_char(s[b]) && b + l < s.len() && s[b + l] == '=' {
            Some((s.subrange(b, b + l), s.subrange(b + l + 1, s.len() as int)))
        } else {
            None
        }
    } else {
        None
    }
}

/// `export NAME` with nothing but blanks after the name.
pub open spec fn match_export_only(s: Seq<char>) -> Option<Seq<char>> {
    let a = ws_run(s, 0);
    let kw = "export"@;
    if has_prefix_at(s, a, kw) && ws_run(s, a + kw.len()) > 0 {
        let b = a + kw.len() + ws_run(s, a + kw.len());
        let l = ident_run(s, b);
        if l > 0 && is_ident_start_char(s[b]) && b + l + ws_run(s, b + l) == s.len() {
            Some(s.subrange(b, b + l))
        } else {
            None
        }
    } else {
        None
    }
}

/// `unset NAME`, anything after the name allowed.
pub open spec fn match_unset(s: Seq<char>) -> Option<Seq<char>> {
    let a = ws_run(s, 0);
    let kw = "unset"@;
    if has_prefix_at(s, a, kw) && ws_run(s, a + kw.len()) > 0 {
        let b = a + kw.len() + ws_run(s, a + kw.len());
        let l = ident_run(s, b);
        if l > 0 && is_ident_start_char(s[b]) {
            Some(s.subrange(b, b + l))
        } else {
            None
        }
    } else {
        None
    }
}

/// `NAME=rhs` without `export`.
pub open spec fn match_simple_assign(s: Seq<char>) -> Option<(Seq<char>, Seq<char>)> {
    let a = ws_run(s, 0);
    let l = ident_run(s, a);
    if l > 0 && a < s.len() && is_ident_start_char(s[a]) && a + l < s.len() && s[a + l] == '=' {
        Some((s.subrange(a, a + l), s.subrange(a + l + 1, s.len() as int)))
    } else {
        None
    }
}

/// A `source file` or `. file` directive; the result is the text after the
/// keyword, trimmed, and must be non-empty.
pub open spec fn match_source(s: Seq<char>) -> Option<Seq<char>> {
    let a = ws_run(s, 0);
    let kw = "source"@;
    if a < s.len() && s[a] == '.' && ws_run(s, a + 1) > 0 {
        let b = a + 1 + ws_run(s, a + 1);
        if b < s.len() {
            Some(spec_trim(s.skip(b)))
        } else {
            None
        }
    } else if has_prefix_at(s, a, kw) && ws_run(s, a + kw.len()) > 0 {
        let b = a + kw.len() + ws_run(s, a + kw.len());
        if b < s.len() {
            Some(spec_trim(s.skip(b)))
        } else {
            None
        }
    } else {
        None
    }
}

/// What follows a candidate closing bracket at `j` in a guarded conditional:
/// blanks, `&&`, then an export assignment running to the end of the line.
pub open spec fn match_cond_after(s: Seq<char>, j: int) -> Option<(Seq<char>, Seq<char>)> {
    if 0 <= j < s.len() {
        let a = j + 1 + ws_run(s, j + 1);
        if has_prefix_at(s, a, "&&"@) {
            match_export_assign(s.skip(a + 2))
        } else {
            None
        }
    } else {
        None
    }
}

/// The largest index `j' <= j` where a `]` closes the guard and an export
/// assignment follows, or `-1` when there is none. The scan is greedy, as
/// the guard may itself contain brackets.
pub open spec fn cond_split_from(s: Seq<char>, j: int) -> int
    decreases j + 1,
{
    if j < 0 {
        -1
    } else if j < s.len() && s[j] == ']' && match_cond_after(s, j) is Some {
        j
    } else {
        cond_split_from(s, j - 1)
    }
}

/// `[ guard ] && export NAME=rhs`: the first non-blank character must open
/// the guard, and the last viable `]` splits it from the export.
pub open spec fn match_conditional(s: Seq<char>) -> Option<(Seq<char>, Seq<char>)> {
    let a = ws_run(s, 0);
    if a < s.len() && s[a] == '[' {
        let j = cond_split_from(s, s.len() - 1);
        if j > a {
            match_cond_after(s, j)
        } else {
            None
        }
    } else {
        None
    }
}

// ---------------------------------------------------------------------------
// Per-line classification
// ---------------------------------------------------------------------------

/// What one shell line means for the variable `target`.
pub ghost enum LineModel {
    /// Blank, comment, unrecognised, or about another variable.
    Skip,
    /// A `source` directive; the raw, trimmed path text follows.
    SourceRaw(Seq<char>),
    /// A guarded conditional export of `target`; the raw right-hand side.
    Cond(Seq<char>),
    /// `unset target`.
    UnsetVar,
    /// `export target=rhs`.
    ExportAssign(Seq<char>),
    /// `export target` alone.
    ExportOnly,
    /// `target=rhs`.
    Assign(Seq<char>),
}

/// Classify one line against the traced variable name. The first matching
/// construct consumes the line: a construct naming another variable yields
/// `Skip`, it does not fall through to a later construct.
pub open spec fn spec_classify(line: Seq<char>, target: Seq<char>) -> LineModel {
    let t = spec_trim(line);
    if t.len() == 0 || t[0] == '#' {
        LineModel::Skip
    } else if match_source(line) is Some {
        LineModel::SourceRaw(match_source(line)->0)
    } else if match_conditional(line) is Some {
        let nv = match_conditional(line)->0;
        if nv.0 == target {
            LineModel::Cond(nv.1)
        } else {
            LineModel::Skip
        }
    } else if match_unset(line) is Some {
        if match_unset(line)->0 == target {
            LineModel::UnsetVar
        } else {
            LineModel::Skip
        }
    } else if match_export_assign(line) is Some {
        let nv = match_export_assign(line)->0;
        if nv.0 == target {
            LineModel::ExportAssign(nv.1)
        } else {
            LineModel::Skip
        }
    } else if match_export_only(line) is Some {
        if match_export_only(line)->0 == target {
            LineModel::ExportOnly
        } else {
            LineModel::Skip
        }
    } else if match_simple_assign(line) is Some {
        let nv = match_simple_assign(line)->0;
        if nv.0 == target {
            LineModel::Assign(nv.1)
        } else {
            LineModel::Skip
        }
    } else {
        LineModel::Skip
    }
}

// ---------------------------------------------------------------------------
// Executable matchers
// ---------------------------------------------------------------------------

/// Positions of `keyword` + blanks at the head of `v`: `Some(b)` where `b`
/// is the index after the keyword and its following blanks, which must be
/// at least one.
pub(crate) fn keyword_head(v: &Vec<char>, kw: &Vec<char>) -> (r: Option<usize>)
    ensures
        ({
            let a = ws_run(v@, 0);
            let ok = has_prefix_at(v@, a, kw@) && ws_run(v@, a + kw@.len()) > 0;
            &&& (r is Some) == ok
            &&& (r is Some ==> r->0 == a + kw@.len() + ws_run(v@, a + kw@.len()))
            &&& (r is Some ==> r->0 <= v@.len())
        }),
{
    let n = v.len();
    let a = ws_run_at(v, 0);
    if !prefix_at(v, a, kw) {
        return None;
    }
    let kl = kw.len();
    proof {
        assert(a + kl <= n);
    }
    let w = ws_run_at(v, a + kl);
    if w == 0 {
        return None;
    }
    Some(a + kl + w)
}

/// Identifier at `b` followed by `=`: `Some((name, rhs))`.
fn ident_eq_rhs(v: &Vec<char>, b: usize) -> (r: Option<(Vec<char>, Vec<char>)>)
    requires
        b <= v@.len(),
    ensures
        ({
            let l = ident_run(v@, b as int);
            let ok = l > 0 && is_ident_start_char(v@[b as int]) && b + l < v@.len() && v@[b + l]
                == '=';
            &&& (r is Some) == ok
            &&& (r is Some ==> (r->0).0@ == v@.subrange(b as int, b + l))
            &&& (r is Some ==> (r->0).1@ == v@.subrange(b + l + 1, v@.len() as int))
        }),
{
    let n = v.len();
    let l = ident_run_at(v, b);
    if l > 0 && ident_start_char_at(v, b) && b + l < n && v[b + l] == '=' {
        Some((subvec(v, b, b + l), subvec(v, b + l + 1, n)))
    } else {
        None
    }
}

fn ident_start_char_at(v: &Vec<char>, b: usize) -> (r: bool)
    requires
        b <= v@.len(),
    ensures
        r == (b < v@.len() && is_ident_start_char(v@[b as int])),
{
    b < v.len() && crate::text::ident_start_char(v[b])
}

fn export_assign_of(v: &Vec<char>) -> (r: Option<(Vec<char>, Vec<char>)>)
    ensures
        (r is Some) == (match_export_assign(v@) is Some),
        r is Some ==> ((r->0).0@, (r->0).1@) == match_export_assign(v@)->0,
{
    let kw = to_chars("export");
    match keyword_head(v, &kw) {
        Some(b) => ident_eq_rhs(v, b),
        None => None,
    }
}

fn export_only_of(v: &Vec<char>) -> (r: Option<Vec<char>>)
    ensures
        (r is Some) == (match_export_only(v@) is Some),
        r is Some ==> r->0@ == match_export_only(v@)->0,
{
    let n = v.len();
    let kw = to_chars("export");
    match keyword_head(v, &kw) {
        Some(b) => {
            let l = ident_run_at(v, b);
            if l > 0 && ident_start_char_at(v, b) {
                let w = ws_run_at(v, b + l);
                if b + l + w == n {
                    Some(subvec(v, b, b + l))
                } else {
                    None
                }
            } else {
                None
            }
        },
        None => None,
    }
}

fn unset_of(v: &Vec<char>) -> (r: Option<Vec<char>>)
    ensures
        (r is Some) == (match_unset(v@) is Some),
        r is Some ==> r->0@ == match_unset(v@)->0,
{
    let n = v.len();
    let kw = to_chars("unset");
    match keyword_head(v, &kw) {
        Some(b) => {
            let l = ident_run_at(v, b);
            if l > 0 && ident_start_char_at(v, b) {
                Some(subvec(v, b, b + l))
            } else {
                None
            }
        },
        None => None,
    }
}

fn simple_assign_of(v: &Vec<char>) -> (r: Option<(Vec<char>, Vec<char>)>)
    ensures
        (r is Some) == (match_simple_assign(v@) is Some),
        r is Some ==> ((r->0).0@, (r->0).1@) == match_simple_assign(v@)->0,
{
    let a = ws_run_at(v, 0);
    if a < v.len() && ident_start_char_at(v, a) {
        ident_eq_rhs(v, a)
    } else {
        proof {
            if a < v@.len() {
                assert(ident_run(v@, a as int) > 0 ==> is_ident_char(v@[a as int]));
            }
        }
        None
    }
}

pub(crate) fn source_of(v: &Vec<char>) -> (r: Option<Vec<char>>)
    ensures
        (r is Some) == (match_source(v@) is Some),
        r is Some ==> r->0@ == match_source(v@)->0,
{
    proof {
        reveal_strlit("source");
    }
    let n = v.len();
    let a = ws_run_at(v, 0);
    if a < n && v[a] == '.' {
        let w = ws_run_at(v, a + 1);
        if w > 0 {
            let b = a + 1 + w;
            if b < n {
                let rest = subvec(v, b, n);
                proof {
                    assert(rest@ =~= v@.skip(b as int));
                }
                return Some(trim_chars(&rest));
            }
        }
        proof {
            if has_prefix_at(v@, a as int, "source"@) {
                assert(v@.subrange(a as int, a as int + "source"@.len())[0] == v@[a as int]);
            }
        }
        return None;
    }
    let kw = to_chars("source");
    match keyword_head(v, &kw) {
        Some(b) => {
            if b < n {
                let rest = subvec(v, b, n);
                proof {
                    assert(rest@ =~= v@.skip(b as int));
                }
                Some(trim_chars(&rest))
            } else {
                None
            }
        },
        None => None,
    }
}

fn cond_after_of(v: &Vec<char>, j: usize) -> (r: Option<(Vec<char>, Vec<char>)>)
    requires
        j < v@.len(),
    ensures
        (r is Some) == (match_cond_after(v@, j as int) is Some),
        r is Some ==> ((r->0).0@, (r->0).1@) == match_cond_after(v@, j as int)->0,
{
    let n = v.len();
    let w = ws_run_at(v, j + 1);
    let a = j + 1 + w;
    let amp = to_chars("&&");
    if !prefix_at(v, a, &amp) {
        return None;
    }
    proof {
        reveal_strlit("&&");
        assert(a + 2 <= n);
    }
    let tail = subvec(v, a + 2, n);
    proof {
        assert(tail@ =~= v@.skip(a + 2));
    }
    export_assign_of(&tail)
}

fn conditional_of(v: &Vec<char>) -> (r: Option<(Vec<char>, Vec<char>)>)
    ensures
        (r is Some) == (match_conditional(v@) is Some),
        r is Some ==> ((r->0).0@, (r->0).1@) == match_conditional(v@)->0,
{
    let n = v.len();
    let a = ws_run_at(v, 0);
    if !(a < n && v[a] == '[') {
        return None;
    }
    let mut j: usize = n;
    loop
        invariant
            j <= v@.len(),
            a as int == ws_run(v@, 0),
            a < v@.len() && v@[a as int] == '[',
            cond_split_from(v@, v@.len() - 1) == cond_split_from(v@, j as int - 1),
        decreases j,
    {
        if j == 0 {
            return None;
        }
        j = j - 1;
        if v[j] == ']' {
            match cond_after_of(v, j) {
                Some(nv) => {
                    if j > a {
                        return Some(nv);
                    } else {
                        proof {
                            assert(cond_split_from(v@, v@.len() - 1) == j as int);
                        }
                        return None;
                    }
                },
                None => {},
            }
        }
    }
}
// ---------------------------------------------------------------------------
// Value algebra
// ---------------------------------------------------------------------------

/// `$NAME`
pub open spec fn var_ref_plain(name: Seq<char>) -> Seq<char> {
    seq!['$'] + name
}

/// `${NAME}`
pub open spec fn var_ref_braced(name: Seq<char>) -> Seq<char> {
    seq!['$', '{'] + name + seq!['}']
}

/// Literal expansion of the references a plain assignment may carry: the
/// home-directory tokens `$HOME` and `${HOME}` (when a home is known), then
/// the self-references `${NAME}` and `$NAME` (when a current value exists).
/// Pure text replacement; nothing else is expanded.
pub open spec fn spec_expand_variables(
    v: Seq<char>,
    name: Seq<char>,
    current: Option<Seq<char>>,
    home: Option<Seq<char>>,
) -> Seq<char> {
    let h1 = match home {
        Some(h) => spec_replace(v, "$HOME"@, h),
        None => v,
    };
    let h2 = match home {
        Some(h) => spec_replace(h1, "${HOME}"@, h),
        None => h1,
    };
    match current {
        Some(c) => spec_replace(spec_replace(h2, var_ref_braced(name), c), var_ref_plain(name), c),
        None => h2,
    }
}

/// Expand known variable references in a value.
pub fn expand_variables(value: &str, var_name: &str, current_value: Option<&str>, home: Option<
    &str,
>) -> (r: String)
    ensures
        r@ == spec_expand_variables(
            value@,
            var_name@,
            match current_value {
                Some(c) => Some(c@),
                None => None,
            },
            match home {
                Some(h) => Some(h@),
                None => None,
            },
        ),
{
    let v = to_chars(value);
    let name = to_chars(var_name);
    let r = expand_variables_chars(&v, &name, current_value, home);
    chars_to_string(&r)
}

fn expand_variables_chars(v: &Vec<char>, name: &Vec<char>, current_value: Option<&str>, home:
    Option<&str>) -> (r: Vec<char>)
    ensures
        r@ == spec_expand_variables(
            v@,
            name@,
            match current_value {
                Some(c) => Some(c@),
                None => None,
            },
            match home {
                Some(h) => Some(h@),
                None => None,
            },
        ),
{
    proof {
        reveal_strlit("$HOME");
        reveal_strlit("${HOME}");
    }
    let mut out = match home {
        Some(h) => {
            let hc = to_chars(h);
            let p1 = to_chars("$HOME");
            let p2 = to_chars("${HOME}");
            let step = replace_chars(v, &p1, &hc);
            replace_chars(&step, &p2, &hc)
        },
        None => subvec(v, 0, v.len()),
    };
    proof {
        assert(v@.subrange(0, v@.len() as int) =~= v@);
    }
    match current_value {
        Some(c) => {
            let cc = to_chars(c);
            let mut r2: Vec<char> = Vec::new();
            r2.push('$');
            r2.push('{');
            push_all(&mut r2, name);
            r2.push('}');
            proof {
                assert(r2@ =~= var_ref_braced(name@));
            }
            let mut r1: Vec<char> = Vec::new();
            r1.push('$');
            push_all(&mut r1, name);
            proof {
                assert(r1@ =~= var_ref_plain(name@));
            }
            let step = replace_chars(&out, &r2, &cc);
            replace_chars(&step, &r1, &cc)
        },
        None => out,
    }
}

/// The operation a right-hand side stands for, and the value it produces,
/// given the running value. One layer of quotes is stripped first; then
/// `$NAME:rest` appends, `rest:$NAME` prepends (braced forms likewise), and
/// anything else is a plain assignment with literal reference expansion.
pub open spec fn spec_analyze(
    name: Seq<char>,
    value: Seq<char>,
    current: Option<Seq<char>>,
    default_op: Operation,
    home: Option<Seq<char>>,
) -> (Operation, Seq<char>) {
    let v = spec_strip_quotes(value);
    let r1 = var_ref_plain(name);
    let r2 = var_ref_braced(name);
    let plen = if has_prefix(v, r2) {
        r2.len() as int
    } else {
        r1.len() as int
    };
    if (has_prefix(v, r1) || has_prefix(v, r2)) && v.len() > plen && v[plen] == ':' {
        (
            Operation::Append,
            match current {
                Some(c) => c + seq![':'] + v.skip(plen + 1),
                None => v.skip(plen + 1),
            },
        )
    } else {
        let slen = if crate::text::has_suffix(v, r2) {
            r2.len() as int
        } else {
            r1.len() as int
        };
        if (crate::text::has_suffix(v, r1) || crate::text::has_suffix(v, r2)) && v.len() > slen && v[v.len() - slen
            - 1] == ':' {
            (
                Operation::Prepend,
                match current {
                    Some(c) => v.take(v.len() - slen - 1) + seq![':'] + c,
                    None => v.take(v.len() - slen - 1),
                },
            )
        } else {
            (default_op, spec_expand_variables(v, name, current, home))
        }
    }
}

/// Analyze a right-hand side: is it a plain assignment, an append, or a
/// prepend, and what does the value become?
pub fn analyze_value(var_name: &str, value: &str, current_value: Option<&str>, default_op:
    Operation, home: Option<&str>) -> (r: (Operation, String))
    ensures
        ({
            let sp = spec_analyze(
                var_name@,
                value@,
                match current_value {
                    Some(c) => Some(c@),
                    None => None,
                },
                default_op,
                match home {
                    Some(h) => Some(h@),
                    None => None,
                },
            );
            r.0 == sp.0 && r.1@ == sp.1
        }),
{
    let name = to_chars(var_name);
    let raw = to_chars(value);
    let v = strip_quotes_chars(&raw);
    let n = v.len();

    let mut r2: Vec<char> = Vec::new();
    r2.push('$');
    r2.push('{');
    push_all(&mut r2, &name);
    r2.push('}');
    proof {
        assert(r2@ =~= var_ref_braced(name@));
    }
    let mut r1: Vec<char> = Vec::new();
    r1.push('$');
    push_all(&mut r1, &name);
    proof {
        assert(r1@ =~= var_ref_plain(name@));
    }

    let plen = if starts_with(&v, &r2) {
        r2.len()
    } else {
        r1.len()
    };
    if (starts_with(&v, &r1) || starts_with(&v, &r2)) && n > plen && v[plen] == ':' {
        let appended = subvec(&v, plen + 1, n);
        let value_new = match current_value {
            Some(c) => {
                let mut out = to_chars(c);
                out.push(':');
                push_all(&mut out, &appended);
                proof {
                    assert(out@ =~= c@ + seq![':'] + v@.skip(plen + 1));
                }
                out
            },
            None => {
                proof {
                    assert(appended@ =~= v@.skip(plen + 1));
                }
                appended
            },
        };
        return (Operation::Append, chars_to_string(&value_new));
    }

    let slen = if ends_with(&v, &r2) {
        r2.len()
    } else {
        r1.len()
    };
    if (ends_with(&v, &r1) || ends_with(&v, &r2)) && n > slen && v[n - slen - 1] == ':' {
        let prepended = subvec(&v, 0, n - slen - 1);
        proof {
            assert(prepended@ =~= v@.take(n as int - slen - 1));
        }
        let value_new = match current_value {
            Some(c) => {
                let mut out = prepended;
                out.push(':');
                let cc = to_chars(c);
                push_all(&mut out, &cc);
                proof {
                    assert(out@ =~= v@.take(n as int - slen - 1) + seq![':'] + c@);
                }
                out
            },
            None => prepended,
        };
        return (Operation::Prepend, chars_to_string(&value_new));
    }

    let expanded = expand_variables_chars(&v, &name, current_value, home);
    (default_op, chars_to_string(&expanded))
}
// ---------------------------------------------------------------------------
// Parsed entries and whole-file parsing
// ---------------------------------------------------------------------------

/// Model of a parsed entry.
pub ghost enum EntryModel {
    Assignment(ChangeModel),
    Source(Seq<char>),
}

/// A parsed entry from a shell script: a change of the traced variable, or
/// a `source` directive pointing at another file (already expanded).
#[derive(Debug)]
pub enum ParsedShellEntry {
    /// A variable assignment (export, set, append, prepend, unset, conditional)
    Assignment(VariableChange),
    /// A `source`/`.` directive naming another file
    Source(String),
}

impl View for ParsedShellEntry {
    type V = EntryModel;

    open spec fn view(&self) -> EntryModel {
        match self {
            ParsedShellEntry::Assignment(c) => EntryModel::Assignment(c@),
            ParsedShellEntry::Source(p) => EntryModel::Source(p@),
        }
    }
}

impl DeepView for ParsedShellEntry {
    type V = EntryModel;

    open spec fn deep_view(&self) -> EntryModel {
        self.view()
    }
}

impl ParsedShellEntry {
    /// The change of an assignment entry.
    pub fn as_assignment(&self) -> (r: &VariableChange)
        requires
            self is Assignment,
        ensures
            EntryModel::Assignment(r@) == self@,
    {
        match self {
            ParsedShellEntry::Assignment(c) => c,
            ParsedShellEntry::Source(_) => vstd::pervasive::unreached(),
        }
    }

    /// Whether this entry is a `source` directive.
    pub fn is_source(&self) -> (r: bool)
        ensures
            r == (self@ is Source),
    {
        match self {
            ParsedShellEntry::Source(_) => true,
            ParsedShellEntry::Assignment(_) => false,
        }
    }
}

/// The entry one shell line contributes for `target`, with the running
/// value threaded in: `None` for skipped lines, for constructs naming other
/// variables, and for `source` directives whose path cannot be resolved.
pub open spec fn spec_line_entry(
    line: Seq<char>,
    path: Seq<char>,
    lineno: int,
    target: Seq<char>,
    current: Option<Seq<char>>,
    home: Option<Seq<char>>,
) -> Option<EntryModel> {
    match spec_classify(line, target) {
        LineModel::Skip => None,
        LineModel::SourceRaw(raw) => match spec_expand_source_path(raw, home) {
            Some(p) => Some(EntryModel::Source(p)),
            None => None,
        },
        LineModel::Cond(rhs) => Some(
            EntryModel::Assignment(
                ChangeModel {
                    file: path,
                    line_number: lineno,
                    line_content: line,
                    operation: Operation::Conditional,
                    value_before: current,
                    value_after: spec_strip_quotes(rhs),
                },
            ),
        ),
        LineModel::UnsetVar => Some(
            EntryModel::Assignment(
                ChangeModel {
                    file: path,
                    line_number: lineno,
                    line_content: line,
                    operation: Operation::Unset,
                    value_before: current,
                    value_after: Seq::empty(),
                },
            ),
        ),
        LineModel::ExportAssign(rhs) => {
            let ov = spec_analyze(target, rhs, current, Operation::Export, home);
            Some(
                EntryModel::Assignment(
                    ChangeModel {
                        file: path,
                        line_number: lineno,
                        line_content: line,
                        operation: ov.0,
                        value_before: current,
                        value_after: ov.1,
                    },
                ),
            )
        },
        LineModel::ExportOnly => Some(
            EntryModel::Assignment(
                ChangeModel {
                    file: path,
                    line_number: lineno,
                    line_content: line,
                    operation: Operation::Export,
                    value_before: current,
                    value_after: match current {
                        Some(c) => c,
                        None => Seq::empty(),
                    },
                },
            ),
        ),
        LineModel::Assign(rhs) => {
            let ov = spec_analyze(target, rhs, current, Operation::Assign, home);
            Some(
                EntryModel::Assignment(
                    ChangeModel {
                        file: path,
                        line_number: lineno,
                        line_content: line,
                        operation: ov.0,
                        value_before: current,
                        value_after: ov.1,
                    },
                ),
            )
        },
    }
}

/// The entry one shell line contributes, executably.
pub fn shell_line_entry(line: &Vec<char>, path: &str, lineno: usize, target: &str, current: Option<
    &str,
>, home: Option<&str>) -> (r: Option<ParsedShellEntry>)
    ensures
        (match r {
            Some(e) => Some(e@),
            None => None,
        }) == spec_line_entry(
            line@,
            path@,
            lineno as int,
            target@,
            match current {
                Some(c) => Some(c@),
                None => None,
            },
            match home {
                Some(h) => Some(h@),
                None => None,
            },
        ),
{
    let t = trim_chars(line);
    if t.len() == 0 || t[0] == '#' {
        return None;
    }
    let targetc = to_chars(target);
    let line_string = chars_to_string(line);

    if let Some(raw) = source_of(line) {
        let raws = chars_to_string(&raw);
        let homeowned = match home {
            Some(h) => Some(h.to_owned()),
            None => None,
        };
        return match expand_source_path_in(raws.as_str(), &homeowned) {
            Some(p) => Some(ParsedShellEntry::Source(p)),
            None => None,
        };
    }

    if let Some((namev, rhs)) = conditional_of(line) {
        let namec = to_chars(target);
        if eq_chars(&namev, &namec) {
            let stripped = strip_quotes_chars(&rhs);
            return Some(
                ParsedShellEntry::Assignment(
                    VariableChange {
                        file: path.to_owned(),
                        line_number: lineno,
                        line_content: line_string,
                        operation: Operation::Conditional,
                        value_before: copy_current(current),
                        value_after: chars_to_string(&stripped),
                    },
                ),
            );
        }
        return None;
    }

    if let Some(namev) = unset_of(line) {
        if eq_chars(&namev, &targetc) {
            return Some(
                ParsedShellEntry::Assignment(
                    VariableChange {
                        file: path.to_owned(),
                        line_number: lineno,
                        line_content: line_string,
                        operation: Operation::Unset,
                        value_before: copy_current(current),
                        value_after: String::new(),
                    },
                ),
            );
        }
        return None;
    }

    if let Some((namev, rhs)) = export_assign_of(line) {
        if eq_chars(&namev, &targetc) {
            let rhss = chars_to_string(&rhs);
            let (op, value_new) = analyze_value(target, rhss.as_str(), current, Operation::Export,
                home);
            return Some(
                ParsedShellEntry::Assignment(
                    VariableChange {
                        file: path.to_owned(),
                        line_number: lineno,
                        line_content: line_string,
                        operation: op,
                        value_before: copy_current(current),
                        value_after: value_new,
                    },
                ),
            );
        }
        return None;
    }

    if let Some(namev) = export_only_of(line) {
        if eq_chars(&namev, &targetc) {
            let value_new = match current {
                Some(c) => c.to_owned(),
                None => String::new(),
            };
            return Some(
                ParsedShellEntry::Assignment(
                    VariableChange {
                        file: path.to_owned(),
                        line_number: lineno,
                        line_content: line_string,
                        operation: Operation::Export,
                        value_before: copy_current(current),
                        value_after: value_new,
                    },
                ),
            );
        }
        return None;
    }

    if let Some((namev, rhs)) = simple_assign_of(line) {
        if eq_chars(&namev, &targetc) {
            let rhss = chars_to_string(&rhs);
            let (op, value_new) = analyze_value(target, rhss.as_str(), current, Operation::Assign,
                home);
            return Some(
                ParsedShellEntry::Assignment(
                    VariableChange {
                        file: path.to_owned(),
                        line_number: lineno,
                        line_content: line_string,
                        operation: op,
                        value_before: copy_current(current),
                        value_after: value_new,
                    },
                ),
            );
        }
        return None;
    }

    None
}

fn copy_current(current: Option<&str>) -> (r: Option<String>)
    ensures
        (match r {
            Some(s) => Some(s@),
            None => None,
        }) == (match current {
            Some(s) => Some(s@),
            None => None,
        }),
{
    match current {
        Some(c) => Some(c.to_owned()),
        None => None,
    }
}

/// The running value after an entry: a change updates it, a `source`
/// directive (at this level) and a skipped line leave it alone.
pub open spec fn entry_next_value(e: Option<EntryModel>, current: Option<Seq<char>>) -> Option<
    Seq<char>,
> {
    match e {
        Some(EntryModel::Assignment(c)) => value_after_change(c),
        _ => current,
    }
}

/// All entries of a shell file from line `i` on, with the running value
/// threaded through the assignments in order. `source` directives are
/// reported but not followed here; following them, and the interleaving of
/// their effects, is the traversal's business.
pub open spec fn spec_parse_shell(
    lines: Seq<Seq<char>>,
    i: int,
    path: Seq<char>,
    target: Seq<char>,
    current: Option<Seq<char>>,
    home: Option<Seq<char>>,
) -> Seq<EntryModel>
    decreases lines.len() - i,
{
    if 0 <= i < lines.len() {
        let e = spec_line_entry(lines[i], path, i + 1, target, current, home);
        let rest = spec_parse_shell(lines, i + 1, path, target, entry_next_value(e, current), home);
        match e {
            Some(en) => seq![en] + rest,
            None => rest,
        }
    } else {
        Seq::empty()
    }
}

/// Parse shell script content for changes of `target_var` and for `source`
/// directives, threading the running value through the file's lines.
pub fn parse_shell_content(content: &str, path: &str, target_var: &str, current_value: Option<
    &str,
>, home: Option<&str>) -> (r: Vec<ParsedShellEntry>)
    ensures
        r.deep_view() == spec_parse_shell(
            spec_lines(content@),
            0,
            path@,
            target_var@,
            match current_value {
                Some(c) => Some(c@),
                None => None,
            },
            match home {
                Some(h) => Some(h@),
                None => None,
            },
        ),
{
    let lines = split_lines(content);
    let mut entries: Vec<ParsedShellEntry> = Vec::new();
    let mut cur: Option<String> = copy_current(current_value);
    let mut i: usize = 0;
    while i < lines.len()
        invariant
            lines.deep_view() == spec_lines(content@),
            i <= lines@.len(),
            spec_parse_shell(
                lines.deep_view(),
                0,
                path@,
                target_var@,
                match current_value {
                    Some(c) => Some(c@),
                    None => None,
                },
                match home {
                    Some(h) => Some(h@),
                    None => None,
                },
            ) == entries.deep_view() + spec_parse_shell(
                lines.deep_view(),
                i as int,
                path@,
                target_var@,
                match cur {
                    Some(ref c) => Some(c@),
                    None => None,
                },
                match home {
                    Some(h) => Some(h@),
                    None => None,
                },
            ),
        decreases lines@.len() - i,
    {
        let ghost dv = lines.deep_view();
        let ghost curv = match cur {
            Some(ref c) => Some(c@),
            None => None,
        };
        proof {
            assert(dv[i as int] == lines@[i as int].deep_view());
            assert(lines@[i as int].deep_view() =~= lines@[i as int]@);
        }
        let curref = match &cur {
            Some(c) => Some(c.as_str()),
            None => None,
        };
        let e = shell_line_entry(&lines[i], path, i + 1, target_var, curref, home);
        match e {
            Some(entry) => {
                match &entry {
                    ParsedShellEntry::Assignment(c) => {
                        if c.operation == Operation::Unset {
                            cur = None;
                        } else {
                            cur = Some(c.value_after.clone());
                        }
                    },
                    ParsedShellEntry::Source(_) => {},
                }
                let ghost edv = entries.deep_view();
                let ghost em = entry@;
                entries.push(entry);
                proof {
                    assert(entries.deep_view() =~= edv + seq![em]);
                    assert(edv + (seq![em] + spec_parse_shell(dv, i + 1, path@, target_var@,
                        entry_next_value(Some(em), curv), match home {
                        Some(h) => Some(h@),
                        None => None,
                    })) =~= (edv + seq![em]) + spec_parse_shell(dv, i + 1, path@, target_var@,
                        entry_next_value(Some(em), curv), match home {
                        Some(h) => Some(h@),
                        None => None,
                    }));
                }
            },
            None => {},
        }
        i = i + 1;
    }
    proof {
        assert(entries.deep_view() =~= spec_parse_shell(
            lines.deep_view(),
            0,
            path@,
            target_var@,
            match current_value {
                Some(c) => Some(c@),
                None => None,
            },
            match home {
                Some(h) => Some(h@),
                None => None,
            },
        ));
    }
    entries
}
} // verus!
