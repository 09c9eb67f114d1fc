//! Parser for `/etc/environment`-style files: plain `KEY=value` lines with
//! optional single or double quotes, full-line comments and blank lines.
//! No shell syntax: no `export`, no `unset`, no variable references, no
//! `source` directives.

use vstd::prelude::*;

use crate::cli::{is_valid_identifier, spec_is_valid_identifier};
use crate::text::{
    chars_to_string, eq_chars, find_char_at, find_char_from, spec_lines, spec_trim, split_lines,
    subvec, to_chars, trim_chars,
};
use crate::variable::{ChangeModel, Operation, VariableChange};

verus! {

/// What a `KEY=value` line assigns: the key must match the identifier
/// grammar, the value part is trimmed and one layer of matching quotes is
/// removed. `None` when the line has no `=` or the key is no identifier.
pub open spec fn spec_parse_assignment(line: Seq<char>) -> Option<(Seq<char>, Seq<char>)> {
    let e = find_char_from(line, '=', 0);
    if e == line.len() {
        None
    } else {
        let key = spec_trim(line.take(e));
        let vp = spec_trim(line.skip(e + 1));
        if !spec_is_valid_identifier(key) {
            None
        } else {
            let value = if vp.len() >= 2 && ((vp[0] == '"' && vp[vp.len() - 1] == '"') || (vp[0]
                == '\'' && vp[vp.len() - 1] == '\'')) {
                vp.subrange(1, vp.len() - 1)
            } else {
                vp
            };
            Some((key, value))
        }
    }
}

/// Parse a `KEY=value` assignment, handling quotes.
pub fn parse_assignment(line: &str) -> (r: Option<(String, String)>)
    ensures
        (r is Some) == (spec_parse_assignment(line@) is Some),
        r is Some ==> ((r->0).0@, (r->0).1@) == spec_parse_assignment(line@)->0,
{
    let v = to_chars(line);
    let e = find_char_at(&v, '=', 0);
    if e == v.len() {
        return None;
    }
    let keyv = trim_chars(&subvec(&v, 0, e));
    let vpv = trim_chars(&subvec(&v, e + 1, v.len()));
    proof {
        assert(v@.take(e as int) =~= v@.subrange(0, e as int));
        assert(v@.skip(e + 1) =~= v@.subrange(e + 1, v@.len() as int));
    }
    let key = chars_to_string(&keyv);
    if !is_valid_identifier(key.as_str()) {
        return None;
    }
    let value = if vpv.len() >= 2 && ((vpv[0] == '"' && vpv[vpv.len() - 1] == '"') || (vpv[0]
        == '\'' && vpv[vpv.len() - 1] == '\'')) {
        subvec(&vpv, 1, vpv.len() - 1)
    } else {
        vpv
    };
    Some((key, chars_to_string(&value)))
}

/// The change a single line of a plain key-value file records for `target`:
/// blank lines, comment lines, lines without a valid assignment and
/// assignments to other keys record nothing. The line is stored trimmed;
/// `value_before` is the traversal's business and starts out `None`.
pub open spec fn spec_env_line_change(
    line: Seq<char>,
    path: Seq<char>,
    lineno: int,
    target: Seq<char>,
) -> Option<ChangeModel> {
    let t = spec_trim(line);
    if t.len() == 0 || t[0] == '#' {
        None
    } else {
        match spec_parse_assignment(t) {
            Some(kv) => if kv.0 == target {
                Some(
                    ChangeModel {
                        file: path,
                        line_number: lineno,
                        line_content: t,
                        operation: Operation::Assign,
                        value_before: None,
                        value_after: kv.1,
                    },
                )
            } else {
                None
            },
            None => None,
        }
    }
}

/// The change one line records, executably.
pub fn env_line_change(line: &Vec<char>, path: &str, lineno: usize, target: &str) -> (r: Option<
    VariableChange,
>)
    ensures
        (match r {
            Some(c) => Some(c@),
            None => None,
        }) == spec_env_line_change(line@, path@, lineno as int, target@),
{
    let t = trim_chars(line);
    if t.len() == 0 || t[0] == '#' {
        return None;
    }
    let ts = chars_to_string(&t);
    match parse_assignment(ts.as_str()) {
        Some((key, value)) => {
            let keyc = to_chars(key.as_str());
            let targetc = to_chars(target);
            if eq_chars(&keyc, &targetc) {
                Some(
                    VariableChange {
                        file: path.to_owned(),
                        line_number: lineno,
                        line_content: ts,
                        operation: Operation::Assign,
                        value_before: None,
                        value_after: value,
                    },
                )
            } else {
                None
            }
        },
        None => None,
    }
}

/// The changes a whole plain key-value file records for `target`, from line
/// `i` on (0-based; recorded line numbers are 1-based).
pub open spec fn spec_env_changes(
    lines: Seq<Seq<char>>,
    i: int,
    path: Seq<char>,
    target: Seq<char>,
) -> Seq<ChangeModel>
    decreases lines.len() - i,
{
    if 0 <= i < lines.len() {
        let rest = spec_env_changes(lines, i + 1, path, target);
        match spec_env_line_change(lines[i], path, i + 1, target) {
            Some(c) => seq![c] + rest,
            None => rest,
        }
    } else {
        Seq::empty()
    }
}

/// Parse the content of a plain `KEY=value` file (the format PAM reads on
/// Linux) for assignments to `target_var`.
pub fn parse_environment_content(content: &str, path: &str, target_var: &str) -> (r: Vec<
    VariableChange,
>)
    ensures
        r.deep_view() == spec_env_changes(spec_lines(content@), 0, path@, target_var@),
{
    let lines = split_lines(content);
    let mut changes: Vec<VariableChange> = Vec::new();
    let mut i: usize = 0;
    while i < lines.len()
        invariant
            lines.deep_view() == spec_lines(content@),
            i <= lines@.len(),
            spec_env_changes(lines.deep_view(), 0, path@, target_var@) == changes.deep_view()
                + spec_env_changes(lines.deep_view(), i as int, path@, target_var@),
        decreases lines@.len() - i,
    {
        let ghost dv = lines.deep_view();
        proof {
            assert(dv[i as int] == lines@[i as int].deep_view());
            assert(lines@[i as int].deep_view() =~= lines@[i as int]@);
        }
        match env_line_change(&lines[i], path, i + 1, target_var) {
            Some(c) => {
                let ghost cdv = changes.deep_view();
                let ghost cm = c@;
                changes.push(c);
                proof {
                    assert(changes.deep_view() =~= cdv + seq![cm]);
                    assert(cdv + (seq![cm] + spec_env_changes(dv, i + 1, path@, target_var@)) =~= (
                    cdv + seq![cm]) + spec_env_changes(dv, i + 1, path@, target_var@));
                }
            },
            None => {},
        }
        i = i + 1;
        proof {
            assert(spec_env_changes(dv, i - 1, path@, target_var@) == (
            match spec_env_line_change(dv[i - 1], path@, i as int, target_var@) {
                Some(c) => seq![c] + spec_env_changes(dv, i as int, path@, target_var@),
                None => spec_env_changes(dv, i as int, path@, target_var@),
            }));
        }
    }
    proof {
        assert(changes.deep_view() =~= spec_env_changes(
            lines.deep_view(),
            0,
            path@,
            target_var@,
        ));
    }
    changes
}

} // verus!
