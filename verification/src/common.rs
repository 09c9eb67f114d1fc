//! Helpers shared by the line classifiers: quote stripping and expansion of
//! the path named by a `source` directive.

use vstd::prelude::*;

use crate::host::home_dir;
use crate::text::{
    char_run, char_run_at, chars_to_string, contains_char, has_char, push_all, spec_trim, subvec,
    to_chars, trim_chars,
};

verus! {

/// `v` trimmed, then with one layer of matching surrounding quotes removed.
/// A lone quote character is left as it is.
pub open spec fn spec_strip_quotes(v: Seq<char>) -> Seq<char> {
    let t = spec_trim(v);
    if t.len() >= 2 && ((t[0] == '"' && t[t.len() - 1] == '"') || (t[0] == '\'' && t[t.len() - 1]
        == '\'')) {
        t.subrange(1, t.len() - 1)
    } else {
        t
    }
}

/// Strip surrounding whitespace and one layer of matching quotes.
pub fn strip_quotes_chars(v: &Vec<char>) -> (r: Vec<char>)
    ensures
        r@ == spec_strip_quotes(v@),
{
    let t = trim_chars(v);
    if t.len() >= 2 && ((t[0] == '"' && t[t.len() - 1] == '"') || (t[0] == '\'' && t[t.len() - 1]
        == '\'')) {
        subvec(&t, 1, t.len() - 1)
    } else {
        t
    }
}

/// Strip surrounding quotes (and whitespace) from a value.
pub fn strip_quotes(value: &str) -> (r: String)
    ensures
        r@ == spec_strip_quotes(value@),
{
    let v = to_chars(value);
    let t = strip_quotes_chars(&v);
    chars_to_string(&t)
}

/// Where a `source` directive naming `path` leads, given the user's home
/// directory: quotes are stripped; a leading `~` expands to the home
/// directory (a `~user` form, or a `~` without a known home, is given up
/// on); a path still holding a `$` reference is given up on too.
pub open spec fn spec_expand_source_path(path: Seq<char>, home: Option<Seq<char>>) -> Option<
    Seq<char>,
> {
    let p = spec_strip_quotes(path);
    if p.len() > 0 && p[0] == '~' {
        if home is Some && (p.len() == 1 || p[1] == '/') {
            let rest = p.skip(1 + char_run(p, 1, '/'));
            if rest.len() == 0 {
                Some(home->0)
            } else {
                Some(home->0 + seq!['/'] + rest)
            }
        } else {
            None
        }
    } else if contains_char(p, '$') {
        None
    } else {
        Some(p)
    }
}

/// Expand a `source` directive's path against a known home directory.
pub fn expand_source_path_in(path: &str, home: &Option<String>) -> (r: Option<String>)
    ensures
        (match r {
            Some(s) => Some(s@),
            None => None,
        }) == spec_expand_source_path(
            path@,
            match home {
                Some(h) => Some(h@),
                None => None,
            },
        ),
{
    let pv = to_chars(path);
    let p = strip_quotes_chars(&pv);
    if p.len() > 0 && p[0] == '~' {
        match home {
            Some(h) => {
                if p.len() == 1 || p[1] == '/' {
                    let run = char_run_at(&p, 1, '/');
                    let rest = subvec(&p, 1 + run, p.len());
                    if rest.len() == 0 {
                        Some(h.clone())
                    } else {
                        let mut out = to_chars(h.as_str());
                        out.push('/');
                        push_all(&mut out, &rest);
                        proof {
                            assert(out@ =~= h@ + seq!['/'] + rest@);
                        }
                        Some(chars_to_string(&out))
                    }
                } else {
                    None
                }
            },
            None => None,
        }
    } else if has_char(&p, '$') {
        None
    } else {
        Some(chars_to_string(&p))
    }
}

/// Expand `~` in source paths and strip quotes, against the home directory
/// of the running user. The home directory is an environment query, so the
/// result is pinned down only relative to whatever answer it gave.
pub fn expand_source_path(path: &str) -> (r: Option<String>)
    ensures
        exists|h: Option<Seq<char>>|
            (match r {
                Some(s) => Some(s@),
                None => None,
            }) == #[trigger] spec_expand_source_path(path@, h),
{
    let home = home_dir();
    let r = expand_source_path_in(path, &home);
    proof {
        let h = match home {
            Some(h) => Some(h@),
            None => None,
        };
        assert((match r {
            Some(s) => Some(s@),
            None => None,
        }) == spec_expand_source_path(path@, h));
    }
    r
}

} // verus!
