//! Character-level utilities shared by the line classifiers: character
//! classes, trimming, searching, replacement and lexicographic sorting,
//! all specified over `Seq<char>`.

use vstd::prelude::*;
use vstd::string::StringExecFns;

verus! {

// ---------------------------------------------------------------------------
// Character classes
// ---------------------------------------------------------------------------

/// ASCII whitespace as the classifiers understand it.
pub open spec fn is_ws_char(c: char) -> bool {
    c == ' ' || c == '\t' || c == '\r' || c == '\n'
}

/// First character of a shell identifier: a letter or an underscore.
pub open spec fn is_ident_start_char(c: char) -> bool {
    ('a' <= c && c <= 'z') || ('A' <= c && c <= 'Z') || c == '_'
}

/// Any character of a shell identifier: a letter, a digit or an underscore.
pub open spec fn is_ident_char(c: char) -> bool {
    is_ident_start_char(c) || ('0' <= c && c <= '9')
}

pub fn ws_char(c: char) -> (r: bool)
    ensures
        r == is_ws_char(c),
{
    c == ' ' || c == '\t' || c == '\r' || c == '\n'
}

pub fn ident_start_char(c: char) -> (r: bool)
    ensures
        r == is_ident_start_char(c),
{
    ('a' <= c && c <= 'z') || ('A' <= c && c <= 'Z') || c == '_'
}

pub fn ident_char(c: char) -> (r: bool)
    ensures
        r == is_ident_char(c),
{
    ident_start_char(c) || ('0' <= c && c <= '9')
}

// ---------------------------------------------------------------------------
// Conversions between `&str`/`String` and `Vec<char>`
// ---------------------------------------------------------------------------

/// Collect the characters of a string slice into a vector.
pub fn to_chars(s: &str) -> (r: Vec<char>)
    ensures
        r@ == s@,
{
    let n = s.unicode_len();
    let mut r: Vec<char> = Vec::new();
    let mut i: usize = 0;
    while i < n
        invariant
            n == s@.len(),
            i <= n,
            r@ == s@.subrange(0, i as int),
        decreases n - i,
    {
        r.push(s.get_char(i));
        i = i + 1;
        proof {
            assert(r@ =~= s@.subrange(0, i as int));
        }
    }
    proof {
        assert(r@ =~= s@);
    }
    r
}

/// Relies on `String: FromIterator<char>` (via `Iterator::collect`): the
/// string holds exactly the characters of the vector, in order.
#[verifier::external_body]
pub fn chars_to_string(v: &Vec<char>) -> (r: String)
    ensures
        r@ == v@,
{
    v.iter().collect()
}

/// Copy of the subrange `[from, to)` of a character vector.
pub fn subvec(v: &Vec<char>, from: usize, to: usize) -> (r: Vec<char>)
    requires
        from <= to <= v@.len(),
    ensures
        r@ == v@.subrange(from as int, to as int),
{
    let mut r: Vec<char> = Vec::new();
    let mut i: usize = from;
    while i < to
        invariant
            from <= i <= to <= v@.len(),
            r@ == v@.subrange(from as int, i as int),
        decreases to - i,
    {
        r.push(v[i]);
        i = i + 1;
        proof {
            assert(r@ =~= v@.subrange(from as int, i as int));
        }
    }
    r
}

/// Append all characters of `src` to `dst`.
pub fn push_all(dst: &mut Vec<char>, src: &Vec<char>)
    ensures
        final(dst)@ == old(dst)@ + src@,
{
    let mut i: usize = 0;
    while i < src.len()
        invariant
            i <= src@.len(),
            dst@ == old(dst)@ + src@.subrange(0, i as int),
        decreases src@.len() - i,
    {
        dst.push(src[i]);
        i = i + 1;
        proof {
            assert(dst@ =~= old(dst)@ + src@.subrange(0, i as int));
        }
    }
    proof {
        assert(dst@ =~= old(dst)@ + src@);
    }
}

// ---------------------------------------------------------------------------
// Runs and searching
// ---------------------------------------------------------------------------

/// Length of the run of whitespace characters starting at index `i`.
pub open spec fn ws_run(s: Seq<char>, i: int) -> int
    decreases s.len() - i,
{
    if 0 <= i < s.len() && is_ws_char(s[i]) {
        1 + ws_run(s, i + 1)
    } else {
        0
    }
}

/// Length of the run of identifier characters starting at index `i`.
pub open spec fn ident_run(s: Seq<char>, i: int) -> int
    decreases s.len() - i,
{
    if 0 <= i < s.len() && is_ident_char(s[i]) {
        1 + ident_run(s, i + 1)
    } else {
        0
    }
}

pub proof fn lemma_ws_run_bounds(s: Seq<char>, i: int)
    requires
        0 <= i <= s.len(),
    ensures
        i <= i + ws_run(s, i) <= s.len(),
    decreases s.len() - i,
{
    if i < s.len() && is_ws_char(s[i]) {
        lemma_ws_run_bounds(s, i + 1);
    }
}

pub proof fn lemma_ident_run_bounds(s: Seq<char>, i: int)
    requires
        0 <= i <= s.len(),
    ensures
        i <= i + ident_run(s, i) <= s.len(),
    decreases s.len() - i,
{
    if i < s.len() && is_ident_char(s[i]) {
        lemma_ident_run_bounds(s, i + 1);
    }
}

/// Compute `ws_run` executably.
pub fn ws_run_at(v: &Vec<char>, i: usize) -> (r: usize)
    requires
        i <= v@.len(),
    ensures
        i + r == i + ws_run(v@, i as int),
        i + r <= v@.len(),
{
    proof {
        lemma_ws_run_bounds(v@, i as int);
    }
    let mut j: usize = i;
    while j < v.len() && ws_char(v[j])
        invariant
            i <= j <= v@.len(),
            ws_run(v@, i as int) == (j - i) + ws_run(v@, j as int),
        decreases v@.len() - j,
    {
        j = j + 1;
    }
    j - i
}

/// Compute `ident_run` executably.
pub fn ident_run_at(v: &Vec<char>, i: usize) -> (r: usize)
    requires
        i <= v@.len(),
    ensures
        i + r == i + ident_run(v@, i as int),
        i + r <= v@.len(),
{
    proof {
        lemma_ident_run_bounds(v@, i as int);
    }
    let mut j: usize = i;
    while j < v.len() && ident_char(v[j])
        invariant
            i <= j <= v@.len(),
            ident_run(v@, i as int) == (j - i) + ident_run(v@, j as int),
        decreases v@.len() - j,
    {
        j = j + 1;
    }
    j - i
}

/// Length of the run of the character `c` starting at index `i`.
pub open spec fn char_run(s: Seq<char>, i: int, c: char) -> int
    decreases s.len() - i,
{
    if 0 <= i < s.len() && s[i] == c {
        1 + char_run(s, i + 1, c)
    } else {
        0
    }
}

pub proof fn lemma_char_run_bounds(s: Seq<char>, i: int, c: char)
    requires
        0 <= i <= s.len(),
    ensures
        i <= i + char_run(s, i, c) <= s.len(),
    decreases s.len() - i,
{
    if i < s.len() && s[i] == c {
        lemma_char_run_bounds(s, i + 1, c);
    }
}

/// Compute `char_run` executably.
pub fn char_run_at(v: &Vec<char>, i: usize, c: char) -> (r: usize)
    requires
        i <= v@.len(),
    ensures
        i + r == i + char_run(v@, i as int, c),
        i + r <= v@.len(),
{
    proof {
        lemma_char_run_bounds(v@, i as int, c);
    }
    let mut j: usize = i;
    while j < v.len() && v[j] == c
        invariant
            i <= j <= v@.len(),
            char_run(v@, i as int, c) == (j - i) + char_run(v@, j as int, c),
        decreases v@.len() - j,
    {
        j = j + 1;
    }
    j - i
}

/// Length of the run of non-whitespace characters starting at index `i`.
pub open spec fn non_ws_run(s: Seq<char>, i: int) -> int
    decreases s.len() - i,
{
    if 0 <= i < s.len() && !is_ws_char(s[i]) {
        1 + non_ws_run(s, i + 1)
    } else {
        0
    }
}

pub proof fn lemma_non_ws_run_bounds(s: Seq<char>, i: int)
    requires
        0 <= i <= s.len(),
    ensures
        i <= i + non_ws_run(s, i) <= s.len(),
    decreases s.len() - i,
{
    if i < s.len() && !is_ws_char(s[i]) {
        lemma_non_ws_run_bounds(s, i + 1);
    }
}

/// Compute `non_ws_run` executably.
pub fn non_ws_run_at(v: &Vec<char>, i: usize) -> (r: usize)
    requires
        i <= v@.len(),
    ensures
        i + r == i + non_ws_run(v@, i as int),
        i + r <= v@.len(),
{
    proof {
        lemma_non_ws_run_bounds(v@, i as int);
    }
    let mut j: usize = i;
    while j < v.len() && !ws_char(v[j])
        invariant
            i <= j <= v@.len(),
            non_ws_run(v@, i as int) == (j - i) + non_ws_run(v@, j as int),
        decreases v@.len() - j,
    {
        j = j + 1;
    }
    j - i
}

/// Index of the first occurrence of `c` at or after `i`, or `s.len()` if none.
pub open spec fn find_char_from(s: Seq<char>, c: char, i: int) -> int
    decreases s.len() - i,
{
    if 0 <= i < s.len() {
        if s[i] == c {
            i
        } else {
            find_char_from(s, c, i + 1)
        }
    } else {
        s.len() as int
    }
}

pub proof fn lemma_find_char_bounds(s: Seq<char>, c: char, i: int)
    requires
        0 <= i <= s.len(),
    ensures
        i <= find_char_from(s, c, i) <= s.len(),
    decreases s.len() - i,
{
    if i < s.len() && s[i] != c {
        lemma_find_char_bounds(s, c, i + 1);
    }
}

pub fn find_char_at(v: &Vec<char>, c: char, i: usize) -> (r: usize)
    requires
        i <= v@.len(),
    ensures
        r == find_char_from(v@, c, i as int),
        i <= r <= v@.len(),
{
    proof {
        lemma_find_char_bounds(v@, c, i as int);
    }
    let mut j: usize = i;
    while j < v.len() && v[j] != c
        invariant
            i <= j <= v@.len(),
            find_char_from(v@, c, i as int) == find_char_from(v@, c, j as int),
        decreases v@.len() - j,
    {
        j = j + 1;
    }
    j
}

/// Whether `c` occurs anywhere in `s`.
pub open spec fn contains_char(s: Seq<char>, c: char) -> bool {
    find_char_from(s, c, 0) < s.len()
}

pub fn has_char(v: &Vec<char>, c: char) -> (r: bool)
    ensures
        r == contains_char(v@, c),
{
    let j = find_char_at(v, c, 0);
    j < v.len()
}

// ---------------------------------------------------------------------------
// Prefixes and suffixes
// ---------------------------------------------------------------------------

/// `p` occurs in `s` starting exactly at index `i`.
pub open spec fn has_prefix_at(s: Seq<char>, i: int, p: Seq<char>) -> bool {
    0 <= i && i + p.len() <= s.len() && s.subrange(i, i + p.len()) == p
}

/// `s` starts with `p`.
pub open spec fn has_prefix(s: Seq<char>, p: Seq<char>) -> bool {
    has_prefix_at(s, 0, p)
}

/// `s` ends with `p`.
pub open spec fn has_suffix(s: Seq<char>, p: Seq<char>) -> bool {
    p.len() <= s.len() && s.subrange(s.len() - p.len(), s.len() as int) == p
}

pub fn prefix_at(v: &Vec<char>, i: usize, p: &Vec<char>) -> (r: bool)
    requires
        i <= v@.len(),
    ensures
        r == has_prefix_at(v@, i as int, p@),
{
    let n = v.len();
    if p.len() > n - i {
        return false;
    }
    let mut k: usize = 0;
    while k < p.len()
        invariant
            n == v@.len(),
            i + p@.len() <= n,
            k <= p@.len(),
            forall|m: int| 0 <= m < k ==> v@[i + m] == p@[m],
        decreases p@.len() - k,
    {
        if v[i + k] != p[k] {
            proof {
                assert(v@.subrange(i as int, i + p@.len())[k as int] == v@[i + k]);
            }
            return false;
        }
        k = k + 1;
    }
    proof {
        assert(v@.subrange(i as int, i + p@.len()) =~= p@);
    }
    true
}

pub fn starts_with(v: &Vec<char>, p: &Vec<char>) -> (r: bool)
    ensures
        r == has_prefix(v@, p@),
{
    prefix_at(v, 0, p)
}

pub fn ends_with(v: &Vec<char>, p: &Vec<char>) -> (r: bool)
    ensures
        r == has_suffix(v@, p@),
{
    if p.len() > v.len() {
        return false;
    }
    let r = prefix_at(v, v.len() - p.len(), p);
    proof {
        assert(has_prefix_at(v@, v@.len() - p@.len(), p@) == has_suffix(v@, p@));
    }
    r
}

pub fn eq_chars(a: &Vec<char>, b: &Vec<char>) -> (r: bool)
    ensures
        r == (a@ == b@),
{
    if a.len() != b.len() {
        proof {
            assert(a@.len() != b@.len());
        }
        return false;
    }
    let r = prefix_at(a, 0, b);
    proof {
        assert(a@.subrange(0, b@.len() as int) =~= a@);
    }
    r
}

/// Equality of two string slices, by characters.
pub fn str_eq(a: &str, b: &str) -> (r: bool)
    ensures
        r == (a@ == b@),
{
    let av = to_chars(a);
    let bv = to_chars(b);
    eq_chars(&av, &bv)
}

/// The concatenation of two string slices.
pub fn concat_str(a: &str, b: &str) -> (r: String)
    ensures
        r@ == a@ + b@,
{
    let mut s = a.to_owned();
    s.append(b);
    s
}

// ---------------------------------------------------------------------------
// Trimming
// ---------------------------------------------------------------------------

/// Index of the first non-whitespace character at or after `i`, or `s.len()`.
pub open spec fn trim_lo(s: Seq<char>, i: int) -> int
    decreases s.len() - i,
{
    if 0 <= i < s.len() && is_ws_char(s[i]) {
        trim_lo(s, i + 1)
    } else {
        i
    }
}

/// Index one past the last non-whitespace character strictly before `j`, or 0.
pub open spec fn trim_hi(s: Seq<char>, j: int) -> int
    decreases j,
{
    if 0 < j <= s.len() && is_ws_char(s[j - 1]) {
        trim_hi(s, j - 1)
    } else {
        j
    }
}

/// `s` with leading and trailing whitespace removed.
pub open spec fn spec_trim(s: Seq<char>) -> Seq<char> {
    let lo = trim_lo(s, 0);
    let hi = trim_hi(s, s.len() as int);
    if lo >= hi {
        Seq::empty()
    } else {
        s.subrange(lo, hi)
    }
}

pub proof fn lemma_trim_lo_bounds(s: Seq<char>, i: int)
    requires
        0 <= i <= s.len(),
    ensures
        i <= trim_lo(s, i) <= s.len(),
    decreases s.len() - i,
{
    if i < s.len() && is_ws_char(s[i]) {
        lemma_trim_lo_bounds(s, i + 1);
    }
}

pub proof fn lemma_trim_hi_bounds(s: Seq<char>, j: int)
    requires
        0 <= j <= s.len(),
    ensures
        0 <= trim_hi(s, j) <= j,
    decreases j,
{
    if 0 < j && is_ws_char(s[j - 1]) {
        lemma_trim_hi_bounds(s, j - 1);
    }
}

pub proof fn lemma_trim_hi_stops(s: Seq<char>, j: int, k: int)
    requires
        0 <= k < j <= s.len(),
        !is_ws_char(s[k]),
    ensures
        trim_hi(s, j) >= k + 1,
    decreases j,
{
    if is_ws_char(s[j - 1]) {
        lemma_trim_hi_stops(s, j - 1, k);
    }
}

/// The trimmed copy of `v`.
pub fn trim_chars(v: &Vec<char>) -> (r: Vec<char>)
    ensures
        r@ == spec_trim(v@),
{
    proof {
        lemma_trim_lo_bounds(v@, 0);
        lemma_trim_hi_bounds(v@, v@.len() as int);
    }
    let mut lo: usize = 0;
    while lo < v.len() && ws_char(v[lo])
        invariant
            0 <= lo <= v@.len(),
            trim_lo(v@, 0) == trim_lo(v@, lo as int),
        decreases v@.len() - lo,
    {
        lo = lo + 1;
    }
    let mut hi: usize = v.len();
    while hi > lo && ws_char(v[hi - 1])
        invariant
            lo <= hi <= v@.len(),
            lo == trim_lo(v@, 0),
            trim_hi(v@, v@.len() as int) >= lo ==> trim_hi(v@, v@.len() as int) == trim_hi(v@, hi as int),
        decreases hi,
    {
        hi = hi - 1;
    }
    if lo >= hi {
        proof {
            lemma_trim_hi_bounds(v@, hi as int);
        }
        let r: Vec<char> = Vec::new();
        proof {
            assert(r@ =~= spec_trim(v@));
        }
        r
    } else {
        proof {
            assert(!is_ws_char(v@[hi - 1]));
            lemma_trim_hi_stops(v@, v@.len() as int, lo as int);
            assert(trim_hi(v@, v@.len() as int) == hi as int);
        }
        subvec(v, lo, hi)
    }
}
// ---------------------------------------------------------------------------
// Path names: base name and extension
// ---------------------------------------------------------------------------

/// The last index of `c` in `s`, or `-1` when `c` does not occur.
pub open spec fn last_pos(s: Seq<char>, c: char) -> int
    decreases s.len(),
{
    if s.len() == 0 {
        -1
    } else if s[s.len() - 1] == c {
        s.len() - 1
    } else {
        last_pos(s.drop_last(), c)
    }
}

pub proof fn lemma_last_pos_bounds(s: Seq<char>, c: char)
    ensures
        -1 <= last_pos(s, c) < s.len(),
    decreases s.len(),
{
    if s.len() > 0 && s[s.len() - 1] != c {
        lemma_last_pos_bounds(s.drop_last(), c);
    }
}

pub fn last_pos_of(v: &Vec<char>, c: char) -> (r: Option<usize>)
    ensures
        (match r {
            Some(i) => i as int == last_pos(v@, c),
            None => last_pos(v@, c) == -1,
        }),
{
    let mut j: usize = v.len();
    proof {
        assert(v@.take(v@.len() as int) =~= v@);
    }
    while j > 0
        invariant
            j <= v@.len(),
            last_pos(v@, c) == last_pos(v@.take(j as int), c),
        decreases j,
    {
        if v[j - 1] == c {
            proof {
                assert(v@.take(j as int).len() == j as int);
                assert(v@.take(j as int)[j - 1] == v@[j - 1]);
            }
            return Some(j - 1);
        }
        proof {
            assert(v@.take(j as int).drop_last() =~= v@.take(j as int - 1));
            assert(v@.take(j as int)[j - 1] == v@[j - 1]);
        }
        j = j - 1;
    }
    proof {
        assert(v@.take(0) =~= Seq::<char>::empty());
    }
    None
}

/// The file name of a path: everything after the last `/`.
pub open spec fn base_name(path: Seq<char>) -> Seq<char> {
    path.skip(last_pos(path, '/') + 1)
}

/// Whether the file name of `path` has the extension `ext`: a last dot that
/// is neither the name's first character nor absent, with `ext` after it.
pub open spec fn has_extension(path: Seq<char>, ext: Seq<char>) -> bool {
    let name = base_name(path);
    let d = last_pos(name, '.');
    d > 0 && name.skip(d + 1) == ext
}

/// The file name of a path, executably.
pub fn base_of(v: &Vec<char>) -> (r: Vec<char>)
    ensures
        r@ == base_name(v@),
{
    let n = v.len();
    proof {
        lemma_last_pos_bounds(v@, '/');
    }
    let start = match last_pos_of(v, '/') {
        Some(i) => i + 1,
        None => 0,
    };
    let r = subvec(v, start, n);
    proof {
        assert(r@ =~= base_name(v@));
    }
    r
}

/// Whether the file name of `path` has the extension `ext`.
pub fn path_has_extension(path: &str, ext: &Vec<char>) -> (r: bool)
    ensures
        r == has_extension(path@, ext@),
{
    let v = to_chars(path);
    let name = base_of(&v);
    proof {
        lemma_last_pos_bounds(name@, '.');
    }
    let nn = name.len();
    match last_pos_of(&name, '.') {
        Some(d) => {
            if d == 0 {
                return false;
            }
            let tail = subvec(&name, d + 1, nn);
            proof {
                assert(tail@ =~= name@.skip(d as int + 1));
            }
            eq_chars(&tail, ext)
        },
        None => false,
    }
}

// ---------------------------------------------------------------------------
// Literal substring replacement
// ---------------------------------------------------------------------------

/// `s` from index `i` on, with every non-overlapping occurrence of `pat`
/// (scanned left to right) replaced by `rep`. The pattern must be non-empty.
pub open spec fn spec_replace_from(s: Seq<char>, pat: Seq<char>, rep: Seq<char>, i: int) -> Seq<char>
    decreases s.len() - i,
{
    if 0 <= i < s.len() {
        if pat.len() > 0 && has_prefix_at(s, i, pat) {
            rep + spec_replace_from(s, pat, rep, i + pat.len())
        } else {
            seq![s[i]] + spec_replace_from(s, pat, rep, i + 1)
        }
    } else {
        Seq::empty()
    }
}

/// `s` with every occurrence of `pat` replaced by `rep`.
pub open spec fn spec_replace(s: Seq<char>, pat: Seq<char>, rep: Seq<char>) -> Seq<char> {
    spec_replace_from(s, pat, rep, 0)
}

pub fn replace_chars(v: &Vec<char>, pat: &Vec<char>, rep: &Vec<char>) -> (r: Vec<char>)
    requires
        pat@.len() > 0,
    ensures
        r@ == spec_replace(v@, pat@, rep@),
{
    let mut out: Vec<char> = Vec::new();
    let mut i: usize = 0;
    while i < v.len()
        invariant
            pat@.len() > 0,
            i <= v@.len(),
            spec_replace(v@, pat@, rep@) == out@ + spec_replace_from(v@, pat@, rep@, i as int),
        decreases v@.len() - i,
    {
        if prefix_at(v, i, pat) {
            push_all(&mut out, rep);
            i = i + pat.len();
        } else {
            let ghost out0 = out@;
            out.push(v[i]);
            proof {
                assert(out0 + spec_replace_from(v@, pat@, rep@, i as int) =~= out0 + seq![v@[i as int]]
                    + spec_replace_from(v@, pat@, rep@, i + 1));
                assert(out@ =~= out0 + seq![v@[i as int]]);
            }
            i = i + 1;
        }
    }
    out
}

// ---------------------------------------------------------------------------
// Splitting into lines
// ---------------------------------------------------------------------------

/// A line with one trailing carriage return removed, as `str::lines` does.
pub open spec fn strip_cr(l: Seq<char>) -> Seq<char> {
    if l.len() > 0 && l[l.len() - 1] == '\r' {
        l.take(l.len() - 1)
    } else {
        l
    }
}

/// The lines of `s` from index `i` on: maximal runs not containing a newline,
/// each with a trailing carriage return removed; a final newline does not
/// open an empty last line.
pub open spec fn spec_lines_from(s: Seq<char>, i: int) -> Seq<Seq<char>>
    decreases s.len() + 1 - i,
        via spec_lines_from_decreases
{
    if 0 <= i < s.len() {
        let e = find_char_from(s, '\n', i);
        seq![strip_cr(s.subrange(i, e))] + spec_lines_from(s, e + 1)
    } else {
        Seq::empty()
    }
}

#[via_fn]
proof fn spec_lines_from_decreases(s: Seq<char>, i: int) {
    if 0 <= i < s.len() {
        lemma_find_char_bounds(s, '\n', i);
    }
}

/// The lines of `s`, as `str::lines` yields them.
pub open spec fn spec_lines(s: Seq<char>) -> Seq<Seq<char>> {
    spec_lines_from(s, 0)
}

/// Split a string into its lines.
pub fn split_lines(content: &str) -> (r: Vec<Vec<char>>)
    ensures
        r.deep_view() == spec_lines(content@),
{
    let v = to_chars(content);
    let mut r: Vec<Vec<char>> = Vec::new();
    let mut i: usize = 0;
    while i < v.len()
        invariant
            v@ == content@,
            i <= v@.len() + 1,
            spec_lines(content@) == r.deep_view() + spec_lines_from(v@, i as int),
        decreases v@.len() - i,
    {
        let e = find_char_at(&v, '\n', i);
        let mut line = subvec(&v, i, e);
        if line.len() > 0 && line[line.len() - 1] == '\r' {
            let _ = line.pop();
            proof {
                assert(line@ =~= strip_cr(v@.subrange(i as int, e as int)));
            }
        }
        proof {
            assert(line@ == strip_cr(v@.subrange(i as int, e as int)));
        }
        let ghost rdv0 = r.deep_view();
        let ghost i0 = i as int;
        r.push(line);
        proof {
            assert(r.deep_view() =~~= rdv0 + seq![line@]);
        }
        if e < v.len() {
            i = e + 1;
        } else {
            i = v.len();
        }
        proof {
            assert(0 <= i0 < v@.len());
            assert(spec_lines_from(v@, i0) == seq![strip_cr(v@.subrange(i0, e as int))]
                + spec_lines_from(v@, e as int + 1));
            assert(seq![line@] =~= seq![strip_cr(v@.subrange(i0, e as int))]);
            if e < v@.len() {
                assert(spec_lines_from(v@, i as int) == spec_lines_from(v@, e as int + 1));
            } else {
                assert(spec_lines_from(v@, i as int) =~= Seq::<Seq<char>>::empty());
                assert(spec_lines_from(v@, e as int + 1) =~= Seq::<Seq<char>>::empty());
            }
            assert(spec_lines_from(v@, i0) == seq![line@] + spec_lines_from(v@, i as int));
            assert(rdv0 + spec_lines_from(v@, i0) =~~= r.deep_view() + spec_lines_from(v@, i as int));
        }
    }
    proof {
        assert(r.deep_view() =~= spec_lines(content@));
    }
    r
}

/// Total length of the lines from index `i` on.
pub open spec fn total_len_from(ls: Seq<Seq<char>>, i: int) -> int
    decreases ls.len() - i,
{
    if 0 <= i < ls.len() {
        ls[i].len() + total_len_from(ls, i + 1)
    } else {
        0
    }
}

pub proof fn lemma_total_len_nonneg(ls: Seq<Seq<char>>, i: int)
    ensures
        total_len_from(ls, i) >= 0,
    decreases ls.len() - i,
{
    if 0 <= i < ls.len() {
        lemma_total_len_nonneg(ls, i + 1);
    }
}

pub proof fn lemma_total_len_step(ls: Seq<Seq<char>>, i: int, j: int)
    requires
        0 <= i <= j,
    ensures
        total_len_from(ls, i) >= total_len_from(ls, j),
    decreases j - i,
{
    lemma_total_len_nonneg(ls, i);
    lemma_total_len_nonneg(ls, j);
    if i < j && i < ls.len() {
        lemma_total_len_step(ls, i + 1, j);
    } else if i < j {
        lemma_total_len_step(ls, i + 1, j);
    }
}

/// The lines of a string hold at most as many characters as the string.
pub proof fn lemma_lines_total_len(s: Seq<char>, i: int)
    requires
        0 <= i <= s.len(),
    ensures
        total_len_from(spec_lines_from(s, i), 0) <= s.len() - i,
    decreases s.len() - i,
{
    if i < s.len() {
        let e = find_char_from(s, '\n', i);
        lemma_find_char_bounds(s, '\n', i);
        let line = strip_cr(s.subrange(i, e));
        let rest = if e + 1 <= s.len() {
            spec_lines_from(s, e + 1)
        } else {
            spec_lines_from(s, e + 1)
        };
        if e + 1 <= s.len() {
            lemma_lines_total_len(s, e + 1);
        } else {
            assert(spec_lines_from(s, e + 1) =~= Seq::<Seq<char>>::empty());
        }
        let whole = spec_lines_from(s, i);
        assert(whole == seq![line] + spec_lines_from(s, e + 1));
        assert(whole[0] == line);
        assert(whole.len() >= 1);
        lemma_total_len_shift(whole, spec_lines_from(s, e + 1), line);
        lemma_total_len_nonneg(spec_lines_from(s, e + 1), 0);
    }
}

/// Unfolding helper: the total length of `seq![x] + r` is `x.len()` plus the
/// total length of `r`.
pub proof fn lemma_total_len_shift(whole: Seq<Seq<char>>, r: Seq<Seq<char>>, x: Seq<char>)
    requires
        whole == seq![x] + r,
    ensures
        total_len_from(whole, 0) == x.len() + total_len_from(r, 0),
    decreases r.len(),
{
    lemma_total_len_tail(whole, r, 1);
}

proof fn lemma_total_len_tail(whole: Seq<Seq<char>>, r: Seq<Seq<char>>, k: int)
    requires
        whole.len() == r.len() + 1,
        1 <= k <= whole.len(),
        forall|m: int| 1 <= m < whole.len() ==> whole[m] == r[m - 1],
    ensures
        total_len_from(whole, k) == total_len_from(r, k - 1),
    decreases whole.len() - k,
{
    if k < whole.len() {
        lemma_total_len_tail(whole, r, k + 1);
    }
}

// ---------------------------------------------------------------------------
// Lexicographic order and sorting
// ---------------------------------------------------------------------------

/// Lexicographic order on character sequences, by code point.
pub open spec fn lex_le(a: Seq<char>, b: Seq<char>) -> bool
    decreases a.len(),
{
    if a.len() == 0 {
        true
    } else if b.len() == 0 {
        false
    } else if a[0] != b[0] {
        a[0] < b[0]
    } else {
        lex_le(a.skip(1), b.skip(1))
    }
}

pub fn lex_le_chars(a: &Vec<char>, b: &Vec<char>) -> (r: bool)
    ensures
        r == lex_le(a@, b@),
{
    proof {
        assert(a@.skip(0) =~= a@);
        assert(b@.skip(0) =~= b@);
    }
    let mut i: usize = 0;
    loop
        invariant
            i <= a@.len(),
            i <= b@.len(),
            lex_le(a@, b@) == lex_le(a@.skip(i as int), b@.skip(i as int)),
        decreases a@.len() - i,
    {
        if i == a.len() {
            return true;
        }
        if i == b.len() {
            return false;
        }
        if a[i] != b[i] {
            return a[i] < b[i];
        }
        proof {
            assert(a@.skip(i as int).skip(1) =~= a@.skip(i + 1));
            assert(b@.skip(i as int).skip(1) =~= b@.skip(i + 1));
        }
        i = i + 1;
    }
}

/// `x` inserted into `s` before the first element it is ordered at or below.
pub open spec fn spec_insert_sorted(x: Seq<char>, s: Seq<Seq<char>>) -> Seq<Seq<char>>
    decreases s.len(),
{
    if s.len() == 0 {
        seq![x]
    } else if lex_le(x, s[0]) {
        seq![x] + s
    } else {
        seq![s[0]] + spec_insert_sorted(x, s.skip(1))
    }
}

/// Insertion sort of `s`, stable for equal keys.
pub open spec fn spec_sort(s: Seq<Seq<char>>) -> Seq<Seq<char>>
    decreases s.len(),
{
    if s.len() == 0 {
        Seq::empty()
    } else {
        spec_insert_sorted(s.last(), spec_sort(s.drop_last()))
    }
}

proof fn lemma_insert_sorted_at(x: Seq<char>, s: Seq<Seq<char>>, i: int)
    requires
        0 <= i <= s.len(),
        forall|k: int| 0 <= k < i ==> !lex_le(x, s[k]),
        i == s.len() || lex_le(x, s[i]),
    ensures
        spec_insert_sorted(x, s) == s.take(i) + seq![x] + s.skip(i),
    decreases i,
{
    if i == 0 {
        if s.len() == 0 {
            assert(spec_insert_sorted(x, s) =~= s.take(0) + seq![x] + s.skip(0));
        } else {
            assert(spec_insert_sorted(x, s) =~= s.take(0) + seq![x] + s.skip(0));
        }
    } else {
        assert(!lex_le(x, s[0]));
        lemma_insert_sorted_at(x, s.skip(1), i - 1);
        assert(s.skip(1).take(i - 1) =~= s.take(i).skip(1));
        assert(s.skip(1).skip(i - 1) =~= s.skip(i));
        assert(seq![s[0]] + (s.skip(1).take(i - 1) + seq![x] + s.skip(1).skip(i - 1)) =~= s.take(i)
            + seq![x] + s.skip(i));
    }
}

/// Insert one string into an already sorted vector.
fn insert_sorted_string(r: &mut Vec<String>, x: String)
    ensures
        final(r).deep_view() == spec_insert_sorted(x@, old(r).deep_view()),
{
    let xc = to_chars(x.as_str());
    let mut i: usize = 0;
    let mut stop = false;
    while !stop
        invariant
            i <= r@.len(),
            xc@ == x@,
            r@ == old(r)@,
            forall|k: int| 0 <= k < i ==> !lex_le(x@, r.deep_view()[k]),
            stop ==> i == r@.len() || lex_le(x@, r.deep_view()[i as int]),
        decreases r@.len() - i + (if stop { 0int } else { 1int }),
    {
        if i == r.len() {
            stop = true;
        } else {
            let rc = to_chars(r[i].as_str());
            if lex_le_chars(&xc, &rc) {
                stop = true;
            } else {
                i = i + 1;
            }
        }
    }
    proof {
        lemma_insert_sorted_at(x@, r.deep_view(), i as int);
    }
    r.insert(i, x);
    proof {
        assert(r.deep_view() =~= old(r).deep_view().take(i as int) + seq![x@] + old(r).deep_view().skip(i as int));
    }
}

/// A copy of `v` sorted in lexicographic order, stable for equal keys.
pub fn sort_strings(v: &Vec<String>) -> (r: Vec<String>)
    ensures
        r.deep_view() == spec_sort(v.deep_view()),
{
    let mut r: Vec<String> = Vec::new();
    let mut i: usize = 0;
    while i < v.len()
        invariant
            i <= v@.len(),
            r.deep_view() == spec_sort(v.deep_view().take(i as int)),
        decreases v@.len() - i,
    {
        let x = v[i].clone();
        insert_sorted_string(&mut r, x);
        i = i + 1;
        proof {
            assert(v.deep_view().take(i as int).drop_last() =~= v.deep_view().take(i - 1));
            assert(v.deep_view().take(i as int).last() == v.deep_view()[i - 1]);
        }
    }
    proof {
        assert(v.deep_view().take(v@.len() as int) =~= v.deep_view());
    }
    r
}

// ---------------------------------------------------------------------------
// Joining with newlines
// ---------------------------------------------------------------------------

/// The elements of `parts` joined with a newline between neighbours.
pub open spec fn spec_join_nl(parts: Seq<Seq<char>>) -> Seq<char>
    decreases parts.len(),
{
    if parts.len() == 0 {
        Seq::empty()
    } else if parts.len() == 1 {
        parts[0]
    } else {
        spec_join_nl(parts.drop_last()) + seq!['\n'] + parts.last()
    }
}

/// Join the lines `[from, to)` of `lines` with newlines.
pub fn join_nl_range(lines: &Vec<Vec<char>>, from: usize, to: usize) -> (r: Vec<char>)
    requires
        from <= to <= lines@.len(),
    ensures
        r@ == spec_join_nl(lines.deep_view().subrange(from as int, to as int)),
{
    let mut r: Vec<char> = Vec::new();
    let mut i: usize = from;
    while i < to
        invariant
            from <= i <= to <= lines@.len(),
            r@ == spec_join_nl(lines.deep_view().subrange(from as int, i as int)),
        decreases to - i,
    {
        if i > from {
            r.push('\n');
        }
        push_all(&mut r, &lines[i]);
        i = i + 1;
        proof {
            let dv = lines.deep_view();
            let cur = dv.subrange(from as int, i as int);
            assert(cur.drop_last() =~= dv.subrange(from as int, i - 1));
            assert(cur.last() == dv[i - 1]);
            if i - 1 == from {
                assert(r@ =~= spec_join_nl(cur));
            } else {
                assert(r@ =~= spec_join_nl(cur.drop_last()) + seq!['\n'] + cur.last());
            }
        }
    }
    r
}
} // verus!
