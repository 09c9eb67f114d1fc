//! The library's stated laws, proved once and for all: the value chain of a
//! trace, the append and prepend patterns of the value algebra, the inertness
//! of comment and blank lines, the single quote-stripping of the plain
//! key-value format, the order and permutation facts of the catalog's sort,
//! and two facts about the traversal machine — an already-processed file's
//! content is ignored (cycle safety), and with source-following off the
//! machine only ever asks for the work list's own files.

use vstd::prelude::*;
use vstd::multiset::Multiset;

use crate::cli::spec_is_valid_identifier;
use crate::environment::{spec_env_line_change, spec_parse_assignment};
use crate::shell::{
    EntryModel, LineModel, spec_analyze, spec_classify, spec_line_entry, spec_parse_shell,
    var_ref_braced, var_ref_plain,
};
use crate::text::{
    find_char_from, is_ident_char, is_ident_start_char, is_ws_char, lex_le, spec_insert_sorted,
    spec_sort, spec_trim, trim_hi, trim_lo, lemma_trim_hi_stops,
};
use crate::variable::{ChangeModel, Operation, chained, value_after_change};

verus! {

/// Law: within one chained trace, the first change starts from nothing, and
/// every later change's `value_before` equals the previous change's
/// `value_after` — or `None` when the previous change was an unset.
pub proof fn law_value_chain(changes: Seq<ChangeModel>)
    requires
        chained(changes),
    ensures
        changes.len() > 0 ==> changes[0].value_before is None,
        forall|i: int|
            1 <= i < changes.len() ==> changes[i].value_before == (
            if (#[trigger] changes[i - 1]).operation == Operation::Unset {
                None::<Seq<char>>
            } else {
                Some(changes[i - 1].value_after)
            }),
{
    assert forall|i: int|
        1 <= i < changes.len() implies changes[i].value_before == (
        if (#[trigger] changes[i - 1]).operation == Operation::Unset {
            None::<Seq<char>>
        } else {
            Some(changes[i - 1].value_after)
        }) by {
        assert(changes[i].value_before == value_after_change(changes[i - 1]));
    }
}

/// Trimming a text whose first and last characters are not blanks leaves it
/// unchanged.
pub proof fn lemma_trim_noop(s: Seq<char>)
    requires
        s.len() > 0,
        !is_ws_char(s[0]),
        !is_ws_char(s[s.len() - 1]),
    ensures
        spec_trim(s) == s,
{
    assert(trim_lo(s, 0) == 0);
    assert(trim_hi(s, s.len() as int) == s.len());
    assert(s.subrange(0, s.len() as int) =~= s);
}

/// Law: with a current value, a right-hand side of the shape `$NAME:rest`
/// is an append, and the result is the current value, a separator, and the
/// rest; without a current value, the rest alone.
pub proof fn law_append_pattern(
    name: Seq<char>,
    rest: Seq<char>,
    current: Option<Seq<char>>,
    default_op: Operation,
    home: Option<Seq<char>>,
)
    requires
        spec_is_valid_identifier(name),
        rest.len() > 0 ==> !is_ws_char(rest[rest.len() - 1]),
    ensures
        spec_analyze(name, var_ref_plain(name) + seq![':'] + rest, current, default_op, home) == (
        Operation::Append,
        match current {
            Some(c) => c + seq![':'] + rest,
            None => rest,
        },
    ),
{
    let v = var_ref_plain(name) + seq![':'] + rest;
    assert(v[0] == '$');
    assert(!is_ws_char(v[0]));
    assert(v[v.len() - 1] == (if rest.len() > 0 {
        rest[rest.len() - 1]
    } else {
        ':'
    }));
    lemma_trim_noop(v);
    assert(v.subrange(1, 1 + name.len() as int) =~= name);
    assert(spec_trim(v) == v);
    // No quote layer: the first character is a dollar sign.
    assert(crate::common::spec_strip_quotes(v) == v);
    let r1 = var_ref_plain(name);
    let r2 = var_ref_braced(name);
    assert(v.subrange(0, r1.len() as int) =~= r1);
    assert(crate::text::has_prefix(v, r1));
    // The braced form cannot match: an identifier never opens with a brace.
    assert(is_ident_start_char(name[0]));
    if crate::text::has_prefix(v, r2) {
        assert(v.subrange(0, r2.len() as int)[1] == v[1]);
        assert(r2[1] == '{');
        assert(v[1] == name[0]);
    }
    assert(!crate::text::has_prefix(v, r2));
    assert(v[r1.len() as int] == ':');
    assert(v.skip(r1.len() as int + 1) =~= rest);
}

/// Law: with a current value, a right-hand side of the shape `rest:$NAME`
/// is a prepend, and the result is the rest, a separator, and the current
/// value; without a current value, the rest alone. The rest must not itself
/// open with a reference (that is the append pattern's business).
pub proof fn law_prepend_pattern(
    name: Seq<char>,
    rest: Seq<char>,
    current: Option<Seq<char>>,
    default_op: Operation,
    home: Option<Seq<char>>,
)
    requires
        spec_is_valid_identifier(name),
        rest.len() > 0 ==> !is_ws_char(rest[0]),
        rest.len() > 0 ==> rest[0] != '$',
    ensures
        spec_analyze(name, rest + seq![':'] + var_ref_plain(name), current, default_op, home) == (
        Operation::Prepend,
        match current {
            Some(c) => rest + seq![':'] + c,
            None => rest,
        },
    ),
{
    let r1 = var_ref_plain(name);
    let r2 = var_ref_braced(name);
    let v = rest + seq![':'] + r1;
    assert(is_ident_start_char(name[0]));
    assert(is_ident_char(name[name.len() - 1]));
    assert(v[v.len() - 1] == name[name.len() - 1]);
    assert(!is_ws_char(v[v.len() - 1]));
    assert(v[0] == (if rest.len() > 0 {
        rest[0]
    } else {
        ':'
    }));
    assert(!is_ws_char(v[0]));
    lemma_trim_noop(v);
    // No quote layer: the last character is an identifier character.
    assert(v[v.len() - 1] != '"' && v[v.len() - 1] != '\'');
    assert(crate::common::spec_strip_quotes(v) == v);
    // The append check fails: the value does not open with a dollar sign.
    assert(v[0] != '$');
    if crate::text::has_prefix(v, r1) {
        assert(v.subrange(0, r1.len() as int)[0] == v[0]);
    }
    if crate::text::has_prefix(v, r2) {
        assert(v.subrange(0, r2.len() as int)[0] == v[0]);
    }
    assert(!crate::text::has_prefix(v, r1) && !crate::text::has_prefix(v, r2));
    // The value ends with the plain reference and not with the braced one.
    assert(v.subrange(v.len() - r1.len(), v.len() as int) =~= r1);
    assert(crate::text::has_suffix(v, r1));
    if crate::text::has_suffix(v, r2) {
        assert(v.subrange(v.len() - r2.len(), v.len() as int)[r2.len() - 1] == v[v.len() - 1]);
        assert(r2[r2.len() - 1] == '}');
    }
    assert(!crate::text::has_suffix(v, r2));
    assert(v.len() > r1.len());
    assert(v[v.len() - r1.len() - 1] == ':');
    assert(v.take(v.len() - r1.len() - 1) =~= rest);
}

/// Law: a line whose first non-blank character is `#` — any valid assignment
/// line prefixed with `#` included — classifies as a skip: it contributes no
/// change and no directive.
pub proof fn law_comment_line_inert(line: Seq<char>, target: Seq<char>)
    ensures
        spec_classify(seq!['#'] + line, target) == LineModel::Skip,
{
    let v = seq!['#'] + line;
    assert(v.len() >= 1);
    assert(v[0] == '#');
    assert(!is_ws_char(v[0]));
    assert(trim_lo(v, 0) == 0);
    lemma_trim_hi_stops(v, v.len() as int, 0);
    crate::text::lemma_trim_hi_bounds(v, v.len() as int);
    assert(trim_hi(v, v.len() as int) >= 1);
    assert(spec_trim(v) == v.subrange(0, trim_hi(v, v.len() as int)));
    assert(spec_trim(v)[0] == '#');
    assert(spec_trim(v).len() > 0);
}

/// All characters of `s` are blanks.
pub open spec fn all_blank(s: Seq<char>) -> bool {
    forall|i: int| 0 <= i < s.len() ==> is_ws_char(#[trigger] s[i])
}

proof fn lemma_trim_lo_all_blank(s: Seq<char>, i: int)
    requires
        all_blank(s),
        0 <= i <= s.len(),
    ensures
        trim_lo(s, i) == s.len(),
    decreases s.len() - i,
{
    if i < s.len() {
        lemma_trim_lo_all_blank(s, i + 1);
    }
}

/// Law: a blank line classifies as a skip: it never produces a change.
pub proof fn law_blank_line_inert(line: Seq<char>, target: Seq<char>)
    requires
        all_blank(line),
    ensures
        spec_classify(line, target) == LineModel::Skip,
{
    lemma_trim_lo_all_blank(line, 0);
    crate::text::lemma_trim_hi_bounds(line, line.len() as int);
    assert(spec_trim(line).len() == 0);
}

/// Law: a line that classifies as a skip contributes nothing to the parse
/// and leaves the running value untouched: parsing from it equals parsing
/// from the next line with the same running value.
pub proof fn law_skip_line_ignored(
    lines: Seq<Seq<char>>,
    i: int,
    path: Seq<char>,
    target: Seq<char>,
    current: Option<Seq<char>>,
    home: Option<Seq<char>>,
)
    requires
        0 <= i < lines.len(),
        spec_classify(lines[i], target) == LineModel::Skip,
    ensures
        spec_line_entry(lines[i], path, i + 1, target, current, home) is None,
        spec_parse_shell(lines, i, path, target, current, home) == spec_parse_shell(
            lines,
            i + 1,
            path,
            target,
            current,
            home,
        ),
{
}

proof fn lemma_find_first(s: Seq<char>, c: char, p: int, i: int)
    requires
        0 <= i <= p < s.len(),
        s[p] == c,
        forall|k: int| i <= k < p ==> s[k] != c,
    ensures
        find_char_from(s, c, i) == p,
    decreases p - i,
{
    if i < p {
        lemma_find_first(s, c, p, i + 1);
    }
}

/// Law: in the plain key-value format, a value wrapped in one layer of
/// matching quotes — double or single — parses to the bare value, the quotes
/// stripped exactly once, whatever the value holds.
pub proof fn law_quotes_stripped_once(key: Seq<char>, v: Seq<char>, q: char)
    requires
        spec_is_valid_identifier(key),
        q == '"' || q == '\'',
    ensures
        spec_parse_assignment(key + seq!['='] + seq![q] + v + seq![q]) == Some((key, v)),
{
    let line = key + seq!['='] + seq![q] + v + seq![q];
    assert forall|k: int| 0 <= k < key.len() implies line[k] != '=' by {
        assert(line[k] == key[k]);
        assert(is_ident_char(key[k]));
    }
    assert(line[key.len() as int] == '=');
    lemma_find_first(line, '=', key.len() as int, 0);
    let e = find_char_from(line, '=', 0);
    assert(e == key.len());
    assert(line.take(e) =~= key);
    assert(!is_ws_char(key[0]) && !is_ws_char(key[key.len() - 1]));
    lemma_trim_noop(key);
    let vp0 = line.skip(e + 1);
    assert(vp0 =~= seq![q] + v + seq![q]);
    assert(vp0[0] == q && vp0[vp0.len() - 1] == q);
    assert(!is_ws_char(q));
    lemma_trim_noop(vp0);
    let vp = spec_trim(vp0);
    assert(vp == vp0);
    assert(vp.len() >= 2);
    assert(vp.subrange(1, vp.len() - 1) =~= v);
}

// ---------------------------------------------------------------------------
// Sorting: the drop-in fragment order is a lexicographic permutation
// ---------------------------------------------------------------------------

/// The sequence is in lexicographic order.
pub open spec fn lex_sorted(s: Seq<Seq<char>>) -> bool {
    forall|i: int, j: int| 0 <= i < j < s.len() ==> lex_le(#[trigger] s[i], #[trigger] s[j])
}

/// The lexicographic order is total.
pub proof fn lemma_lex_le_total(a: Seq<char>, b: Seq<char>)
    ensures
        lex_le(a, b) || lex_le(b, a),
    decreases a.len(),
{
    if a.len() > 0 && b.len() > 0 && a[0] == b[0] {
        lemma_lex_le_total(a.skip(1), b.skip(1));
    }
}

/// The lexicographic order is transitive.
pub proof fn lemma_lex_le_trans(a: Seq<char>, b: Seq<char>, c: Seq<char>)
    requires
        lex_le(a, b),
        lex_le(b, c),
    ensures
        lex_le(a, c),
    decreases a.len(),
{
    if a.len() > 0 && b.len() > 0 && c.len() > 0 && a[0] == b[0] && b[0] == c[0] {
        lemma_lex_le_trans(a.skip(1), b.skip(1), c.skip(1));
    }
}

proof fn lemma_insert_sorted_len(x: Seq<char>, s: Seq<Seq<char>>)
    ensures
        spec_insert_sorted(x, s).len() == s.len() + 1,
    decreases s.len(),
{
    if s.len() > 0 && !lex_le(x, s[0]) {
        lemma_insert_sorted_len(x, s.skip(1));
    }
}

/// Every element of an insertion result is the inserted element or one of
/// the original sequence.
proof fn lemma_insert_sorted_elems(x: Seq<char>, s: Seq<Seq<char>>, k: int)
    requires
        0 <= k < spec_insert_sorted(x, s).len(),
    ensures
        spec_insert_sorted(x, s).len() == s.len() + 1,
        spec_insert_sorted(x, s)[k] == x || exists|j: int|
            0 <= j < s.len() && spec_insert_sorted(x, s)[k] == s[j],
    decreases s.len(),
{
    lemma_insert_sorted_len(x, s);
    let r = spec_insert_sorted(x, s);
    if s.len() == 0 {
    } else if lex_le(x, s[0]) {
        if k > 0 {
            assert(r[k] == s[k - 1]);
        }
    } else {
        if k == 0 {
            assert(r[0] == s[0]);
        } else {
            lemma_insert_sorted_len(x, s.skip(1));
            lemma_insert_sorted_elems(x, s.skip(1), k - 1);
            assert(r[k] == spec_insert_sorted(x, s.skip(1))[k - 1]);
            if spec_insert_sorted(x, s.skip(1))[k - 1] != x {
                let j = choose|j: int|
                    0 <= j < s.skip(1).len() && spec_insert_sorted(x, s.skip(1))[k - 1] == s.skip(
                        1,
                    )[j];
                assert(s.skip(1)[j] == s[j + 1]);
            }
        }
    }
}

/// Inserting into a sorted sequence keeps it sorted.
proof fn lemma_insert_sorted_preserves(x: Seq<char>, s: Seq<Seq<char>>)
    requires
        lex_sorted(s),
    ensures
        lex_sorted(spec_insert_sorted(x, s)),
    decreases s.len(),
{
    let r = spec_insert_sorted(x, s);
    if s.len() == 0 {
    } else if lex_le(x, s[0]) {
        assert forall|i: int, j: int| 0 <= i < j < r.len() implies lex_le(
            #[trigger] r[i],
            #[trigger] r[j],
        ) by {
            if i == 0 {
                assert(r[j] == s[j - 1]);
                if j == 1 {
                } else {
                    lemma_lex_le_trans(x, s[0], s[j - 1]);
                }
            } else {
                assert(r[i] == s[i - 1] && r[j] == s[j - 1]);
            }
        }
    } else {
        let rest = s.skip(1);
        assert forall|i: int, j: int| 0 <= i < j < rest.len() implies lex_le(
            #[trigger] rest[i],
            #[trigger] rest[j],
        ) by {
            assert(rest[i] == s[i + 1] && rest[j] == s[j + 1]);
        }
        lemma_insert_sorted_len(x, rest);
        lemma_insert_sorted_preserves(x, rest);
        lemma_lex_le_total(x, s[0]);
        assert forall|i: int, j: int| 0 <= i < j < r.len() implies lex_le(
            #[trigger] r[i],
            #[trigger] r[j],
        ) by {
            if i == 0 {
                assert(r[j] == spec_insert_sorted(x, rest)[j - 1]);
                lemma_insert_sorted_elems(x, rest, j - 1);
                if r[j] == x {
                } else {
                    let m = choose|m: int| 0 <= m < rest.len() && r[j] == rest[m];
                    assert(rest[m] == s[m + 1]);
                    assert(lex_le(s[0], s[m + 1]));
                }
            } else {
                assert(r[i] == spec_insert_sorted(x, rest)[i - 1]);
                assert(r[j] == spec_insert_sorted(x, rest)[j - 1]);
            }
        }
    }
}

proof fn lemma_insert_sorted_multiset(x: Seq<char>, s: Seq<Seq<char>>)
    ensures
        spec_insert_sorted(x, s).to_multiset() == s.to_multiset().insert(x),
    decreases s.len(),
{
    broadcast use vstd::seq_lib::group_to_multiset_ensures;

    let r = spec_insert_sorted(x, s);
    if s.len() == 0 {
        assert(r =~= Seq::<Seq<char>>::empty().push(x));
        assert(Seq::<Seq<char>>::empty().push(x).to_multiset() =~= Seq::<Seq<
            char,
        >>::empty().to_multiset().insert(x));
        assert(s.to_multiset() =~= Multiset::<Seq<char>>::empty());
    } else if lex_le(x, s[0]) {
        assert(r =~= seq![x] + s);
        lemma_multiset_of_cons(x, s);
    } else {
        lemma_insert_sorted_multiset(x, s.skip(1));
        assert(r =~= seq![s[0]] + spec_insert_sorted(x, s.skip(1)));
        lemma_multiset_of_cons(s[0], spec_insert_sorted(x, s.skip(1)));
        lemma_multiset_of_cons(s[0], s.skip(1));
        assert(s =~= seq![s[0]] + s.skip(1));
        assert(r.to_multiset() =~= s.to_multiset().insert(x));
    }
}

/// The multiset of `seq![x] + s` is the multiset of `s` with `x` inserted.
proof fn lemma_multiset_of_cons(x: Seq<char>, s: Seq<Seq<char>>)
    ensures
        (seq![x] + s).to_multiset() == s.to_multiset().insert(x),
    decreases s.len(),
{
    broadcast use vstd::seq_lib::group_to_multiset_ensures;

    if s.len() == 0 {
        assert(seq![x] + s =~= Seq::<Seq<char>>::empty().push(x));
        assert((Seq::<Seq<char>>::empty().push(x)).to_multiset() =~= Seq::<Seq<
            char,
        >>::empty().to_multiset().insert(x));
    } else {
        lemma_multiset_of_cons(x, s.drop_last());
        assert(seq![x] + s =~= (seq![x] + s.drop_last()).push(s.last()));
        assert(s =~= s.drop_last().push(s.last()));
        assert((seq![x] + s).to_multiset() =~= (seq![x] + s.drop_last()).to_multiset().insert(
            s.last(),
        ));
        assert(s.to_multiset() =~= s.drop_last().to_multiset().insert(s.last()));
        assert(s.drop_last().to_multiset().insert(x).insert(s.last())
            =~= s.drop_last().to_multiset().insert(s.last()).insert(x));
    }
}

/// Law: the sort the catalog applies to drop-in fragments yields a sequence
/// in lexicographic order.
pub proof fn law_sort_sorted(s: Seq<Seq<char>>)
    ensures
        lex_sorted(spec_sort(s)),
    decreases s.len(),
{
    if s.len() > 0 {
        law_sort_sorted(s.drop_last());
        lemma_insert_sorted_preserves(s.last(), spec_sort(s.drop_last()));
    }
}

/// Law: the sort the catalog applies is a permutation: no fragment appears,
/// disappears, or is duplicated.
pub proof fn law_sort_permutes(s: Seq<Seq<char>>)
    ensures
        spec_sort(s).to_multiset() == s.to_multiset(),
    decreases s.len(),
{
    broadcast use vstd::seq_lib::group_to_multiset_ensures;

    if s.len() > 0 {
        law_sort_permutes(s.drop_last());
        lemma_insert_sorted_multiset(s.last(), spec_sort(s.drop_last()));
        assert(s =~= s.drop_last().push(s.last()));
        assert(s.to_multiset() =~= s.drop_last().to_multiset().insert(s.last()));
    }
}
// ---------------------------------------------------------------------------
// The parser's assignment sequence is chained
// ---------------------------------------------------------------------------

/// The changes among a parse's entries, in order, with the directives
/// dropped.
pub open spec fn entry_changes(entries: Seq<EntryModel>) -> Seq<ChangeModel>
    decreases entries.len(),
{
    if entries.len() == 0 {
        Seq::empty()
    } else {
        match entries[0] {
            EntryModel::Assignment(c) => seq![c] + entry_changes(entries.skip(1)),
            EntryModel::Source(_) => entry_changes(entries.skip(1)),
        }
    }
}

/// The changes form an unbroken chain beginning at `start`.
pub open spec fn chained_from(changes: Seq<ChangeModel>, start: Option<Seq<char>>) -> bool {
    &&& (changes.len() > 0 ==> changes[0].value_before == start)
    &&& (forall|i: int|
        1 <= i < changes.len() ==> changes[i].value_before == value_after_change(
            #[trigger] changes[i - 1],
        ))
}

proof fn lemma_entry_changes_cons(e: EntryModel, rest: Seq<EntryModel>)
    ensures
        entry_changes(seq![e] + rest) == (match e {
            EntryModel::Assignment(c) => seq![c] + entry_changes(rest),
            EntryModel::Source(p) => entry_changes(rest),
        }),
{
    let whole = seq![e] + rest;
    assert(whole[0] == e);
    assert(whole.skip(1) =~= rest);
}

proof fn lemma_chained_from_cons(c: ChangeModel, cs: Seq<ChangeModel>, start: Option<Seq<char>>)
    requires
        c.value_before == start,
        chained_from(cs, value_after_change(c)),
    ensures
        chained_from(seq![c] + cs, start),
{
    let whole = seq![c] + cs;
    assert(whole[0] == c);
    assert forall|i: int| 1 <= i < whole.len() implies whole[i].value_before == value_after_change(
        #[trigger] whole[i - 1],
    ) by {
        if i == 1 {
            assert(whole[1] == cs[0]);
        } else {
            assert(whole[i] == cs[i - 1] && whole[i - 1] == cs[i - 2]);
            assert(cs[i - 1].value_before == value_after_change(cs[i - 2]));
        }
    }
}

/// Law: for every file, the assignment sequence a parse yields is chained:
/// the first change starts from the incoming running value, and each later
/// change starts from what the previous one left behind. Directives between
/// the changes do not disturb the chain.
pub proof fn law_parse_chain(
    lines: Seq<Seq<char>>,
    i: int,
    path: Seq<char>,
    target: Seq<char>,
    current: Option<Seq<char>>,
    home: Option<Seq<char>>,
)
    ensures
        chained_from(
            entry_changes(spec_parse_shell(lines, i, path, target, current, home)),
            current,
        ),
    decreases lines.len() - i,
{
    if 0 <= i < lines.len() {
        let e = spec_line_entry(lines[i], path, i + 1, target, current, home);
        let next = crate::shell::entry_next_value(e, current);
        law_parse_chain(lines, i + 1, path, target, next, home);
        let rest = spec_parse_shell(lines, i + 1, path, target, next, home);
        match e {
            Some(en) => {
                lemma_entry_changes_cons(en, rest);
                match en {
                    EntryModel::Assignment(c) => {
                        assert(c.value_before == current);
                        lemma_chained_from_cons(c, entry_changes(rest), current);
                    },
                    EntryModel::Source(_) => {},
                }
            },
            None => {},
        }
    }
}
// ---------------------------------------------------------------------------
// Cycle safety over the traversal machine
// ---------------------------------------------------------------------------

/// Law: feeding a file whose canonical path was already processed ignores
/// the content entirely — the session continues exactly as if the file had
/// been unreadable. With the machine equations of `feed`, this is what makes
/// a cycle of `source` directives terminate with each file classified at
/// most once: the second visit contributes nothing, whatever is fed.
pub proof fn law_visited_content_ignored(
    m: crate::engine::VarModel,
    canonical: Option<Seq<char>>,
    a: Option<Seq<char>>,
    b: Option<Seq<char>>,
)
    requires
        m.pending is Some,
        m.visited.contains(
            match canonical {
                Some(c) => c,
                None => m.pending->0.path,
            },
        ),
    ensures
        crate::engine::spec_feed(m, canonical, a) == crate::engine::spec_feed(m, canonical, b),
{
}

/// Law: the same, for a function trace.
pub proof fn law_visited_content_ignored_fn(
    m: crate::engine::FnModel,
    canonical: Option<Seq<char>>,
    a: Option<Seq<char>>,
    b: Option<Seq<char>>,
)
    requires
        m.pending is Some,
        m.visited.contains(
            match canonical {
                Some(c) => c,
                None => m.pending->0.path,
            },
        ),
    ensures
        crate::engine::spec_fn_feed(m, canonical, a) == crate::engine::spec_fn_feed(
            m,
            canonical,
            b,
        ),
{
}

/// Law: with source-following switched off, the variable machine never pauses
/// at a `source` directive — any file it asks for is one of its own work
/// list. (With the feed equations, a whole trace then reads only the
/// catalog's files.)
pub proof fn law_sources_not_followed(m: crate::engine::VarModel)
    requires
        !m.follow_sources,
        m.pending is None,
        crate::engine::stack_ok(m.stack),
    ensures
        crate::engine::spec_run(m).pending is Some ==> m.queue.contains(
            crate::engine::spec_run(m).pending->0,
        ),
    decreases crate::engine::frames_rem_model(m.stack) + m.queue.len(), 1int,
{
    crate::engine::lemma_frames_rem_model_nonneg_pub(m.stack);
    if m.stack.len() == 0 {
        if m.queue.len() == 0 {
        } else {
            assert(m.queue.contains(m.queue[0]));
        }
    } else {
        let fr = m.stack.last();
        let rest = m.stack.drop_last();
        assert forall|i: int| 0 <= i < rest.len() implies 0 <= #[trigger] rest[i].pos
            <= rest[i].lines.len() by {
            assert(rest[i] == m.stack[i]);
        }
        crate::engine::lemma_frames_rem_model_nonneg_pub(rest);
        if fr.pos == fr.lines.len() {
            law_sources_not_followed(crate::engine::VarModel { stack: rest, ..m });
        } else {
            let fr2 = crate::engine::FrameModel { pos: fr.pos + 1, ..fr };
            assert(rest.push(fr2).drop_last() =~= rest);
            assert(crate::engine::frames_rem_model(rest.push(fr2)) == (fr.lines.len() - fr.pos)
                + crate::engine::frames_rem_model(rest));
            assert forall|i: int| 0 <= i < rest.push(fr2).len() implies 0 <= #[trigger] rest.push(
                fr2,
            )[i].pos <= rest.push(fr2)[i].lines.len() by {
                if i < rest.len() {
                    assert(rest.push(fr2)[i] == rest[i]);
                } else {
                    assert(rest.push(fr2)[i] == fr2);
                }
            }
            match fr.kind {
                crate::files::FileType::Environment => {
                    law_sources_not_followed_env_step(m, fr, fr2, rest);
                },
                crate::files::FileType::Shell => {
                    law_sources_not_followed_shell_step(m, fr, fr2, rest);
                },
                _ => {
                    let fr3 = crate::engine::FrameModel { pos: fr.lines.len() as int, ..fr };
                    assert(rest.push(fr3).drop_last() =~= rest);
                    assert forall|i: int| 0 <= i < rest.push(fr3).len() implies 0
                        <= #[trigger] rest.push(fr3)[i].pos <= rest.push(fr3)[i].lines.len() by {
                        if i < rest.len() {
                            assert(rest.push(fr3)[i] == rest[i]);
                        } else {
                            assert(rest.push(fr3)[i] == fr3);
                        }
                    }
                    law_sources_not_followed(
                        crate::engine::VarModel { stack: rest.push(fr3), ..m },
                    );
                },
            }
        }
    }
}

proof fn law_sources_not_followed_env_step(
    m: crate::engine::VarModel,
    fr: crate::engine::FrameModel,
    fr2: crate::engine::FrameModel,
    rest: Seq<crate::engine::FrameModel>,
)
    requires
        !m.follow_sources,
        m.pending is None,
        crate::engine::stack_ok(m.stack),
        m.stack.len() > 0,
        fr == m.stack.last(),
        0 <= fr.pos < fr.lines.len(),
        fr.kind == crate::files::FileType::Environment,
        fr2 == (crate::engine::FrameModel { pos: fr.pos + 1, ..fr }),
        rest == m.stack.drop_last(),
        crate::engine::stack_ok(rest.push(fr2)),
        crate::engine::frames_rem_model(rest.push(fr2)) < crate::engine::frames_rem_model(m.stack),
    ensures
        crate::engine::spec_run(m).pending is Some ==> m.queue.contains(
            crate::engine::spec_run(m).pending->0,
        ),
    decreases crate::engine::frames_rem_model(m.stack) + m.queue.len(), 0int,
{
    crate::engine::lemma_frames_rem_model_nonneg_pub(rest.push(fr2));
    crate::engine::lemma_frames_rem_model_nonneg_pub(m.stack);
    match spec_env_line_change(fr.lines[fr.pos], fr.path, fr.pos + 1, m.target) {
        Some(c0) => {
            let c = ChangeModel { value_before: m.current, ..c0 };
            law_sources_not_followed(
                crate::engine::VarModel {
                    stack: rest.push(fr2),
                    current: Some(c.value_after),
                    changes: m.changes.push(c),
                    ..m
                },
            );
        },
        None => {
            law_sources_not_followed(crate::engine::VarModel { stack: rest.push(fr2), ..m });
        },
    }
}

proof fn law_sources_not_followed_shell_step(
    m: crate::engine::VarModel,
    fr: crate::engine::FrameModel,
    fr2: crate::engine::FrameModel,
    rest: Seq<crate::engine::FrameModel>,
)
    requires
        !m.follow_sources,
        m.pending is None,
        crate::engine::stack_ok(m.stack),
        m.stack.len() > 0,
        fr == m.stack.last(),
        0 <= fr.pos < fr.lines.len(),
        fr.kind == crate::files::FileType::Shell,
        fr2 == (crate::engine::FrameModel { pos: fr.pos + 1, ..fr }),
        rest == m.stack.drop_last(),
        crate::engine::stack_ok(rest.push(fr2)),
        crate::engine::frames_rem_model(rest.push(fr2)) < crate::engine::frames_rem_model(m.stack),
    ensures
        crate::engine::spec_run(m).pending is Some ==> m.queue.contains(
            crate::engine::spec_run(m).pending->0,
        ),
    decreases crate::engine::frames_rem_model(m.stack) + m.queue.len(), 0int,
{
    crate::engine::lemma_frames_rem_model_nonneg_pub(rest.push(fr2));
    crate::engine::lemma_frames_rem_model_nonneg_pub(m.stack);
    match spec_line_entry(fr.lines[fr.pos], fr.path, fr.pos + 1, m.target, m.current, m.home) {
        Some(EntryModel::Assignment(c)) => {
            law_sources_not_followed(
                crate::engine::VarModel {
                    stack: rest.push(fr2),
                    current: value_after_change(c),
                    changes: m.changes.push(c),
                    ..m
                },
            );
        },
        Some(EntryModel::Source(_)) => {
            law_sources_not_followed(crate::engine::VarModel { stack: rest.push(fr2), ..m });
        },
        None => {
            law_sources_not_followed(crate::engine::VarModel { stack: rest.push(fr2), ..m });
        },
    }
}
} // verus!
