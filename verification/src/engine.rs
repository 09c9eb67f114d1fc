//! The traversal engine. A trace is a session: the engine builds the ordered
//! work list for a context, and the caller pumps the session, reading each
//! file the session asks for and handing the content back. All decisions —
//! cycle prevention, classification, value threading, interleaving of
//! `source` directives into the parent's position — are made here; the
//! session never touches the filesystem itself.
//!
//! Each pumping step is pinned exactly: `next_path` and the two feeds ensure
//! that the session's whole state equals a spec-level step (`spec_run`,
//! `spec_feed`, `spec_feed_plist`, and their function-trace counterparts) of
//! the previous state and the fed answer — so a completed trace is, by
//! contract, a function of the work list and the contents the caller handed
//! in. Two invariants are also part of every session's well-formedness: the
//! recorded changes form an unbroken chain (each change's `value_before` is
//! exactly what the previous change left behind), and no canonical path is
//! ever processed twice.

use vstd::prelude::*;

use crate::environment::{env_line_change, spec_env_line_change};
use crate::files::{ConfigFile, FileModel, FileType, FsProbe};
use crate::function::{FnChangeModel, FunctionChange, FunctionOperation, FunctionTrace};
use crate::platform::{Platform, spec_platform_all_files, spec_platform_context_files};
use crate::plist::{PlistData, PlistModel, parse_plist_file, spec_parse_plist};
use crate::shell::{EntryModel, ParsedShellEntry, shell_line_entry, spec_line_entry};
use crate::shell_function::{FnLineModel, spec_body_total, spec_classify_fn, spec_preview};
use crate::common::spec_expand_source_path;
use crate::text::{spec_lines, split_lines, str_eq, total_len_from, lemma_lines_total_len};
use crate::variable::{
    ChangeModel, Context, Operation, VariableChange, VariableTrace, chained, value_after_change,
};

verus! {

/// Configuration for the tracing engine.
#[derive(Debug)]
pub struct TraceConfig {
    /// Follow `source`/`.` directives in shell scripts
    pub follow_sources: bool,
    /// Report skipped files as well (the caller's concern when pumping)
    pub verbose: bool,
}

impl Default for TraceConfig {
    /// Follow `source` directives; stay quiet about skipped files.
    fn default() -> (r: TraceConfig)
        ensures
            r.follow_sources,
            !r.verbose,
    {
        TraceConfig { follow_sources: true, verbose: false }
    }
}

/// The main tracing engine: a platform and a configuration. All traversal
/// state lives in the session a trace call returns, so concurrent traces
/// from one engine cannot interfere.
#[derive(Debug)]
pub struct TraceEngine {
    pub platform: Platform,
    pub config: TraceConfig,
}

/// A file that has been opened: its remaining lines and the position of the
/// next one to classify.
#[derive(Debug)]
pub struct OpenFile {
    pub path: String,
    pub kind: FileType,
    pub lines: Vec<Vec<char>>,
    pub pos: usize,
}

/// The running value the recorded changes lead to: none before the first
/// change, and what the last change left behind after it.
pub open spec fn running_value(changes: Seq<ChangeModel>) -> Option<Seq<char>> {
    if changes.len() == 0 {
        None
    } else {
        value_after_change(changes.last())
    }
}

/// No path occurs twice.
pub open spec fn paths_nodup(visited: Seq<String>) -> bool {
    forall|i: int, j: int|
        0 <= i < j < visited.len() ==> #[trigger] visited[i]@ != #[trigger] visited[j]@
}

/// Model of an open file.
#[verifier::ext_equal]
pub ghost struct FrameModel {
    pub path: Seq<char>,
    pub kind: FileType,
    pub lines: Seq<Seq<char>>,
    pub pos: int,
}

impl View for OpenFile {
    type V = FrameModel;

    open spec fn view(&self) -> FrameModel {
        FrameModel {
            path: self.path@,
            kind: self.kind,
            lines: self.lines.deep_view(),
            pos: self.pos as int,
        }
    }
}

impl DeepView for OpenFile {
    type V = FrameModel;

    open spec fn deep_view(&self) -> FrameModel {
        self.view()
    }
}

/// Every open file's position is within its line count; the machine's
/// termination measure rests on this.
pub open spec fn stack_ok(stack: Seq<FrameModel>) -> bool {
    forall|i: int| 0 <= i < stack.len() ==> 0 <= #[trigger] stack[i].pos <= stack[i].lines.len()
}

/// Lines left to process over the open files, at the model level.
pub open spec fn frames_rem_model(stack: Seq<FrameModel>) -> int
    decreases stack.len(),
{
    if stack.len() == 0 {
        0
    } else {
        (stack.last().lines.len() - stack.last().pos + 1) + frames_rem_model(stack.drop_last())
    }
}

pub proof fn lemma_frames_rem_model_nonneg_pub(stack: Seq<FrameModel>)
    requires
        stack_ok(stack),
    ensures
        frames_rem_model(stack) >= 0,
    decreases stack.len(),
{
    if stack.len() > 0 {
        assert forall|i: int| 0 <= i < stack.drop_last().len() implies 0 <= #[trigger] stack.drop_last()[i].pos
            <= stack.drop_last()[i].lines.len() by {
            assert(stack.drop_last()[i] == stack[i]);
        }
        lemma_frames_rem_model_nonneg_pub(stack.drop_last());
    }
}

proof fn lemma_chain_push(changes: Seq<ChangeModel>, c: ChangeModel)
    requires
        chained(changes),
        c.value_before == running_value(changes),
    ensures
        chained(changes.push(c)),
{
    let p = changes.push(c);
    assert forall|i: int| 1 <= i < p.len() implies p[i].value_before == value_after_change(
        #[trigger] p[i - 1],
    ) by {
        if i < changes.len() {
            assert(changes[i].value_before == value_after_change(changes[i - 1]));
        } else {
            assert(p[i] == c);
            assert(p[i - 1] == changes.last());
        }
    }
}

/// A variable-trace session: the work list still to open, the stack of open
/// files (the innermost sourced file last), the file whose content the
/// caller is being asked for, the canonical paths already processed, the
/// running value, and the changes recorded so far.
#[derive(Debug)]
pub struct VarSession {
    pub target: String,
    pub context: Context,
    pub home: Option<String>,
    pub follow_sources: bool,
    pub queue: Vec<ConfigFile>,
    pub stack: Vec<OpenFile>,
    pub pending: Option<ConfigFile>,
    pub visited: Vec<String>,
    pub current: Option<String>,
    pub changes: Vec<VariableChange>,
}

impl VarSession {
    /// Well-formedness: the chain and no-duplicate invariants, and every
    /// open file's position within bounds.
    pub open spec fn wf(self) -> bool {
        &&& chained(self.changes.deep_view())
        &&& (match self.current {
            Some(ref c) => Some(c@),
            None => None,
        }) == running_value(self.changes.deep_view())
        &&& paths_nodup(self.visited@)
        &&& forall|i: int|
            0 <= i < self.stack@.len() ==> #[trigger] self.stack@[i].pos
                <= self.stack@[i].lines@.len()
    }
}

/// Model of a variable-trace session.
#[verifier::ext_equal]
pub ghost struct VarModel {
    pub target: Seq<char>,
    pub context: Context,
    pub home: Option<Seq<char>>,
    pub follow_sources: bool,
    pub queue: Seq<FileModel>,
    pub stack: Seq<FrameModel>,
    pub pending: Option<FileModel>,
    pub visited: Seq<Seq<char>>,
    pub current: Option<Seq<char>>,
    pub changes: Seq<ChangeModel>,
}

impl View for VarSession {
    type V = VarModel;

    open spec fn view(&self) -> VarModel {
        VarModel {
            target: self.target@,
            context: self.context,
            home: match self.home {
                Some(ref h) => Some(h@),
                None => None,
            },
            follow_sources: self.follow_sources,
            queue: self.queue.deep_view(),
            stack: self.stack.deep_view(),
            pending: match self.pending {
                Some(ref f) => Some(f@),
                None => None,
            },
            visited: self.visited.deep_view(),
            current: match self.current {
                Some(ref c) => Some(c@),
                None => None,
            },
            changes: self.changes.deep_view(),
        }
    }
}

/// One quiescence run of the variable machine: classify lines of the
/// innermost open file, record changes and thread the running value, pop
/// finished files, and stop either done (nothing pending) or paused with the
/// next file to read in `pending` — at a followed `source` directive, or at
/// the head of the work list.
pub open spec fn spec_run(m: VarModel) -> VarModel
    decreases frames_rem_model(m.stack) + m.queue.len(),
        when m.pending is None && stack_ok(m.stack)
        via spec_run_decreases
{
    if m.stack.len() == 0 {
        if m.queue.len() == 0 {
            m
        } else {
            VarModel { queue: m.queue.drop_first(), pending: Some(m.queue[0]), ..m }
        }
    } else {
        let fr = m.stack.last();
        if fr.pos == fr.lines.len() {
            spec_run(VarModel { stack: m.stack.drop_last(), ..m })
        } else {
            let line = fr.lines[fr.pos];
            let fr2 = FrameModel { pos: fr.pos + 1, ..fr };
            match fr.kind {
                FileType::Environment => match spec_env_line_change(
                    line,
                    fr.path,
                    fr.pos + 1,
                    m.target,
                ) {
                    Some(c0) => {
                        let c = ChangeModel { value_before: m.current, ..c0 };
                        spec_run(
                            VarModel {
                                stack: m.stack.drop_last().push(fr2),
                                current: Some(c.value_after),
                                changes: m.changes.push(c),
                                ..m
                            },
                        )
                    },
                    None => spec_run(VarModel { stack: m.stack.drop_last().push(fr2), ..m }),
                },
                FileType::Shell => match spec_line_entry(
                    line,
                    fr.path,
                    fr.pos + 1,
                    m.target,
                    m.current,
                    m.home,
                ) {
                    Some(EntryModel::Assignment(c)) => spec_run(
                        VarModel {
                            stack: m.stack.drop_last().push(fr2),
                            current: value_after_change(c),
                            changes: m.changes.push(c),
                            ..m
                        },
                    ),
                    Some(EntryModel::Source(p)) => if m.follow_sources {
                        VarModel {
                            stack: m.stack.drop_last().push(fr2),
                            pending: Some(
                                FileModel {
                                    path: p,
                                    file_type: FileType::Shell,
                                    description: "sourced file"@,
                                },
                            ),
                            ..m
                        }
                    } else {
                        spec_run(VarModel { stack: m.stack.drop_last().push(fr2), ..m })
                    },
                    None => spec_run(VarModel { stack: m.stack.drop_last().push(fr2), ..m }),
                },
                _ => spec_run(
                    VarModel {
                        stack: m.stack.drop_last().push(
                            FrameModel { pos: fr.lines.len() as int, ..fr },
                        ),
                        ..m
                    },
                ),
            }
        }
    }
}

#[via_fn]
proof fn spec_run_decreases(m: VarModel) {
    lemma_frames_rem_model_nonneg_pub(m.stack);
    if m.stack.len() > 0 {
        let fr = m.stack.last();
        let rest = m.stack.drop_last();
        assert forall|i: int| 0 <= i < rest.len() implies 0 <= #[trigger] rest[i].pos
            <= rest[i].lines.len() by {
            assert(rest[i] == m.stack[i]);
        }
        lemma_frames_rem_model_nonneg_pub(rest);
        if fr.pos < fr.lines.len() {
            let fr2 = FrameModel { pos: fr.pos + 1, ..fr };
            assert(rest.push(fr2).drop_last() =~= rest);
            assert(frames_rem_model(rest.push(fr2)) == (fr.lines.len() - fr.pos) + frames_rem_model(
                rest,
            ));
            let fr3 = FrameModel { pos: fr.lines.len() as int, ..fr };
            assert(rest.push(fr3).drop_last() =~= rest);
            assert(frames_rem_model(rest.push(fr3)) == 1 + frames_rem_model(rest));
        }
    }
}

/// The whole effect of answering the session's pending request with a
/// canonical path and the file's content: an already-processed canonical
/// path is skipped (whatever the content), a fresh one is marked and — for
/// the line-oriented kinds, when the content could be read — opened; then
/// the machine runs to its next pause.
pub open spec fn spec_feed(
    m: VarModel,
    canonical: Option<Seq<char>>,
    content: Option<Seq<char>>,
) -> VarModel {
    match m.pending {
        None => m,
        Some(f) => {
            let canon = match canonical {
                Some(c) => c,
                None => f.path,
            };
            let m1 = VarModel { pending: None, ..m };
            if m.visited.contains(canon) {
                spec_run(m1)
            } else {
                let m2 = VarModel { visited: m1.visited.push(canon), ..m1 };
                match content {
                    Some(text) => match f.file_type {
                        FileType::Environment | FileType::Shell => spec_run(
                            VarModel {
                                stack: m2.stack.push(
                                    FrameModel {
                                        path: f.path,
                                        kind: f.file_type,
                                        lines: spec_lines(text),
                                        pos: 0,
                                    },
                                ),
                                ..m2
                            },
                        ),
                        _ => spec_run(m2),
                    },
                    None => spec_run(m2),
                }
            }
        },
    }
}

/// The changes of a decoded property list with the running value threaded
/// through them: each change starts from the value before it, and leaves its
/// own value behind.
pub open spec fn thread_changes(cs: Seq<ChangeModel>, current: Option<Seq<char>>) -> Seq<
    ChangeModel,
>
    decreases cs.len(),
{
    if cs.len() == 0 {
        Seq::empty()
    } else {
        let c = ChangeModel { value_before: current, ..cs[0] };
        seq![c] + thread_changes(cs.drop_first(), value_after_change(c))
    }
}

/// The running value after the threaded changes.
pub open spec fn thread_final(cs: Seq<ChangeModel>, current: Option<Seq<char>>) -> Option<
    Seq<char>,
>
    decreases cs.len(),
{
    if cs.len() == 0 {
        current
    } else {
        thread_final(
            cs.drop_first(),
            value_after_change(ChangeModel { value_before: current, ..cs[0] }),
        )
    }
}

/// The whole effect of answering the session's pending request with decoded
/// property-list data: as `spec_feed`, but the recorded changes are the
/// plist's, threaded through the running value, instead of line classifications.
pub open spec fn spec_feed_plist(
    m: VarModel,
    canonical: Option<Seq<char>>,
    data: Option<PlistModel>,
) -> VarModel {
    match m.pending {
        None => m,
        Some(f) => {
            let canon = match canonical {
                Some(c) => c,
                None => f.path,
            };
            let m1 = VarModel { pending: None, ..m };
            if m.visited.contains(canon) {
                spec_run(m1)
            } else {
                let m2 = VarModel { visited: m1.visited.push(canon), ..m1 };
                match data {
                    Some(d) => {
                        let cs = spec_parse_plist(d, f.path, m.target);
                        spec_run(
                            VarModel {
                                changes: m2.changes + thread_changes(cs, m2.current),
                                current: thread_final(cs, m2.current),
                                ..m2
                            },
                        )
                    },
                    None => spec_run(m2),
                }
            }
        },
    }
}

/// Lines left to process over the open files.
pub open spec fn frames_rem(stack: Seq<OpenFile>) -> int
    decreases stack.len(),
{
    if stack.len() == 0 {
        0
    } else {
        (stack.last().lines@.len() - stack.last().pos + 1) + frames_rem(stack.drop_last())
    }
}

proof fn lemma_frames_rem_nonneg(stack: Seq<OpenFile>)
    requires
        forall|i: int| 0 <= i < stack.len() ==> #[trigger] stack[i].pos <= stack[i].lines@.len(),
    ensures
        frames_rem(stack) >= 0,
    decreases stack.len(),
{
    if stack.len() > 0 {
        lemma_frames_rem_nonneg(stack.drop_last());
    }
}

/// Bounds carried by the exec well-formedness transfer to the model.
proof fn lemma_model_stack_ok(s: VarSession)
    requires
        forall|i: int|
            0 <= i < s.stack@.len() ==> #[trigger] s.stack@[i].pos <= s.stack@[i].lines@.len(),
    ensures
        stack_ok(s@.stack),
{
    assert forall|i: int| 0 <= i < s@.stack.len() implies 0 <= #[trigger] s@.stack[i].pos
        <= s@.stack[i].lines.len() by {
        assert(s@.stack[i] == s.stack@[i]@);
        assert(s.stack@[i]@.lines.len() == s.stack@[i].lines@.len());
    }
}

impl VarSession {
    /// Whether `path` was already processed.
    fn was_visited(&self, path: &str) -> (r: bool)
        ensures
            r == exists|i: int| 0 <= i < self.visited@.len() && self.visited@[i]@ == path@,
    {
        let mut i: usize = 0;
        while i < self.visited.len()
            invariant
                i <= self.visited@.len(),
                forall|k: int| 0 <= k < i ==> self.visited@[k]@ != path@,
            decreases self.visited@.len() - i,
        {
            if str_eq(self.visited[i].as_str(), path) {
                return true;
            }
            i = i + 1;
        }
        false
    }

    /// Run the session until it is done or needs a file's content. Records
    /// changes, threads the running value, and pauses at each `source`
    /// directive and each work-list file.
    #[verifier::rlimit(100)]
    fn run(&mut self)
        requires
            old(self).wf(),
            old(self).pending is None,
        ensures
            final(self).wf(),
            final(self).target == old(self).target,
            final(self).context == old(self).context,
            final(self).home == old(self).home,
            final(self).follow_sources == old(self).follow_sources,
            final(self).visited == old(self).visited,
            old(self).changes.deep_view().is_prefix_of(final(self).changes.deep_view()),
            final(self)@ == spec_run(old(self)@),
            final(self).pending is None ==> final(self).stack@.len() == 0 && final(self).queue@.len() == 0,
    {
        proof {
            lemma_frames_rem_nonneg(self.stack@);
        }
        loop
            invariant
                self.wf(),
                self.pending is None,
                self.target == old(self).target,
                self.context == old(self).context,
                self.home == old(self).home,
                self.follow_sources == old(self).follow_sources,
                self.visited == old(self).visited,
                old(self).changes.deep_view().is_prefix_of(self.changes.deep_view()),
                spec_run(old(self)@) == spec_run(self@),
            ensures
                self.wf(),
                self.target == old(self).target,
                self.context == old(self).context,
                self.home == old(self).home,
                self.follow_sources == old(self).follow_sources,
                self.visited == old(self).visited,
                old(self).changes.deep_view().is_prefix_of(self.changes.deep_view()),
                self@ == spec_run(old(self)@),
                self.pending is None && self.stack@.len() == 0 && self.queue@.len() == 0,
            decreases frames_rem(self.stack@) + self.queue@.len(),
        {
            proof {
                lemma_frames_rem_nonneg(self.stack@);
                lemma_model_stack_ok(*self);
            }
            let ghost m0 = self@;
            if self.stack.len() == 0 {
                if self.queue.len() == 0 {
                    proof {
                        assert(spec_run(m0) == m0);
                    }
                    break;
                }
                let f = self.queue.remove(0);
                let ghost fm = f@;
                self.pending = Some(f);
                proof {
                    assert(fm == m0.queue[0]);
                    assert(self.queue.deep_view() =~~= m0.queue.drop_first());
                    assert(self@ =~~= VarModel {
                        queue: m0.queue.drop_first(),
                        pending: Some(m0.queue[0]),
                        ..m0
                    });
                    assert(spec_run(m0) == self@);
                }
                return;
            }
            let ghost stack0 = self.stack@;
            let mut frame = match self.stack.pop() {
                Some(fr) => fr,
                None => vstd::pervasive::unreached(),
            };
            let ghost rest = self.stack@;
            let ghost frm0 = frame@;
            let ghost pos0 = frame.pos as int;
            proof {
                assert(rest =~= stack0.drop_last());
                assert(frames_rem(stack0) == (frame.lines@.len() - frame.pos + 1) + frames_rem(
                    rest,
                ));
                assert forall|i: int| 0 <= i < rest.len() implies #[trigger] rest[i].pos
                    <= rest[i].lines@.len() by {
                    assert(rest[i] == stack0[i]);
                }
                lemma_frames_rem_nonneg(rest);
                assert(frm0 == m0.stack.last());
                assert(self.stack.deep_view() =~~= m0.stack.drop_last());
                assert(frm0.lines.len() == frame.lines@.len());
            }
            if frame.pos == frame.lines.len() {
                proof {
                    assert(frm0.pos == frm0.lines.len());
                    assert(self@ =~~= VarModel { stack: m0.stack.drop_last(), ..m0 });
                    assert(spec_run(m0) == spec_run(self@));
                }
                continue;
            }
            proof {
                assert(frm0.pos < frm0.lines.len());
                assert(frm0.lines[pos0] =~= frame.lines@[pos0]@);
            }
            let ghost fr2 = FrameModel { pos: pos0 + 1, ..frm0 };
            let lineno = frame.pos + 1;
            let line = &frame.lines[frame.pos];
            match frame.kind {
                FileType::Environment => {
                    let c = env_line_change(line, frame.path.as_str(), lineno, self.target.as_str());
                    frame.pos = frame.pos + 1;
                    match c {
                        Some(c) => {
                            let mut c = c;
                            c.value_before = match &self.current {
                                Some(v) => Some(v.clone()),
                                None => None,
                            };
                            self.current = Some(c.value_after.clone());
                            let ghost cdv = self.changes.deep_view();
                            let ghost cm = c@;
                            proof {
                                lemma_chain_push(cdv, cm);
                            }
                            self.changes.push(c);
                            self.stack.push(frame);
                            proof {
                                assert(self.changes.deep_view() =~= cdv.push(cm));
                                assert(self.stack@.drop_last() =~= rest);
                                assert(frames_rem(self.stack@) == (frame.lines@.len() - frame.pos
                                    + 1) + frames_rem(rest));
                                let c0 = spec_env_line_change(
                                    frm0.lines[pos0],
                                    frm0.path,
                                    pos0 + 1,
                                    m0.target,
                                );
                                assert(c0 == Some(ChangeModel { value_before: None, ..cm }));
                                assert(cm =~= ChangeModel { value_before: m0.current, ..c0->0 });
                                assert(frame@ =~= fr2);
                                assert(self@ =~~= VarModel {
                                    stack: m0.stack.drop_last().push(fr2),
                                    current: Some(cm.value_after),
                                    changes: m0.changes.push(cm),
                                    ..m0
                                });
                                assert(spec_run(m0) == spec_run(self@));
                            }
                        },
                        None => {
                            self.stack.push(frame);
                            proof {
                                assert(self.stack@.drop_last() =~= rest);
                                assert(frames_rem(self.stack@) == (frame.lines@.len() - frame.pos
                                    + 1) + frames_rem(rest));
                                assert(frame@ =~= fr2);
                                assert(self@ =~~= VarModel {
                                    stack: m0.stack.drop_last().push(fr2),
                                    ..m0
                                });
                                assert(spec_run(m0) == spec_run(self@));
                            }
                        },
                    }
                },
                FileType::Shell => {
                    let curref = match &self.current {
                        Some(v) => Some(v.as_str()),
                        None => None,
                    };
                    let homeref = match &self.home {
                        Some(h) => Some(h.as_str()),
                        None => None,
                    };
                    let e = shell_line_entry(
                        line,
                        frame.path.as_str(),
                        lineno,
                        self.target.as_str(),
                        curref,
                        homeref,
                    );
                    let ghost em = spec_line_entry(
                        frm0.lines[pos0],
                        frm0.path,
                        pos0 + 1,
                        m0.target,
                        m0.current,
                        m0.home,
                    );
                    frame.pos = frame.pos + 1;
                    match e {
                        Some(ParsedShellEntry::Assignment(c)) => {
                            if c.operation == Operation::Unset {
                                self.current = None;
                            } else {
                                self.current = Some(c.value_after.clone());
                            }
                            let ghost cdv = self.changes.deep_view();
                            let ghost cm = c@;
                            proof {
                                lemma_chain_push(cdv, cm);
                            }
                            self.changes.push(c);
                            self.stack.push(frame);
                            proof {
                                assert(self.changes.deep_view() =~= cdv.push(cm));
                                assert(self.stack@.drop_last() =~= rest);
                                assert(frames_rem(self.stack@) == (frame.lines@.len() - frame.pos
                                    + 1) + frames_rem(rest));
                                assert(em == Some(EntryModel::Assignment(cm)));
                                assert(frame@ =~= fr2);
                                assert(self@ =~~= VarModel {
                                    stack: m0.stack.drop_last().push(fr2),
                                    current: value_after_change(cm),
                                    changes: m0.changes.push(cm),
                                    ..m0
                                });
                                assert(spec_run(m0) == spec_run(self@));
                            }
                        },
                        Some(ParsedShellEntry::Source(p)) => {
                            let follow = self.follow_sources;
                            let ghost pm = p@;
                            self.stack.push(frame);
                            proof {
                                assert(self.stack@.drop_last() =~= rest);
                                assert(frames_rem(self.stack@) == (frame.lines@.len() - frame.pos
                                    + 1) + frames_rem(rest));
                                assert(em == Some(EntryModel::Source(pm)));
                                assert(frame@ =~= fr2);
                            }
                            if follow {
                                self.pending = Some(ConfigFile::shell(p, "sourced file"));
                                proof {
                                    assert(self@ =~~= VarModel {
                                        stack: m0.stack.drop_last().push(fr2),
                                        pending: Some(FileModel {
                                            path: pm,
                                            file_type: FileType::Shell,
                                            description: "sourced file"@,
                                        }),
                                        ..m0
                                    });
                                    assert(spec_run(m0) == self@);
                                }
                                return;
                            }
                            proof {
                                assert(self@ =~~= VarModel {
                                    stack: m0.stack.drop_last().push(fr2),
                                    ..m0
                                });
                                assert(spec_run(m0) == spec_run(self@));
                            }
                        },
                        None => {
                            self.stack.push(frame);
                            proof {
                                assert(self.stack@.drop_last() =~= rest);
                                assert(frames_rem(self.stack@) == (frame.lines@.len() - frame.pos
                                    + 1) + frames_rem(rest));
                                assert(em is None);
                                assert(frame@ =~= fr2);
                                assert(self@ =~~= VarModel {
                                    stack: m0.stack.drop_last().push(fr2),
                                    ..m0
                                });
                                assert(spec_run(m0) == spec_run(self@));
                            }
                        },
                    }
                },
                _ => {
                    // Unit and property-list files are not line-classified
                    // by this traversal; they contribute no changes here.
                    // (Decoded property lists come in through `feed_plist`.)
                    frame.pos = frame.lines.len();
                    self.stack.push(frame);
                    proof {
                        assert(self.stack@.drop_last() =~= rest);
                        assert(frames_rem(self.stack@) == 1 + frames_rem(rest));
                        assert(frame@ =~= FrameModel { pos: frm0.lines.len() as int, ..frm0 });
                        assert(self@ =~~= VarModel {
                            stack: m0.stack.drop_last().push(
                                FrameModel { pos: frm0.lines.len() as int, ..frm0 },
                            ),
                            ..m0
                        });
                        assert(spec_run(m0) == spec_run(self@));
                    }
                },
            }
        }
    }


    pub fn next_path(&mut self) -> (r: Option<String>)
        requires
            old(self).wf(),
        ensures
            final(self).wf(),
            final(self).target == old(self).target,
            final(self).context == old(self).context,
            final(self).home == old(self).home,
            final(self).follow_sources == old(self).follow_sources,
            final(self).visited == old(self).visited,
            old(self).changes.deep_view().is_prefix_of(final(self).changes.deep_view()),
            final(self)@ == (if old(self).pending is Some {
                old(self)@
            } else {
                spec_run(old(self)@)
            }),
            (match r {
                Some(p) => final(self).pending is Some && p@ == final(self).pending->0.path@,
                None => final(self).pending is None && final(self).stack@.len() == 0
                    && final(self).queue@.len() == 0,
            }),
    {
        if self.pending.is_none() {
            self.run();
        }
        match &self.pending {
            Some(f) => Some(f.path.clone()),
            None => None,
        }
    }

    /// Hand the session the requested file: its canonical path (or `None`
    /// when it cannot be resolved; the file's own path then stands in) and
    /// its content (`None` when the file is missing or unreadable — it then
    /// contributes nothing). The whole effect is `spec_feed`: a canonical
    /// path already processed is skipped — so a cycle of `source` directives
    /// terminates, each file processed at most once — a fresh one is marked,
    /// its content classified line by line, and the machine runs to its next
    /// pause.
    pub fn feed(&mut self, canonical: Option<String>, content: Option<String>)
        requires
            old(self).wf(),
        ensures
            final(self).wf(),
            final(self).target == old(self).target,
            final(self).context == old(self).context,
            final(self).home == old(self).home,
            final(self).follow_sources == old(self).follow_sources,
            old(self).changes.deep_view().is_prefix_of(final(self).changes.deep_view()),
            final(self)@ == spec_feed(
                old(self)@,
                match canonical {
                    Some(ref c) => Some(c@),
                    None => None,
                },
                match content {
                    Some(ref t) => Some(t@),
                    None => None,
                },
            ),
            old(self).pending is None ==> *final(self) == *old(self),
            old(self).pending is Some && final(self).pending is None ==> final(self).stack@.len() == 0 && final(self).queue@.len() == 0,
            old(self).pending is Some ==> ({
                let canon = match canonical {
                    Some(ref c) => c@,
                    None => old(self).pending->0.path@,
                };
                if exists|i: int|
                    0 <= i < old(self).visited@.len() && old(self).visited@[i]@ == canon {
                    final(self).visited@ == old(self).visited@
                } else {
                    final(self).visited@.len() == old(self).visited@.len() + 1 && final(self).visited@.drop_last() == old(self).visited@ && final(self).visited@.last()@
                        == canon
                }
            }),
    {
        let ghost m0 = self@;
        let ghost canonv: Option<Seq<char>> = match canonical {
            Some(ref c) => Some(c@),
            None => None,
        };
        let ghost contentv: Option<Seq<char>> = match content {
            Some(ref t) => Some(t@),
            None => None,
        };
        let f = match self.pending.take() {
            Some(f) => f,
            None => {
                proof {
                    assert(*self == *old(self));
                }
                return ;
            },
        };
        let ghost fm = f@;
        proof {
            assert(Some(fm) == m0.pending);
            assert(self@ =~~= VarModel { pending: None, ..m0 });
        }
        let ghost m1 = self@;
        let canon = match canonical {
            Some(c) => c,
            None => f.path.clone(),
        };
        let ghost cn = canon@;
        let fresh = !self.was_visited(canon.as_str());
        proof {
            if fresh {
                if m0.visited.contains(cn) {
                    let i = choose|i: int| 0 <= i < m0.visited.len() && m0.visited[i] == cn;
                    assert(self.visited@[i]@ == cn);
                }
                assert(!m0.visited.contains(cn));
            } else {
                let i = choose|i: int|
                    0 <= i < self.visited@.len() && self.visited@[i]@ == cn;
                assert(m0.visited[i] == cn);
                assert(m0.visited.contains(cn));
            }
        }
        if fresh {
            let ghost v0 = self.visited@;
            self.visited.push(canon);
            proof {
                assert(self.visited@.drop_last() =~= v0);
                assert forall|i: int, j: int|
                    0 <= i < j < self.visited@.len() implies #[trigger] self.visited@[i]@
                    != #[trigger] self.visited@[j]@ by {
                    if j < v0.len() {
                    } else {
                        assert(self.visited@[j] == self.visited@.last());
                    }
                }
                assert(self@ =~~= VarModel { visited: m1.visited.push(cn), ..m1 });
            }
            let ghost m2 = self@;
            match content {
                Some(text) => {
                    match f.file_type {
                        FileType::Environment | FileType::Shell => {
                            let _content_chars = text.unicode_len();
                            let lines = split_lines(text.as_str());
                            proof {
                                lemma_lines_total_len(text@, 0);
                            }
                            self.stack.push(
                                OpenFile { path: f.path, kind: f.file_type, lines, pos: 0 },
                            );
                            proof {
                                assert(self@ =~~= VarModel {
                                    stack: m2.stack.push(
                                        FrameModel {
                                            path: fm.path,
                                            kind: fm.file_type,
                                            lines: spec_lines(contentv->0),
                                            pos: 0,
                                        },
                                    ),
                                    ..m2
                                });
                            }
                        },
                        _ => {},
                    }
                },
                None => {},
            }
        }
        let ghost pre = self@;
        self.run();
        proof {
            assert(self@ == spec_run(pre));
            assert(self@ == spec_feed(m0, canonv, contentv));
        }
    }

    /// The kind of the file whose content the session is asking for, so the
    /// caller knows whether to read text (`feed`) or decode a property list
    /// (`feed_plist`).
    pub fn pending_kind(&self) -> (r: Option<FileType>)
        ensures
            (match r {
                Some(k) => self.pending is Some && k == self.pending->0.file_type,
                None => self.pending is None,
            }),
    {
        match &self.pending {
            Some(f) => Some(f.file_type),
            None => None,
        }
    }

    /// Hand the session the requested file as a decoded property list: the
    /// canonical path as for `feed`, and the two recognised shapes as plain
    /// values (`None` when the file is missing or cannot be decoded — it then
    /// contributes nothing). The whole effect is `spec_feed_plist`: a fresh
    /// file's changes are appended with the running value threaded through
    /// them.
    pub fn feed_plist(&mut self, canonical: Option<String>, data: Option<PlistData>)
        requires
            old(self).wf(),
        ensures
            final(self).wf(),
            final(self).target == old(self).target,
            final(self).context == old(self).context,
            final(self).home == old(self).home,
            final(self).follow_sources == old(self).follow_sources,
            old(self).changes.deep_view().is_prefix_of(final(self).changes.deep_view()),
            final(self)@ == spec_feed_plist(
                old(self)@,
                match canonical {
                    Some(ref c) => Some(c@),
                    None => None,
                },
                match data {
                    Some(ref d) => Some(d@),
                    None => None,
                },
            ),
            old(self).pending is None ==> *final(self) == *old(self),
    {
        let ghost m0 = self@;
        let ghost canonv: Option<Seq<char>> = match canonical {
            Some(ref c) => Some(c@),
            None => None,
        };
        let ghost datav: Option<PlistModel> = match data {
            Some(ref d) => Some(d@),
            None => None,
        };
        let f = match self.pending.take() {
            Some(f) => f,
            None => {
                proof {
                    assert(*self == *old(self));
                }
                return ;
            },
        };
        let ghost fm = f@;
        proof {
            assert(Some(fm) == m0.pending);
            assert(self@ =~~= VarModel { pending: None, ..m0 });
        }
        let ghost m1 = self@;
        let canon = match canonical {
            Some(c) => c,
            None => f.path.clone(),
        };
        let ghost cn = canon@;
        let fresh = !self.was_visited(canon.as_str());
        proof {
            if fresh {
                if m0.visited.contains(cn) {
                    let i = choose|i: int| 0 <= i < m0.visited.len() && m0.visited[i] == cn;
                    assert(self.visited@[i]@ == cn);
                }
                assert(!m0.visited.contains(cn));
            } else {
                let i = choose|i: int| 0 <= i < self.visited@.len() && self.visited@[i]@ == cn;
                assert(m0.visited[i] == cn);
                assert(m0.visited.contains(cn));
            }
        }
        if fresh {
            let ghost v0 = self.visited@;
            self.visited.push(canon);
            proof {
                assert(self.visited@.drop_last() =~= v0);
                assert forall|i: int, j: int|
                    0 <= i < j < self.visited@.len() implies #[trigger] self.visited@[i]@
                    != #[trigger] self.visited@[j]@ by {
                    if j < v0.len() {
                    } else {
                        assert(self.visited@[j] == self.visited@.last());
                    }
                }
                assert(self@ =~~= VarModel { visited: m1.visited.push(cn), ..m1 });
            }
            let ghost m2 = self@;
            match data {
                Some(d) => {
                    let mut cs = parse_plist_file(f.path.as_str(), self.target.as_str(), &d);
                    let ghost csv = cs.deep_view();
                    proof {
                        assert(csv == spec_parse_plist(datav->0, fm.path, m0.target));
                    }
                    while cs.len() > 0
                        invariant
                            self.wf(),
                            self.target == old(self).target,
                            self.context == old(self).context,
                            self.home == old(self).home,
                            self.follow_sources == old(self).follow_sources,
                            self@.pending == m2.pending,
                            self@.queue == m2.queue,
                            self@.stack == m2.stack,
                            self@.visited == m2.visited,
                            self@.target == m2.target,
                            self@.context == m2.context,
                            self@.home == m2.home,
                            self@.follow_sources == m2.follow_sources,
                            m2.pending is None,
                            m2.changes + thread_changes(csv, m2.current) == self@.changes
                                + thread_changes(cs.deep_view(), self@.current),
                            thread_final(csv, m2.current) == thread_final(
                                cs.deep_view(),
                                self@.current,
                            ),
                            m2.changes.is_prefix_of(self@.changes),
                        decreases cs@.len(),
                    {
                        let ghost rem0 = cs.deep_view();
                        let ghost cur0 = self@.current;
                        let mut c = cs.remove(0);
                        c.value_before = match &self.current {
                            Some(v) => Some(v.clone()),
                            None => None,
                        };
                        if c.operation == Operation::Unset {
                            self.current = None;
                        } else {
                            self.current = Some(c.value_after.clone());
                        }
                        let ghost cdv = self.changes.deep_view();
                        let ghost cm = c@;
                        proof {
                            lemma_chain_push(cdv, cm);
                        }
                        self.changes.push(c);
                        proof {
                            assert(self.changes.deep_view() =~= cdv.push(cm));
                            assert(cm =~= ChangeModel { value_before: cur0, ..rem0[0] });
                            assert(cs.deep_view() =~~= rem0.drop_first());
                            assert(thread_changes(rem0, cur0) == seq![cm] + thread_changes(
                                rem0.drop_first(),
                                value_after_change(cm),
                            ));
                            assert(self@.current == value_after_change(cm));
                            assert(cdv + (seq![cm] + thread_changes(
                                rem0.drop_first(),
                                value_after_change(cm),
                            )) =~= (cdv + seq![cm]) + thread_changes(
                                rem0.drop_first(),
                                value_after_change(cm),
                            ));
                            assert(cdv.push(cm) =~= cdv + seq![cm]);
                            assert(m2.changes.is_prefix_of(self@.changes)) by {
                                assert(self@.changes.subrange(0, m2.changes.len() as int)
                                    =~= m2.changes);
                            }
                        }
                    }
                    proof {
                        assert(thread_changes(cs.deep_view(), self@.current)
                            =~= Seq::<ChangeModel>::empty());
                        assert(self@.changes =~= m2.changes + thread_changes(csv, m2.current));
                        assert(self@ =~~= VarModel {
                            changes: m2.changes + thread_changes(csv, m2.current),
                            current: thread_final(csv, m2.current),
                            ..m2
                        });
                        assert(old(self).changes.deep_view().is_prefix_of(self@.changes)) by {
                            assert(self@.changes.subrange(0, m2.changes.len() as int)
                                =~= m2.changes);
                        }
                    }
                },
                None => {},
            }
        }
        let ghost pre = self@;
        self.run();
        proof {
            assert(self@ == spec_run(pre));
            assert(self@ == spec_feed_plist(m0, canonv, datav));
        }
    }

    /// The completed trace: the recorded changes in order, and the final
    /// value — the running value the changes lead to, or, when no change
    /// was recorded at all, the value the live process environment shows.
    pub fn into_trace(self, env_value: Option<String>) -> (r: VariableTrace)
        requires
            self.wf(),
        ensures
            r.name@ == self.target@,
            r.context == self.context,
            r.changes.deep_view() == self.changes.deep_view(),
            chained(r.changes.deep_view()),
            (match r.final_value {
                Some(ref v) => Some(v@),
                None => None,
            }) == (if self.changes.deep_view().len() == 0 {
                match env_value {
                    Some(ref v) => Some(v@),
                    None => None,
                }
            } else {
                running_value(self.changes.deep_view())
            }),
    {
        let final_value = if self.changes.len() == 0 {
            env_value
        } else {
            match self.current {
                Some(v) => Some(v),
                None => None,
            }
        };
        VariableTrace { name: self.target, final_value, changes: self.changes, context: self.context }
    }

    /// The recorded changes alone (the find-all modes).
    pub fn into_changes(self) -> (r: Vec<VariableChange>)
        ensures
            r.deep_view() == self.changes.deep_view(),
            self.wf() ==> chained(r.deep_view()),
    {
        self.changes
    }
}

impl TraceEngine {
    /// An engine for a platform, with the default configuration.
    pub fn new(platform: Platform) -> (r: TraceEngine)
        ensures
            r.platform == platform,
            r.config.follow_sources,
            !r.config.verbose,
    {
        TraceEngine { platform, config: TraceConfig { follow_sources: true, verbose: false } }
    }

    /// The same engine with another configuration.
    pub fn with_config(self, config: TraceConfig) -> (r: TraceEngine)
        ensures
            r.platform == self.platform,
            r.config == config,
    {
        TraceEngine { platform: self.platform, config }
    }

    /// Begin tracing a variable through the startup sequence of a context.
    /// The session starts quiescent: pump it with `next_path` and `feed`.
    pub fn trace(&self, var_name: &str, context: Context, probe: &FsProbe) -> (r: VarSession)
        ensures
            r.wf(),
            r.target@ == var_name@,
            r.context == context,
            (match r.home {
                Some(ref h) => Some(h@),
                None => None,
            }) == probe@.home,
            r.follow_sources == self.config.follow_sources,
            r.queue.deep_view() == spec_platform_context_files(self.platform, context, probe@),
            r.stack@.len() == 0,
            r.pending is None,
            r.visited@.len() == 0,
            r.current is None,
            r.changes@.len() == 0,
    {
        let queue = crate::discovery::discover_files(self.platform, context, probe);
        let home = match &probe.home {
            Some(h) => Some(h.clone()),
            None => None,
        };
        VarSession {
            target: var_name.to_owned(),
            context,
            home,
            follow_sources: self.config.follow_sources,
            queue,
            stack: Vec::new(),
            pending: None,
            visited: Vec::new(),
            current: None,
            changes: Vec::new(),
        }
    }

    /// Begin finding every definition of a variable across all known files,
    /// irrespective of context.
    pub fn find_all(&self, var_name: &str, probe: &FsProbe) -> (r: VarSession)
        ensures
            r.wf(),
            r.target@ == var_name@,
            (match r.home {
                Some(ref h) => Some(h@),
                None => None,
            }) == probe@.home,
            r.follow_sources == self.config.follow_sources,
            r.queue.deep_view() == spec_platform_all_files(self.platform, probe@),
            r.stack@.len() == 0,
            r.pending is None,
            r.visited@.len() == 0,
            r.current is None,
            r.changes@.len() == 0,
    {
        let queue = self.platform.all_config_files(probe);
        let home = match &probe.home {
            Some(h) => Some(h.clone()),
            None => None,
        };
        VarSession {
            target: var_name.to_owned(),
            context: Context::default_for_platform(self.platform),
            home,
            follow_sources: self.config.follow_sources,
            queue,
            stack: Vec::new(),
            pending: None,
            visited: Vec::new(),
            current: None,
            changes: Vec::new(),
        }
    }
}

// ---------------------------------------------------------------------------
// Function traces
// ---------------------------------------------------------------------------

/// Model of a function-trace session.
#[verifier::ext_equal]
pub ghost struct FnModel {
    pub target: Seq<char>,
    pub context: Context,
    pub home: Option<Seq<char>>,
    pub follow_sources: bool,
    pub queue: Seq<FileModel>,
    pub stack: Seq<FrameModel>,
    pub pending: Option<FileModel>,
    pub visited: Seq<Seq<char>>,
    pub changes: Seq<FnChangeModel>,
}

/// One quiescence run of the function machine: skip non-shell work-list
/// files, classify each line of the innermost open file, record definitions,
/// autoloads and removals (a definition consumes its whole body), and stop
/// either done or paused with the next file to read in `pending`.
pub open spec fn spec_fn_run(m: FnModel) -> FnModel
    decreases frames_rem_model(m.stack) + m.queue.len(),
        when m.pending is None && stack_ok(m.stack)
        via spec_fn_run_decreases
{
    if m.stack.len() == 0 {
        if m.queue.len() == 0 {
            m
        } else if m.queue[0].file_type == FileType::Shell {
            FnModel { queue: m.queue.drop_first(), pending: Some(m.queue[0]), ..m }
        } else {
            spec_fn_run(FnModel { queue: m.queue.drop_first(), ..m })
        }
    } else {
        let fr = m.stack.last();
        if fr.pos == fr.lines.len() {
            spec_fn_run(FnModel { stack: m.stack.drop_last(), ..m })
        } else {
            let line = fr.lines[fr.pos];
            let fr2 = FrameModel { pos: fr.pos + 1, ..fr };
            match spec_classify_fn(line, m.target) {
                FnLineModel::Skip => spec_fn_run(
                    FnModel { stack: m.stack.drop_last().push(fr2), ..m },
                ),
                FnLineModel::SourceRaw(raw) => if m.follow_sources {
                    match spec_expand_source_path(raw, m.home) {
                        Some(p) => FnModel {
                            stack: m.stack.drop_last().push(fr2),
                            pending: Some(
                                FileModel {
                                    path: p,
                                    file_type: FileType::Shell,
                                    description: "sourced file"@,
                                },
                            ),
                            ..m
                        },
                        None => spec_fn_run(
                            FnModel { stack: m.stack.drop_last().push(fr2), ..m },
                        ),
                    }
                } else {
                    spec_fn_run(FnModel { stack: m.stack.drop_last().push(fr2), ..m })
                },
                FnLineModel::UnsetFn => spec_fn_run(
                    FnModel {
                        stack: m.stack.drop_last().push(fr2),
                        changes: m.changes.push(
                            FnChangeModel {
                                file: fr.path,
                                line_number: fr.pos + 1,
                                line_content: line,
                                operation: FunctionOperation::Unset,
                                body: None,
                                body_lines: 0,
                            },
                        ),
                        ..m
                    },
                ),
                FnLineModel::AutoloadFn => spec_fn_run(
                    FnModel {
                        stack: m.stack.drop_last().push(fr2),
                        changes: m.changes.push(
                            FnChangeModel {
                                file: fr.path,
                                line_number: fr.pos + 1,
                                line_content: line,
                                operation: FunctionOperation::Autoload,
                                body: None,
                                body_lines: 0,
                            },
                        ),
                        ..m
                    },
                ),
                FnLineModel::DefineFn => {
                    let total = spec_body_total(fr.lines, fr.pos);
                    spec_fn_run(
                        FnModel {
                            stack: m.stack.drop_last().push(
                                FrameModel { pos: fr.pos + total, ..fr },
                            ),
                            changes: m.changes.push(
                                FnChangeModel {
                                    file: fr.path,
                                    line_number: fr.pos + 1,
                                    line_content: line,
                                    operation: FunctionOperation::Define,
                                    body: Some(spec_preview(fr.lines, fr.pos, total)),
                                    body_lines: total,
                                },
                            ),
                            ..m
                        },
                    )
                },
            }
        }
    }
}

#[via_fn]
proof fn spec_fn_run_decreases(m: FnModel) {
    lemma_frames_rem_model_nonneg_pub(m.stack);
    if m.stack.len() > 0 {
        let fr = m.stack.last();
        let rest = m.stack.drop_last();
        assert forall|i: int| 0 <= i < rest.len() implies 0 <= #[trigger] rest[i].pos
            <= rest[i].lines.len() by {
            assert(rest[i] == m.stack[i]);
        }
        lemma_frames_rem_model_nonneg_pub(rest);
        if fr.pos < fr.lines.len() {
            let fr2 = FrameModel { pos: fr.pos + 1, ..fr };
            assert(rest.push(fr2).drop_last() =~= rest);
            assert(frames_rem_model(rest.push(fr2)) == (fr.lines.len() - fr.pos)
                + frames_rem_model(rest));
            crate::shell_function::lemma_body_scan_bounds(fr.lines, fr.pos, 0);
            let total = spec_body_total(fr.lines, fr.pos);
            let fr3 = FrameModel { pos: fr.pos + total, ..fr };
            assert(rest.push(fr3).drop_last() =~= rest);
            assert(frames_rem_model(rest.push(fr3)) == (fr.lines.len() - fr.pos - total + 1)
                + frames_rem_model(rest));
        }
    }
}

/// The whole effect of answering the function session's pending request:
/// as `spec_feed`, over the function machine; a fresh file with readable
/// content is opened whatever its kind (only shell files are ever asked for).
pub open spec fn spec_fn_feed(
    m: FnModel,
    canonical: Option<Seq<char>>,
    content: Option<Seq<char>>,
) -> FnModel {
    match m.pending {
        None => m,
        Some(f) => {
            let canon = match canonical {
                Some(c) => c,
                None => f.path,
            };
            let m1 = FnModel { pending: None, ..m };
            if m.visited.contains(canon) {
                spec_fn_run(m1)
            } else {
                let m2 = FnModel { visited: m1.visited.push(canon), ..m1 };
                match content {
                    Some(text) => spec_fn_run(
                        FnModel {
                            stack: m2.stack.push(
                                FrameModel {
                                    path: f.path,
                                    kind: f.file_type,
                                    lines: spec_lines(text),
                                    pos: 0,
                                },
                            ),
                            ..m2
                        },
                    ),
                    None => spec_fn_run(m2),
                }
            }
        },
    }
}

/// Bounds carried by the function session's well-formedness transfer to the
/// model.
proof fn lemma_fn_model_stack_ok(s: FnSession)
    requires
        forall|i: int|
            0 <= i < s.stack@.len() ==> #[trigger] s.stack@[i].pos <= s.stack@[i].lines@.len(),
    ensures
        stack_ok(s.model().stack),
{
    assert forall|i: int| 0 <= i < s.model().stack.len() implies 0 <= #[trigger] s.model().stack[i].pos
        <= s.model().stack[i].lines.len() by {
        assert(s.model().stack[i] == s.stack@[i]@);
        assert(s.stack@[i]@.lines.len() == s.stack@[i].lines@.len());
    }
}

/// A function-trace session. Only shell files can define functions, so only
/// those are opened; everything else mirrors the variable session, except
/// that there is no running value to thread.
#[derive(Debug)]
pub struct FnSession {
    pub target: String,
    pub context: Context,
    pub home: Option<String>,
    pub follow_sources: bool,
    pub queue: Vec<ConfigFile>,
    pub stack: Vec<OpenFile>,
    pub pending: Option<ConfigFile>,
    pub visited: Vec<String>,
    pub changes: Vec<FunctionChange>,
}

impl FnSession {
    /// Well-formedness: no path processed twice, and every open file's
    /// position and size within bounds.
    pub open spec fn wf(self) -> bool {
        &&& paths_nodup(self.visited@)
        &&& forall|i: int|
            0 <= i < self.stack@.len() ==> #[trigger] self.stack@[i].pos
                <= self.stack@[i].lines@.len()
        &&& forall|i: int|
            0 <= i < self.stack@.len() ==> total_len_from(
                #[trigger] self.stack@[i].lines.deep_view(),
                0,
            ) <= usize::MAX
    }

    /// The session's mathematical model.
    pub open spec fn model(self) -> FnModel {
        FnModel {
            target: self.target@,
            context: self.context,
            home: match self.home {
                Some(ref h) => Some(h@),
                None => None,
            },
            follow_sources: self.follow_sources,
            queue: self.queue.deep_view(),
            stack: self.stack.deep_view(),
            pending: match self.pending {
                Some(ref f) => Some(f@),
                None => None,
            },
            visited: self.visited.deep_view(),
            changes: self.changes.deep_view(),
        }
    }

    fn was_visited(&self, path: &str) -> (r: bool)
        ensures
            r == exists|i: int| 0 <= i < self.visited@.len() && self.visited@[i]@ == path@,
    {
        let mut i: usize = 0;
        while i < self.visited.len()
            invariant
                i <= self.visited@.len(),
                forall|k: int| 0 <= k < i ==> self.visited@[k]@ != path@,
            decreases self.visited@.len() - i,
        {
            if str_eq(self.visited[i].as_str(), path) {
                return true;
            }
            i = i + 1;
        }
        false
    }

    /// Run the session until it is done or needs a file's content. A
    /// definition consumes its whole body; scanning resumes after the
    /// closing brace.
    #[verifier::rlimit(100)]
    fn run(&mut self)
        requires
            old(self).wf(),
            old(self).pending is None,
        ensures
            final(self).wf(),
            final(self).target == old(self).target,
            final(self).context == old(self).context,
            final(self).home == old(self).home,
            final(self).follow_sources == old(self).follow_sources,
            final(self).visited == old(self).visited,
            old(self).changes.deep_view().is_prefix_of(final(self).changes.deep_view()),
            final(self).model() == spec_fn_run(old(self).model()),
            final(self).pending is None ==> final(self).stack@.len() == 0
                && final(self).queue@.len() == 0,
    {
        proof {
            lemma_frames_rem_nonneg(self.stack@);
        }
        loop
            invariant
                self.wf(),
                self.pending is None,
                self.target == old(self).target,
                self.context == old(self).context,
                self.home == old(self).home,
                self.follow_sources == old(self).follow_sources,
                self.visited == old(self).visited,
                old(self).changes.deep_view().is_prefix_of(self.changes.deep_view()),
                spec_fn_run(old(self).model()) == spec_fn_run(self.model()),
            ensures
                self.wf(),
                self.target == old(self).target,
                self.context == old(self).context,
                self.home == old(self).home,
                self.follow_sources == old(self).follow_sources,
                self.visited == old(self).visited,
                old(self).changes.deep_view().is_prefix_of(self.changes.deep_view()),
                self.model() == spec_fn_run(old(self).model()),
                self.pending is None && self.stack@.len() == 0 && self.queue@.len() == 0,
            decreases frames_rem(self.stack@) + self.queue@.len(),
        {
            proof {
                lemma_frames_rem_nonneg(self.stack@);
                lemma_fn_model_stack_ok(*self);
            }
            let ghost m0 = self.model();
            if self.stack.len() == 0 {
                if self.queue.len() == 0 {
                    proof {
                        assert(spec_fn_run(m0) == m0);
                    }
                    break;
                }
                let f = self.queue.remove(0);
                let ghost fm = f@;
                proof {
                    assert(fm == m0.queue[0]);
                }
                // Only shell files can hold function definitions.
                if matches!(f.file_type, FileType::Shell) {
                    self.pending = Some(f);
                    proof {
                        assert(self.queue.deep_view() =~~= m0.queue.drop_first());
                        assert(self.model() =~~= FnModel {
                            queue: m0.queue.drop_first(),
                            pending: Some(m0.queue[0]),
                            ..m0
                        });
                        assert(spec_fn_run(m0) == self.model());
                    }
                    return;
                }
                proof {
                    assert(self.queue.deep_view() =~~= m0.queue.drop_first());
                    assert(self.model() =~~= FnModel { queue: m0.queue.drop_first(), ..m0 });
                    assert(spec_fn_run(m0) == spec_fn_run(self.model()));
                }
                continue;
            }
            let ghost stack0 = self.stack@;
            let mut frame = match self.stack.pop() {
                Some(fr) => fr,
                None => vstd::pervasive::unreached(),
            };
            let ghost rest = self.stack@;
            let ghost frm0 = frame@;
            let ghost pos0 = frame.pos as int;
            proof {
                assert(rest =~= stack0.drop_last());
                assert(frames_rem(stack0) == (frame.lines@.len() - frame.pos + 1) + frames_rem(
                    rest,
                ));
                assert forall|i: int| 0 <= i < rest.len() implies #[trigger] rest[i].pos
                    <= rest[i].lines@.len() by {
                    assert(rest[i] == stack0[i]);
                }
                assert forall|i: int| 0 <= i < rest.len() implies total_len_from(
                    #[trigger] rest[i].lines.deep_view(),
                    0,
                ) <= usize::MAX by {
                    assert(rest[i] == stack0[i]);
                }
                lemma_frames_rem_nonneg(rest);
                assert(frm0 == m0.stack.last());
                assert(self.stack.deep_view() =~~= m0.stack.drop_last());
                assert(frm0.lines.len() == frame.lines@.len());
            }
            if frame.pos == frame.lines.len() {
                proof {
                    assert(frm0.pos == frm0.lines.len());
                    assert(self.model() =~~= FnModel { stack: m0.stack.drop_last(), ..m0 });
                    assert(spec_fn_run(m0) == spec_fn_run(self.model()));
                }
                continue;
            }
            proof {
                assert(frm0.pos < frm0.lines.len());
                assert(frm0.lines[pos0] =~= frame.lines@[pos0]@);
            }
            let ghost fr2 = FrameModel { pos: pos0 + 1, ..frm0 };
            let ghost linev = frm0.lines[pos0];
            let lineno = frame.pos + 1;
            let namec = crate::text::to_chars(self.target.as_str());
            let line = &frame.lines[frame.pos];
            let t = crate::text::trim_chars(line);
            if t.len() == 0 || t[0] == '#' {
                frame.pos = frame.pos + 1;
                self.stack.push(frame);
                proof {
                    assert(self.stack@.drop_last() =~= rest);
                    assert(frames_rem(self.stack@) == (frame.lines@.len() - frame.pos + 1)
                        + frames_rem(rest));
                    assert(spec_classify_fn(linev, m0.target) == FnLineModel::Skip);
                    assert(frame@ =~= fr2);
                    assert(self.model() =~~= FnModel {
                        stack: m0.stack.drop_last().push(fr2),
                        ..m0
                    });
                    assert(spec_fn_run(m0) == spec_fn_run(self.model()));
                }
            } else if let Some(raw) = crate::shell::source_of(line) {
                let ghost rawv = raw@;
                proof {
                    assert(spec_classify_fn(linev, m0.target) == FnLineModel::SourceRaw(rawv));
                }
                frame.pos = frame.pos + 1;
                let follow = self.follow_sources;
                let mut opened: Option<String> = None;
                if follow {
                    let raws = crate::text::chars_to_string(&raw);
                    opened = crate::common::expand_source_path_in(raws.as_str(), &self.home);
                }
                self.stack.push(frame);
                proof {
                    assert(self.stack@.drop_last() =~= rest);
                    assert(frames_rem(self.stack@) == (frame.lines@.len() - frame.pos + 1)
                        + frames_rem(rest));
                    assert(frame@ =~= fr2);
                }
                match opened {
                    Some(p) => {
                        let ghost pm = p@;
                        self.pending = Some(ConfigFile::shell(p, "sourced file"));
                        proof {
                            assert(follow);
                            assert(spec_expand_source_path(rawv, m0.home) == Some(pm));
                            assert(self.model() =~~= FnModel {
                                stack: m0.stack.drop_last().push(fr2),
                                pending: Some(FileModel {
                                    path: pm,
                                    file_type: FileType::Shell,
                                    description: "sourced file"@,
                                }),
                                ..m0
                            });
                            assert(spec_fn_run(m0) == self.model());
                        }
                        return;
                    },
                    None => {
                        proof {
                            if follow {
                                assert(spec_expand_source_path(rawv, m0.home) is None);
                            }
                            assert(self.model() =~~= FnModel {
                                stack: m0.stack.drop_last().push(fr2),
                                ..m0
                            });
                            assert(spec_fn_run(m0) == spec_fn_run(self.model()));
                        }
                    },
                }
            } else if crate::shell_function::is_unset_fn_line(line, &namec) {
                let c = FunctionChange {
                    file: frame.path.clone(),
                    line_number: lineno,
                    line_content: crate::text::chars_to_string(line),
                    operation: FunctionOperation::Unset,
                    body: None,
                    body_lines: 0,
                };
                let ghost cm = c@;
                let ghost cdv = self.changes.deep_view();
                self.changes.push(c);
                frame.pos = frame.pos + 1;
                self.stack.push(frame);
                proof {
                    assert(self.changes.deep_view() =~= cdv.push(cm));
                    assert(self.stack@.drop_last() =~= rest);
                    assert(frames_rem(self.stack@) == (frame.lines@.len() - frame.pos + 1)
                        + frames_rem(rest));
                    assert(spec_classify_fn(linev, m0.target) == FnLineModel::UnsetFn);
                    assert(frame@ =~= fr2);
                    assert(cm =~= FnChangeModel {
                        file: frm0.path,
                        line_number: pos0 + 1,
                        line_content: linev,
                        operation: FunctionOperation::Unset,
                        body: None,
                        body_lines: 0,
                    });
                    assert(self.model() =~~= FnModel {
                        stack: m0.stack.drop_last().push(fr2),
                        changes: m0.changes.push(cm),
                        ..m0
                    });
                    assert(spec_fn_run(m0) == spec_fn_run(self.model()));
                }
            } else if crate::shell_function::is_autoload_line(line, &namec) {
                let c = FunctionChange {
                    file: frame.path.clone(),
                    line_number: lineno,
                    line_content: crate::text::chars_to_string(line),
                    operation: FunctionOperation::Autoload,
                    body: None,
                    body_lines: 0,
                };
                let ghost cm = c@;
                let ghost cdv = self.changes.deep_view();
                self.changes.push(c);
                frame.pos = frame.pos + 1;
                self.stack.push(frame);
                proof {
                    assert(self.changes.deep_view() =~= cdv.push(cm));
                    assert(self.stack@.drop_last() =~= rest);
                    assert(frames_rem(self.stack@) == (frame.lines@.len() - frame.pos + 1)
                        + frames_rem(rest));
                    assert(spec_classify_fn(linev, m0.target) == FnLineModel::AutoloadFn);
                    assert(frame@ =~= fr2);
                    assert(cm =~= FnChangeModel {
                        file: frm0.path,
                        line_number: pos0 + 1,
                        line_content: linev,
                        operation: FunctionOperation::Autoload,
                        body: None,
                        body_lines: 0,
                    });
                    assert(self.model() =~~= FnModel {
                        stack: m0.stack.drop_last().push(fr2),
                        changes: m0.changes.push(cm),
                        ..m0
                    });
                    assert(spec_fn_run(m0) == spec_fn_run(self.model()));
                }
            } else if crate::shell_function::is_definition_line(line, &namec) {
                let (preview, total) = crate::shell_function::extract_function_body(
                    &frame.lines,
                    frame.pos,
                );
                let c = FunctionChange {
                    file: frame.path.clone(),
                    line_number: lineno,
                    line_content: crate::text::chars_to_string(line),
                    operation: FunctionOperation::Define,
                    body: Some(preview),
                    body_lines: total,
                };
                let ghost cm = c@;
                let ghost cdv = self.changes.deep_view();
                self.changes.push(c);
                frame.pos = frame.pos + total;
                self.stack.push(frame);
                proof {
                    assert(self.changes.deep_view() =~= cdv.push(cm));
                    assert(self.stack@.drop_last() =~= rest);
                    assert(frames_rem(self.stack@) == (frame.lines@.len() - frame.pos + 1)
                        + frames_rem(rest));
                    assert(spec_classify_fn(linev, m0.target) == FnLineModel::DefineFn);
                    assert(total as int == spec_body_total(frm0.lines, pos0));
                    assert(frame@ =~= FrameModel { pos: pos0 + total, ..frm0 });
                    assert(cm =~= FnChangeModel {
                        file: frm0.path,
                        line_number: pos0 + 1,
                        line_content: linev,
                        operation: FunctionOperation::Define,
                        body: Some(spec_preview(frm0.lines, pos0, total as int)),
                        body_lines: total as int,
                    });
                    assert(self.model() =~~= FnModel {
                        stack: m0.stack.drop_last().push(
                            FrameModel { pos: pos0 + total, ..frm0 },
                        ),
                        changes: m0.changes.push(cm),
                        ..m0
                    });
                    assert(spec_fn_run(m0) == spec_fn_run(self.model()));
                }
            } else {
                frame.pos = frame.pos + 1;
                self.stack.push(frame);
                proof {
                    assert(self.stack@.drop_last() =~= rest);
                    assert(frames_rem(self.stack@) == (frame.lines@.len() - frame.pos + 1)
                        + frames_rem(rest));
                    assert(spec_classify_fn(linev, m0.target) == FnLineModel::Skip);
                    assert(frame@ =~= fr2);
                    assert(self.model() =~~= FnModel {
                        stack: m0.stack.drop_last().push(fr2),
                        ..m0
                    });
                    assert(spec_fn_run(m0) == spec_fn_run(self.model()));
                }
            }
        }
    }

    pub fn next_path(&mut self) -> (r: Option<String>)
        requires
            old(self).wf(),
        ensures
            final(self).wf(),
            final(self).target == old(self).target,
            final(self).context == old(self).context,
            final(self).home == old(self).home,
            final(self).follow_sources == old(self).follow_sources,
            final(self).visited == old(self).visited,
            old(self).changes.deep_view().is_prefix_of(final(self).changes.deep_view()),
            final(self).model() == (if old(self).pending is Some {
                old(self).model()
            } else {
                spec_fn_run(old(self).model())
            }),
            (match r {
                Some(p) => final(self).pending is Some && p@ == final(self).pending->0.path@,
                None => final(self).pending is None && final(self).stack@.len() == 0
                    && final(self).queue@.len() == 0,
            }),
    {
        if self.pending.is_none() {
            self.run();
        }
        match &self.pending {
            Some(f) => Some(f.path.clone()),
            None => None,
        }
    }

    /// Hand the session the requested file, as for a variable trace: the
    /// canonical path (already-processed paths are skipped, so cycles
    /// terminate) and the content (`None` contributes nothing).
    pub fn feed(&mut self, canonical: Option<String>, content: Option<String>)
        requires
            old(self).wf(),
        ensures
            final(self).wf(),
            final(self).target == old(self).target,
            final(self).context == old(self).context,
            final(self).home == old(self).home,
            final(self).follow_sources == old(self).follow_sources,
            old(self).changes.deep_view().is_prefix_of(final(self).changes.deep_view()),
            final(self).model() == spec_fn_feed(
                old(self).model(),
                match canonical {
                    Some(ref c) => Some(c@),
                    None => None,
                },
                match content {
                    Some(ref t) => Some(t@),
                    None => None,
                },
            ),
            old(self).pending is None ==> *final(self) == *old(self),
            old(self).pending is Some && final(self).pending is None ==> final(self).stack@.len()
                == 0 && final(self).queue@.len() == 0,
            old(self).pending is Some ==> ({
                let canon = match canonical {
                    Some(ref c) => c@,
                    None => old(self).pending->0.path@,
                };
                if exists|i: int|
                    0 <= i < old(self).visited@.len() && old(self).visited@[i]@ == canon {
                    final(self).visited@ == old(self).visited@
                } else {
                    final(self).visited@.len() == old(self).visited@.len() + 1 && final(self).visited@.drop_last() == old(self).visited@ && final(self).visited@.last()@
                        == canon
                }
            }),
    {
        let ghost m0 = self.model();
        let ghost canonv: Option<Seq<char>> = match canonical {
            Some(ref c) => Some(c@),
            None => None,
        };
        let ghost contentv: Option<Seq<char>> = match content {
            Some(ref t) => Some(t@),
            None => None,
        };
        let f = match self.pending.take() {
            Some(f) => f,
            None => {
                proof {
                    assert(*self == *old(self));
                }
                return ;
            },
        };
        let ghost fm = f@;
        proof {
            assert(Some(fm) == m0.pending);
            assert(self.model() =~~= FnModel { pending: None, ..m0 });
        }
        let ghost m1 = self.model();
        let canon = match canonical {
            Some(c) => c,
            None => f.path.clone(),
        };
        let ghost cn = canon@;
        let fresh = !self.was_visited(canon.as_str());
        proof {
            if fresh {
                if m0.visited.contains(cn) {
                    let i = choose|i: int| 0 <= i < m0.visited.len() && m0.visited[i] == cn;
                    assert(self.visited@[i]@ == cn);
                }
                assert(!m0.visited.contains(cn));
            } else {
                let i = choose|i: int| 0 <= i < self.visited@.len() && self.visited@[i]@ == cn;
                assert(m0.visited[i] == cn);
                assert(m0.visited.contains(cn));
            }
        }
        if fresh {
            let ghost v0 = self.visited@;
            self.visited.push(canon);
            proof {
                assert(self.visited@.drop_last() =~= v0);
                assert forall|i: int, j: int|
                    0 <= i < j < self.visited@.len() implies #[trigger] self.visited@[i]@
                    != #[trigger] self.visited@[j]@ by {
                    if j < v0.len() {
                    } else {
                        assert(self.visited@[j] == self.visited@.last());
                    }
                }
                assert(self.model() =~~= FnModel { visited: m1.visited.push(cn), ..m1 });
            }
            let ghost m2 = self.model();
            match content {
                Some(text) => {
                    let _content_chars = text.unicode_len();
                    let lines = split_lines(text.as_str());
                    proof {
                        lemma_lines_total_len(text@, 0);
                    }
                    self.stack.push(OpenFile { path: f.path, kind: f.file_type, lines, pos: 0 });
                    proof {
                        assert(self.model() =~~= FnModel {
                            stack: m2.stack.push(
                                FrameModel {
                                    path: fm.path,
                                    kind: fm.file_type,
                                    lines: spec_lines(contentv->0),
                                    pos: 0,
                                },
                            ),
                            ..m2
                        });
                    }
                },
                None => {},
            }
        }
        let ghost pre = self.model();
        self.run();
        proof {
            assert(self.model() == spec_fn_run(pre));
            assert(self.model() == spec_fn_feed(m0, canonv, contentv));
        }
    }

    /// The completed trace: the recorded changes, and whether the function
    /// ends up defined — decided by the last change, or, when none was
    /// recorded, by the live-shell answer the caller supplies.
    pub fn into_trace(self, exists_fallback: bool) -> (r: FunctionTrace)
        ensures
            r.name@ == self.target@,
            r.context == self.context,
            r.changes.deep_view() == self.changes.deep_view(),
            r.is_defined == (if self.changes.deep_view().len() == 0 {
                exists_fallback
            } else {
                !(self.changes.deep_view().last().operation == FunctionOperation::Unset)
            }),
    {
        let is_defined = if self.changes.len() == 0 {
            exists_fallback
        } else {
            proof {
                assert(self.changes.deep_view().last() == self.changes@[self.changes@.len()
                    - 1].deep_view());
            }
            !(matches!(self.changes[self.changes.len() - 1].operation, FunctionOperation::Unset))
        };
        FunctionTrace {
            name: self.target,
            is_defined,
            changes: self.changes,
            context: self.context,
        }
    }

    /// The recorded changes alone (the find-all mode).
    pub fn into_changes(self) -> (r: Vec<FunctionChange>)
        ensures
            r.deep_view() == self.changes.deep_view(),
    {
        self.changes
    }
}

impl TraceEngine {
    /// Begin tracing a shell function through the startup sequence of a
    /// context.
    pub fn trace_function(&self, func_name: &str, context: Context, probe: &FsProbe) -> (r:
        FnSession)
        ensures
            r.wf(),
            r.target@ == func_name@,
            r.context == context,
            (match r.home {
                Some(ref h) => Some(h@),
                None => None,
            }) == probe@.home,
            r.follow_sources == self.config.follow_sources,
            r.queue.deep_view() == spec_platform_context_files(self.platform, context, probe@),
            r.stack@.len() == 0,
            r.pending is None,
            r.visited@.len() == 0,
            r.changes@.len() == 0,
    {
        let queue = crate::discovery::discover_files(self.platform, context, probe);
        let home = match &probe.home {
            Some(h) => Some(h.clone()),
            None => None,
        };
        FnSession {
            target: func_name.to_owned(),
            context,
            home,
            follow_sources: self.config.follow_sources,
            queue,
            stack: Vec::new(),
            pending: None,
            visited: Vec::new(),
            changes: Vec::new(),
        }
    }

    /// Begin finding every definition of a function across all known files,
    /// irrespective of context.
    pub fn find_all_functions(&self, func_name: &str, probe: &FsProbe) -> (r: FnSession)
        ensures
            r.wf(),
            r.target@ == func_name@,
            (match r.home {
                Some(ref h) => Some(h@),
                None => None,
            }) == probe@.home,
            r.follow_sources == self.config.follow_sources,
            r.queue.deep_view() == spec_platform_all_files(self.platform, probe@),
            r.stack@.len() == 0,
            r.pending is None,
            r.visited@.len() == 0,
            r.changes@.len() == 0,
    {
        let queue = self.platform.all_config_files(probe);
        let home = match &probe.home {
            Some(h) => Some(h.clone()),
            None => None,
        };
        FnSession {
            target: func_name.to_owned(),
            context: Context::default_for_platform(self.platform),
            home,
            follow_sources: self.config.follow_sources,
            queue,
            stack: Vec::new(),
            pending: None,
            visited: Vec::new(),
            changes: Vec::new(),
        }
    }
}

} // verus!
