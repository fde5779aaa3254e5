//! Test scripts for the virtual machine.
//!
//! A script is text, read line by line:
//!
//! * `( data_stack_elems N )` and its five siblings set a capacity of the
//!   machine. They must come before any other line that is not a comment.
//! * Any other line starting with `( ` is a comment.
//! * `> text` feeds `text` to the machine and expects success.
//! * `< text` names one line of output that the preceding `>` line must
//!   produce. A `>` line without `<` lines accepts any output.
//! * `x text` feeds `text` and expects the machine to report an error.
//!
//! In a script for several tasks each of these lines starts with the number
//! of the task it belongs to.

use vstd::prelude::*;
use crate::builtin::is_full_table;
use crate::leakbox::{made, AsyncLBForth, LBForth, LBForthParams, DICT_BOTTOM};
use crate::word::ADDR_MAX;
use crate::dictionary::AsyncBuiltinEntry;
use crate::vm::async_vm::{AsyncBuiltins, AsyncForth, LineEvent, NoAsyncBuiltins};
use crate::input::InputView;
use crate::vm::builtins::Touch;
use crate::vm::{Error, Forth, HostWords};
use crate::text::{Scan, find, scan, bytes_eq, parse_usize, parse_usize_spec, strip_cr, lines,
    lines_of, trim_end, split_lines, same_trimmed};
use vstd::slice::slice_subrange;
use vstd::slice::slice_to_vec;
use vstd::string::StringSliceAdditionalSpecFns;

verus! {

/// What a step of a script expects of the machine.
#[derive(Debug)]
pub enum Outcome {
    /// Success, whatever is printed.
    OkAnyOutput,
    /// Success, printing these lines.
    OkWithOutput(Vec<Vec<u8>>),
    /// An error.
    FatalError,
}

/// The value of an `Outcome`.
pub enum OutcomeView {
    OkAnyOutput,
    OkWithOutput(Seq<Seq<u8>>),
    FatalError,
}

/// The lines of `v`, each as a sequence of bytes.
pub open spec fn lines_view(v: Seq<Vec<u8>>) -> Seq<Seq<u8>> {
    v.map_values(|l: Vec<u8>| l@)
}

impl View for Outcome {
    type V = OutcomeView;

    open spec fn view(&self) -> OutcomeView {
        match self {
            Outcome::OkAnyOutput => OutcomeView::OkAnyOutput,
            Outcome::OkWithOutput(v) => OutcomeView::OkWithOutput(lines_view(v@)),
            Outcome::FatalError => OutcomeView::FatalError,
        }
    }
}

/// One line of input with what is expected of it.
#[derive(Debug)]
pub struct Step {
    pub input: Vec<u8>,
    pub output: Outcome,
}

/// The value of a `Step`.
pub struct StepView {
    pub input: Seq<u8>,
    pub output: OutcomeView,
}

impl View for Step {
    type V = StepView;

    open spec fn view(&self) -> StepView {
        StepView { input: self.input@, output: self.output@ }
    }
}

/// The values of the steps in `v`.
pub open spec fn steps_view(v: Seq<Step>) -> Seq<StepView> {
    v.map_values(|s: Step| s@)
}

/// The steps of a script.
#[derive(Debug)]
pub enum ContentKind {
    /// No step yet.
    Empty,
    /// The steps of a script for one machine.
    Single(Vec<Step>),
    /// The steps of a script for several tasks, each task with its number.
    Multi(Vec<(usize, Vec<Step>)>),
}

/// The value of a `ContentKind`.
pub enum ContentView {
    Empty,
    Single(Seq<StepView>),
    Multi(Seq<(usize, Seq<StepView>)>),
}

/// The values of the tasks in `v`.
pub open spec fn tasks_view(v: Seq<(usize, Vec<Step>)>) -> Seq<(usize, Seq<StepView>)> {
    v.map_values(|t: (usize, Vec<Step>)| (t.0, steps_view(t.1@)))
}

impl View for ContentKind {
    type V = ContentView;

    open spec fn view(&self) -> ContentView {
        match self {
            ContentKind::Empty => ContentView::Empty,
            ContentKind::Single(v) => ContentView::Single(steps_view(v@)),
            ContentKind::Multi(v) => ContentView::Multi(tasks_view(v@)),
        }
    }
}

/// A script, read: the capacities it asks for and its steps.
#[derive(Debug)]
pub struct Tokenized {
    pub settings: LBForthParams,
    pub steps: ContentKind,
}

/// The value of a `Tokenized`.
pub struct TokenizedView {
    pub settings: LBForthParams,
    pub steps: ContentView,
}

impl View for Tokenized {
    type V = TokenizedView;

    open spec fn view(&self) -> TokenizedView {
        TokenizedView { settings: self.settings, steps: self.steps@ }
    }
}

/// The position of the first task numbered `idx` among `tasks`, or
/// `tasks.len()` when there is none.
pub open spec fn task_pos(tasks: Seq<(usize, Seq<StepView>)>, idx: usize) -> int
    decreases tasks.len(),
{
    if tasks.len() == 0 {
        0
    } else if tasks[0].0 == idx {
        0
    } else {
        1 + task_pos(tasks.drop_first(), idx)
    }
}

/// `task_pos` is the least position holding a task numbered `idx`.
pub proof fn lemma_task_pos(tasks: Seq<(usize, Seq<StepView>)>, idx: usize, n: int)
    requires
        0 <= n <= tasks.len(),
        forall|i: int| 0 <= i < n ==> (#[trigger] tasks[i]).0 != idx,
        n < tasks.len() ==> tasks[n].0 == idx,
    ensures
        task_pos(tasks, idx) == n,
    decreases tasks.len(),
{
    if tasks.len() != 0 && n != 0 {
        assert(tasks[0].0 != idx);
        let t = tasks.drop_first();
        assert forall|i: int| 0 <= i < n - 1 implies (#[trigger] t[i]).0 != idx by {
            assert(t[i] == tasks[i + 1]);
        }
        lemma_task_pos(t, idx, n - 1);
    }
}

/// The steps after a line of input for task `idx` (or for the only machine).
/// `None` where the line does not fit the script: a numbered line in a script
/// for one machine, or a plain one in a script for several. A line for a task
/// that no earlier line introduced changes nothing once tasks exist.
pub open spec fn push_input_spec(c: ContentView, step: StepView, idx: Option<usize>) -> Option<
    ContentView,
> {
    match (idx, c) {
        (None, ContentView::Single(s)) => Some(ContentView::Single(s.push(step))),
        (None, ContentView::Empty) => Some(ContentView::Single(seq![step])),
        (Some(i), ContentView::Empty) => Some(ContentView::Multi(seq![(i, seq![step])])),
        (Some(i), ContentView::Multi(m)) => {
            let p = task_pos(m, i);
            if p < m.len() {
                Some(ContentView::Multi(m.update(p, (i, m[p].1.push(step)))))
            } else {
                Some(ContentView::Multi(m))
            }
        },
        _ => None,
    }
}

/// The expectation `o` with one more line of output. `None` for a step that
/// expects an error.
pub open spec fn add_expected(o: OutcomeView, line: Seq<u8>) -> Option<OutcomeView> {
    match o {
        OutcomeView::OkAnyOutput => Some(OutcomeView::OkWithOutput(seq![line])),
        OutcomeView::OkWithOutput(v) => Some(OutcomeView::OkWithOutput(v.push(line))),
        OutcomeView::FatalError => None,
    }
}

/// The steps `s` with one more line of output expected of the last one.
pub open spec fn expect_of_last(s: Seq<StepView>, line: Seq<u8>) -> Option<Seq<StepView>> {
    if s.len() == 0 {
        None
    } else {
        match add_expected(s.last().output, line) {
            Some(o) => Some(s.update(s.len() - 1, StepView { input: s.last().input, output: o })),
            None => None,
        }
    }
}

/// The steps after a line of expected output for task `idx` (or for the only
/// machine). `None` where there is no step to attach it to, where that step
/// expects an error, or where the line does not fit the script.
pub open spec fn push_output_spec(c: ContentView, line: Seq<u8>, idx: Option<usize>) -> Option<
    ContentView,
> {
    match (idx, c) {
        (None, ContentView::Single(s)) => match expect_of_last(s, line) {
            Some(s2) => Some(ContentView::Single(s2)),
            None => None,
        },
        (Some(i), ContentView::Multi(m)) => {
            let p = task_pos(m, i);
            if p < m.len() {
                match expect_of_last(m[p].1, line) {
                    Some(s2) => Some(ContentView::Multi(m.update(p, (m[p].0, s2)))),
                    None => None,
                }
            } else {
                None
            }
        },
        _ => None,
    }
}

/// Finds the first task numbered `idx`.
fn find_task(tasks: &Vec<(usize, Vec<Step>)>, idx: usize) -> (p: usize)
    ensures
        p == task_pos(tasks_view(tasks@), idx),
        p <= tasks.len(),
        p < tasks.len() ==> tasks@[p as int].0 == idx,
{
    let mut p: usize = 0;
    while p < tasks.len() && tasks[p].0 != idx
        invariant
            p <= tasks.len(),
            forall|i: int| 0 <= i < p ==> (#[trigger] tasks@[i]).0 != idx,
        decreases tasks.len() - p,
    {
        p += 1;
    }
    proof {
        let tv = tasks_view(tasks@);
        assert forall|i: int| 0 <= i < p implies (#[trigger] tv[i]).0 != idx by {
            assert(tv[i].0 == tasks@[i].0);
        }
        lemma_task_pos(tv, idx, p as int);
    }
    p
}

/// Adds `step` to the steps of task `idx`, or to those of the only machine.
fn push_input(c: ContentKind, step: Step, idx: Option<usize>) -> (r: Result<ContentKind, ()>)
    ensures
        match push_input_spec(c@, step@, idx) {
            Some(c2) => r is Ok && r.unwrap()@ == c2,
            None => r is Err,
        },
{
    match (idx, c) {
        (None, ContentKind::Single(single)) => {
            let mut single = single;
            let ghost before = single@;
            single.push(step);
            assert(steps_view(single@) =~= steps_view(before).push(step@));
            Ok(ContentKind::Single(single))
        },
        (None, ContentKind::Empty) => {
            let mut single: Vec<Step> = Vec::new();
            single.push(step);
            assert(steps_view(single@) =~= seq![step@]);
            Ok(ContentKind::Single(single))
        },
        (Some(i), ContentKind::Empty) => {
            let mut steps: Vec<Step> = Vec::new();
            steps.push(step);
            assert(steps_view(steps@) =~= seq![step@]);
            let mut multi: Vec<(usize, Vec<Step>)> = Vec::new();
            multi.push((i, steps));
            assert(tasks_view(multi@) =~= seq![(i, seq![step@])]);
            Ok(ContentKind::Multi(multi))
        },
        (Some(i), ContentKind::Multi(multi)) => {
            let mut multi = multi;
            let ghost before = multi@;
            let p = find_task(&multi, i);
            if p < multi.len() {
                let (sidx, mut steps) = multi.remove(p);
                let ghost steps_before = steps@;
                steps.push(step);
                assert(steps_view(steps@) =~= steps_view(steps_before).push(step@));
                multi.insert(p, (sidx, steps));
                assert(tasks_view(multi@) =~= tasks_view(before).update(
                    p as int,
                    (i, tasks_view(before)[p as int].1.push(step@)),
                ));
            }
            Ok(ContentKind::Multi(multi))
        },
        _ => Err(()),
    }
}

/// Adds `line` to what the last of `steps` expects.
fn expect_line(steps: Vec<Step>, line: Vec<u8>) -> (r: Result<Vec<Step>, ()>)
    ensures
        match expect_of_last(steps_view(steps@), line@) {
            Some(s2) => r is Ok && steps_view(r.unwrap()@) == s2,
            None => r is Err,
        },
{
    let mut steps = steps;
    let ghost before = steps@;
    match steps.pop() {
        None => Err(()),
        Some(last) => {
            assert(steps_view(before).last() == last@);
            let Step { input, output } = last;
            let output = match output {
                Outcome::OkAnyOutput => {
                    let mut v: Vec<Vec<u8>> = Vec::new();
                    v.push(line);
                    assert(lines_view(v@) =~= seq![line@]);
                    Outcome::OkWithOutput(v)
                },
                Outcome::OkWithOutput(v) => {
                    let mut v = v;
                    let ghost vb = v@;
                    v.push(line);
                    assert(lines_view(v@) =~= lines_view(vb).push(line@));
                    Outcome::OkWithOutput(v)
                },
                Outcome::FatalError => {
                    return Err(());
                },
            };
            let step = Step { input, output };
            steps.push(step);
            assert(steps_view(steps@) =~= steps_view(before).update(before.len() - 1, step@));
            Ok(steps)
        },
    }
}

/// Adds a line of expected output to the last step of task `idx`, or of the
/// only machine.
fn push_output(c: ContentKind, line: Vec<u8>, idx: Option<usize>) -> (r: Result<ContentKind, ()>)
    ensures
        match push_output_spec(c@, line@, idx) {
            Some(c2) => r is Ok && r.unwrap()@ == c2,
            None => r is Err,
        },
{
    match (idx, c) {
        (None, ContentKind::Single(single)) => {
            match expect_line(single, line) {
                Ok(s2) => Ok(ContentKind::Single(s2)),
                Err(e) => Err(e),
            }
        },
        (Some(i), ContentKind::Multi(multi)) => {
            let mut multi = multi;
            let ghost before = multi@;
            let p = find_task(&multi, i);
            if p < multi.len() {
                let (sidx, steps) = multi.remove(p);
                match expect_line(steps, line) {
                    Ok(s2) => {
                        multi.insert(p, (sidx, s2));
                        assert(tasks_view(multi@) =~= tasks_view(before).update(
                            p as int,
                            (sidx, steps_view(s2@)),
                        ));
                        Ok(ContentKind::Multi(multi))
                    },
                    Err(e) => Err(e),
                }
            } else {
                Err(())
            }
        },
        _ => Err(()),
    }
}

impl Tokenized {
    /// A script without steps that asks for the standard capacities.
    pub fn new() -> (t: Tokenized)
        ensures
            t@ == (TokenizedView {
                settings: LBForthParams::standard(),
                steps: ContentView::Empty,
            }),
    {
        Tokenized { settings: LBForthParams::default(), steps: ContentKind::Empty }
    }

    /// Whether a line of input for task `idx`, or for the only machine
    /// where `idx` is `None`, fits the script: a script is for one machine
    /// or for numbered tasks, never both.
    pub fn accepts_input(&self, idx: Option<usize>) -> (b: bool)
        ensures
            forall|step: StepView|
                (#[trigger] push_input_spec(self.steps@, step, idx) is Some) == b,
    {
        match (idx, &self.steps) {
            (Some(_), ContentKind::Single(_)) => false,
            (None, ContentKind::Multi(_)) => false,
            _ => true,
        }
    }

    /// Records `contents` as a line of input that must succeed. The line
    /// has to fit the script, as `accepts_input` tells.
    pub fn push_success_input(&mut self, contents: &[u8], idx: Option<usize>)
        requires
            push_input_spec(
                old(self).steps@,
                StepView { input: contents@, output: OutcomeView::OkAnyOutput },
                idx,
            ) is Some,
        ensures
            final(self).settings == old(self).settings,
            Some(final(self).steps@) == push_input_spec(
                old(self).steps@,
                StepView { input: contents@, output: OutcomeView::OkAnyOutput },
                idx,
            ),
    {
        let _ = self.push_step(
            Step { input: slice_to_vec(contents), output: Outcome::OkAnyOutput },
            idx,
        );
    }

    /// Records `contents` as a line of input that must fail. The line has to
    /// fit the script, as `accepts_input` tells.
    pub fn push_exception_input(&mut self, contents: &[u8], idx: Option<usize>)
        requires
            push_input_spec(
                old(self).steps@,
                StepView { input: contents@, output: OutcomeView::FatalError },
                idx,
            ) is Some,
        ensures
            final(self).settings == old(self).settings,
            Some(final(self).steps@) == push_input_spec(
                old(self).steps@,
                StepView { input: contents@, output: OutcomeView::FatalError },
                idx,
            ),
    {
        let _ = self.push_step(
            Step { input: slice_to_vec(contents), output: Outcome::FatalError },
            idx,
        );
    }

    fn push_step(&mut self, step: Step, idx: Option<usize>) -> (r: Result<(), ()>)
        ensures
            final(self).settings == old(self).settings,
            match push_input_spec(old(self).steps@, step@, idx) {
                Some(c) => r is Ok && final(self).steps@ == c,
                None => r is Err && final(self).steps@ == old(self).steps@,
            },
    {
        let fits = match (idx, &self.steps) {
            (Some(_), ContentKind::Single(_)) => false,
            (None, ContentKind::Multi(_)) => false,
            _ => true,
        };
        if !fits {
            return Err(());
        }
        let mut cur = ContentKind::Empty;
        core::mem::swap(&mut cur, &mut self.steps);
        match push_input(cur, step, idx) {
            Ok(next) => {
                self.steps = next;
                Ok(())
            },
            Err(e) => Err(e),
        }
    }

    /// Records `contents` as one more line that the latest step must print.
    /// There has to be a step for the line to go to, and one that expects
    /// success: a step that must fail never gets expected output.
    /// `accepts_output` tells.
    pub fn push_success_output(&mut self, contents: &[u8], idx: Option<usize>)
        requires
            push_output_spec(old(self).steps@, contents@, idx) is Some,
        ensures
            final(self).settings == old(self).settings,
            Some(final(self).steps@) == push_output_spec(old(self).steps@, contents@, idx),
    {
        let mut cur = ContentKind::Empty;
        core::mem::swap(&mut cur, &mut self.steps);
        match push_output(cur, slice_to_vec(contents), idx) {
            Ok(next) => {
                self.steps = next;
            },
            Err(_) => {},
        }
    }

    /// Whether a line of expected output for task `idx`, or for the only
    /// machine where `idx` is `None`, has a step to go to: the latest step
    /// of that task exists and expects success.
    pub fn accepts_output(&self, idx: Option<usize>) -> (b: bool)
        ensures
            b == (push_output_spec(self.steps@, Seq::<u8>::empty(), idx) is Some),
            forall|line: Seq<u8>|
                (#[trigger] push_output_spec(self.steps@, line, idx) is Some) == b,
    {
        match (idx, &self.steps) {
            (None, ContentKind::Single(single)) => Self::last_accepts(single),
            (Some(i), ContentKind::Multi(multi)) => {
                let p = find_task(multi, i);
                if p < multi.len() {
                    Self::last_accepts(&multi[p].1)
                } else {
                    false
                }
            },
            _ => false,
        }
    }

    /// Whether the last of `steps` exists and expects success.
    fn last_accepts(steps: &Vec<Step>) -> (b: bool)
        ensures
            forall|line: Seq<u8>|
                (#[trigger] expect_of_last(steps_view(steps@), line) is Some) == b,
    {
        let n = steps.len();
        if n == 0 {
            false
        } else {
            assert(steps_view(steps@).last() == steps@[n - 1]@);
            match &steps[n - 1].output {
                Outcome::FatalError => false,
                _ => true,
            }
        }
    }
}

/// The capacities a script can set.
#[derive(Debug, Clone, Copy, PartialEq, Eq, Structural)]
pub enum Setting {
    DataStack,
    ReturnStack,
    ControlStack,
    InputBuf,
    OutputBuf,
    DictBuf,
}

/// The capacity that the word `w` names, if it names one.
pub open spec fn setting_named(w: Seq<u8>) -> Option<Setting> {
    if w == "data_stack_elems".spec_bytes() {
        Some(Setting::DataStack)
    } else if w == "return_stack_elems".spec_bytes() {
        Some(Setting::ReturnStack)
    } else if w == "control_stack_elems".spec_bytes() {
        Some(Setting::ControlStack)
    } else if w == "input_buf_elems".spec_bytes() {
        Some(Setting::InputBuf)
    } else if w == "output_buf_elems".spec_bytes() {
        Some(Setting::OutputBuf)
    } else if w == "dict_buf_elems".spec_bytes() {
        Some(Setting::DictBuf)
    } else {
        None
    }
}

/// The capacities `p` with the one that `k` names set to `v`.
pub open spec fn with_setting(p: LBForthParams, k: Setting, v: usize) -> LBForthParams {
    match k {
        Setting::DataStack => LBForthParams { data_stack_elems: v, ..p },
        Setting::ReturnStack => LBForthParams { return_stack_elems: v, ..p },
        Setting::ControlStack => LBForthParams { control_stack_elems: v, ..p },
        Setting::InputBuf => LBForthParams { input_buf_elems: v, ..p },
        Setting::OutputBuf => LBForthParams { output_buf_elems: v, ..p },
        Setting::DictBuf => LBForthParams { dict_buf_elems: v, ..p },
    }
}

/// The first word of `s`, that is its first run of bytes that are not white
/// space, and what follows the word. `None` when `s` holds no word.
pub open spec fn next_word(s: Seq<u8>) -> Option<(Seq<u8>, Seq<u8>)> {
    let a = find(s, Scan::NotSpace);
    if 0 <= a < s.len() {
        let t = s.skip(a);
        let b = find(t, Scan::Space);
        Some((t.take(b), t.skip(b)))
    } else {
        None
    }
}

/// What has been read of a script, and whether a step has been seen, after
/// which no capacity may be set.
pub struct ReadState {
    pub script: TokenizedView,
    pub frontmatter_done: bool,
}

/// The state after a line `( remain`. A line whose first word names no
/// capacity is a comment. One that names a capacity must go on with a number
/// and a `)`, and must precede every step. `None` where the line is refused.
pub open spec fn frontmatter_spec(st: ReadState, remain: Seq<u8>) -> Option<ReadState> {
    match next_word(remain) {
        None => None,
        Some((w0, r1)) => match setting_named(w0) {
            None => Some(st),
            Some(k) => match next_word(r1) {
                None => None,
                Some((w1, r2)) => match parse_usize_spec(w1) {
                    None => None,
                    Some(v) => match next_word(r2) {
                        None => None,
                        Some((w2, _)) => if !st.frontmatter_done && w2 == seq![0x29u8] {
                            Some(
                                ReadState {
                                    script: TokenizedView {
                                        settings: with_setting(st.script.settings, k, v),
                                        steps: st.script.steps,
                                    },
                                    frontmatter_done: st.frontmatter_done,
                                },
                            )
                        } else {
                            None
                        },
                    },
                },
            },
        },
    }
}

/// The state `st` with the steps `c`, if there are any, and the time for
/// setting capacities over.
pub open spec fn with_steps(st: ReadState, c: Option<ContentView>) -> Option<ReadState> {
    match c {
        Some(steps) => Some(
            ReadState {
                script: TokenizedView { settings: st.script.settings, steps },
                frontmatter_done: true,
            },
        ),
        None => None,
    }
}

/// The state after a line that starts with the word `tok`, goes on with
/// `remain` and belongs to task `num`. A line with any other first word than
/// `>`, `<`, `x` and `(` changes nothing.
pub open spec fn directive_spec(
    st: ReadState,
    tok: Seq<u8>,
    remain: Seq<u8>,
    num: Option<usize>,
) -> Option<ReadState> {
    if tok == seq![0x3eu8] {
        with_steps(
            st,
            push_input_spec(
                st.script.steps,
                StepView { input: remain, output: OutcomeView::OkAnyOutput },
                num,
            ),
        )
    } else if tok == seq![0x3cu8] {
        with_steps(st, push_output_spec(st.script.steps, remain, num))
    } else if tok == seq![0x78u8] {
        with_steps(
            st,
            push_input_spec(
                st.script.steps,
                StepView { input: remain, output: OutcomeView::FatalError },
                num,
            ),
        )
    } else if tok == seq![0x28u8] {
        frontmatter_spec(st, remain)
    } else {
        Some(st)
    }
}

/// The state after one line. Leading white space is dropped. A line without
/// a space after that is skipped. A first word that is a number names the
/// task and must be followed by the directive and another space.
#[verifier::opaque]
pub open spec fn line_spec(st: ReadState, line: Seq<u8>) -> Option<ReadState> {
    let t = line.skip(find(line, Scan::NotSpace));
    let k = find(t, Scan::Byte(0x20));
    if 0 <= k < t.len() {
        let tok = t.take(k);
        let remain = t.skip(k + 1);
        match parse_usize_spec(tok) {
            Some(idx) => {
                let k2 = find(remain, Scan::Byte(0x20));
                if 0 <= k2 < remain.len() {
                    directive_spec(st, remain.take(k2), remain.skip(k2 + 1), Some(idx))
                } else {
                    None
                }
            },
            None => directive_spec(st, tok, remain, None),
        }
    } else {
        Some(st)
    }
}

/// The state after all the lines of `s`. Lines end with a line feed, or with
/// a carriage return and a line feed; the last line needs no ending.
pub open spec fn script_spec(st: ReadState, s: Seq<u8>) -> Option<ReadState>
    decreases s.len(),
{
    if s.len() == 0 {
        Some(st)
    } else {
        let n = find(s, Scan::Byte(0x0a));
        if 0 <= n < s.len() {
            match line_spec(st, strip_cr(s.take(n))) {
                Some(st2) => script_spec(st2, s.skip(n + 1)),
                None => None,
            }
        } else {
            line_spec(st, s)
        }
    }
}

/// What the script `contents` holds, or `None` where one of its lines is
/// refused. With `allow_frontmatter` unset no line may set a capacity.
pub open spec fn tokenize_spec(contents: Seq<u8>, allow_frontmatter: bool) -> Option<
    TokenizedView,
> {
    let init = ReadState {
        script: TokenizedView { settings: LBForthParams::standard(), steps: ContentView::Empty },
        frontmatter_done: !allow_frontmatter,
    };
    match script_spec(init, contents) {
        Some(st) => Some(st.script),
        None => None,
    }
}

fn setting_of(w: &[u8]) -> (r: Option<Setting>)
    ensures
        r == setting_named(w@),
{
    if bytes_eq(w, "data_stack_elems".as_bytes()) {
        Some(Setting::DataStack)
    } else if bytes_eq(w, "return_stack_elems".as_bytes()) {
        Some(Setting::ReturnStack)
    } else if bytes_eq(w, "control_stack_elems".as_bytes()) {
        Some(Setting::ControlStack)
    } else if bytes_eq(w, "input_buf_elems".as_bytes()) {
        Some(Setting::InputBuf)
    } else if bytes_eq(w, "output_buf_elems".as_bytes()) {
        Some(Setting::OutputBuf)
    } else if bytes_eq(w, "dict_buf_elems".as_bytes()) {
        Some(Setting::DictBuf)
    } else {
        None
    }
}

fn set_param(p: LBForthParams, k: Setting, v: usize) -> (r: LBForthParams)
    ensures
        r == with_setting(p, k, v),
{
    let mut r = p;
    match k {
        Setting::DataStack => {
            r.data_stack_elems = v;
        },
        Setting::ReturnStack => {
            r.return_stack_elems = v;
        },
        Setting::ControlStack => {
            r.control_stack_elems = v;
        },
        Setting::InputBuf => {
            r.input_buf_elems = v;
        },
        Setting::OutputBuf => {
            r.output_buf_elems = v;
        },
        Setting::DictBuf => {
            r.dict_buf_elems = v;
        },
    }
    r
}

/// Whether `s` is the single byte `b`.
fn is_byte(s: &[u8], b: u8) -> (r: bool)
    ensures
        r == (s@ == seq![b]),
{
    if s.len() == 1 && s[0] == b {
        assert(s@ =~= seq![b]);
        true
    } else {
        false
    }
}

/// Splits the first word off `s`.
fn split_word<'a>(s: &'a [u8]) -> (r: Option<(&'a [u8], &'a [u8])>)
    ensures
        match next_word(s@) {
            Some((w, rest)) => r is Some && r.unwrap().0@ == w && r.unwrap().1@ == rest,
            None => r is None,
        },
{
    assert(s@.skip(0) =~= s@);
    let a = scan(s, 0, Scan::NotSpace);
    if a < s.len() {
        let t = slice_subrange(s, a, s.len());
        assert(t@.skip(0) =~= t@);
        let b = scan(t, 0, Scan::Space);
        Some((slice_subrange(t, 0, b), slice_subrange(t, b, t.len())))
    } else {
        None
    }
}

/// Reads what follows `( ` on a line.
fn read_frontmatter(out: &mut Tokenized, frontmatter_done: bool, remain: &[u8]) -> (r: Result<
    bool,
    (),
>)
    ensures
        match frontmatter_spec(ReadState { script: old(out)@, frontmatter_done }, remain@) {
            Some(st) => r == Ok::<bool, ()>(st.frontmatter_done) && final(out)@ == st.script,
            None => r is Err,
        },
{
    let (w0, r1) = match split_word(remain) {
        Some(x) => x,
        None => {
            return Err(());
        },
    };
    let key = match setting_of(w0) {
        Some(k) => k,
        None => {
            return Ok(frontmatter_done);
        },
    };
    let (w1, r2) = match split_word(r1) {
        Some(x) => x,
        None => {
            return Err(());
        },
    };
    let value = match parse_usize(w1) {
        Some(v) => v,
        None => {
            return Err(());
        },
    };
    let (w2, _r3) = match split_word(r2) {
        Some(x) => x,
        None => {
            return Err(());
        },
    };
    if frontmatter_done || !is_byte(w2, 0x29) {
        return Err(());
    }
    out.settings = set_param(out.settings, key, value);
    Ok(frontmatter_done)
}

/// Reads a line from its first word on.
fn read_directive(
    out: &mut Tokenized,
    frontmatter_done: bool,
    tok: &[u8],
    remain: &[u8],
    num: Option<usize>,
) -> (r: Result<bool, ()>)
    ensures
        match directive_spec(ReadState { script: old(out)@, frontmatter_done }, tok@, remain@,
            num) {
            Some(st) => r == Ok::<bool, ()>(st.frontmatter_done) && final(out)@ == st.script,
            None => r is Err,
        },
{
    if is_byte(tok, 0x3e) {
        if !out.accepts_input(num) {
            return Err(());
        }
        out.push_success_input(remain, num);
        Ok(true)
    } else if is_byte(tok, 0x3c) {
        if !out.accepts_output(num) {
            return Err(());
        }
        out.push_success_output(remain, num);
        Ok(true)
    } else if is_byte(tok, 0x78) {
        if !out.accepts_input(num) {
            return Err(());
        }
        out.push_exception_input(remain, num);
        Ok(true)
    } else if is_byte(tok, 0x28) {
        read_frontmatter(out, frontmatter_done, remain)
    } else {
        Ok(frontmatter_done)
    }
}

/// Reads one line.
fn read_line(out: &mut Tokenized, frontmatter_done: bool, line: &[u8]) -> (r: Result<bool, ()>)
    ensures
        match line_spec(ReadState { script: old(out)@, frontmatter_done }, line@) {
            Some(st) => r == Ok::<bool, ()>(st.frontmatter_done) && final(out)@ == st.script,
            None => r is Err,
        },
{
    reveal(line_spec);
    assert(line@.skip(0) =~= line@);
    let a = scan(line, 0, Scan::NotSpace);
    let t = slice_subrange(line, a, line.len());
    assert(t@.skip(0) =~= t@);
    let k = scan(t, 0, Scan::Byte(0x20));
    if k >= t.len() {
        return Ok(frontmatter_done);
    }
    let tok = slice_subrange(t, 0, k);
    let remain = slice_subrange(t, k + 1, t.len());
    match parse_usize(tok) {
        Some(idx) => {
            assert(remain@.skip(0) =~= remain@);
            let k2 = scan(remain, 0, Scan::Byte(0x20));
            if k2 >= remain.len() {
                Err(())
            } else {
                read_directive(
                    out,
                    frontmatter_done,
                    slice_subrange(remain, 0, k2),
                    slice_subrange(remain, k2 + 1, remain.len()),
                    Some(idx),
                )
            }
        },
        None => read_directive(out, frontmatter_done, tok, remain, None),
    }
}

/// Reads the script `contents`. Fails where a line is refused: a line of a
/// task in a script for one machine or the reverse, expected output without
/// a step or for a step that must fail, a task number without a directive, a
/// `(` line without a word, or a capacity that is malformed or comes after a
/// step. With `allow_frontmatter` unset every line that sets a capacity is
/// refused.
pub fn tokenize(contents: &[u8], allow_frontmatter: bool) -> (r: Result<Tokenized, ()>)
    ensures
        match tokenize_spec(contents@, allow_frontmatter) {
            Some(t) => r is Ok && r.unwrap()@ == t,
            None => r is Err,
        },
{
    let mut out = Tokenized::new();
    let mut frontmatter_done = !allow_frontmatter;
    let mut pos: usize = 0;
    let ghost init = ReadState { script: out@, frontmatter_done };
    assert(contents@.skip(0) =~= contents@);
    while pos < contents.len()
        invariant
            pos <= contents.len(),
            init == (ReadState {
                script: TokenizedView {
                    settings: LBForthParams::standard(),
                    steps: ContentView::Empty,
                },
                frontmatter_done: !allow_frontmatter,
            }),
            script_spec(ReadState { script: out@, frontmatter_done }, contents@.skip(pos as int))
                == script_spec(init, contents@),
        decreases contents.len() - pos,
    {
        let ghost s = contents@.skip(pos as int);
        let n = scan(contents, pos, Scan::Byte(0x0a));
        let line = slice_subrange(contents, pos, n);
        assert(line@ =~= s.take(n - pos));
        let next: usize;
        let ghost whole = line@;
        let line = if n < contents.len() {
            next = n + 1;
            assert(s.skip(n - pos + 1) =~= contents@.skip(next as int));
            if line.len() > 0 && line[line.len() - 1] == 0x0d {
                let stripped = slice_subrange(line, 0, line.len() - 1);
                assert(stripped@ =~= whole.drop_last());
                stripped
            } else {
                line
            }
        } else {
            next = n;
            assert(line@ =~= s);
            line
        };
        assert(s.len() > 0);
        assert(find(s, Scan::Byte(0x0a)) == n - pos);
        assert(n < contents.len() ==> line@ == strip_cr(s.take(n - pos)));
        let ghost here = ReadState { script: out@, frontmatter_done };
        assert(script_spec(here, s) == if n < contents.len() {
            match line_spec(here, line@) {
                Some(st2) => script_spec(st2, s.skip(n - pos + 1)),
                None => None,
            }
        } else {
            line_spec(here, line@)
        });
        match read_line(&mut out, frontmatter_done, line) {
            Ok(f) => {
                frontmatter_done = f;
            },
            Err(e) => {
                return Err(e);
            },
        }
        pos = next;
        proof {
            if n >= contents.len() {
                assert(contents@.skip(pos as int).len() == 0);
            }
        }
    }
    assert(contents@.skip(pos as int).len() == 0);
    Ok(out)
}

/// Why a script did not pass.
#[derive(Debug, Clone, Copy, PartialEq, Eq, Structural)]
pub enum RunError {
    /// The script itself is refused.
    Script,
    /// The machine for the script could not be made.
    Machine(Error),
    /// The script is one for several tasks.
    Multitasking,
    /// The input of the step with this number does not fit the input
    /// buffer.
    Input(usize),
    /// The step with this number did not end as the script expects.
    Step(usize),
}

/// Whether a line that succeeded or not, as `succeeded` says, and printed
/// `output` ended as `outcome` expects. Expected and printed lines are
/// compared without the white space at their ends.
pub open spec fn expected(succeeded: bool, outcome: OutcomeView, output: Seq<u8>) -> bool {
    match outcome {
        OutcomeView::OkAnyOutput => succeeded,
        OutcomeView::OkWithOutput(exp) => {
            let act = lines(output);
            &&& succeeded
            &&& act.len() == exp.len()
            &&& forall|i: int| 0 <= i < act.len()
                ==> trim_end(#[trigger] act[i]) == trim_end(exp[i])
        },
        OutcomeView::FatalError => !succeeded,
    }
}

/// Passes a line that ended with `res` and printed `output` as one that
/// ended as `outcome` expects. That it did is for the caller to show:
/// `as_expected` tells.
pub fn check_output(res: &Result<(), Error>, outcome: &Outcome, output: &[u8])
    requires
        expected(res is Ok, outcome@, output@),
{
}

/// Whether the line that ended with `res` and printed `output` ended as
/// `outcome` expects.
pub fn as_expected(res: &Result<(), Error>, outcome: &Outcome, output: &[u8]) -> (ok: bool)
    ensures
        ok == expected(res is Ok, outcome@, output@),
{
    match outcome {
        Outcome::OkAnyOutput => res.is_ok(),
        Outcome::FatalError => res.is_err(),
        Outcome::OkWithOutput(exp) => {
            if res.is_err() {
                return false;
            }
            let act = split_lines(output);
            if act.len() != exp.len() {
                return false;
            }
            let mut i: usize = 0;
            while i < act.len()
                invariant
                    i <= act.len(),
                    act.len() == exp.len(),
                    res is Ok,
                    outcome@ == OutcomeView::OkWithOutput(lines_view(exp@)),
                    lines_of(act@) == lines(output@),
                    forall|j: int|
                        0 <= j < i ==> trim_end(#[trigger] lines(output@)[j]) == trim_end(
                            lines_view(exp@)[j],
                        ),
                decreases act.len() - i,
            {
                assert(lines_of(act@)[i as int] == act@[i as int]@);
                assert(lines_view(exp@)[i as int] == exp@[i as int]@);
                if !same_trimmed(act[i].as_slice(), exp[i].as_slice()) {
                    assert(trim_end(lines(output@)[i as int]) != trim_end(
                        lines_view(exp@)[i as int],
                    ));
                    return false;
                }
                i += 1;
            }
            true
        },
    }
}

/// Whether `after` is `before` with its input buffer emptied and then
/// filled with `text`, if `text` fits the buffer, as `fits` says.
pub open spec fn fed<T>(before: &Forth<T>, after: &Forth<T>, text: Seq<u8>, fits: bool) -> bool {
    &&& after.same_but(before, Touch { input: true, ..Touch::nothing() })
    &&& after.wf()
    &&& fits == (text.len() <= before.input.cap())
    &&& after.input@ == (InputView {
        cur: None,
        taken: Seq::empty(),
        rest: if fits {
            text
        } else {
            Seq::empty()
        },
    })
}

/// Whether `after` is `before` with its output cleared.
pub open spec fn output_cleared<T>(before: &Forth<T>, after: &Forth<T>) -> bool {
    &&& after.same_but(before, Touch::output())
    &&& after.wf()
    &&& after.output@ == Seq::<u8>::empty()
}

/// What a line does to a machine: whether it takes the machine from the
/// first state to the second and returns the result.
pub type Line<T> = spec_fn(Forth<T>, Forth<T>, Result<(), Error>) -> bool;

/// Whether the line `line` takes the machine from `before` to `after` and
/// returns `res`.
pub open spec fn line_ran<T>(
    line: Line<T>,
    before: &Forth<T>,
    after: &Forth<T>,
    res: Result<(), Error>,
) -> bool {
    line(*before, *after, res)
}

/// A line on a machine that does not suspend: what `Forth::process_line`
/// does.
pub open spec fn processed<T: HostWords>() -> Line<T> {
    |before: Forth<T>, after: Forth<T>, res: Result<(), Error>|
        Forth::line_processed(&before, &after, res)
}

/// A line on a suspending machine whose suspending native words the
/// dispatcher `d` runs: what `AsyncForth::block_on_line` does.
pub open spec fn blocked_on<T: HostWords, D: AsyncBuiltins<T>>(d: D) -> Line<T> {
    |before: Forth<T>, after: Forth<T>, res: Result<(), Error>|
        AsyncForth::blocked(
            &d,
            &(AsyncForth { vm: before }),
            LineEvent::Start,
            before.step_limit as nat,
            &(AsyncForth { vm: after }),
            res,
        )
}

/// Whether running the steps `steps` from the step numbered `from` on takes
/// the machine from `before` to `after` and returns `r`. For each step the
/// input buffer is emptied and filled with the step's input, the line is
/// processed as `line` says, and what happened is held against what the
/// step expects, as `expected` says; then the output is cleared. The run
/// stops with `Input` at the first step whose input does not fit the
/// buffer, and with `Step` at the first step that does not end as expected.
pub open spec fn steps_ran<T>(
    line: Line<T>,
    before: &Forth<T>,
    steps: Seq<StepView>,
    from: int,
    after: &Forth<T>,
    r: Result<(), RunError>,
) -> bool
    decreases steps.len() - from,
{
    if from < 0 || from >= steps.len() {
        *after == *before && r == Ok::<(), RunError>(())
    } else {
        exists|filled: Forth<T>, fits: bool| #[trigger]
            fed(before, &filled, steps[from].input, fits) && if !fits {
                *after == filled && r == Err::<(), RunError>(RunError::Input(from as usize))
            } else {
                exists|done: Forth<T>, res: Result<(), Error>| #[trigger]
                    line_ran(line, &filled, &done, res) && done.wf() && if !expected(
                        res is Ok,
                        steps[from].output,
                        done.output@,
                    ) {
                        *after == done && r == Err::<(), RunError>(
                            RunError::Step(from as usize),
                        )
                    } else {
                        exists|cleared: Forth<T>| #[trigger]
                            output_cleared(&done, &cleared) && steps_ran(
                                line,
                                &cleared,
                                steps,
                                from + 1,
                                after,
                                r,
                            )
                    }
            }
    }
}

/// What running the steps of a script does: nothing where there are no
/// steps; steps for several tasks are refused; the steps for one machine
/// are run as `steps_ran` says.
pub open spec fn steps_run<T>(
    line: Line<T>,
    steps: ContentView,
    before: &Forth<T>,
    after: &Forth<T>,
    r: Result<(), RunError>,
) -> bool {
    match steps {
        ContentView::Empty => r == Ok::<(), RunError>(()) && *after == *before,
        ContentView::Multi(_) => r == Err::<(), RunError>(RunError::Multitasking) && *after
            == *before,
        ContentView::Single(s) => steps_ran(line, before, s, 0, after, r),
    }
}

/// Runs the steps `steps` on the machine `forth`: for each step it drops
/// what an earlier step left in the input buffer, feeds the step's input,
/// processes the line, compares what happened with what the step expects,
/// and clears the output. Stops at the first step that does not end as
/// expected. Steps for several tasks are refused with `Multitasking`,
/// nothing run.
pub fn blocking_steps_with<T: HostWords>(steps: &ContentKind, forth: &mut Forth<T>) -> (r: Result<
    (),
    RunError,
>)
    requires
        old(forth).wf(),
    ensures
        final(forth).wf(),
        steps_run(processed::<T>(), steps@, old(forth), final(forth), r),
{
    let list = match steps {
        ContentKind::Empty => {
            return Ok(());
        },
        ContentKind::Single(list) => list,
        ContentKind::Multi(_) => {
            return Err(RunError::Multitasking);
        },
    };
    let ghost s = steps_view(list@);
    let ghost start = *forth;
    let mut i: usize = 0;
    loop
        invariant_except_break
            forall|a: Forth<T>, o: Result<(), RunError>| #[trigger]
                steps_ran(processed::<T>(), forth, s, i as int, &a, o) ==> steps_ran(
                    processed::<T>(),
                    &start,
                    s,
                    0,
                    &a,
                    o,
                ),
        invariant
            i <= list.len(),
            steps@ == ContentView::Single(s),
            s == steps_view(list@),
            start == *old(forth),
            forth.wf(),
        ensures
            forth.wf(),
            steps_ran(processed::<T>(), &start, s, 0, forth, Ok::<(), RunError>(())),
        decreases list.len() - i,
    {
        if i >= list.len() {
            proof {
                assert(steps_ran(
                    processed::<T>(),
                    forth,
                    s,
                    i as int,
                    forth,
                    Ok::<(), RunError>(()),
                ));
            }
            break ;
        }
        let ghost cur = *forth;
        let step = &list[i];
        assert(s[i as int] == step@);
        forth.input.clear();
        let filled_in = forth.input.fill_bytes(step.input.as_slice());
        let ghost filled = *forth;
        proof {
            assert(fed(&cur, &filled, s[i as int].input, filled_in is Ok));
        }
        match filled_in {
            Ok(()) => {},
            Err(_) => {
                proof {
                    let o = Err::<(), RunError>(RunError::Input(i));
                    assert(steps_ran(processed::<T>(), &cur, s, i as int, forth, o));
                }
                return Err(RunError::Input(i));
            },
        }
        let res = forth.process_line();
        let ghost done = *forth;
        proof {
            assert(line_ran(processed::<T>(), &filled, &done, res));
        }
        if !as_expected(&res, &step.output, forth.output.as_bytes()) {
            proof {
                let o = Err::<(), RunError>(RunError::Step(i));
                assert(steps_ran(processed::<T>(), &cur, s, i as int, forth, o));
            }
            return Err(RunError::Step(i));
        }
        check_output(&res, &step.output, forth.output.as_bytes());
        forth.output.clear();
        i += 1;
        proof {
            assert(output_cleared(&done, forth));
            assert forall|a: Forth<T>, o: Result<(), RunError>| #[trigger]
                steps_ran(processed::<T>(), forth, s, i as int, &a, o) implies steps_ran(
                processed::<T>(),
                &start,
                s,
                0,
                &a,
                o,
            ) by {
                assert(steps_ran(processed::<T>(), &cur, s, i - 1, &a, o));
            }
        }
    }
    Ok(())
}

/// What `blocking_runtest` does with the script `contents`: a script that
/// is refused fails with `Script`; one that asks for a dictionary that
/// reaches above the highest address fails with `Machine`; the steps of any
/// other script are run, as `steps_run` says, on a machine as
/// `LBForth::from_params` makes it, with the capacities that the script
/// asks for, the table of all native words, and a dictionary of its own
/// that falls back on no other.
pub open spec fn script_run(contents: Seq<u8>, r: Result<(), RunError>) -> bool {
    match tokenize_spec(contents, true) {
        None => r == Err::<(), RunError>(RunError::Script),
        Some(t) => if DICT_BOTTOM + t.settings.dict_buf_elems > ADDR_MAX {
            r == Err::<(), RunError>(RunError::Machine(Error::DictionaryFull))
        } else {
            exists|machine: Forth<()>, after: Forth<()>| #[trigger]
                steps_run(processed::<()>(), t.steps, &machine, &after, r) && made(
                    &machine,
                    t.settings,
                ) && is_full_table(machine.builtins@) && machine.async_builtins@.len() == 0
        },
    }
}

/// Runs the script `contents` on a machine of its own, made with the
/// capacities that the script asks for and with the machine's own native
/// words. Fails with `Script` where the script is refused, with `Machine`
/// where the machine cannot be made, and as `blocking_steps_with` does.
pub fn blocking_runtest(contents: &str) -> (r: Result<(), RunError>)
    ensures
        script_run(contents.spec_bytes(), r),
{
    let tokd = match tokenize(contents.as_bytes(), true) {
        Ok(t) => t,
        Err(_) => {
            return Err(RunError::Script);
        },
    };
    let mut forth = match LBForth::from_params(tokd.settings, (), Forth::<()>::full_builtins()) {
        Ok(f) => f,
        Err(e) => {
            return Err(RunError::Machine(e));
        },
    };
    let ghost machine = forth.forth;
    let r = blocking_steps_with(&tokd.steps, &mut forth.forth);
    proof {
        assert(steps_run(processed::<()>(), tokd.steps@, &machine, &forth.forth, r));
    }
    r
}

/// Runs the script `contents` on the machine `forth`, and fails as
/// `blocking_steps_with` does. The script has to be one that `tokenize`
/// reads where no capacities may be set: the capacities of `forth` are what
/// they are.
pub fn blocking_runtest_with<T: HostWords>(forth: &mut Forth<T>, contents: &str) -> (r: Result<
    (),
    RunError,
>)
    requires
        old(forth).wf(),
        tokenize_spec(contents.spec_bytes(), false) is Some,
    ensures
        final(forth).wf(),
        steps_run(
            processed::<T>(),
            tokenize_spec(contents.spec_bytes(), false).unwrap().steps,
            old(forth),
            final(forth),
            r,
        ),
{
    match tokenize(contents.as_bytes(), false) {
        Ok(tokd) => blocking_steps_with(&tokd.steps, forth),
        Err(_) => Err(RunError::Script),
    }
}

/// Runs the script `contents` on the suspending machine `forth`, whose
/// suspending native words `dispatcher` runs, and fails as
/// `async_steps_with` does. The script has to be one that `tokenize` reads
/// where no capacities may be set.
pub fn async_blockon_runtest_with<T: HostWords, D: AsyncBuiltins<T>>(
    forth: &mut AsyncForth<T>,
    dispatcher: &D,
    contents: &str,
) -> (r: Result<(), RunError>)
    requires
        old(forth).vm.wf(),
        tokenize_spec(contents.spec_bytes(), false) is Some,
    ensures
        final(forth).vm.wf(),
        steps_run(
            blocked_on::<T, D>(*dispatcher),
            tokenize_spec(contents.spec_bytes(), false).unwrap().steps,
            &old(forth).vm,
            &final(forth).vm,
            r,
        ),
{
    match tokenize(contents.as_bytes(), false) {
        Ok(tokd) => async_steps_with(&tokd.steps, forth, dispatcher),
        Err(_) => Err(RunError::Script),
    }
}

/// Runs the steps `steps` on the suspending machine `forth` as
/// `blocking_steps_with` does on a machine that does not suspend.
pub fn async_steps_with<T: HostWords, D: AsyncBuiltins<T>>(
    steps: &ContentKind,
    forth: &mut AsyncForth<T>,
    dispatcher: &D,
) -> (r: Result<(), RunError>)
    requires
        old(forth).vm.wf(),
    ensures
        final(forth).vm.wf(),
        steps_run(blocked_on::<T, D>(*dispatcher), steps@, &old(forth).vm, &final(forth).vm, r),
{
    let ghost line = blocked_on::<T, D>(*dispatcher);
    let list = match steps {
        ContentKind::Empty => {
            return Ok(());
        },
        ContentKind::Single(list) => list,
        ContentKind::Multi(_) => {
            return Err(RunError::Multitasking);
        },
    };
    let ghost s = steps_view(list@);
    let ghost start = forth.vm;
    let mut i: usize = 0;
    loop
        invariant_except_break
            forall|a: Forth<T>, o: Result<(), RunError>| #[trigger]
                steps_ran(line, &forth.vm, s, i as int, &a, o) ==> steps_ran(
                    line,
                    &start,
                    s,
                    0,
                    &a,
                    o,
                ),
        invariant
            line == blocked_on::<T, D>(*dispatcher),
            i <= list.len(),
            steps@ == ContentView::Single(s),
            s == steps_view(list@),
            start == old(forth).vm,
            forth.vm.wf(),
        ensures
            forth.vm.wf(),
            steps_ran(line, &start, s, 0, &forth.vm, Ok::<(), RunError>(())),
        decreases list.len() - i,
    {
        if i >= list.len() {
            proof {
                assert(steps_ran(
                    line,
                    &forth.vm,
                    s,
                    i as int,
                    &forth.vm,
                    Ok::<(), RunError>(()),
                ));
            }
            break ;
        }
        let ghost cur = forth.vm;
        let step = &list[i];
        assert(s[i as int] == step@);
        forth.vm.input.clear();
        let filled_in = forth.vm.input.fill_bytes(step.input.as_slice());
        let ghost filled = *forth;
        proof {
            assert(fed(&cur, &filled.vm, s[i as int].input, filled_in is Ok));
        }
        match filled_in {
            Ok(()) => {},
            Err(_) => {
                proof {
                    let o = Err::<(), RunError>(RunError::Input(i));
                    assert(steps_ran(line, &cur, s, i as int, &forth.vm, o));
                }
                return Err(RunError::Input(i));
            },
        }
        let res = forth.block_on_line(dispatcher);
        let ghost done = *forth;
        proof {
            assert(filled == (AsyncForth { vm: filled.vm }));
            assert(done == (AsyncForth { vm: done.vm }));
            assert(line_ran(line, &filled.vm, &done.vm, res));
        }
        if !as_expected(&res, &step.output, forth.vm.output.as_bytes()) {
            proof {
                let o = Err::<(), RunError>(RunError::Step(i));
                assert(steps_ran(line, &cur, s, i as int, &forth.vm, o));
            }
            return Err(RunError::Step(i));
        }
        check_output(&res, &step.output, forth.vm.output.as_bytes());
        forth.vm.output.clear();
        i += 1;
        proof {
            assert(output_cleared(&done.vm, &forth.vm));
            assert forall|a: Forth<T>, o: Result<(), RunError>| #[trigger]
                steps_ran(line, &forth.vm, s, i as int, &a, o) implies steps_ran(
                line,
                &start,
                s,
                0,
                &a,
                o,
            ) by {
                assert(steps_ran(line, &cur, s, i - 1, &a, o));
            }
        }
    }
    Ok(())
}

/// Runs the script `contents` on a suspending machine of its own with the
/// host context `context`, made with the capacities that the script asks
/// for, the machine's own native words and the suspending native words of
/// `dispatcher`, which runs them. Fails as `blocking_runtest` does, and
/// with `Machine` where the dispatcher has more than 65536 words.
pub fn async_blockon_runtest_with_dispatcher<T: HostWords, D: AsyncBuiltins<T>>(
    context: T,
    dispatcher: D,
    contents: &str,
) -> (r: Result<(), RunError>)
    ensures
        match tokenize_spec(contents.spec_bytes(), true) {
            None => r == Err::<(), RunError>(RunError::Script),
            Some(t) => if DICT_BOTTOM + t.settings.dict_buf_elems > ADDR_MAX {
                r == Err::<(), RunError>(RunError::Machine(Error::DictionaryFull))
            } else {
                exists|table: Vec<AsyncBuiltinEntry>| #[trigger]
                    dispatcher.is_table(&table) && if table@.len() > 0x1_0000 {
                        r == Err::<(), RunError>(RunError::Machine(Error::DictionaryFull))
                    } else {
                        exists|machine: Forth<T>, after: Forth<T>| #[trigger]
                            steps_run(
                                blocked_on::<T, D>(dispatcher),
                                t.steps,
                                &machine,
                                &after,
                                r,
                            ) && made(&machine, t.settings) && is_full_table(machine.builtins@)
                                && machine.async_builtins == table && machine.host_ctxt
                                == context
                    }
            },
        },
{
    let tokd = match tokenize(contents.as_bytes(), true) {
        Ok(t) => t,
        Err(_) => {
            return Err(RunError::Script);
        },
    };
    let table = dispatcher.builtins();
    let ghost words = table;
    let mut forth = match AsyncLBForth::from_params(
        tokd.settings,
        context,
        Forth::<T>::full_builtins(),
        table,
    ) {
        Ok(f) => f,
        Err(e) => {
            proof {
                assert(dispatcher.is_table(&words));
            }
            return Err(RunError::Machine(e));
        },
    };
    let ghost machine = forth.forth.vm;
    let r = async_steps_with(&tokd.steps, &mut forth.forth, &dispatcher);
    proof {
        assert(dispatcher.is_table(&words));
        assert(steps_run(
            blocked_on::<T, D>(dispatcher),
            tokd.steps@,
            &machine,
            &forth.forth.vm,
            r,
        ));
    }
    r
}

/// What `async_blockon_runtest` does with the script `contents`: what
/// `script_run` says, on a suspending machine without suspending native
/// words.
pub open spec fn async_script_run(contents: Seq<u8>, r: Result<(), RunError>) -> bool {
    match tokenize_spec(contents, true) {
        None => r == Err::<(), RunError>(RunError::Script),
        Some(t) => if DICT_BOTTOM + t.settings.dict_buf_elems > ADDR_MAX {
            r == Err::<(), RunError>(RunError::Machine(Error::DictionaryFull))
        } else {
            exists|machine: Forth<()>, after: Forth<()>| #[trigger]
                steps_run(
                    blocked_on::<(), NoAsyncBuiltins>(NoAsyncBuiltins),
                    t.steps,
                    &machine,
                    &after,
                    r,
                ) && made(&machine, t.settings) && is_full_table(machine.builtins@)
                    && machine.async_builtins@.len() == 0
        },
    }
}

/// Runs the script `contents` on a suspending machine of its own that has
/// no suspending native words. Fails as `blocking_runtest` does.
pub fn async_blockon_runtest(contents: &str) -> (r: Result<(), RunError>)
    ensures
        async_script_run(contents.spec_bytes(), r),
{
    let tokd = match tokenize(contents.as_bytes(), true) {
        Ok(t) => t,
        Err(_) => {
            return Err(RunError::Script);
        },
    };
    let mut forth = match AsyncLBForth::from_params(
        tokd.settings,
        (),
        Forth::<()>::full_builtins(),
        NoAsyncBuiltins.builtins(),
    ) {
        Ok(f) => f,
        Err(e) => {
            return Err(RunError::Machine(e));
        },
    };
    let ghost machine = forth.forth.vm;
    let r = async_steps_with(&tokd.steps, &mut forth.forth, &NoAsyncBuiltins);
    proof {
        assert(steps_run(
            blocked_on::<(), NoAsyncBuiltins>(NoAsyncBuiltins),
            tokd.steps@,
            &machine,
            &forth.forth.vm,
            r,
        ));
    }
    r
}

/// Runs the script `contents` on each kind of machine: first on one that
/// does not suspend, then on one that does. Fails as `blocking_runtest`
/// does, with the error of the first machine that does not pass.
pub fn all_runtest(contents: &str) -> (r: Result<(), RunError>)
    ensures
        exists|first: Result<(), RunError>| #[trigger]
            script_run(contents.spec_bytes(), first) && match first {
                Ok(_) => async_script_run(contents.spec_bytes(), r),
                Err(_) => r == first,
            },
{
    let first = blocking_runtest(contents);
    proof {
        assert(script_run(contents.spec_bytes(), first));
    }
    match first {
        Ok(()) => async_blockon_runtest(contents),
        Err(e) => Err(e),
    }
}

} // verus!
