//! Decisions of an analysis worker for one item: in what order the two
//! phases' results are awaited, how their outcomes combine into the record
//! that is persisted, and which external processes are killed and reaped.
use vstd::prelude::*;

use crate::mapper::masks_match;
use crate::text::{chars_of, string_of};
use crate::record::{FileInfo, FileInfoView};

verus! {

/// Error tag added to the basic result when the advanced phase failed.
pub const ADVANCED_FAILED: &'static str = "advanced analysis timeout or panic";

/// Error tag added to the advanced result when the basic phase failed.
pub const BASIC_FAILED: &'static str = "basic analysis timeout or panic";

/// Message of the error-only record persisted when both phases failed.
pub const BOTH_FAILED: &'static str = "timeout or panic during analysis";

/// One of the two analysis phases, each run against its own external process.
#[derive(PartialEq, Eq, Structural, Clone, Copy, Debug)]
pub enum Phase {
    Basic,
    Advanced,
}

/// How a phase ended, as seen by the worker.
pub enum PhaseOutcome {
    /// Its result arrived in time.
    Finished(FileInfo),
    /// Its process was spawned, but no result arrived in time (a timeout,
    /// or a panic of the task that ran it).
    Failed,
    /// Its process could not be spawned.
    NotSpawned,
}

impl PhaseOutcome {
    pub open spec fn spawned(&self) -> bool {
        !(self is NotSpawned)
    }

    pub fn is_failed(&self) -> (r: bool)
        ensures
            r == (self is Failed),
    {
        match self {
            PhaseOutcome::Failed => true,
            _ => false,
        }
    }

    pub fn is_spawned(&self) -> (r: bool)
        ensures
            r == self.spawned(),
    {
        match self {
            PhaseOutcome::NotSpawned => false,
            _ => true,
        }
    }
}

/// One step of process cleanup.
#[derive(PartialEq, Eq, Structural, Clone, Copy, Debug)]
pub enum ProcessStep {
    /// Forcibly terminate the phase's process.
    Kill(Phase),
    /// Reap the phase's process: wait for its exit status.
    Wait(Phase),
}

/// The record that is persisted for an item.
pub enum Emitted {
    Record(FileInfo),
    /// The error-only record, carrying `BOTH_FAILED`.
    Placeholder,
}

/// What a worker does once both phases' outcomes are known.
pub struct Completion {
    pub emitted: Emitted,
    pub cleanup: Vec<ProcessStep>,
}

/// `[s]` when `c` holds, else nothing.
pub open spec fn step_if(c: bool, s: ProcessStep) -> Seq<ProcessStep> {
    if c {
        seq![s]
    } else {
        Seq::empty()
    }
}

/// The cleanup for two outcomes: kill the process of each phase that failed,
/// then reap the process of each phase that was spawned.
pub open spec fn cleanup_plan(basic: PhaseOutcome, advanced: PhaseOutcome) -> Seq<ProcessStep> {
    step_if(advanced is Failed, ProcessStep::Kill(Phase::Advanced))
        + step_if(basic is Failed, ProcessStep::Kill(Phase::Basic))
        + step_if(basic.spawned(), ProcessStep::Wait(Phase::Basic))
        + step_if(advanced.spawned(), ProcessStep::Wait(Phase::Advanced))
}

/// The record that two outcomes combine into.
pub open spec fn emitted_for(basic: PhaseOutcome, advanced: PhaseOutcome, e: Emitted) -> bool {
    if basic is Finished && advanced is Finished {
        e matches Emitted::Record(m) && m@ == (FileInfoView {
            zignatures: advanced->0@.zignatures,
            ..basic->0@
        })
    } else if basic is Finished {
        e matches Emitted::Record(m) && m@ == (FileInfoView {
            error: basic->0@.error.push(ADVANCED_FAILED@),
            ..basic->0@
        })
    } else if advanced is Finished {
        e matches Emitted::Record(m) && m@ == (FileInfoView {
            error: advanced->0@.error.push(BASIC_FAILED@),
            ..advanced->0@
        })
    } else {
        e is Placeholder
    }
}

/// How many times `s` occurs in `steps`.
pub open spec fn occurrences(steps: Seq<ProcessStep>, s: ProcessStep) -> nat
    decreases steps.len(),
{
    if steps.len() == 0 {
        0
    } else {
        occurrences(steps.drop_last(), s) + if steps.last() == s {
            1nat
        } else {
            0nat
        }
    }
}

/// Combines the outcomes of the two phases: both finished gives the basic
/// result with the advanced result's signatures; one finished gives that
/// result with an error tag naming the other phase; none finished gives the
/// error-only placeholder. The cleanup kills what failed and reaps what ran.
pub fn combine(basic: PhaseOutcome, advanced: PhaseOutcome) -> (r: Completion)
    ensures
        emitted_for(basic, advanced, r.emitted),
        r.cleanup@ == cleanup_plan(basic, advanced),
        (basic matches PhaseOutcome::Finished(b) ==> masks_match(b@)) && (
        advanced matches PhaseOutcome::Finished(a) ==> masks_match(a@)) ==> (
        r.emitted matches Emitted::Record(m) ==> masks_match(m@)),
{
    let mut cleanup: Vec<ProcessStep> = Vec::new();
    if advanced.is_failed() {
        cleanup.push(ProcessStep::Kill(Phase::Advanced));
    }
    if basic.is_failed() {
        cleanup.push(ProcessStep::Kill(Phase::Basic));
    }
    if basic.is_spawned() {
        cleanup.push(ProcessStep::Wait(Phase::Basic));
    }
    if advanced.is_spawned() {
        cleanup.push(ProcessStep::Wait(Phase::Advanced));
    }
    assert(cleanup@ =~= cleanup_plan(basic, advanced));
    let ghost b0 = basic;
    let ghost a0 = advanced;
    let emitted = match basic {
        PhaseOutcome::Finished(mut b) => match advanced {
            PhaseOutcome::Finished(a) => {
                b.zignatures = a.zignatures;
                assert(b@ =~= (FileInfoView { zignatures: a@.zignatures, ..b0->0@ }));
                Emitted::Record(b)
            },
            _ => {
                b.push_error(ADVANCED_FAILED);
                Emitted::Record(b)
            },
        },
        _ => match advanced {
            PhaseOutcome::Finished(mut a) => {
                a.push_error(BASIC_FAILED);
                Emitted::Record(a)
            },
            _ => Emitted::Placeholder,
        },
    };
    Completion { emitted, cleanup }
}

/// The lower-case hexadecimal digit of `d < 16`.
pub open spec fn hex_char(d: u32) -> char {
    if d < 10 {
        ((0x30 + d) as u8) as char
    } else {
        ((0x61 + d - 10) as u8) as char
    }
}

/// How a character stands in a JSON string: `"` and `\` behind a
/// backslash, control characters as `\u00XX`, anything else as itself.
pub open spec fn escape_char(c: char) -> Seq<char> {
    let v = c as u32;
    if c == '"' {
        seq!['\\', '"']
    } else if c == '\\' {
        seq!['\\', '\\']
    } else if v < 0x20 {
        seq!['\\', 'u', '0', '0', hex_char(v / 16), hex_char(v % 16)]
    } else {
        seq![c]
    }
}

/// `s` escaped for a JSON string, character by character.
pub open spec fn json_escaped(s: Seq<char>) -> Seq<char>
    decreases s.len(),
{
    if s.len() == 0 {
        Seq::empty()
    } else {
        json_escaped(s.drop_last()) + escape_char(s.last())
    }
}

fn hex_digit_char(d: u32) -> (r: char)
    requires
        d < 16,
    ensures
        r == hex_char(d),
{
    if d < 10 {
        ((0x30 + d) as u8) as char
    } else {
        ((0x61 + d - 10) as u8) as char
    }
}

/// Escapes `s` for a JSON string.
pub fn json_escape(s: &str) -> (r: String)
    ensures
        r@ == json_escaped(s@),
{
    let cs = chars_of(s);
    let mut out: Vec<char> = Vec::new();
    let mut k: usize = 0;
    while k < cs.len()
        invariant
            cs@ == s@,
            k <= cs@.len(),
            out@ == json_escaped(cs@.take(k as int)),
        decreases cs.len() - k,
    {
        let c = cs[k];
        let v = c as u32;
        let ghost before = out@;
        if c == '"' {
            out.push('\\');
            out.push('"');
        } else if c == '\\' {
            out.push('\\');
            out.push('\\');
        } else if v < 0x20 {
            out.push('\\');
            out.push('u');
            out.push('0');
            out.push('0');
            out.push(hex_digit_char(v / 16));
            out.push(hex_digit_char(v % 16));
        } else {
            out.push(c);
        }
        assert(cs@.take(k + 1).drop_last() == cs@.take(k as int));
        assert(out@ =~= before + escape_char(c));
        k = k + 1;
    }
    assert(cs@.take(cs@.len() as int) == cs@);
    string_of(out.as_slice())
}

/// The error-only record persisted in place of an analysis record:
/// `{"error": "<message>"}`, with the message escaped for JSON.
pub open spec fn error_record_text(message: Seq<char>) -> Seq<char> {
    "{\"error\": \""@ + json_escaped(message) + "\"}"@
}

/// Renders the error-only record for `message`.
pub fn error_record(message: &str) -> (r: String)
    ensures
        r@ == error_record_text(message@),
{
    let escaped = json_escape(message);
    "{\"error\": \"".to_string().concat(escaped.as_str()).concat("\"}")
}

/// The name of the file that holds the record of the item named `name`.
pub open spec fn record_file_name_of(name: Seq<char>) -> Seq<char> {
    name + ".json"@
}

/// Names the file that holds the record of the item named `name`.
pub fn record_file_name(name: &str) -> (r: String)
    ensures
        r@ == record_file_name_of(name@),
{
    name.to_string().concat(".json")
}

/// What a worker does next for the item in hand.
#[derive(PartialEq, Eq, Structural, Clone, Copy, Debug)]
pub enum WorkerAction {
    /// Wait, up to the timeout, for the basic phase's result.
    AwaitBasic,
    /// Wait, up to the timeout, for the advanced phase's result.
    AwaitAdvanced,
    /// Check once, without blocking, whether the basic result arrived meanwhile.
    PollBasic,
    /// Both outcomes are known: finish the item.
    Combine,
}

/// The first action for an item, given which processes were spawned.
pub open spec fn first_action(basic_spawned: bool, advanced_spawned: bool) -> WorkerAction {
    if basic_spawned {
        WorkerAction::AwaitBasic
    } else if advanced_spawned {
        WorkerAction::AwaitAdvanced
    } else {
        WorkerAction::Combine
    }
}

/// The action after `done`. A spawned basic phase whose result is still
/// missing is polled once more, after the advanced phase was awaited.
pub open spec fn action_after(
    done: WorkerAction,
    have_basic: bool,
    basic_spawned: bool,
    advanced_spawned: bool,
) -> WorkerAction {
    match done {
        WorkerAction::AwaitBasic => if advanced_spawned {
            WorkerAction::AwaitAdvanced
        } else if !have_basic {
            WorkerAction::PollBasic
        } else {
            WorkerAction::Combine
        },
        WorkerAction::AwaitAdvanced => if basic_spawned && !have_basic {
            WorkerAction::PollBasic
        } else {
            WorkerAction::Combine
        },
        _ => WorkerAction::Combine,
    }
}

/// The outcome of a phase from what arrived of it and whether it was spawned.
pub open spec fn outcome_of(arrived: Option<FileInfo>, spawned: bool) -> PhaseOutcome {
    match arrived {
        Some(r) => PhaseOutcome::Finished(r),
        None => if spawned {
            PhaseOutcome::Failed
        } else {
            PhaseOutcome::NotSpawned
        },
    }
}

/// The state of a worker for one item: which phase processes were spawned,
/// which results arrived, and what to do next.
pub struct ItemSession {
    pub basic_spawned: bool,
    pub advanced_spawned: bool,
    pub basic: Option<FileInfo>,
    pub advanced: Option<FileInfo>,
    pub next: WorkerAction,
}

impl ItemSession {
    /// A session in which no result has arrived yet.
    pub fn new(basic_spawned: bool, advanced_spawned: bool) -> (r: ItemSession)
        ensures
            r.basic_spawned == basic_spawned,
            r.advanced_spawned == advanced_spawned,
            r.basic is None,
            r.advanced is None,
            r.next == first_action(basic_spawned, advanced_spawned),
    {
        let next = if basic_spawned {
            WorkerAction::AwaitBasic
        } else if advanced_spawned {
            WorkerAction::AwaitAdvanced
        } else {
            WorkerAction::Combine
        };
        ItemSession { basic_spawned, advanced_spawned, basic: None, advanced: None, next }
    }

    /// Records what the pending wait or poll gave (`None`: nothing arrived)
    /// and returns the next action.
    pub fn on_result(&mut self, arrived: Option<FileInfo>) -> (r: WorkerAction)
        requires
            old(self).next != WorkerAction::Combine,
        ensures
            final(self).basic_spawned == old(self).basic_spawned,
            final(self).advanced_spawned == old(self).advanced_spawned,
            old(self).next == WorkerAction::AwaitAdvanced ==> final(self).advanced == arrived
                && final(self).basic == old(self).basic,
            old(self).next != WorkerAction::AwaitAdvanced ==> final(self).basic == arrived
                && final(self).advanced == old(self).advanced,
            final(self).next == action_after(
                old(self).next,
                final(self).basic is Some,
                old(self).basic_spawned,
                old(self).advanced_spawned,
            ),
            r == final(self).next,
    {
        let done = self.next;
        if done == WorkerAction::AwaitAdvanced {
            self.advanced = arrived;
        } else {
            self.basic = arrived;
        }
        let have_basic = self.basic.is_some();
        let next = match done {
            WorkerAction::AwaitBasic => if self.advanced_spawned {
                WorkerAction::AwaitAdvanced
            } else if !have_basic {
                WorkerAction::PollBasic
            } else {
                WorkerAction::Combine
            },
            WorkerAction::AwaitAdvanced => if self.basic_spawned && !have_basic {
                WorkerAction::PollBasic
            } else {
                WorkerAction::Combine
            },
            _ => WorkerAction::Combine,
        };
        self.next = next;
        next
    }

    /// Combines the two outcomes once both are known.
    pub fn finish(self) -> (r: Completion)
        requires
            self.next == WorkerAction::Combine,
        ensures
            emitted_for(
                outcome_of(self.basic, self.basic_spawned),
                outcome_of(self.advanced, self.advanced_spawned),
                r.emitted,
            ),
            r.cleanup@ == cleanup_plan(
                outcome_of(self.basic, self.basic_spawned),
                outcome_of(self.advanced, self.advanced_spawned),
            ),
    {
        let basic = match self.basic {
            Some(r) => PhaseOutcome::Finished(r),
            None => if self.basic_spawned {
                PhaseOutcome::Failed
            } else {
                PhaseOutcome::NotSpawned
            },
        };
        let advanced = match self.advanced {
            Some(r) => PhaseOutcome::Finished(r),
            None => if self.advanced_spawned {
                PhaseOutcome::Failed
            } else {
                PhaseOutcome::NotSpawned
            },
        };
        combine(basic, advanced)
    }
}

/// Awaits and polls only phases whose process was spawned.
pub open spec fn action_allowed(a: WorkerAction, basic_spawned: bool, advanced_spawned: bool) -> bool {
    match a {
        WorkerAction::AwaitBasic => basic_spawned,
        WorkerAction::PollBasic => basic_spawned,
        WorkerAction::AwaitAdvanced => advanced_spawned,
        WorkerAction::Combine => true,
    }
}

/// Whatever arrives, a session reaches `Combine` after at most three
/// waits or polls, awaits each phase at most once, and never waits on a
/// phase whose process was not spawned.
pub proof fn lemma_session_reaches_combine(
    basic_spawned: bool,
    advanced_spawned: bool,
    have1: bool,
    have2: bool,
    have3: bool,
)
    ensures
        ({
            let a1 = first_action(basic_spawned, advanced_spawned);
            let a2 = action_after(a1, have1, basic_spawned, advanced_spawned);
            let a3 = action_after(a2, have2, basic_spawned, advanced_spawned);
            let a4 = action_after(a3, have3, basic_spawned, advanced_spawned);
            &&& action_allowed(a1, basic_spawned, advanced_spawned)
            &&& a1 != WorkerAction::Combine ==> action_allowed(a2, basic_spawned, advanced_spawned)
                && a2 != a1
            &&& a2 != WorkerAction::Combine && a1 != WorkerAction::Combine ==> action_allowed(
                a3,
                basic_spawned,
                advanced_spawned,
            ) && a3 != a1 && a3 != a2
            &&& a3 != WorkerAction::Combine && a2 != WorkerAction::Combine && a1
                != WorkerAction::Combine ==> a4 == WorkerAction::Combine
        }),
{
}

/// Whatever the outcomes of the two phases, the cleanup reaps each spawned
/// process exactly once and no other, kills exactly the processes of the
/// phases that failed, and issues every kill before the first reaping.
pub proof fn lemma_cleanup_reaps_each_spawned_process_once(
    basic: PhaseOutcome,
    advanced: PhaseOutcome,
)
    ensures
        occurrences(cleanup_plan(basic, advanced), ProcessStep::Wait(Phase::Basic)) == if basic.spawned() {
            1nat
        } else {
            0nat
        },
        occurrences(cleanup_plan(basic, advanced), ProcessStep::Wait(Phase::Advanced))
            == if advanced.spawned() {
            1nat
        } else {
            0nat
        },
        occurrences(cleanup_plan(basic, advanced), ProcessStep::Kill(Phase::Basic)) == if basic is Failed {
            1nat
        } else {
            0nat
        },
        occurrences(cleanup_plan(basic, advanced), ProcessStep::Kill(Phase::Advanced))
            == if advanced is Failed {
            1nat
        } else {
            0nat
        },
        forall|i: int, j: int|
            0 <= i < cleanup_plan(basic, advanced).len() && 0 <= j < cleanup_plan(
                basic,
                advanced,
            ).len() && #[trigger] cleanup_plan(basic, advanced)[i] is Kill
                && #[trigger] cleanup_plan(basic, advanced)[j] is Wait ==> i < j,
{
    reveal_with_fuel(occurrences, 5);
    let plan = cleanup_plan(basic, advanced);
    let kills = step_if(advanced is Failed, ProcessStep::Kill(Phase::Advanced)) + step_if(
        basic is Failed,
        ProcessStep::Kill(Phase::Basic),
    );
    let waits = step_if(basic.spawned(), ProcessStep::Wait(Phase::Basic)) + step_if(
        advanced.spawned(),
        ProcessStep::Wait(Phase::Advanced),
    );
    assert(plan =~= kills + waits);
    assert forall|i: int| 0 <= i < plan.len() && plan[i] is Kill implies i < kills.len() by {
        if i >= kills.len() {
            assert(plan[i] == waits[i - kills.len()]);
        }
    }
    assert forall|j: int| 0 <= j < plan.len() && plan[j] is Wait implies j >= kills.len() by {
        if j < kills.len() {
            assert(plan[j] == kills[j]);
        }
    }
}

} // verus!
