//! The Auto-mode climber guard: whether one iteration of an autonomous turn
//! was a valid climb step (keep looping) or a loop going nowhere (stop and
//! hand back to the user). A step is valid when the agent declared its phase
//! and produced net-new state: a plan change, or a tool call with arguments
//! not seen before in the session.
use vstd::prelude::*;
use std::collections::HashSet;
use std::collections::hash_map::DefaultHasher;
use std::hash::Hasher;
use vstd::std_specs::hash::DefaultHasherAdditionalSpecFns;
use vstd::string::StringSliceAdditionalSpecFns;
use crate::phase::Phase;

verus! {

broadcast use vstd::std_specs::hash::group_hash_axioms;

/// The bytes hashed for a call: the tool's name, a separator, and the
/// arguments, each string ended as `str`'s hash ends it.
pub open spec fn call_writes(tool_name: &str, args: &str) -> Seq<Seq<u8>> {
    seq![tool_name.spec_bytes(), seq![0xffu8], seq![0u8], args.spec_bytes(), seq![0xffu8]]
}

/// The fingerprint of a call: the default hasher's digest of its bytes.
pub open spec fn fingerprint(tool_name: &str, args: &str) -> u64 {
    DefaultHasher::spec_finish(call_writes(tool_name, args))
}

/// Stable hash of a (tool name, arguments) pair; the separator keeps
/// `("ab", "c")` and `("a", "bc")` apart.
pub fn fingerprint_call(tool_name: &str, args: &str) -> (h: u64)
    ensures
        h == fingerprint(tool_name, args),
{
    let mut end: Vec<u8> = Vec::new();
    end.push(0xffu8);
    let mut sep: Vec<u8> = Vec::new();
    sep.push(0u8);
    let mut hasher = DefaultHasher::new();
    hasher.write(tool_name.as_bytes());
    hasher.write(end.as_slice());
    hasher.write(sep.as_slice());
    hasher.write(args.as_bytes());
    hasher.write(end.as_slice());
    proof {
        assert(hasher@ =~= call_writes(tool_name, args));
    }
    hasher.finish()
}

/// What the guard knows: the phase declared this iteration, whether the
/// plan changed, whether a novel call ran, and every call fingerprint seen
/// this session.
pub struct AutoClimbState {
    pub phase: Option<Phase>,
    pub plan_changed: bool,
    pub novel_call: bool,
    pub seen_call_fingerprints: HashSet<u64>,
}

/// The guard's state as the contracts speak of it.
pub struct ClimbView {
    pub phase: Option<Phase>,
    pub plan_changed: bool,
    pub novel_call: bool,
    pub seen: Set<u64>,
}

/// A valid climb step: a declared phase and net-new state.
pub open spec fn valid_step(v: ClimbView) -> bool {
    v.phase is Some && (v.plan_changed || v.novel_call)
}

/// After a tool call: the call is novel when its fingerprint was not seen,
/// and it is remembered.
pub open spec fn after_call(v: ClimbView, fp: u64) -> ClimbView {
    ClimbView { seen: v.seen.insert(fp), novel_call: v.novel_call || !v.seen.contains(fp), ..v }
}

/// At the top of an iteration: no phase, no plan change, no novel call;
/// the fingerprints stay.
pub open spec fn after_reset(v: ClimbView) -> ClimbView {
    ClimbView { phase: None, plan_changed: false, novel_call: false, ..v }
}

impl Default for AutoClimbState {
    /// A guard that has seen nothing.
    fn default() -> (s: AutoClimbState)
        ensures
            s.view() == (ClimbView { phase: None, plan_changed: false, novel_call: false, seen: Set::empty() }),
    {
        AutoClimbState::new()
    }
}

impl AutoClimbState {
    pub open spec fn view(self) -> ClimbView {
        ClimbView {
            phase: self.phase,
            plan_changed: self.plan_changed,
            novel_call: self.novel_call,
            seen: self.seen_call_fingerprints@,
        }
    }

    /// A guard that has seen nothing.
    pub fn new() -> (s: AutoClimbState)
        ensures
            s.view() == (ClimbView { phase: None, plan_changed: false, novel_call: false, seen: Set::empty() }),
    {
        AutoClimbState {
            phase: None,
            plan_changed: false,
            novel_call: false,
            seen_call_fingerprints: HashSet::new(),
        }
    }

    /// Clears the iteration's signals at the top of each iteration.
    pub fn reset_for_iteration(&mut self)
        ensures
            final(self).view() == after_reset(old(self).view()),
    {
        self.phase = None;
        self.plan_changed = false;
        self.novel_call = false;
    }

    pub fn record_phase(&mut self, phase: Phase)
        ensures
            final(self).view() == (ClimbView { phase: Some(phase), ..old(self).view() }),
    {
        self.phase = Some(phase);
    }

    pub fn record_plan_change(&mut self)
        ensures
            final(self).view() == (ClimbView { plan_changed: true, ..old(self).view() }),
    {
        self.plan_changed = true;
    }

    /// Records a tool call; returns whether its fingerprint is new this
    /// session, in which case the iteration has a novel call.
    pub fn record_call(&mut self, tool_name: &str, args: &str) -> (novel: bool)
        ensures
            novel == !old(self).view().seen.contains(fingerprint(tool_name, args)),
            final(self).view() == after_call(old(self).view(), fingerprint(tool_name, args)),
    {
        let fingerprint = fingerprint_call(tool_name, args);
        let novel = self.seen_call_fingerprints.insert(fingerprint);
        if novel {
            self.novel_call = true;
        }
        novel
    }

    /// Whether the iteration was a valid climb step.
    pub fn is_valid_climb_step(&self) -> (b: bool)
        ensures
            b == valid_step(self.view()),
    {
        self.phase.is_some() && (self.plan_changed || self.novel_call)
    }
}

/// One thing that happens to the guard: the top of an iteration, a
/// declared phase, a plan change, or a tool call with its fingerprint.
pub enum ClimbEvent {
    Reset,
    Declared(Phase),
    PlanChanged,
    Called(u64),
}

/// The guard after one event.
pub open spec fn step(v: ClimbView, e: ClimbEvent) -> ClimbView {
    match e {
        ClimbEvent::Reset => after_reset(v),
        ClimbEvent::Declared(p) => ClimbView { phase: Some(p), ..v },
        ClimbEvent::PlanChanged => ClimbView { plan_changed: true, ..v },
        ClimbEvent::Called(fp) => after_call(v, fp),
    }
}

/// The guard after the events, in order.
pub open spec fn run(v: ClimbView, evs: Seq<ClimbEvent>) -> ClimbView
    decreases evs.len(),
{
    if evs.len() == 0 {
        v
    } else {
        run(step(v, evs[0]), evs.drop_first())
    }
}

/// The fingerprints of the calls among the events.
pub open spec fn calls_in(evs: Seq<ClimbEvent>) -> Set<u64>
    decreases evs.len(),
{
    if evs.len() == 0 {
        Set::empty()
    } else {
        let rest = calls_in(evs.drop_first());
        match evs[0] {
            ClimbEvent::Called(fp) => rest.insert(fp),
            _ => rest,
        }
    }
}

/// Some event declares a phase.
pub open spec fn declares(evs: Seq<ClimbEvent>) -> bool {
    exists|i: int| 0 <= i < evs.len() && #[trigger] evs[i] is Declared
}

/// Some event changes the plan.
pub open spec fn changes_plan(evs: Seq<ClimbEvent>) -> bool {
    exists|i: int| 0 <= i < evs.len() && #[trigger] evs[i] is PlanChanged
}

/// Some event resets the guard.
pub open spec fn resets(evs: Seq<ClimbEvent>) -> bool {
    exists|i: int| 0 <= i < evs.len() && #[trigger] evs[i] is Reset
}

/// Some call among the events is novel: its fingerprint is neither in
/// `seen` nor in an earlier call's.
pub open spec fn novel_among(seen: Set<u64>, evs: Seq<ClimbEvent>) -> bool
    decreases evs.len(),
{
    if evs.len() == 0 {
        false
    } else {
        match evs[0] {
            ClimbEvent::Called(fp) => !seen.contains(fp) || novel_among(seen.insert(fp), evs.drop_first()),
            _ => novel_among(seen, evs.drop_first()),
        }
    }
}

/// Within one iteration (no reset among the events): the guard remembers
/// every call's fingerprint, it has a phase when it had one or one was
/// declared, a plan change when it had one or the plan changed, and a novel
/// call when it had one or some call was novel.
pub proof fn lemma_iteration_run(v: ClimbView, evs: Seq<ClimbEvent>)
    requires
        !resets(evs),
    ensures
        run(v, evs).seen == v.seen.union(calls_in(evs)),
        (run(v, evs).phase is Some) == (v.phase is Some || declares(evs)),
        run(v, evs).plan_changed == (v.plan_changed || changes_plan(evs)),
        run(v, evs).novel_call == (v.novel_call || novel_among(v.seen, evs)),
    decreases evs.len(),
{
    if evs.len() > 0 {
        let rest = evs.drop_first();
        assert forall|i: int| 0 <= i < rest.len() implies !(#[trigger] rest[i] is Reset) by {
            assert(rest[i] == evs[i + 1]);
        }
        lemma_iteration_run(step(v, evs[0]), rest);
        assert(declares(evs) == (evs[0] is Declared || declares(rest))) by {
            if declares(evs) {
                let i = choose|i: int| 0 <= i < evs.len() && #[trigger] evs[i] is Declared;
                if i > 0 {
                    assert(rest[i - 1] == evs[i]);
                }
            }
            if declares(rest) {
                let i = choose|i: int| 0 <= i < rest.len() && #[trigger] rest[i] is Declared;
                assert(evs[i + 1] == rest[i]);
            }
        }
        assert(changes_plan(evs) == (evs[0] is PlanChanged || changes_plan(rest))) by {
            if changes_plan(evs) {
                let i = choose|i: int| 0 <= i < evs.len() && #[trigger] evs[i] is PlanChanged;
                if i > 0 {
                    assert(rest[i - 1] == evs[i]);
                }
            }
            if changes_plan(rest) {
                let i = choose|i: int| 0 <= i < rest.len() && #[trigger] rest[i] is PlanChanged;
                assert(evs[i + 1] == rest[i]);
            }
        }
        assert(!(evs[0] is Reset));
        match evs[0] {
            ClimbEvent::Called(fp) => {
                assert(v.seen.insert(fp).union(calls_in(rest)) =~= v.seen.union(calls_in(rest).insert(fp)));
            },
            _ => {},
        }
    } else {
        assert(v.seen.union(Set::empty()) =~= v.seen);
    }
}

/// Resets keep what was seen: after any events the guard has seen exactly
/// the fingerprints it had seen and those of every call among them.
pub proof fn lemma_run_remembers_calls(v: ClimbView, evs: Seq<ClimbEvent>)
    ensures
        run(v, evs).seen == v.seen.union(calls_in(evs)),
    decreases evs.len(),
{
    if evs.len() > 0 {
        let rest = evs.drop_first();
        lemma_run_remembers_calls(step(v, evs[0]), rest);
        match evs[0] {
            ClimbEvent::Called(fp) => {
                assert(v.seen.insert(fp).union(calls_in(rest)) =~= v.seen.union(calls_in(rest).insert(fp)));
            },
            _ => {},
        }
    } else {
        assert(v.seen.union(Set::empty()) =~= v.seen);
    }
}

/// A call is novel exactly when no earlier call, in any iteration, had its
/// fingerprint; and an iteration begun by a reset is a valid step exactly
/// when it declared a phase and changed the plan or made a novel call.
pub proof fn lemma_climb_laws(v: ClimbView, earlier: Seq<ClimbEvent>, fp: u64, iteration: Seq<ClimbEvent>)
    requires
        !resets(iteration),
    ensures
        (!run(v, earlier).seen.contains(fp)) == !(v.seen.contains(fp) || calls_in(earlier).contains(fp)),
        valid_step(run(after_reset(v), iteration)) == (declares(iteration) && (changes_plan(iteration) || novel_among(
            v.seen,
            iteration,
        ))),
{
    lemma_run_remembers_calls(v, earlier);
    lemma_iteration_run(after_reset(v), iteration);
}

/// Repeating a call is never novel: once a call was recorded, recording it
/// again in a later iteration finds its fingerprint seen.
pub proof fn lemma_repeated_call_not_novel(v: ClimbView, fp: u64)
    ensures
        after_call(after_reset(after_call(v, fp)), fp).seen.contains(fp),
        after_reset(after_call(v, fp)).seen.contains(fp),
        !valid_step(after_call(after_reset(after_call(v, fp)), fp)) <== (after_reset(after_call(v, fp)).phase is None),
        after_call(after_reset(after_call(v, fp)), fp).novel_call == false,
{
}

/// Without a declared phase no iteration is a valid step, whatever it did.
pub proof fn lemma_no_phase_never_valid(v: ClimbView)
    requires
        v.phase is None,
    ensures
        !valid_step(v),
{
}

/// A reset clears the iteration's signals: right after it, the iteration is
/// not a valid step, and the fingerprints seen stay.
pub proof fn lemma_reset_clears_step(v: ClimbView)
    ensures
        !valid_step(after_reset(v)),
        after_reset(v).seen == v.seen,
{
}

} // verus!
