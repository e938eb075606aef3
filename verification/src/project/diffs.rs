//! When the diffs of buffers against their base are computed.
use super::{Project, ProjectView};
use crate::event::Effect;
use crate::ids::BufferId;
use vstd::prelude::*;

verus! {

/// The shortest time, in milliseconds, for which requests for diffs are collected.
pub const MIN_DELAY: u64 = 50;

/// The buffers that wait once another asks.
pub open spec fn with_waiting(waiting: Seq<BufferId>, id: BufferId) -> Seq<BufferId> {
    if waiting.contains(id) {
        waiting
    } else {
        waiting.push(id)
    }
}

/// What is scheduled when a buffer asks and `waiting` buffers wait then.
pub open spec fn schedule(waiting: nat, debounce: Option<u64>) -> Seq<Effect> {
    match debounce {
        None => if waiting == 1 {
            seq![Effect::DeferDiffRecalculation]
        } else {
            Seq::empty()
        },
        Some(delay) => seq![
            Effect::DebounceDiffRecalculation {
                delay_ms: if delay < MIN_DELAY {
                    MIN_DELAY
                } else {
                    delay
                },
            },
        ],
    }
}

/// Whether the only effect is the computation of these diffs.
pub open spec fn recalculates(effects: Seq<Effect>, buffers: Seq<BufferId>) -> bool {
    effects.len() == 1 && (effects[0] matches Effect::RecalculateDiffs(list) && list@ == buffers)
}

/// The observers of each buffer are told.
pub open spec fn notify_effects(buffers: Seq<BufferId>) -> Seq<Effect> {
    buffers.map_values(|id: BufferId| Effect::NotifyBuffer(id))
}

impl ProjectView {
    /// The project once a buffer asked for its diff.
    pub open spec fn after_diff_request(self, id: BufferId) -> ProjectView {
        ProjectView {
            buffers_needing_diff: with_waiting(self.buffers_needing_diff, id),
            ..self
        }
    }
}

impl Project {
    /// A buffer asks for its diff. With a `debounce` in milliseconds, requests are collected for
    /// at least that time; without, the first request starts the computation.
    pub fn request_buffer_diff_recalculation(&mut self, id: BufferId, debounce: Option<u64>) -> (
    effects: Vec<Effect>)
        requires
            old(self).wf(),
        ensures
            final(self).wf(),
            final(self)@ == old(self)@.after_diff_request(id),
            effects@ == schedule(final(self)@.buffers_needing_diff.len(), debounce),
    {
        let mut known = false;
        let mut i: usize = 0;
        while i < self.buffers_needing_diff.len()
            invariant
                i <= self.buffers_needing_diff.len(),
                known == self.buffers_needing_diff@.take(i as int).contains(id),
            decreases self.buffers_needing_diff.len() - i,
        {
            proof {
                let seen = self.buffers_needing_diff@.take(i as int);
                let next = self.buffers_needing_diff@.take(i as int + 1);
                assert(next =~= seen.push(self.buffers_needing_diff@[i as int]));
                if next.contains(id) {
                    let j = choose|j: int| 0 <= j < next.len() && next[j] == id;
                    if j < i {
                        assert(seen[j] == id);
                    }
                }
                if seen.contains(id) {
                    let j = choose|j: int| 0 <= j < seen.len() && seen[j] == id;
                    assert(next[j] == id);
                }
                assert(next[i as int] == self.buffers_needing_diff@[i as int]);
            }
            if self.buffers_needing_diff[i] == id {
                known = true;
            }
            i = i + 1;
        }
        assert(self.buffers_needing_diff@.take(i as int) =~= self.buffers_needing_diff@);
        if !known {
            self.buffers_needing_diff.push(id);
        }
        match debounce {
            None => {
                if self.buffers_needing_diff.len() == 1 {
                    vec![Effect::DeferDiffRecalculation]
                } else {
                    Vec::new()
                }
            },
            Some(delay) => {
                let delay_ms: u64 = if delay < MIN_DELAY {
                    MIN_DELAY
                } else {
                    delay
                };
                vec![Effect::DebounceDiffRecalculation { delay_ms }]
            },
        }
    }

    /// Starts the computation of the diffs that were asked for; `finish_buffer_diffs` follows.
    pub fn recalculate_buffer_diffs(&mut self) -> (effects: Vec<Effect>)
        requires
            old(self).wf(),
        ensures
            final(self).wf(),
            final(self)@ == (ProjectView { buffers_needing_diff: Seq::empty(), ..old(self)@ }),
            recalculates(effects@, old(self)@.buffers_needing_diff),
    {
        let mut buffers: Vec<BufferId> = Vec::new();
        buffers.append(&mut self.buffers_needing_diff);
        assert(buffers@ =~= old(self)@.buffers_needing_diff);
        let mut effects: Vec<Effect> = Vec::new();
        effects.push(Effect::RecalculateDiffs(buffers));
        effects
    }

    /// The diffs of these buffers were computed. If others were asked for meanwhile they come
    /// next; otherwise the observers of the buffers are told.
    pub fn finish_buffer_diffs(&mut self, buffers: &Vec<BufferId>) -> (effects: Vec<Effect>)
        requires
            old(self).wf(),
        ensures
            final(self).wf(),
            final(self)@ == (ProjectView { buffers_needing_diff: Seq::empty(), ..old(self)@ }),
            old(self)@.buffers_needing_diff.len() == 0 ==> effects@ == notify_effects(buffers@),
            old(self)@.buffers_needing_diff.len() > 0 ==> recalculates(
                effects@,
                old(self)@.buffers_needing_diff,
            ),
    {
        if self.buffers_needing_diff.len() > 0 {
            return self.recalculate_buffer_diffs();
        }
        assert(self.buffers_needing_diff@ =~= Seq::empty());
        let ghost want = notify_effects(buffers@);
        let mut effects: Vec<Effect> = Vec::new();
        let mut i: usize = 0;
        while i < buffers.len()
            invariant
                i <= buffers.len(),
                want == notify_effects(buffers@),
                effects@ == want.take(i as int),
            decreases buffers.len() - i,
        {
            effects.push(Effect::NotifyBuffer(buffers[i]));
            i = i + 1;
            assert(effects@ =~= want.take(i as int));
        }
        assert(effects@ =~= want);
        effects
    }
}

/// The buffers that wait once a list of buffers asked.
pub open spec fn all_waiting(waiting: Seq<BufferId>, asked: Seq<BufferId>) -> Seq<BufferId>
    decreases asked.len(),
{
    if asked.len() == 0 {
        waiting
    } else {
        with_waiting(all_waiting(waiting, asked.drop_last()), asked.last())
    }
}

/// Whatever asks before a computation starts is computed in it, each buffer once, and nothing
/// else is.
pub proof fn law_no_request_lost(asked: Seq<BufferId>)
    ensures
        all_waiting(Seq::empty(), asked).no_duplicates(),
        forall|id: BufferId| #[trigger]
            all_waiting(Seq::empty(), asked).contains(id) <==> asked.contains(id),
    decreases asked.len(),
{
    let waiting = all_waiting(Seq::empty(), asked);
    if asked.len() > 0 {
        law_no_request_lost(asked.drop_last());
        let before = all_waiting(Seq::empty(), asked.drop_last());
        let last = asked.last();
        assert forall|id: BufferId| #[trigger] waiting.contains(id) <==> asked.contains(id) by {
            assert(before.contains(id) <==> asked.drop_last().contains(id));
            if waiting.contains(id) && !before.contains(id) {
                assert(id == last);
                assert(asked[asked.len() - 1] == id);
            }
            if before.contains(id) {
                let i = choose|i: int| 0 <= i < before.len() && before[i] == id;
                assert(waiting[i] == id);
                let j = choose|j: int|
                    0 <= j < asked.drop_last().len() && asked.drop_last()[j] == id;
                assert(asked[j] == id);
            }
            if asked.contains(id) {
                let j = choose|j: int| 0 <= j < asked.len() && asked[j] == id;
                if j < asked.len() - 1 {
                    assert(asked.drop_last()[j] == id);
                } else if !before.contains(last) {
                    assert(waiting[before.len() as int] == id);
                }
            }
        }
    }
}

/// What can happen to the diffs of a project.
pub enum DiffStep {
    /// A buffer asks for its diff.
    Request { id: BufferId, debounce: Option<u64> },
    /// A computation that was scheduled starts.
    Start,
    /// A computation ended.
    Finish,
}

/// The buffers that wait, and whether a computation is scheduled.
pub struct DiffState {
    pub waiting: Seq<BufferId>,
    pub scheduled: bool,
}

/// The state after a step. Starting takes all that wait; so does the end of a computation, which
/// goes on with what was asked for meanwhile.
pub open spec fn after_diff_step(state: DiffState, step: DiffStep) -> DiffState {
    match step {
        DiffStep::Request { id, debounce } => {
            let waiting = with_waiting(state.waiting, id);
            DiffState {
                waiting,
                scheduled: state.scheduled || schedule(waiting.len(), debounce).len() > 0,
            }
        },
        DiffStep::Start => DiffState { waiting: Seq::empty(), scheduled: false },
        DiffStep::Finish => DiffState { waiting: Seq::empty(), ..state },
    }
}

/// The state after a list of steps.
pub open spec fn after_diff_steps(steps: Seq<DiffStep>) -> DiffState
    decreases steps.len(),
{
    if steps.len() == 0 {
        DiffState { waiting: Seq::empty(), scheduled: false }
    } else {
        after_diff_step(after_diff_steps(steps.drop_last()), steps.last())
    }
}

/// No buffer is forgotten: as long as one waits, a computation is scheduled.
pub proof fn law_waiting_is_scheduled(steps: Seq<DiffStep>)
    ensures
        after_diff_steps(steps).waiting.len() > 0 ==> after_diff_steps(steps).scheduled,
    decreases steps.len(),
{
    if steps.len() > 0 {
        law_waiting_is_scheduled(steps.drop_last());
    }
}

/// A buffer that asks for its diff waits from then on, once, after those that waited before.
pub proof fn law_waiting(waiting: Seq<BufferId>, id: BufferId)
    ensures
        with_waiting(waiting, id).contains(id),
        waiting.is_prefix_of(with_waiting(waiting, id)),
        waiting.contains(id) ==> with_waiting(waiting, id).len() == waiting.len(),
        !waiting.contains(id) ==> with_waiting(waiting, id).len() == waiting.len() + 1,
{
    if !waiting.contains(id) {
        assert(waiting.push(id)[waiting.len() as int] == id);
        assert(waiting.push(id).subrange(0, waiting.len() as int) =~= waiting);
    } else {
        assert(waiting.subrange(0, waiting.len() as int) =~= waiting);
    }
}

/// Without a debounce, the first buffer that waits has the diffs computed as soon as the work at
/// hand is done, and later ones join it; with one, every request starts the delay again, which is
/// never shorter than the least and otherwise as long as was asked for.
pub proof fn law_schedule(waiting: nat, debounce: Option<u64>)
    ensures
        debounce is None && waiting == 1 ==> schedule(waiting, debounce) == seq![
            Effect::DeferDiffRecalculation,
        ],
        debounce is None && waiting != 1 ==> schedule(waiting, debounce).len() == 0,
        debounce matches Some(asked) ==> schedule(waiting, debounce).len() == 1 && (schedule(
            waiting,
            debounce,
        )[0] matches Effect::DebounceDiffRecalculation { delay_ms } && delay_ms >= 50 && delay_ms
            >= asked && (delay_ms == 50 || delay_ms == asked)),
{
}

/// The buffers whose diffs are computed are those that wait, in their order, and each of them is
/// notified of it.
pub proof fn law_recalculation(effects: Seq<Effect>, buffers: Seq<BufferId>, list: Vec<BufferId>)
    ensures
        recalculates(effects, buffers) ==> effects.len() == 1 && effects[0] is RecalculateDiffs,
        effects == seq![Effect::RecalculateDiffs(list)] ==> (recalculates(effects, buffers)
            <==> list@ == buffers),
        notify_effects(buffers).len() == buffers.len(),
        forall|i: int|
            0 <= i < buffers.len() ==> #[trigger] notify_effects(buffers)[i]
                == Effect::NotifyBuffer(buffers[i]),
{
}

/// A request for a diff changes which buffers wait, and nothing else of the project.
pub proof fn law_diff_request(view: ProjectView, id: BufferId)
    ensures
        view.after_diff_request(id).buffers_needing_diff.contains(id),
        forall|other: BufferId|
            other != id ==> view.after_diff_request(id).buffers_needing_diff.contains(other)
                == #[trigger] view.buffers_needing_diff.contains(other),
        (ProjectView {
            buffers_needing_diff: view.buffers_needing_diff,
            ..view.after_diff_request(id)
        }) == view,
{
    let waiting = view.buffers_needing_diff;
    law_waiting(waiting, id);
    assert forall|other: BufferId| other != id implies with_waiting(waiting, id).contains(other)
        == #[trigger] waiting.contains(other) by {
        if waiting.contains(other) {
            let i = choose|i: int| 0 <= i < waiting.len() && waiting[i] == other;
            assert(waiting.push(id)[i] == other);
        }
        if waiting.push(id).contains(other) {
            let i = choose|i: int|
                0 <= i < waiting.push(id).len() && waiting.push(id)[i] == other;
            assert(waiting[i] == other);
        }
    }
}

} // verus!
