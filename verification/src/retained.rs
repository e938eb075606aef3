//! Keeping alive what the other side of a request creates while the request runs.
use crate::ids::{BufferId, WorktreeId};
use vstd::prelude::*;

verus! {

/// The worktrees and buffers that are kept alive while requests run.
#[derive(Debug)]
pub struct RemotelyCreatedModels {
    worktrees: Vec<WorktreeId>,
    buffers: Vec<BufferId>,
    retain_count: usize,
}

/// What a [`RemotelyCreatedModels`] holds.
#[verifier::ext_equal]
pub struct RetainedView {
    pub worktrees: Seq<WorktreeId>,
    pub buffers: Seq<BufferId>,
    /// The number of requests that run.
    pub retain_count: nat,
}

impl View for RemotelyCreatedModels {
    type V = RetainedView;

    closed spec fn view(&self) -> RetainedView {
        RetainedView {
            worktrees: self.worktrees@,
            buffers: self.buffers@,
            retain_count: self.retain_count as nat,
        }
    }
}

impl RetainedView {
    /// Nothing is kept alive.
    pub open spec fn idle() -> RetainedView {
        RetainedView { worktrees: Seq::empty(), buffers: Seq::empty(), retain_count: 0 }
    }

    /// While no request runs, nothing is kept alive.
    pub open spec fn wf(self) -> bool {
        self.retain_count == 0 ==> self == RetainedView::idle()
    }

    /// One request more: the first keeps all that is open.
    pub open spec fn retained(
        self,
        buffers: Seq<BufferId>,
        worktrees: Seq<WorktreeId>,
    ) -> RetainedView {
        if self.retain_count == 0 {
            RetainedView { buffers, worktrees, retain_count: 1 }
        } else {
            RetainedView { retain_count: self.retain_count + 1, ..self }
        }
    }

    /// One request less: the last lets go of everything.
    pub open spec fn released(self) -> RetainedView {
        if self.retain_count == 1 {
            RetainedView::idle()
        } else {
            RetainedView { retain_count: (self.retain_count - 1) as nat, ..self }
        }
    }

    /// A buffer was created.
    pub open spec fn with_buffer(self, id: BufferId) -> RetainedView {
        if self.retain_count > 0 {
            RetainedView { buffers: self.buffers.push(id), ..self }
        } else {
            self
        }
    }

    /// A worktree was created.
    pub open spec fn with_worktree(self, id: WorktreeId) -> RetainedView {
        if self.retain_count > 0 {
            RetainedView { worktrees: self.worktrees.push(id), ..self }
        } else {
            self
        }
    }
}

impl RemotelyCreatedModels {
    /// Nothing is kept alive.
    pub fn new() -> (res: Self)
        ensures
            res@ == RetainedView::idle(),
    {
        RemotelyCreatedModels { worktrees: Vec::new(), buffers: Vec::new(), retain_count: 0 }
    }

    /// A request starts; `buffers` and `worktrees` are open now.
    pub fn retain(&mut self, buffers: Vec<BufferId>, worktrees: Vec<WorktreeId>)
        requires
            old(self)@.retain_count < usize::MAX,
        ensures
            final(self)@ == old(self)@.retained(buffers@, worktrees@),
    {
        if self.retain_count == 0 {
            self.buffers = buffers;
            self.worktrees = worktrees;
        }
        self.retain_count = self.retain_count + 1;
    }

    /// A request ends.
    pub fn release(&mut self)
        requires
            old(self)@.retain_count > 0,
        ensures
            final(self)@ == old(self)@.released(),
    {
        self.retain_count = self.retain_count - 1;
        if self.retain_count == 0 {
            self.buffers.clear();
            self.worktrees.clear();
        }
    }

    /// A buffer was created.
    pub fn buffer_created(&mut self, id: BufferId)
        ensures
            final(self)@ == old(self)@.with_buffer(id),
    {
        if self.retain_count > 0 {
            self.buffers.push(id);
        }
    }

    /// A worktree was created.
    pub fn worktree_created(&mut self, id: WorktreeId)
        ensures
            final(self)@ == old(self)@.with_worktree(id),
    {
        if self.retain_count > 0 {
            self.worktrees.push(id);
        }
    }

    /// The number of requests that run.
    pub fn retain_count(&self) -> (res: usize)
        ensures
            res == self@.retain_count,
    {
        self.retain_count
    }

    /// Whether a buffer is kept alive.
    pub fn retains_buffer(&self, id: BufferId) -> (res: bool)
        ensures
            res == self@.buffers.contains(id),
    {
        let mut i: usize = 0;
        while i < self.buffers.len()
            invariant
                i <= self.buffers.len(),
                forall|j: int| 0 <= j < i ==> self.buffers@[j] != id,
            decreases self.buffers.len() - i,
        {
            if self.buffers[i] == id {
                return true;
            }
            i = i + 1;
        }
        false
    }
}

/// The steps that a project can take while requests run.
pub enum RetainStep {
    Retain { buffers: Seq<BufferId>, worktrees: Seq<WorktreeId> },
    Release,
    BufferCreated(BufferId),
    WorktreeCreated(WorktreeId),
}

/// The state after one step.
pub open spec fn after_step(view: RetainedView, step: RetainStep) -> RetainedView {
    match step {
        RetainStep::Retain { buffers, worktrees } => view.retained(buffers, worktrees),
        RetainStep::Release => view.released(),
        RetainStep::BufferCreated(id) => view.with_buffer(id),
        RetainStep::WorktreeCreated(id) => view.with_worktree(id),
    }
}

/// Whether each request that ends had started.
pub open spec fn balanced(start: nat, steps: Seq<RetainStep>) -> bool
    decreases steps.len(),
{
    if steps.len() == 0 {
        true
    } else {
        match steps[0] {
            RetainStep::Retain { .. } => balanced(start + 1, steps.skip(1)),
            RetainStep::Release => start > 0 && balanced((start - 1) as nat, steps.skip(1)),
            _ => balanced(start, steps.skip(1)),
        }
    }
}

/// The state after a list of steps.
pub open spec fn after_steps(view: RetainedView, steps: Seq<RetainStep>) -> RetainedView
    decreases steps.len(),
{
    if steps.len() == 0 {
        view
    } else {
        after_steps(after_step(view, steps[0]), steps.skip(1))
    }
}

/// How many requests start in a list of steps, less how many end.
pub open spec fn net_retains(steps: Seq<RetainStep>) -> int
    decreases steps.len(),
{
    if steps.len() == 0 {
        0
    } else {
        net_retains(steps.skip(1)) + (match steps[0] {
            RetainStep::Retain { .. } => 1int,
            RetainStep::Release => -1int,
            _ => 0int,
        })
    }
}

/// When as many requests ended as had started, nothing is kept alive, whatever was created
/// meanwhile; and at any time the count is the number of requests that run.
pub proof fn law_retain_release(view: RetainedView, steps: Seq<RetainStep>)
    requires
        view.wf(),
        balanced(view.retain_count, steps),
    ensures
        after_steps(view, steps).wf(),
        after_steps(view, steps).retain_count == view.retain_count + net_retains(steps),
        view.retain_count + net_retains(steps) == 0 ==> after_steps(view, steps)
            == RetainedView::idle(),
    decreases steps.len(),
{
    if steps.len() > 0 {
        law_retain_release(after_step(view, steps[0]), steps.skip(1));
    }
}

/// While a request that started runs on, what was open when it started or was created since
/// is kept alive.
pub proof fn law_retained_while_running(view: RetainedView, steps: Seq<RetainStep>)
    requires
        view.retain_count > 0,
        // One of the requests that run does not end.
        balanced((view.retain_count - 1) as nat, steps),
    ensures
        forall|id: BufferId| #[trigger]
            view.buffers.contains(id) ==> after_steps(view, steps).buffers.contains(id),
        forall|id: WorktreeId| #[trigger]
            view.worktrees.contains(id) ==> after_steps(view, steps).worktrees.contains(id),
        after_steps(view, steps).retain_count > 0,
    decreases steps.len(),
{
    if steps.len() > 0 {
        let next = after_step(view, steps[0]);
        assert forall|id: BufferId| #[trigger] view.buffers.contains(id) implies next.buffers.contains(
            id,
        ) by {
            let i = choose|i: int| 0 <= i < view.buffers.len() && view.buffers[i] == id;
            assert(next.buffers[i] == id);
        }
        assert forall|id: WorktreeId| #[trigger]
            view.worktrees.contains(id) implies next.worktrees.contains(id) by {
            let i = choose|i: int| 0 <= i < view.worktrees.len() && view.worktrees[i] == id;
            assert(next.worktrees[i] == id);
        }
        law_retained_while_running(next, steps.skip(1));
    }
}

/// The first request that runs keeps alive what there is when it starts, and every later one leaves
/// that alone; while one runs, whatever is created comes after what is kept. The last one to end
/// lets go of everything. Nothing is kept while none runs.
pub proof fn law_kept_alive(
    view: RetainedView,
    buffers: Seq<BufferId>,
    worktrees: Seq<WorktreeId>,
    buffer_id: BufferId,
    worktree_id: WorktreeId,
)
    requires
        view.wf(),
    ensures
        view.retain_count == 0 ==> view.buffers.len() == 0 && view.worktrees.len() == 0,
        ({
            let after = view.retained(buffers, worktrees);
            &&& after.retain_count == view.retain_count + 1
            &&& view.retain_count == 0 ==> after.buffers == buffers && after.worktrees == worktrees
            &&& view.retain_count > 0 ==> after.buffers == view.buffers && after.worktrees
                == view.worktrees
        }),
        view.retain_count > 0 ==> ({
            let after = view.released();
            &&& after.retain_count == view.retain_count - 1
            &&& view.retain_count == 1 ==> after.buffers.len() == 0 && after.worktrees.len() == 0
            &&& view.retain_count > 1 ==> after.buffers == view.buffers && after.worktrees
                == view.worktrees
        }),
        view.retain_count > 0 ==> ({
            let after = view.with_buffer(buffer_id);
            &&& after.buffers.len() == view.buffers.len() + 1
            &&& after.buffers.drop_last() == view.buffers && after.buffers.last() == buffer_id
            &&& after.worktrees == view.worktrees && after.retain_count == view.retain_count
        }),
        view.retain_count > 0 ==> ({
            let after = view.with_worktree(worktree_id);
            &&& after.worktrees.len() == view.worktrees.len() + 1
            &&& after.worktrees.drop_last() == view.worktrees && after.worktrees.last()
                == worktree_id
            &&& after.buffers == view.buffers && after.retain_count == view.retain_count
        }),
        view.retain_count == 0 ==> view.with_buffer(buffer_id) == view && view.with_worktree(
            worktree_id,
        ) == view,
{
    assert(view.buffers.push(buffer_id).drop_last() =~= view.buffers);
    assert(view.worktrees.push(worktree_id).drop_last() =~= view.worktrees);
}

} // verus!
