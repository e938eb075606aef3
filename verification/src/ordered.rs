//! Sending the operations on buffers, and the messages that keep their place among them.
//!
//! Messages arrive in batches. Operations are collected per buffer and sent together, before the
//! next message of a language server and at the end of the batch. When a guest's update is
//! refused, the guest's operations are dropped until the buffers were synchronized again.
use crate::event::BufferOrderedMessage;
use crate::ids::{BufferId, LanguageServerId, PayloadId};
use vstd::prelude::*;

verus! {

/// The most messages that a batch holds.
pub const MAX_BATCH_SIZE: usize = 128;

/// What happens once the collected operations were sent.
#[derive(Clone, Copy, Debug, PartialEq, Eq, Structural)]
pub enum AfterFlush {
    /// The batch is done.
    EndBatch,
    /// A message of a language server is sent.
    LanguageServerUpdate { language_server_id: LanguageServerId, message: PayloadId },
}

/// What the sender is about.
#[derive(Clone, Copy, Debug, PartialEq, Eq, Structural)]
pub enum Phase {
    /// It waits for a batch.
    Idle,
    /// It works through a batch.
    Running,
    /// It sends the collected operations.
    Flushing(AfterFlush),
    /// It waits for the answer to an update.
    AwaitingUpdate(AfterFlush),
    /// It waits for the end of a synchronization.
    AwaitingSynchronization,
}

/// What the surroundings are to do next.
#[derive(Debug, PartialEq)]
pub enum Action {
    /// Nothing; take the next step.
    Continue,
    /// Send the operations, if the project is shared, and report the answer.
    SendUpdate { buffer_id: BufferId, operations: Vec<PayloadId> },
    /// Synchronize the buffers with the host, and report how it went.
    Synchronize,
    /// Send a message of a language server, if the project is shared.
    SendLanguageServerUpdate { language_server_id: LanguageServerId, message: PayloadId },
    /// The batch is done.
    BatchDone,
}

/// What an [`Action`] says.
pub enum ActionView {
    Continue,
    SendUpdate { buffer_id: BufferId, operations: Seq<PayloadId> },
    Synchronize,
    SendLanguageServerUpdate { language_server_id: LanguageServerId, message: PayloadId },
    BatchDone,
}

impl View for Action {
    type V = ActionView;

    open spec fn view(&self) -> ActionView {
        match self {
            Action::Continue => ActionView::Continue,
            Action::SendUpdate { buffer_id, operations } => ActionView::SendUpdate {
                buffer_id: *buffer_id,
                operations: operations@,
            },
            Action::Synchronize => ActionView::Synchronize,
            Action::SendLanguageServerUpdate { language_server_id, message } =>
            ActionView::SendLanguageServerUpdate {
                language_server_id: *language_server_id,
                message: *message,
            },
            Action::BatchDone => ActionView::BatchDone,
        }
    }
}

/// The operations that were collected for one buffer.
#[derive(Debug)]
pub struct Collected {
    pub buffer_id: BufferId,
    pub operations: Vec<PayloadId>,
}

/// The operations that were collected, and the buffers they belong to.
pub type Pending = Seq<(BufferId, Seq<PayloadId>)>;

/// Where the operations of a buffer stand.
pub open spec fn key_index(pending: Pending, id: BufferId) -> Option<int>
    decreases pending.len(),
{
    if pending.len() == 0 {
        None
    } else if pending.last().0 == id {
        Some(pending.len() - 1)
    } else {
        key_index(pending.drop_last(), id)
    }
}

/// One operation more.
pub open spec fn with_operation(pending: Pending, id: BufferId, operation: PayloadId) -> Pending {
    match key_index(pending, id) {
        Some(i) => pending.update(i, (id, pending[i].1.push(operation))),
        None => pending.push((id, seq![operation])),
    }
}

/// The operations that were collected for a buffer.
pub open spec fn operations_of(pending: Pending, id: BufferId) -> Seq<PayloadId> {
    match key_index(pending, id) {
        Some(i) => pending[i].1,
        None => Seq::empty(),
    }
}

/// Whether no buffer stands twice.
pub open spec fn distinct_keys(pending: Pending) -> bool {
    forall|i: int, j: int|
        0 <= i < j < pending.len() ==> (#[trigger] pending[i]).0 != (#[trigger] pending[j]).0
}

proof fn lemma_key_index(pending: Pending, id: BufferId)
    ensures
        key_index(pending, id) matches Some(i) ==> 0 <= i < pending.len() && pending[i].0 == id,
        key_index(pending, id) is None ==> forall|i: int|
            0 <= i < pending.len() ==> (#[trigger] pending[i]).0 != id,
    decreases pending.len(),
{
    if pending.len() > 0 && pending.last().0 != id {
        lemma_key_index(pending.drop_last(), id);
        if key_index(pending.drop_last(), id) is None {
            assert forall|i: int| 0 <= i < pending.len() implies (#[trigger] pending[i]).0 != id by {
                if i < pending.len() - 1 {
                    assert(pending.drop_last()[i] == pending[i]);
                }
            }
        }
    }
}

proof fn lemma_key_at(pending: Pending, k: int)
    requires
        distinct_keys(pending),
        0 <= k < pending.len(),
    ensures
        key_index(pending, pending[k].0) == Some(k),
        operations_of(pending, pending[k].0) == pending[k].1,
{
    let id = pending[k].0;
    lemma_key_index(pending, id);
    let i = key_index(pending, id)->0;
    if i < k {
        assert(pending[i].0 != pending[k].0);
    } else if k < i {
        assert(pending[k].0 != pending[i].0);
    }
}

proof fn lemma_with_operation(pending: Pending, id: BufferId, operation: PayloadId)
    requires
        distinct_keys(pending),
    ensures
        distinct_keys(with_operation(pending, id, operation)),
        forall|other: BufferId| #[trigger]
            operations_of(with_operation(pending, id, operation), other) == if other == id {
                operations_of(pending, id).push(operation)
            } else {
                operations_of(pending, other)
            },
{
    let after = with_operation(pending, id, operation);
    lemma_key_index(pending, id);
    assert(distinct_keys(after)) by {
        assert forall|i: int, j: int| 0 <= i < j < after.len() implies (#[trigger] after[i]).0 != (
        #[trigger] after[j]).0 by {
            if j < pending.len() {
                assert(pending[i].0 != pending[j].0);
            } else {
                assert(pending[i].0 != id);
            }
        }
    }
    let at = match key_index(pending, id) {
        Some(i) => i,
        None => pending.len() as int,
    };
    assert(after[at].0 == id);
    lemma_key_at(after, at);
    assert(after[at].1 =~= operations_of(pending, id).push(operation));
    assert forall|other: BufferId| #[trigger] operations_of(after, other) == if other == id {
        operations_of(pending, id).push(operation)
    } else {
        operations_of(pending, other)
    } by {
        if other != id {
            lemma_key_index(pending, other);
            lemma_key_index(after, other);
            match key_index(pending, other) {
                Some(i) => {
                    assert(after[i] == pending[i]);
                    lemma_key_at(after, i);
                },
                None => {
                    if key_index(after, other) is Some {
                        let i = key_index(after, other)->0;
                        if i < pending.len() {
                            assert(pending[i].0 == other);
                        }
                    }
                },
            }
        }
    }
}

proof fn lemma_without_first(pending: Pending)
    requires
        distinct_keys(pending),
        pending.len() > 0,
    ensures
        distinct_keys(pending.skip(1)),
        forall|other: BufferId| #[trigger]
            operations_of(pending.skip(1), other) == if other == pending[0].0 {
                Seq::empty()
            } else {
                operations_of(pending, other)
            },
        operations_of(pending, pending[0].0) == pending[0].1,
{
    let after = pending.skip(1);
    lemma_key_at(pending, 0);
    assert(distinct_keys(after)) by {
        assert forall|i: int, j: int| 0 <= i < j < after.len() implies (#[trigger] after[i]).0 != (
        #[trigger] after[j]).0 by {
            assert(pending[i + 1].0 != pending[j + 1].0);
        }
    }
    assert forall|other: BufferId| #[trigger] operations_of(after, other) == if other
        == pending[0].0 {
        Seq::empty()
    } else {
        operations_of(pending, other)
    } by {
        lemma_key_index(after, other);
        lemma_key_index(pending, other);
        if other == pending[0].0 {
            if key_index(after, other) is Some {
                let i = key_index(after, other)->0;
                assert(pending[i + 1].0 != pending[0].0);
            }
        } else {
            match key_index(pending, other) {
                Some(i) => {
                    assert(after[i - 1] == pending[i]);
                    lemma_key_at(after, i - 1);
                },
                None => {
                    if key_index(after, other) is Some {
                        let i = key_index(after, other)->0;
                        assert(pending[i + 1].0 == other);
                    }
                },
            }
        }
    }
}

/// Sends messages in order.
#[derive(Debug)]
pub struct OrderedMessages {
    queue: Vec<BufferOrderedMessage>,
    pending: Vec<Collected>,
    needs_resync_with_host: bool,
    is_local: bool,
    phase: Phase,
}

/// What an [`OrderedMessages`] holds.
#[verifier::ext_equal]
pub struct OrderedView {
    /// The messages of the batch that were not looked at yet.
    pub queue: Seq<BufferOrderedMessage>,
    /// The operations that were collected.
    pub pending: Pending,
    /// Whether operations are dropped until the buffers were synchronized.
    pub needs_resync_with_host: bool,
    /// Whether the project was local when the batch began.
    pub is_local: bool,
    pub phase: Phase,
}

spec fn collected_views(list: Seq<Collected>) -> Pending {
    list.map_values(|c: Collected| (c.buffer_id, c.operations@))
}

impl View for OrderedMessages {
    type V = OrderedView;

    closed spec fn view(&self) -> OrderedView {
        OrderedView {
            queue: self.queue@,
            pending: collected_views(self.pending@),
            needs_resync_with_host: self.needs_resync_with_host,
            is_local: self.is_local,
            phase: self.phase,
        }
    }
}

impl OrderedView {
    /// No buffer stands twice among the collected operations, and none is collected between
    /// batches or while operations are dropped.
    pub open spec fn wf(self) -> bool {
        &&& distinct_keys(self.pending)
        &&& self.phase is Idle ==> self.pending.len() == 0
        &&& self.needs_resync_with_host ==> self.pending.len() == 0
    }

    /// Whether an answer is awaited.
    pub open spec fn awaiting(self) -> bool {
        self.phase is AwaitingUpdate || self.phase is AwaitingSynchronization
    }

    /// The sender once a batch arrived.
    pub open spec fn with_batch(self, messages: Seq<BufferOrderedMessage>, is_local: bool) -> OrderedView {
        OrderedView { queue: messages, is_local, phase: Phase::Running, ..self }
    }

    /// One step: the sender after it, and what the surroundings are to do.
    pub open spec fn stepped(self) -> (OrderedView, ActionView) {
        match self.phase {
            Phase::Flushing(after) => if self.pending.len() > 0 {
                (
                    OrderedView {
                        pending: self.pending.skip(1),
                        phase: Phase::AwaitingUpdate(after),
                        ..self
                    },
                    ActionView::SendUpdate {
                        buffer_id: self.pending[0].0,
                        operations: self.pending[0].1,
                    },
                )
            } else {
                match after {
                    AfterFlush::EndBatch => (
                        OrderedView { phase: Phase::Idle, ..self },
                        ActionView::BatchDone,
                    ),
                    AfterFlush::LanguageServerUpdate { language_server_id, message } => (
                        OrderedView { phase: Phase::Running, ..self },
                        ActionView::SendLanguageServerUpdate { language_server_id, message },
                    ),
                }
            },
            Phase::Running => if self.queue.len() == 0 {
                (
                    OrderedView { phase: Phase::Flushing(AfterFlush::EndBatch), ..self },
                    ActionView::Continue,
                )
            } else {
                let rest = OrderedView { queue: self.queue.skip(1), ..self };
                match self.queue[0] {
                    BufferOrderedMessage::Operation { buffer_id, operation } => (
                        if self.needs_resync_with_host {
                            rest
                        } else {
                            OrderedView {
                                pending: with_operation(self.pending, buffer_id, operation),
                                ..rest
                            }
                        },
                        ActionView::Continue,
                    ),
                    BufferOrderedMessage::Resync => (
                        OrderedView {
                            pending: Seq::empty(),
                            phase: Phase::AwaitingSynchronization,
                            ..rest
                        },
                        ActionView::Synchronize,
                    ),
                    BufferOrderedMessage::LanguageServerUpdate { language_server_id, message } => (
                        OrderedView {
                            phase: Phase::Flushing(
                                AfterFlush::LanguageServerUpdate { language_server_id, message },
                            ),
                            ..rest
                        },
                        ActionView::Continue,
                    ),
                }
            },
            _ => (self, ActionView::Continue),
        }
    }

    /// The sender once the awaited answer came.
    pub open spec fn reported(self, ok: bool) -> OrderedView {
        match self.phase {
            Phase::AwaitingUpdate(after) => if !ok && !self.is_local {
                OrderedView {
                    pending: Seq::empty(),
                    needs_resync_with_host: true,
                    phase: Phase::Flushing(after),
                    ..self
                }
            } else {
                OrderedView { phase: Phase::Flushing(after), ..self }
            },
            Phase::AwaitingSynchronization => OrderedView {
                needs_resync_with_host: self.needs_resync_with_host && !ok,
                phase: Phase::Running,
                ..self
            },
            _ => self,
        }
    }
}

impl OrderedMessages {
    /// Nothing was collected, and nothing is dropped.
    pub fn new() -> (res: Self)
        ensures
            res@.wf(),
            res@.queue.len() == 0,
            res@.pending.len() == 0,
            !res@.needs_resync_with_host,
            res@.phase == Phase::Idle,
    {
        OrderedMessages {
            queue: Vec::new(),
            pending: Vec::new(),
            needs_resync_with_host: false,
            is_local: true,
            phase: Phase::Idle,
        }
    }

    /// What the sender is about.
    pub fn phase(&self) -> (res: Phase)
        ensures
            res == self@.phase,
    {
        self.phase
    }

    /// Whether operations are dropped until the buffers were synchronized.
    pub fn needs_resync_with_host(&self) -> (res: bool)
        ensures
            res == self@.needs_resync_with_host,
    {
        self.needs_resync_with_host
    }

    /// A batch arrives; `is_local` says whether the project is local now.
    pub fn begin_batch(&mut self, messages: Vec<BufferOrderedMessage>, is_local: bool)
        requires
            old(self)@.wf(),
            old(self)@.phase is Idle,
        ensures
            final(self)@.wf(),
            final(self)@ == old(self)@.with_batch(messages@, is_local),
    {
        self.queue = messages;
        self.is_local = is_local;
        self.phase = Phase::Running;
    }

    fn index_of(&self, id: BufferId) -> (res: Option<usize>)
        ensures
            match res {
                Some(i) => i < self.pending.len() && key_index(self@.pending, id) == Some(i as int),
                None => key_index(self@.pending, id) is None,
            },
    {
        let ghost pending = collected_views(self.pending@);
        let mut i: usize = self.pending.len();
        assert(pending.take(i as int) =~= pending);
        while i > 0
            invariant
                i <= self.pending.len(),
                pending == collected_views(self.pending@),
                key_index(pending, id) == key_index(pending.take(i as int), id),
            decreases i,
        {
            let ghost rest = pending.take(i as int);
            assert(rest.last() == pending[i - 1]);
            assert(rest.drop_last() =~= pending.take(i - 1));
            if self.pending[i - 1].buffer_id == id {
                return Some(i - 1);
            }
            i = i - 1;
        }
        None
    }

    fn collect(&mut self, id: BufferId, operation: PayloadId)
        ensures
            final(self)@ == (OrderedView {
                pending: with_operation(old(self)@.pending, id, operation),
                ..old(self)@
            }),
    {
        let ghost before = self@.pending;
        match self.index_of(id) {
            Some(i) => {
                proof {
                    lemma_key_index(before, id);
                }
                self.pending[i].operations.push(operation);
                assert(collected_views(self.pending@) =~= with_operation(before, id, operation));
            },
            None => {
                let mut operations: Vec<PayloadId> = Vec::new();
                operations.push(operation);
                assert(operations@ =~= seq![operation]);
                self.pending.push(Collected { buffer_id: id, operations });
                assert(collected_views(self.pending@) =~= with_operation(before, id, operation));
            },
        }
    }

    /// One step; what it hands back is to be done before the next.
    pub fn step(&mut self) -> (action: Action)
        requires
            old(self)@.wf(),
            !(old(self)@.phase is Idle),
            !old(self)@.awaiting(),
        ensures
            final(self)@.wf(),
            (final(self)@, action@) == old(self)@.stepped(),
    {
        let ghost before = self@;
        match self.phase {
            Phase::Flushing(after) => {
                if self.pending.len() > 0 {
                    proof {
                        lemma_without_first(before.pending);
                    }
                    let first = self.pending.remove(0);
                    self.phase = Phase::AwaitingUpdate(after);
                    assert(collected_views(self.pending@) =~= before.pending.skip(1));
                    Action::SendUpdate { buffer_id: first.buffer_id, operations: first.operations }
                } else {
                    match after {
                        AfterFlush::EndBatch => {
                            self.phase = Phase::Idle;
                            Action::BatchDone
                        },
                        AfterFlush::LanguageServerUpdate { language_server_id, message } => {
                            self.phase = Phase::Running;
                            Action::SendLanguageServerUpdate { language_server_id, message }
                        },
                    }
                }
            },
            Phase::Running => {
                if self.queue.len() == 0 {
                    self.phase = Phase::Flushing(AfterFlush::EndBatch);
                    return Action::Continue;
                }
                let message = self.queue.remove(0);
                assert(self.queue@ =~= before.queue.skip(1));
                match message {
                    BufferOrderedMessage::Operation { buffer_id, operation } => {
                        if !self.needs_resync_with_host {
                            proof {
                                lemma_with_operation(before.pending, buffer_id, operation);
                            }
                            self.collect(buffer_id, operation);
                        }
                        Action::Continue
                    },
                    BufferOrderedMessage::Resync => {
                        self.pending.clear();
                        assert(collected_views(self.pending@) =~= Seq::empty());
                        self.phase = Phase::AwaitingSynchronization;
                        Action::Synchronize
                    },
                    BufferOrderedMessage::LanguageServerUpdate { language_server_id, message } => {
                        self.phase =
                        Phase::Flushing(
                            AfterFlush::LanguageServerUpdate { language_server_id, message },
                        );
                        Action::Continue
                    },
                }
            },
            _ => Action::Continue,
        }
    }

    /// The awaited answer came.
    pub fn report(&mut self, ok: bool)
        requires
            old(self)@.wf(),
            old(self)@.awaiting(),
        ensures
            final(self)@.wf(),
            final(self)@ == old(self)@.reported(ok),
    {
        match self.phase {
            Phase::AwaitingUpdate(after) => {
                if !ok && !self.is_local {
                    self.needs_resync_with_host = true;
                    self.pending.clear();
                    assert(collected_views(self.pending@) =~= Seq::empty());
                }
                self.phase = Phase::Flushing(after);
            },
            Phase::AwaitingSynchronization => {
                if ok {
                    self.needs_resync_with_host = false;
                }
                self.phase = Phase::Running;
            },
            _ => {},
        }
    }
}

/// One tick: a step, or the answer `ok` when one is awaited.
pub open spec fn tick(view: OrderedView, ok: bool) -> (OrderedView, ActionView) {
    if view.awaiting() {
        (view.reported(ok), ActionView::Continue)
    } else {
        view.stepped()
    }
}

/// What can happen to a sender.
pub enum Happening {
    /// A batch arrives.
    Batch { messages: Seq<BufferOrderedMessage>, is_local: bool },
    /// A tick; the answer counts where one is awaited.
    Tick(bool),
}

/// The sender after something happened, and what the surroundings are to do.
pub open spec fn happened(view: OrderedView, happening: Happening) -> (OrderedView, ActionView) {
    match happening {
        Happening::Batch { messages, is_local } => (
            view.with_batch(messages, is_local),
            ActionView::Continue,
        ),
        Happening::Tick(ok) => tick(view, ok),
    }
}

/// The sender after a run of happenings, over any number of batches.
pub open spec fn after_run(view: OrderedView, run: Seq<Happening>) -> OrderedView
    decreases run.len(),
{
    if run.len() == 0 {
        view
    } else {
        happened(after_run(view, run.drop_last()), run.last()).0
    }
}

/// What the surroundings were told to do in a run.
pub open spec fn run_actions(view: OrderedView, run: Seq<Happening>) -> Seq<ActionView>
    decreases run.len(),
{
    if run.len() == 0 {
        Seq::empty()
    } else {
        run_actions(view, run.drop_last()).push(
            happened(after_run(view, run.drop_last()), run.last()).1,
        )
    }
}

/// Whether every batch of a run arrives when the sender waits for one.
pub open spec fn possible(view: OrderedView, run: Seq<Happening>) -> bool
    decreases run.len(),
{
    run.len() > 0 ==> possible(view, run.drop_last()) && (run.last() is Batch ==> after_run(
        view,
        run.drop_last(),
    ).phase is Idle)
}

/// All messages of a run, in order.
pub open spec fn messages_in(run: Seq<Happening>) -> Seq<BufferOrderedMessage>
    decreases run.len(),
{
    if run.len() == 0 {
        Seq::empty()
    } else {
        match run.last() {
            Happening::Batch { messages, .. } => messages_in(run.drop_last()) + messages,
            Happening::Tick(_) => messages_in(run.drop_last()),
        }
    }
}

/// The operations on a buffer that were sent.
pub open spec fn sent_to(actions: Seq<ActionView>, id: BufferId) -> Seq<PayloadId>
    decreases actions.len(),
{
    if actions.len() == 0 {
        Seq::empty()
    } else {
        let before = sent_to(actions.drop_last(), id);
        match actions.last() {
            ActionView::SendUpdate { buffer_id, operations } if buffer_id == id => before
                + operations,
            _ => before,
        }
    }
}

/// The operations on a buffer among the messages.
pub open spec fn given_to(messages: Seq<BufferOrderedMessage>, id: BufferId) -> Seq<PayloadId>
    decreases messages.len(),
{
    if messages.len() == 0 {
        Seq::empty()
    } else {
        let before = given_to(messages.drop_last(), id);
        match messages.last() {
            BufferOrderedMessage::Operation { buffer_id, operation } if buffer_id == id =>
            before.push(operation),
            _ => before,
        }
    }
}

/// The messages of language servers that were sent.
pub open spec fn updates_sent(actions: Seq<ActionView>) -> Seq<(LanguageServerId, PayloadId)>
    decreases actions.len(),
{
    if actions.len() == 0 {
        Seq::empty()
    } else {
        let before = updates_sent(actions.drop_last());
        match actions.last() {
            ActionView::SendLanguageServerUpdate { language_server_id, message } => before.push(
                (language_server_id, message),
            ),
            _ => before,
        }
    }
}

/// The messages of language servers among the messages.
pub open spec fn updates_given(messages: Seq<BufferOrderedMessage>) -> Seq<
    (LanguageServerId, PayloadId),
>
    decreases messages.len(),
{
    if messages.len() == 0 {
        Seq::empty()
    } else {
        let before = updates_given(messages.drop_last());
        match messages.last() {
            BufferOrderedMessage::LanguageServerUpdate { language_server_id, message } =>
            before.push((language_server_id, message)),
            _ => before,
        }
    }
}

/// Whether nothing in a run can make the sender drop operations: no message asks for a
/// synchronization, and no update of a guest is refused.
pub open spec fn undisturbed(view: OrderedView, run: Seq<Happening>) -> bool
    decreases run.len(),
{
    run.len() > 0 ==> {
        let before = after_run(view, run.drop_last());
        &&& undisturbed(view, run.drop_last())
        &&& match run.last() {
            Happening::Batch { messages, .. } => forall|i: int|
                0 <= i < messages.len() ==> !((#[trigger] messages[i]) is Resync),
            Happening::Tick(ok) => before.phase is AwaitingUpdate ==> ok || before.is_local,
        }
    }
}

/// How many messages of a run were looked at.
pub open spec fn looked_at(view: OrderedView, run: Seq<Happening>) -> int {
    messages_in(run).len() - after_run(view, run).queue.len()
}

/// Whether a sender has just been made, or is as it was then.
pub open spec fn unused(view: OrderedView) -> bool {
    &&& view.wf()
    &&& view.phase is Idle
    &&& view.queue.len() == 0
    &&& !view.needs_resync_with_host
}

/// What is to be sent once the collected operations were sent.
spec fn after_flush(phase: Phase) -> Option<AfterFlush> {
    match phase {
        Phase::Flushing(after) => Some(after),
        Phase::AwaitingUpdate(after) => Some(after),
        _ => None,
    }
}

/// How a sender stands to the messages `given` and the actions `done` of an undisturbed run.
spec fn keeps_order(
    now: OrderedView,
    given: Seq<BufferOrderedMessage>,
    done: Seq<ActionView>,
    id: BufferId,
) -> bool {
    let n = given.len() - now.queue.len();
    &&& now.wf()
    &&& !now.needs_resync_with_host
    &&& !(now.phase is AwaitingSynchronization)
    &&& 0 <= n
    &&& now.queue == given.skip(n)
    &&& forall|i: int| 0 <= i < given.len() ==> !((#[trigger] given[i]) is Resync)
    &&& sent_to(done, id) + operations_of(now.pending, id) == given_to(given.take(n), id)
    &&& now.phase is Idle || after_flush(now.phase) == Some(AfterFlush::EndBatch) ==> n
        == given.len()
    &&& match after_flush(now.phase) {
        Some(AfterFlush::LanguageServerUpdate { language_server_id, message }) => {
            &&& n > 0
            &&& given[n - 1] == (BufferOrderedMessage::LanguageServerUpdate {
                language_server_id,
                message,
            })
            &&& updates_sent(done) == updates_given(given.take(n - 1))
        },
        _ => updates_sent(done) == updates_given(given.take(n)),
    }
}

proof fn lemma_tick_keeps_order(
    last: OrderedView,
    ok: bool,
    given: Seq<BufferOrderedMessage>,
    done: Seq<ActionView>,
    id: BufferId,
)
    requires
        keeps_order(last, given, done, id),
        last.phase is AwaitingUpdate ==> ok || last.is_local,
    ensures
        keeps_order(tick(last, ok).0, given, done.push(tick(last, ok).1), id),
{
    let (now, action) = tick(last, ok);
    let after = done.push(action);
    let n = given.len() - last.queue.len();
    assert(after.drop_last() =~= done);
    if last.awaiting() {
    } else if last.phase is Flushing && last.pending.len() > 0 {
        lemma_without_first(last.pending);
        if last.pending[0].0 == id {
            assert(sent_to(after, id) + operations_of(now.pending, id) =~= sent_to(done, id)
                + operations_of(last.pending, id));
        }
    } else if last.phase is Flushing {
        if n > 0 {
            assert(given.take(n).drop_last() =~= given.take(n - 1));
            assert(given.take(n).last() == given[n - 1]);
        }
    } else if last.phase is Running && last.queue.len() > 0 {
        assert(last.queue[0] == given[n]);
        assert(last.queue.skip(1) =~= given.skip(n + 1));
        assert(given.take(n + 1).drop_last() =~= given.take(n));
        assert(given.take(n + 1).last() == given[n]);
        match given[n] {
            BufferOrderedMessage::Operation { buffer_id, operation } => {
                lemma_with_operation(last.pending, buffer_id, operation);
                if buffer_id == id {
                    assert(sent_to(after, id) + operations_of(now.pending, id) =~= (sent_to(done, id)
                        + operations_of(last.pending, id)).push(operation));
                }
            },
            _ => {},
        }
    }
}

proof fn lemma_run_keeps_order(idle: OrderedView, run: Seq<Happening>, id: BufferId)
    requires
        unused(idle),
        possible(idle, run),
        undisturbed(idle, run),
    ensures
        keeps_order(after_run(idle, run), messages_in(run), run_actions(idle, run), id),
    decreases run.len(),
{
    let given = messages_in(run);
    let done = run_actions(idle, run);
    if run.len() == 0 {
        assert(idle.queue =~= given.skip(0));
        assert(given.take(0) =~= Seq::empty());
        assert(sent_to(done, id) + operations_of(idle.pending, id) =~= Seq::empty());
    } else {
        let earlier = run.drop_last();
        lemma_run_keeps_order(idle, earlier, id);
        let last = after_run(idle, earlier);
        let before = messages_in(earlier);
        let so_far = run_actions(idle, earlier);
        match run.last() {
            Happening::Batch { messages, is_local } => {
                let n = before.len() as int;
                assert(before.take(n) =~= before);
                assert(given.take(n) =~= before);
                assert(given.skip(n) =~= messages);
                assert(done.drop_last() =~= so_far);
                assert forall|i: int| 0 <= i < given.len() implies !((#[trigger] given[i])
                    is Resync) by {
                    if i >= n {
                        assert(given[i] == messages[i - n]);
                    } else {
                        assert(given[i] == before[i]);
                    }
                }
            },
            Happening::Tick(ok) => {
                lemma_tick_keeps_order(last, ok, before, so_far, id);
            },
        }
    }
}

/// Nothing is lost, doubled or put out of order, over any number of batches: at any time, what was
/// sent for a buffer and what is collected for it are together the operations on it among the
/// messages that were looked at. So whenever a batch is done all operations, and all messages of
/// language servers, that arrived so far were sent.
pub proof fn law_operations_in_order(idle: OrderedView, run: Seq<Happening>, id: BufferId)
    requires
        unused(idle),
        possible(idle, run),
        undisturbed(idle, run),
    ensures
        ({
            let now = after_run(idle, run);
            let given = messages_in(run);
            let done = run_actions(idle, run);
            let n = looked_at(idle, run);
            &&& now.wf()
            &&& !now.needs_resync_with_host
            &&& 0 <= n <= given.len()
            &&& now.queue == given.skip(n)
            &&& sent_to(done, id) + operations_of(now.pending, id) == given_to(given.take(n), id)
            &&& now.phase is Idle ==> sent_to(done, id) == given_to(given, id)
            &&& now.phase is Idle ==> updates_sent(done) == updates_given(given)
        }),
{
    lemma_run_keeps_order(idle, run, id);
    let now = after_run(idle, run);
    let given = messages_in(run);
    let done = run_actions(idle, run);
    if now.phase is Idle {
        assert(given.take(given.len() as int) =~= given);
        assert(sent_to(done, id) + operations_of(now.pending, id) =~= sent_to(done, id));
    }
}

/// A message of a language server is sent in its place, over any number of batches: it is the last
/// that was looked at, all operations that came before it were sent, and none that came after it.
pub proof fn law_language_server_update_in_place(
    idle: OrderedView,
    run: Seq<Happening>,
    id: BufferId,
)
    requires
        unused(idle),
        possible(idle, run),
        undisturbed(idle, run),
        after_run(idle, run).stepped().1 is SendLanguageServerUpdate,
    ensures
        ({
            let given = messages_in(run);
            let done = run_actions(idle, run);
            let n = looked_at(idle, run);
            &&& 0 < n <= given.len()
            &&& after_run(idle, run).stepped().1 matches ActionView::SendLanguageServerUpdate {
                language_server_id,
                message,
            } && given[n - 1] == (BufferOrderedMessage::LanguageServerUpdate {
                language_server_id,
                message,
            })
            &&& sent_to(done, id) == given_to(given.take(n - 1), id)
            &&& updates_sent(done) == updates_given(given.take(n - 1))
        }),
{
    lemma_run_keeps_order(idle, run, id);
    let now = after_run(idle, run);
    let given = messages_in(run);
    let done = run_actions(idle, run);
    let n = looked_at(idle, run);
    assert(operations_of(now.pending, id) =~= Seq::empty());
    assert(sent_to(done, id) + operations_of(now.pending, id) =~= sent_to(done, id));
    assert(given.take(n).drop_last() =~= given.take(n - 1));
    assert(given.take(n).last() == given[n - 1]);
}

/// Whether a synchronization succeeds in a run.
pub open spec fn synchronizes(view: OrderedView, run: Seq<Happening>) -> bool
    decreases run.len(),
{
    run.len() > 0 && (synchronizes(view, run.drop_last()) || (after_run(view, run.drop_last()).phase
        is AwaitingSynchronization && run.last() == Happening::Tick(true)))
}

proof fn lemma_tick_while_dropping(view: OrderedView, ok: bool)
    requires
        view.wf(),
    ensures
        tick(view, ok).0.wf(),
        view.needs_resync_with_host ==> !(tick(view, ok).1 is SendUpdate),
        view.needs_resync_with_host && !tick(view, ok).0.needs_resync_with_host ==> view.phase
            is AwaitingSynchronization && ok,
{
    if view.phase is Flushing && view.pending.len() > 0 {
        lemma_without_first(view.pending);
    }
    if view.phase is Running && view.queue.len() > 0 {
        match view.queue[0] {
            BufferOrderedMessage::Operation { buffer_id, operation } => {
                lemma_with_operation(view.pending, buffer_id, operation);
            },
            _ => {},
        }
    }
}

proof fn lemma_dropping(refused: OrderedView, run: Seq<Happening>)
    requires
        refused.wf(),
        refused.needs_resync_with_host,
        possible(refused, run),
    ensures
        after_run(refused, run).wf(),
        !synchronizes(refused, run) ==> after_run(refused, run).needs_resync_with_host && forall|
            i: int,
        |
            0 <= i < run_actions(refused, run).len() ==> !((#[trigger] run_actions(refused, run)[i])
                is SendUpdate),
    decreases run.len(),
{
    if run.len() > 0 {
        let earlier = run.drop_last();
        lemma_dropping(refused, earlier);
        let last = after_run(refused, earlier);
        let before = run_actions(refused, earlier);
        let done = run_actions(refused, run);
        if let Happening::Tick(ok) = run.last() {
            lemma_tick_while_dropping(last, ok);
        }
        if !synchronizes(refused, run) {
            assert forall|i: int| 0 <= i < done.len() implies !((#[trigger] done[i])
                is SendUpdate) by {
                if i < before.len() {
                    assert(done[i] == before[i]);
                }
            }
        }
    }
}

/// When a guest's update is refused, nothing more is sent for any buffer until a synchronization
/// succeeds, however long that takes and however many batches arrive meanwhile; then operations are
/// no longer dropped. The update of a local project may be refused without harm.
pub proof fn law_refused_update(view: OrderedView, run: Seq<Happening>)
    requires
        view.wf(),
        view.phase is AwaitingUpdate,
        possible(view.reported(false), run),
    ensures
        ({
            let refused = view.reported(false);
            let now = after_run(refused, run);
            &&& view.is_local ==> refused == view.reported(true)
            &&& !view.is_local && !synchronizes(refused, run) ==> {
                &&& now.needs_resync_with_host
                &&& forall|i: int|
                    0 <= i < run_actions(refused, run).len() ==> !((#[trigger] run_actions(
                        refused,
                        run,
                    )[i]) is SendUpdate)
            }
            &&& now.phase is AwaitingSynchronization ==> !tick(now, true).0.needs_resync_with_host
        }),
{
    let refused = view.reported(false);
    if !view.is_local {
        lemma_dropping(refused, run);
    }
}

/// How much a batch still has to do.
pub open spec fn work_left(view: OrderedView) -> nat {
    5 * view.queue.len() + 2 * view.pending.len() + (match view.phase {
        Phase::Idle => 0nat,
        Phase::Running => 2nat,
        Phase::Flushing(AfterFlush::EndBatch) => 1nat,
        Phase::Flushing(_) => 3nat,
        Phase::AwaitingUpdate(AfterFlush::EndBatch) => 2nat,
        Phase::AwaitingUpdate(_) => 4nat,
        Phase::AwaitingSynchronization => 3nat,
    })
}

/// Every batch comes to its end: each tick leaves less to do, until nothing is left.
pub proof fn law_batch_ends(view: OrderedView, ok: bool)
    requires
        view.wf(),
        !(view.phase is Idle),
    ensures
        work_left(tick(view, ok).0) < work_left(view),
{
    if view.phase is Running && view.queue.len() > 0 {
        match view.queue[0] {
            BufferOrderedMessage::Operation { buffer_id, operation } => {
                lemma_key_index(view.pending, buffer_id);
            },
            _ => {},
        }
    }
}

/// The operations that were collected for a buffer are those of its place in the list; with one
/// operation more, they end with it, and no other buffer's change.
pub proof fn law_collected(pending: Pending, k: int, id: BufferId, operation: PayloadId)
    requires
        distinct_keys(pending),
    ensures
        0 <= k < pending.len() ==> operations_of(pending, pending[k].0) == pending[k].1,
        (forall|i: int| 0 <= i < pending.len() ==> (#[trigger] pending[i]).0 != id)
            ==> operations_of(pending, id).len() == 0,
        ({
            let after = with_operation(pending, id, operation);
            &&& distinct_keys(after)
            &&& operations_of(after, id) == operations_of(pending, id).push(operation)
            &&& forall|other: BufferId|
                other != id ==> #[trigger] operations_of(after, other) == operations_of(
                    pending,
                    other,
                )
            &&& after.len() == (if exists|i: int|
                0 <= i < pending.len() && (#[trigger] pending[i]).0 == id {
                pending.len()
            } else {
                pending.len() + 1
            })
        }),
{
    if 0 <= k < pending.len() {
        lemma_key_at(pending, k);
    }
    lemma_key_index(pending, id);
    lemma_with_operation(pending, id, operation);
}

/// How a batch is worked through, message by message. An operation is collected, unless operations
/// are dropped; a synchronization drops what was collected and is asked for at once; before a
/// message of a language server, and at the end of the batch, all that was collected is sent, one
/// buffer after the other, each with all its operations.
pub proof fn law_step(view: OrderedView, id: BufferId)
    requires
        view.wf(),
    ensures
        ({
            let (after, action) = view.stepped();
            &&& after.is_local == view.is_local
            &&& after.needs_resync_with_host == view.needs_resync_with_host
            &&& view.phase is Running && view.queue.len() > 0 ==> after.queue == view.queue.drop_first()
            &&& !(view.phase is Running && view.queue.len() > 0) ==> after.queue == view.queue
            &&& view.phase is Running && view.queue.len() == 0 ==> action is Continue && after.phase
                == Phase::Flushing(AfterFlush::EndBatch) && after.pending == view.pending
            &&& view.phase is Running && view.queue.len() > 0 ==> match view.queue[0] {
                BufferOrderedMessage::Resync => {
                    &&& action is Synchronize
                    &&& after.pending.len() == 0
                    &&& after.phase is AwaitingSynchronization
                },
                BufferOrderedMessage::Operation { buffer_id, operation } => {
                    &&& action is Continue
                    &&& after.phase is Running
                    &&& view.needs_resync_with_host || buffer_id != id ==> operations_of(
                        after.pending,
                        id,
                    ) == operations_of(view.pending, id)
                    &&& !view.needs_resync_with_host && buffer_id == id ==> operations_of(
                        after.pending,
                        id,
                    ) == operations_of(view.pending, id).push(operation)
                },
                BufferOrderedMessage::LanguageServerUpdate { language_server_id, message } => {
                    &&& action is Continue
                    &&& after.pending == view.pending
                    &&& after.phase == Phase::Flushing(
                        AfterFlush::LanguageServerUpdate { language_server_id, message },
                    )
                },
            }
            &&& view.phase matches Phase::Flushing(next) ==> if view.pending.len() > 0 {
                &&& action matches ActionView::SendUpdate { buffer_id, operations } && operations
                    == operations_of(view.pending, buffer_id) && operations_of(
                    after.pending,
                    buffer_id,
                ).len() == 0 && (buffer_id != id ==> operations_of(after.pending, id)
                    == operations_of(view.pending, id))
                &&& after.pending.len() == view.pending.len() - 1
                &&& after.phase == Phase::AwaitingUpdate(next)
            } else {
                &&& after.pending.len() == 0
                &&& match next {
                    AfterFlush::EndBatch => action is BatchDone && after.phase is Idle,
                    AfterFlush::LanguageServerUpdate { language_server_id, message } => action == (
                    ActionView::SendLanguageServerUpdate { language_server_id, message })
                        && after.phase is Running,
                }
            }
        }),
{
    if view.phase is Running && view.queue.len() > 0 {
        assert(view.queue.skip(1) =~= view.queue.drop_first());
        if let BufferOrderedMessage::Operation { buffer_id, operation } = view.queue[0] {
            lemma_with_operation(view.pending, buffer_id, operation);
        }
    }
    if view.phase is Flushing && view.pending.len() > 0 {
        lemma_without_first(view.pending);
    }
}

/// What an answer changes. An update that a guest's host refuses drops what was collected, and
/// operations from then on; every other answer to an update leaves all that alone. Only a
/// synchronization that succeeds lets operations be collected again.
pub proof fn law_answer(view: OrderedView, ok: bool)
    ensures
        ({
            let after = view.reported(ok);
            &&& after.queue == view.queue
            &&& after.is_local == view.is_local
            &&& view.phase matches Phase::AwaitingUpdate(next) ==> after.phase == Phase::Flushing(
                next,
            )
            &&& view.phase is AwaitingUpdate && !ok && !view.is_local
                ==> after.needs_resync_with_host && after.pending.len() == 0
            &&& view.phase is AwaitingUpdate && (ok || view.is_local)
                ==> after.needs_resync_with_host == view.needs_resync_with_host && after.pending
                == view.pending
            &&& view.phase is AwaitingSynchronization ==> after.phase is Running && after.pending
                == view.pending && (after.needs_resync_with_host <==> view.needs_resync_with_host
                && !ok)
            &&& view.awaiting() <==> view.phase is AwaitingUpdate || view.phase
                is AwaitingSynchronization
        }),
{
}

/// A batch is worked through from its first message, by what the project is now; what was dropped
/// before stays dropped.
pub proof fn law_batch(
    view: OrderedView,
    messages: Seq<BufferOrderedMessage>,
    is_local: bool,
)
    requires
        view.wf(),
        view.phase is Idle,
    ensures
        view.with_batch(messages, is_local).queue == messages,
        view.with_batch(messages, is_local).is_local == is_local,
        view.with_batch(messages, is_local).phase is Running,
        view.with_batch(messages, is_local).pending.len() == 0,
        view.with_batch(messages, is_local).needs_resync_with_host == view.needs_resync_with_host,
{
}

} // verus!
