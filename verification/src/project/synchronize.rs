//! Bringing the buffers of a project of another user up to date after the connection was lost.
use super::buffers::OpenById;
use super::{Project, ProjectClientState, ProjectView};
use crate::buffer;
use crate::event::ProjectError;
use crate::ids::{BufferId, PayloadId, WorktreeId};
use crate::project_path::ProjectPath;
use vstd::prelude::*;

verus! {

/// What the host says of one buffer; `None` stands for an identifier that cannot be one.
#[derive(Clone, Copy, Debug, PartialEq, Eq, Structural)]
pub struct SyncedBuffer {
    pub id: Option<BufferId>,
    /// The version of the buffer on the host.
    pub version: PayloadId,
}

/// What is done about one buffer of the host's answer.
#[derive(Clone, Copy, Debug, PartialEq, Eq, Structural)]
pub enum BufferSync {
    /// The answer cannot be used, and the synchronization fails.
    Invalid,
    /// The buffer is not open here, and nothing is done.
    NotOpen,
    /// The operations that the host lacks are sent.
    SendOperations { buffer_id: BufferId, since: PayloadId },
}

impl ProjectView {
    /// What is done about one buffer of the host's answer.
    pub open spec fn buffer_sync(self, synced: SyncedBuffer) -> BufferSync {
        match synced.id {
            None => BufferSync::Invalid,
            Some(id) => if self.buffer_store.with_id(id) is Some {
                BufferSync::SendOperations { buffer_id: id, since: synced.version }
            } else {
                BufferSync::NotOpen
            },
        }
    }
}

impl Project {
    /// The number under which the host is asked for the versions of its buffers.
    pub fn synchronize_remote_buffers(&self) -> (res: Result<u64, ProjectError>)
        ensures
            res == (match self@.client_state {
                ProjectClientState::Remote { sharing_has_stopped, remote_id, .. } =>
                if sharing_has_stopped {
                    Err(ProjectError::SynchronizeReadonlyProject)
                } else {
                    Ok(remote_id)
                },
                _ => Err(ProjectError::SynchronizeLocalProject),
            }),
    {
        match self.client_state {
            ProjectClientState::Remote { sharing_has_stopped, remote_id, .. } => {
                if sharing_has_stopped {
                    Err(ProjectError::SynchronizeReadonlyProject)
                } else {
                    Ok(remote_id)
                }
            },
            _ => Err(ProjectError::SynchronizeLocalProject),
        }
    }

    /// What is done about the buffers of the host's answer, one for one.
    pub fn plan_synchronization(&self, answer: &Vec<SyncedBuffer>) -> (plan: Vec<BufferSync>)
        ensures
            plan@ == answer@.map_values(|synced: SyncedBuffer| self@.buffer_sync(synced)),
    {
        let ghost want = answer@.map_values(|synced: SyncedBuffer| self@.buffer_sync(synced));
        let mut plan: Vec<BufferSync> = Vec::new();
        let mut i: usize = 0;
        while i < answer.len()
            invariant
                i <= answer.len(),
                want == answer@.map_values(|synced: SyncedBuffer| self@.buffer_sync(synced)),
                plan@ == want.take(i as int),
            decreases answer.len() - i,
        {
            let step = match answer[i].id {
                None => BufferSync::Invalid,
                Some(id) => {
                    if self.buffer_for_id(id).is_some() {
                        BufferSync::SendOperations { buffer_id: id, since: answer[i].version }
                    } else {
                        BufferSync::NotOpen
                    }
                },
            };
            plan.push(step);
            i = i + 1;
            assert(plan@ =~= want.take(i as int));
        }
        assert(plan@ =~= want);
        plan
    }
}

/// The host is asked again for the buffers that have not arrived completely, so that whoever waits
/// for them is served.
pub fn reopen_requests(project_id: u64, incomplete: &Vec<BufferId>) -> (requests: Vec<OpenById>)
    ensures
        requests@ == incomplete@.map_values(|id: BufferId| OpenById::Request { project_id, id }),
{
    let ghost want = incomplete@.map_values(|id: BufferId| OpenById::Request { project_id, id });
    let mut requests: Vec<OpenById> = Vec::new();
    let mut i: usize = 0;
    while i < incomplete.len()
        invariant
            i <= incomplete.len(),
            want == incomplete@.map_values(|id: BufferId| OpenById::Request { project_id, id }),
            requests@ == want.take(i as int),
        decreases incomplete.len() - i,
    {
        requests.push(OpenById::Request { project_id, id: incomplete[i] });
        i = i + 1;
        assert(requests@ =~= want.take(i as int));
    }
    assert(requests@ =~= want);
    requests
}

/// Sends operations chunk by chunk, each once the one before was accepted.
#[derive(Debug)]
pub struct ChunkSender {
    chunks: Vec<PayloadId>,
    sent: usize,
    error: Option<PayloadId>,
}

/// What a [`ChunkSender`] holds.
#[verifier::ext_equal]
pub struct ChunkView {
    pub chunks: Seq<PayloadId>,
    /// How many chunks were accepted.
    pub sent: nat,
    /// Why a chunk was refused.
    pub error: Option<PayloadId>,
}

impl View for ChunkSender {
    type V = ChunkView;

    closed spec fn view(&self) -> ChunkView {
        ChunkView { chunks: self.chunks@, sent: self.sent as nat, error: self.error }
    }
}

impl ChunkView {
    /// The chunk to be sent now.
    pub open spec fn current(self) -> Option<PayloadId> {
        if self.error is None && self.sent < self.chunks.len() {
            Some(self.chunks[self.sent as int])
        } else {
            None
        }
    }

    /// The sender once the chunk was answered.
    pub open spec fn answered(self, answer: Result<(), PayloadId>) -> ChunkView {
        match answer {
            Ok(()) => ChunkView { sent: self.sent + 1, ..self },
            Err(error) => ChunkView { error: Some(error), ..self },
        }
    }

    /// No more chunks were accepted than there are.
    pub open spec fn wf(self) -> bool {
        self.sent <= self.chunks.len()
    }
}

impl ChunkSender {
    /// Nothing was sent yet.
    pub fn new(chunks: Vec<PayloadId>) -> (res: Self)
        ensures
            res@ == (ChunkView { chunks: chunks@, sent: 0, error: None }),
            res@.wf(),
    {
        ChunkSender { chunks, sent: 0, error: None }
    }

    /// The chunk to be sent now.
    pub fn current(&self) -> (res: Option<PayloadId>)
        ensures
            res == self@.current(),
    {
        if self.error.is_none() && self.sent < self.chunks.len() {
            Some(self.chunks[self.sent])
        } else {
            None
        }
    }

    /// The chunk was accepted, or refused.
    pub fn answer(&mut self, answer: Result<(), PayloadId>)
        requires
            old(self)@.wf(),
            old(self)@.current() is Some,
        ensures
            final(self)@.wf(),
            final(self)@ == old(self)@.answered(answer),
    {
        match answer {
            Ok(()) => {
                if self.sent < self.chunks.len() {
                    self.sent = self.sent + 1;
                }
            },
            Err(error) => {
                self.error = Some(error);
            },
        }
    }

    /// What became of the chunks, once none is left to be sent.
    pub fn result(&self) -> (res: Result<(), PayloadId>)
        ensures
            res == (match self@.error {
                Some(error) => Err::<(), PayloadId>(error),
                None => Ok(()),
            }),
    {
        match self.error {
            Some(error) => Err(error),
            None => Ok(()),
        }
    }
}

/// What is left to be done of a chunk sender shrinks with every answer, and a sender that has
/// nothing left without an error had every chunk accepted.
pub proof fn law_all_chunks_sent(view: ChunkView, answer: Result<(), PayloadId>)
    requires
        view.wf(),
    ensures
        view.current() is None && view.error is None ==> view.sent == view.chunks.len(),
        view.error is Some ==> view.current() is None,
        view.current() is Some && answer is Ok ==> view.answered(answer).sent == view.sent + 1
            && view.answered(answer).chunks == view.chunks,
        view.current() is Some && answer is Err ==> view.answered(answer).current() is None
            && view.answered(answer).sent == view.sent,
{
}

/// What became of one buffer of the host's answer; `sent` is what became of its operations, if
/// some were sent.
pub open spec fn step_result(step: BufferSync, sent: Result<(), PayloadId>) -> Result<
    (),
    ProjectError,
> {
    match step {
        BufferSync::Invalid => Err(ProjectError::InvalidBufferId),
        BufferSync::NotOpen => Ok(()),
        BufferSync::SendOperations { .. } => match sent {
            Ok(()) => Ok(()),
            Err(error) => Err(ProjectError::Surroundings(error)),
        },
    }
}

/// What became of the buffers of the host's answer.
pub open spec fn step_results(plan: Seq<BufferSync>, sent: Seq<Result<(), PayloadId>>) -> Seq<
    Result<(), ProjectError>,
> {
    Seq::new(plan.len(), |i: int| step_result(plan[i], sent[i]))
}

/// The first failure, if there is one.
pub open spec fn first_failure(results: Seq<Result<(), ProjectError>>) -> Result<(), ProjectError>
    decreases results.len(),
{
    if results.len() == 0 {
        Ok(())
    } else if results[0] is Err {
        results[0]
    } else {
        first_failure(results.skip(1))
    }
}

/// What became of the whole synchronization: it failed if an identifier in the answer cannot be
/// one, or if operations could not be sent, for the first reason in the order of the answer.
/// `sent` gives, step by step, what became of the operations; it counts where some were sent.
pub fn synchronization_result(plan: &Vec<BufferSync>, sent: &Vec<Result<(), PayloadId>>) -> (res:
    Result<(), ProjectError>)
    requires
        sent.len() == plan.len(),
    ensures
        res == first_failure(step_results(plan@, sent@)),
{
    let ghost results = step_results(plan@, sent@);
    let mut i: usize = 0;
    assert(results.skip(0) =~= results);
    while i < plan.len()
        invariant
            i <= plan.len(),
            sent.len() == plan.len(),
            results == step_results(plan@, sent@),
            first_failure(results) == first_failure(results.skip(i as int)),
        decreases plan.len() - i,
    {
        assert(results.skip(i as int).skip(1) =~= results.skip(i as int + 1));
        assert(results.skip(i as int)[0] == step_result(plan@[i as int], sent@[i as int]));
        match plan[i] {
            BufferSync::Invalid => return Err(ProjectError::InvalidBufferId),
            BufferSync::NotOpen => {},
            BufferSync::SendOperations { .. } => {
                if let Err(error) = sent[i] {
                    return Err(ProjectError::Surroundings(error));
                }
            },
        }
        i = i + 1;
    }
    Ok(())
}

proof fn lemma_first_failure(results: Seq<Result<(), ProjectError>>)
    ensures
        first_failure(results) is Ok <==> forall|i: int|
            0 <= i < results.len() ==> (#[trigger] results[i]) is Ok,
    decreases results.len(),
{
    if results.len() > 0 {
        let rest = results.skip(1);
        lemma_first_failure(rest);
        if results[0] is Ok {
            assert forall|i: int| first_failure(rest) is Ok && 0 <= i < results.len() implies (
            #[trigger] results[i]) is Ok by {
                if i > 0 {
                    assert(rest[i - 1] == results[i]);
                }
            }
            if forall|i: int| 0 <= i < results.len() ==> (#[trigger] results[i]) is Ok {
                assert forall|i: int| 0 <= i < rest.len() implies (#[trigger] rest[i]) is Ok by {
                    assert(rest[i] == results[i + 1]);
                }
            }
        }
    }
}

/// A synchronization succeeds exactly if every identifier in the host's answer can be one, and the
/// operations on every buffer that is open here were sent.
pub proof fn law_synchronization_succeeds(
    view: ProjectView,
    answer: Seq<SyncedBuffer>,
    sent: Seq<Result<(), PayloadId>>,
)
    requires
        sent.len() == answer.len(),
    ensures
        ({
            let plan = answer.map_values(|synced: SyncedBuffer| view.buffer_sync(synced));
            let result = first_failure(step_results(plan, sent));
            &&& result is Ok <==> forall|i: int|
                0 <= i < plan.len() ==> !((#[trigger] plan[i]) is Invalid) && (plan[i]
                    is SendOperations ==> sent[i] is Ok)
            &&& result is Ok <==> forall|i: int|
                0 <= i < answer.len() ==> ((#[trigger] answer[i]).id matches Some(id) && (
                view.buffer_store.with_id(id) is Some ==> sent[i] is Ok))
        }),
{
    let plan = answer.map_values(|synced: SyncedBuffer| view.buffer_sync(synced));
    let results = step_results(plan, sent);
    lemma_first_failure(results);
    assert forall|i: int| 0 <= i < answer.len() implies ((#[trigger] results[i]) is Ok <==> !(plan[i]
        is Invalid) && (plan[i] is SendOperations ==> sent[i] is Ok)) && (results[i] is Ok <==> (
    answer[i].id matches Some(id) && (view.buffer_store.with_id(id) is Some ==> sent[i] is Ok))) by {
        assert(plan[i] == view.buffer_sync(answer[i]));
    }
    if first_failure(results) is Ok {
        assert forall|i: int| 0 <= i < plan.len() implies !((#[trigger] plan[i]) is Invalid) && (plan[i]
            is SendOperations ==> sent[i] is Ok) by {
            assert(results[i] is Ok);
        }
        assert forall|i: int| 0 <= i < answer.len() implies ((#[trigger] answer[i]).id matches Some(
            id,
        ) && (view.buffer_store.with_id(id) is Some ==> sent[i] is Ok)) by {
            assert(results[i] is Ok);
        }
    } else {
        let i = choose|i: int| 0 <= i < results.len() && !((#[trigger] results[i]) is Ok);
        assert(plan[i] == view.buffer_sync(answer[i]));
    }
}

/// Of a buffer in the host's answer, the operations since the host's version are sent exactly if
/// the buffer is open; an identifier that cannot be one makes the answer invalid.
pub proof fn law_buffer_sync(view: ProjectView, synced: SyncedBuffer)
    ensures
        synced.id is None ==> view.buffer_sync(synced) is Invalid,
        synced.id matches Some(id) ==> {
            let open = exists|k: int|
                0 <= k < view.buffer_store.buffers@.len() && (
                #[trigger] view.buffer_store.buffers@[k]).id == id;
            &&& open ==> view.buffer_sync(synced) == (BufferSync::SendOperations {
                buffer_id: id,
                since: synced.version,
            })
            &&& !open ==> view.buffer_sync(synced) is NotOpen
        },
{
    if let Some(id) = synced.id {
        buffer::law_buffer_lookups(
            view.buffer_store,
            id,
            ProjectPath { worktree_id: WorktreeId(0), path: arbitrary() },
        );
    }
}

/// A synchronization fails with what went wrong first: an identifier that cannot be one, or an
/// update that was refused, which counts only where one was sent.
pub proof fn law_first_failure(plan: Seq<BufferSync>, sent: Seq<Result<(), PayloadId>>)
    requires
        sent.len() == plan.len(),
    ensures
        match first_failure(step_results(plan, sent)) {
            Ok(()) => forall|i: int| 0 <= i < plan.len() ==> !#[trigger] fails_at(plan, sent, i),
            Err(error) => exists|i: int|
                0 <= i < plan.len() && #[trigger] fails_at(plan, sent, i) && (forall|j: int|
                    0 <= j < i ==> !#[trigger] fails_at(plan, sent, j)) && (if plan[i] is Invalid {
                    error == ProjectError::InvalidBufferId
                } else {
                    error == ProjectError::Surroundings(sent[i]->Err_0)
                }),
        },
{
    let results = step_results(plan, sent);
    lemma_first_failure_at(results);
    assert forall|i: int| 0 <= i < plan.len() implies #[trigger] fails_at(plan, sent, i) == (
    results[i] is Err) by {}
    match first_failure(results) {
        Ok(()) => {
            assert forall|i: int| 0 <= i < plan.len() implies !#[trigger] fails_at(
                plan,
                sent,
                i,
            ) by {
                assert(results[i] is Ok);
            }
        },
        Err(error) => {
            let i = choose|i: int|
                0 <= i < results.len() && #[trigger] results[i] == Err::<(), ProjectError>(error)
                    && forall|j: int| 0 <= j < i ==> #[trigger] results[j] is Ok;
            assert(fails_at(plan, sent, i));
            assert forall|j: int| 0 <= j < i implies !#[trigger] fails_at(plan, sent, j) by {
                assert(results[j] is Ok);
            }
        },
    }
}

/// Whether a step of a synchronization fails.
pub open spec fn fails_at(
    plan: Seq<BufferSync>,
    sent: Seq<Result<(), PayloadId>>,
    i: int,
) -> bool {
    plan[i] is Invalid || (plan[i] is SendOperations && sent[i] is Err)
}

proof fn lemma_first_failure_at(results: Seq<Result<(), ProjectError>>)
    ensures
        match first_failure(results) {
            Ok(()) => forall|i: int| 0 <= i < results.len() ==> #[trigger] results[i] is Ok,
            Err(error) => exists|i: int|
                0 <= i < results.len() && #[trigger] results[i] == Err::<(), ProjectError>(error)
                    && forall|j: int| 0 <= j < i ==> #[trigger] results[j] is Ok,
        },
    decreases results.len(),
{
    if results.len() > 0 {
        if let Err(error) = results[0] {
            assert(results[0] == Err::<(), ProjectError>(error));
        } else {
            let rest = results.skip(1);
            lemma_first_failure_at(rest);
            match first_failure(rest) {
                Ok(()) => {
                    assert forall|i: int| 0 <= i < results.len() implies #[trigger] results[i]
                        is Ok by {
                        if i > 0 {
                            assert(rest[i - 1] is Ok);
                        }
                    }
                },
                Err(error) => {
                    let i = choose|i: int|
                        0 <= i < rest.len() && #[trigger] rest[i] == Err::<(), ProjectError>(error)
                            && forall|j: int| 0 <= j < i ==> #[trigger] rest[j] is Ok;
                    assert(results[i + 1] == rest[i]);
                    assert forall|j: int| 0 <= j < i + 1 implies #[trigger] results[j] is Ok by {
                        if j > 0 {
                            assert(rest[j - 1] is Ok);
                        }
                    }
                },
            }
        }
    }
}

/// Chunks are sent in their order, each after all before it were accepted, and a refusal ends the
/// sending with the reason that was given.
pub proof fn law_chunks_in_order(view: ChunkView, error: PayloadId)
    requires
        view.wf(),
    ensures
        view.error is None && view.sent < view.chunks.len() ==> view.current() == Some(
            view.chunks[view.sent as int],
        ),
        view.error is Some || view.sent == view.chunks.len() ==> view.current() is None,
        view.answered(Ok(())).sent == view.sent + 1,
        view.answered(Ok(())).error == view.error,
        view.answered(Ok(())).chunks == view.chunks,
        view.answered(Err(error)).sent == view.sent,
        view.answered(Err(error)).error == Some(error),
        view.answered(Err(error)).chunks == view.chunks,
        view.current() is Some ==> view.answered(Ok(())).wf(),
{
}

} // verus!
