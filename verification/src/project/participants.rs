//! Who joins, leaves and comes back.
use super::{Project, ProjectView};
use crate::buffer::Buffer;
use crate::collaborators::{Collaborator, Collaborators};
use crate::event::{BufferOrderedMessage, Effect, Event, Outcome, ProjectError};
use crate::ids::{PayloadId, PeerId, ReplicaId};
use crate::worktree::Worktree;
use vstd::prelude::*;

verus! {

/// The participants that a message lists; a later one replaces an earlier one with the same
/// identifier. `None` stands for an entry that cannot be read.
pub open spec fn listed(messages: Seq<Option<Collaborator>>) -> Map<PeerId, Collaborator>
    decreases messages.len(),
{
    if messages.len() == 0 {
        Map::empty()
    } else {
        match messages.last() {
            Some(collaborator) => listed(messages.drop_last()).insert(
                collaborator.peer_id,
                collaborator,
            ),
            None => listed(messages.drop_last()),
        }
    }
}

/// Whether every entry of a message can be read.
pub open spec fn readable(messages: Seq<Option<Collaborator>>) -> bool {
    forall|i: int| 0 <= i < messages.len() ==> (#[trigger] messages[i]) is Some
}

/// The announcement that a participant left.
pub open spec fn left(peer_id: PeerId) -> Effect {
    Effect::Emit(Event::CollaboratorLeft(peer_id))
}

/// Whether the effects announce, each once and in some order, that these left.
pub open spec fn announces_left(effects: Seq<Effect>, gone: Set<PeerId>) -> bool {
    &&& effects.no_duplicates()
    &&& forall|i: int|
        0 <= i < effects.len() ==> exists|peer_id: PeerId|
            gone.contains(peer_id) && #[trigger] effects[i] == #[trigger] left(peer_id)
    &&& forall|peer_id: PeerId| #[trigger] gone.contains(peer_id) ==> effects.contains(left(peer_id))
}

/// Whether the effects announce who left, between what comes first and what comes last.
pub open spec fn around_left(
    effects: Seq<Effect>,
    first: Seq<Effect>,
    gone: Set<PeerId>,
    last: Seq<Effect>,
) -> bool {
    exists|middle: Seq<Effect>| #[trigger]
        announces_left(middle, gone) && effects == first + middle + last
}

/// The settings of every worktree are forgotten.
pub open spec fn clear_settings_effects(worktrees: Seq<Worktree>) -> Seq<Effect> {
    worktrees.map_values(|w: Worktree| Effect::ClearLocalSettings(w.id))
}

/// What a participant left in the buffers is removed.
pub open spec fn remove_peer_effects(buffers: Seq<Buffer>, replica_id: ReplicaId) -> Seq<Effect> {
    buffers.map_values(|b: Buffer| Effect::RemovePeerFromBuffer { buffer_id: b.id, replica_id })
}

impl ProjectView {
    /// The participants who are not in a list.
    pub open spec fn missing_from(self, messages: Seq<Option<Collaborator>>) -> Set<PeerId> {
        self.collaborators.dom().difference(listed(messages).dom())
    }
}

proof fn lemma_announce_push(effects: Seq<Effect>, gone: Set<PeerId>, peer_id: PeerId)
    requires
        announces_left(effects, gone),
        !gone.contains(peer_id),
    ensures
        announces_left(effects.push(left(peer_id)), gone.insert(peer_id)),
{
    let after = effects.push(left(peer_id));
    let more = gone.insert(peer_id);
    assert forall|i: int| 0 <= i < after.len() implies exists|p: PeerId|
        more.contains(p) && #[trigger] after[i] == #[trigger] left(p) by {
        if i < effects.len() {
            let p = choose|p: PeerId|
                gone.contains(p) && #[trigger] effects[i] == #[trigger] left(p);
            assert(more.contains(p) && after[i] == left(p));
        } else {
            assert(more.contains(peer_id) && after[i] == left(peer_id));
        }
    }
    assert forall|p: PeerId| #[trigger] more.contains(p) implies after.contains(left(p)) by {
        if p == peer_id {
            assert(after[effects.len() as int] == left(p));
        } else {
            assert(gone.contains(p));
            let i = choose|i: int| 0 <= i < effects.len() && effects[i] == left(p);
            assert(after[i] == left(p));
        }
    }
    assert forall|i: int, j: int| 0 <= i < after.len() && 0 <= j < after.len() && i != j implies after[i]
        != after[j] by {
        if i == effects.len() || j == effects.len() {
            let k = if i == effects.len() {
                j
            } else {
                i
            };
            let p = choose|p: PeerId|
                gone.contains(p) && #[trigger] effects[k] == #[trigger] left(p);
            assert(effects[k] == left(p));
        }
    }
}

impl Project {
    /// Takes over the participants that a message lists, and announces who is not among them.
    pub(super) fn set_collaborators_from_proto(
        &mut self,
        messages: &Vec<Option<Collaborator>>,
    ) -> (res: Outcome)
        requires
            old(self).wf(),
        ensures
            final(self).wf(),
            readable(messages@) ==> res.result == Ok::<(), ProjectError>(()) && announces_left(
                res.effects@,
                old(self)@.missing_from(messages@),
            ) && final(self)@ == (ProjectView { collaborators: listed(messages@), ..old(self)@ }),
            !readable(messages@) ==> res.is(Seq::empty(), Err(ProjectError::InvalidCollaborator))
                && final(self)@ == old(self)@,
    {
        let mut collaborators = Collaborators::new();
        let mut i: usize = 0;
        while i < messages.len()
            invariant
                i <= messages.len(),
                *self == *old(self),
                self.wf(),
                collaborators.wf(),
                readable(messages@.take(i as int)),
                collaborators@ == listed(messages@.take(i as int)),
            decreases messages.len() - i,
        {
            assert(messages@.take(i as int + 1).drop_last() =~= messages@.take(i as int));
            match &messages[i] {
                Some(collaborator) => {
                    collaborators.insert(collaborator.peer_id, *collaborator);
                },
                None => {
                    assert(messages@[i as int] is None);
                    return Outcome::refused(ProjectError::InvalidCollaborator);
                },
            }
            assert forall|k: int| 0 <= k < messages@.take(i as int + 1).len() implies (
            #[trigger] messages@.take(i as int + 1)[k]) is Some by {
                if k < i {
                    assert(messages@.take(i as int)[k] is Some);
                }
            }
            i = i + 1;
        }
        assert(messages@.take(i as int) =~= messages@);
        let keys = self.collaborators.keys();
        let mut effects: Vec<Effect> = Vec::new();
        let ghost mut gone: Set<PeerId> = Set::empty();
        let mut k: usize = 0;
        while k < keys.len()
            invariant
                k <= keys.len(),
                collaborators.wf(),
                keys@.no_duplicates(),
                announces_left(effects@, gone),
                forall|p: PeerId|
                    gone.contains(p) <==> keys@.take(k as int).contains(p)
                        && !collaborators@.contains_key(p),
            decreases keys.len() - k,
        {
            let key = keys[k];
            proof {
                let seen = keys@.take(k as int);
                let next = keys@.take(k as int + 1);
                assert(next =~= seen.push(key));
                assert(next[k as int] == key);
                assert forall|p: PeerId| #[trigger] next.contains(p) == (seen.contains(p) || p == key) by {
                    if next.contains(p) {
                        let j = choose|j: int| 0 <= j < next.len() && next[j] == p;
                        if j < k {
                            assert(seen[j] == p);
                        }
                    }
                    if seen.contains(p) {
                        let j = choose|j: int| 0 <= j < seen.len() && seen[j] == p;
                        assert(next[j] == p);
                    }
                }
                assert(!seen.contains(key));
            }
            if !collaborators.contains_key(&key) {
                let ghost before = effects@;
                effects.push(Effect::Emit(Event::CollaboratorLeft(key)));
                proof {
                    lemma_announce_push(before, gone, key);
                    assert(before.push(left(key)) =~= effects@);
                    gone = gone.insert(key);
                }
            }
            k = k + 1;
        }
        assert(keys@.take(k as int) =~= keys@);
        assert(gone =~= self@.missing_from(messages@));
        self.collaborators = collaborators;
        Outcome::done(effects)
    }

    /// The collaboration server has the project again after the connection was lost.
    pub fn reshared(&mut self, collaborators: Vec<Option<Collaborator>>) -> (res: Outcome)
        requires
            old(self).wf(),
        ensures
            final(self).wf(),
            readable(collaborators@) ==> res.result == Ok::<(), ProjectError>(()) && around_left(
                res.effects@,
                seq![Effect::ForgetSharedBuffers],
                old(self)@.missing_from(collaborators@),
                seq![
                    Effect::SendProjectUpdates,
                    Effect::Notify,
                    Effect::Emit(Event::Reshared),
                ],
            ) && final(self)@ == (ProjectView {
                collaborators: listed(collaborators@),
                ..old(self)@
            }),
            !readable(collaborators@) ==> res.is(
                seq![Effect::ForgetSharedBuffers],
                Err(ProjectError::InvalidCollaborator),
            ) && final(self)@ == old(self)@,
    {
        let mut effects: Vec<Effect> = vec![Effect::ForgetSharedBuffers];
        let mut outcome = self.set_collaborators_from_proto(&collaborators);
        let ghost middle = outcome.effects@;
        effects.append(&mut outcome.effects);
        match outcome.result {
            Ok(()) => {
                effects.push(Effect::SendProjectUpdates);
                effects.push(Effect::Notify);
                effects.push(Effect::Emit(Event::Reshared));
                assert(effects@ =~= seq![Effect::ForgetSharedBuffers] + middle + seq![
                    Effect::SendProjectUpdates,
                    Effect::Notify,
                    Effect::Emit(Event::Reshared),
                ]);
                Outcome::done(effects)
            },
            Err(error) => {
                assert(effects@ =~= seq![Effect::ForgetSharedBuffers]);
                Outcome { effects, result: Err(error) }
            },
        }
    }

    /// The local user is in the project of another user again, by the message with this number;
    /// `finish_rejoined` follows once the worktrees were taken over.
    pub fn rejoined(&mut self, message_id: u32) -> (effects: Vec<Effect>)
        requires
            old(self).wf(),
        ensures
            final(self).wf(),
            final(self)@ == (ProjectView {
                join_project_response_message_id: message_id,
                ..old(self)@
            }),
            effects@ == clear_settings_effects(old(self)@.worktree_store.worktrees@) + seq![
                Effect::Notify,
                Effect::SetWorktreesFromProto { replica_id: old(self)@.own_replica_id() },
            ],
    {
        let mut effects: Vec<Effect> = Vec::new();
        let ghost want = clear_settings_effects(self.worktree_store.worktrees@);
        let mut i: usize = 0;
        while i < self.worktree_store.worktrees.len()
            invariant
                i <= self.worktree_store.worktrees.len(),
                want == clear_settings_effects(self.worktree_store.worktrees@),
                effects@ == want.take(i as int),
            decreases self.worktree_store.worktrees.len() - i,
        {
            effects.push(Effect::ClearLocalSettings(self.worktree_store.worktrees[i].id));
            i = i + 1;
            assert(effects@ =~= want.take(i as int));
        }
        assert(effects@ =~= want);
        self.join_project_response_message_id = message_id;
        let mut rest = self.set_worktrees_from_proto();
        effects.append(&mut rest);
        effects
    }

    /// What follows `rejoined`; `worktrees_set` is what became of the worktrees.
    pub fn finish_rejoined(
        &mut self,
        worktrees_set: Result<(), PayloadId>,
        collaborators: Vec<Option<Collaborator>>,
    ) -> (res: Outcome)
        requires
            old(self).wf(),
        ensures
            final(self).wf(),
            match worktrees_set {
                Err(error) => res.is(Seq::empty(), Err(ProjectError::Surroundings(error)))
                    && final(self)@ == old(self)@,
                Ok(()) => if readable(collaborators@) {
                    res.result == Ok::<(), ProjectError>(()) && around_left(
                        res.effects@,
                        Seq::empty(),
                        old(self)@.missing_from(collaborators@),
                        seq![
                            Effect::SetLanguageServerStatuses,
                            Effect::SetBreakpoints,
                            Effect::Enqueue(BufferOrderedMessage::Resync),
                            Effect::Emit(Event::Rejoined),
                            Effect::Notify,
                        ],
                    ) && final(self)@ == (ProjectView {
                        collaborators: listed(collaborators@),
                        ..old(self)@
                    })
                } else {
                    res.is(Seq::empty(), Err(ProjectError::InvalidCollaborator)) && final(self)@
                        == old(self)@
                },
            },
    {
        if let Err(error) = worktrees_set {
            return Outcome::refused(ProjectError::Surroundings(error));
        }
        let mut outcome = self.set_collaborators_from_proto(&collaborators);
        if outcome.result.is_ok() {
            let ghost middle = outcome.effects@;
            outcome.effects.push(Effect::SetLanguageServerStatuses);
            outcome.effects.push(Effect::SetBreakpoints);
            outcome.effects.push(Effect::Enqueue(BufferOrderedMessage::Resync));
            outcome.effects.push(Effect::Emit(Event::Rejoined));
            outcome.effects.push(Effect::Notify);
            assert(outcome.effects@ =~= Seq::<Effect>::empty() + middle + seq![
                Effect::SetLanguageServerStatuses,
                Effect::SetBreakpoints,
                Effect::Enqueue(BufferOrderedMessage::Resync),
                Effect::Emit(Event::Rejoined),
                Effect::Notify,
            ]);
        }
        outcome
    }

    fn set_worktrees_from_proto(&self) -> (effects: Vec<Effect>)
        ensures
            effects@ == seq![
                Effect::Notify,
                Effect::SetWorktreesFromProto { replica_id: self@.own_replica_id() },
            ],
    {
        vec![
            Effect::Notify,
            Effect::SetWorktreesFromProto { replica_id: self.replica_id() },
        ]
    }

    /// The host changed the worktrees, by the message with this number. A message that was sent
    /// before the local user joined says nothing new.
    pub fn handle_update_project(&self, message_id: u32) -> (effects: Vec<Effect>)
        ensures
            effects@ == (if message_id > self@.join_project_response_message_id {
                seq![
                    Effect::Notify,
                    Effect::SetWorktreesFromProto { replica_id: self@.own_replica_id() },
                ]
            } else {
                Seq::empty()
            }),
    {
        if message_id > self.join_project_response_message_id {
            self.set_worktrees_from_proto()
        } else {
            Vec::new()
        }
    }

    /// A participant joins. `None` stands for a message without a participant, and `Some(None)`
    /// for one that cannot be read.
    pub fn handle_add_collaborator(&mut self, collaborator: Option<Option<Collaborator>>) -> (res:
        Outcome)
        requires
            old(self).wf(),
        ensures
            final(self).wf(),
            match collaborator {
                None => res.is(Seq::empty(), Err(ProjectError::EmptyCollaborator)) && final(self)@
                    == old(self)@,
                Some(None) => res.is(Seq::empty(), Err(ProjectError::InvalidCollaborator))
                    && final(self)@ == old(self)@,
                Some(Some(collaborator)) => res.is(
                    seq![
                        Effect::ForgetSharedBuffersFor(collaborator.peer_id),
                        Effect::Emit(Event::CollaboratorJoined(collaborator.peer_id)),
                        Effect::Notify,
                    ],
                    Ok(()),
                ) && final(self)@ == old(self)@.after_join(collaborator),
            },
    {
        let collaborator = match collaborator {
            Some(Some(collaborator)) => collaborator,
            Some(None) => return Outcome::refused(ProjectError::InvalidCollaborator),
            None => return Outcome::refused(ProjectError::EmptyCollaborator),
        };
        self.collaborators.insert(collaborator.peer_id, collaborator);
        Outcome::done(
            vec![
                Effect::ForgetSharedBuffersFor(collaborator.peer_id),
                Effect::Emit(Event::CollaboratorJoined(collaborator.peer_id)),
                Effect::Notify,
            ],
        )
    }

    /// A participant goes on under another identifier.
    pub fn handle_update_project_collaborator(
        &mut self,
        old_peer_id: Option<PeerId>,
        new_peer_id: Option<PeerId>,
    ) -> (res: Outcome)
        requires
            old(self).wf(),
        ensures
            final(self).wf(),
            match (old_peer_id, new_peer_id) {
                (None, _) => res.is(Seq::empty(), Err(ProjectError::MissingOldPeerId))
                    && final(self)@ == old(self)@,
                (Some(_), None) => res.is(Seq::empty(), Err(ProjectError::MissingNewPeerId))
                    && final(self)@ == old(self)@,
                (Some(old_peer_id), Some(new_peer_id)) => if old(self)@.collaborators.contains_key(
                    old_peer_id,
                ) {
                    let collaborator = old(self)@.collaborators[old_peer_id];
                    &&& res.is(updated_effects(old_peer_id, new_peer_id, collaborator.is_host), Ok(()))
                    &&& final(self)@ == old(self)@.after_peer_update(old_peer_id, new_peer_id)
                } else {
                    res.is(Seq::empty(), Err(ProjectError::UpdateOfUnknownPeer)) && final(self)@
                        == old(self)@
                },
            },
    {
        let old_peer_id = match old_peer_id {
            Some(id) => id,
            None => return Outcome::refused(ProjectError::MissingOldPeerId),
        };
        let new_peer_id = match new_peer_id {
            Some(id) => id,
            None => return Outcome::refused(ProjectError::MissingNewPeerId),
        };
        let collaborator = match self.collaborators.get(&old_peer_id) {
            Some(collaborator) => collaborator,
            None => return Outcome::refused(ProjectError::UpdateOfUnknownPeer),
        };
        self.collaborators.remove(&old_peer_id);
        self.collaborators.insert(new_peer_id, collaborator);
        let mut effects: Vec<Effect> = vec![Effect::UpdatePeerId { old_peer_id, new_peer_id }];
        if collaborator.is_host {
            effects.push(Effect::DiscardIncompleteBuffers);
            effects.push(Effect::Enqueue(BufferOrderedMessage::Resync));
            effects.push(Effect::Emit(Event::HostReshared));
        }
        effects.push(Effect::Emit(Event::CollaboratorUpdated { old_peer_id, new_peer_id }));
        effects.push(Effect::Notify);
        assert(effects@ =~= updated_effects(old_peer_id, new_peer_id, collaborator.is_host));
        Outcome::done(effects)
    }

    /// A participant leaves.
    pub fn handle_remove_collaborator(&mut self, peer_id: Option<PeerId>) -> (res: Outcome)
        requires
            old(self).wf(),
        ensures
            final(self).wf(),
            match peer_id {
                None => res.is(Seq::empty(), Err(ProjectError::InvalidPeerId)) && final(self)@
                    == old(self)@,
                Some(peer_id) => if old(self)@.collaborators.contains_key(peer_id) {
                    &&& res.is(
                        seq![Effect::ForgetSharedBuffersFor(peer_id)] + remove_peer_effects(
                            old(self)@.buffer_store.buffers@,
                            old(self)@.collaborators[peer_id].replica_id,
                        ) + seq![left(peer_id), Effect::Notify],
                        Ok(()),
                    )
                    &&& final(self)@ == old(self)@.after_leave(peer_id)
                } else {
                    res.is(Seq::empty(), Err(ProjectError::UnknownPeer(peer_id))) && final(self)@
                        == old(self)@
                },
            },
    {
        let peer_id = match peer_id {
            Some(id) => id,
            None => return Outcome::refused(ProjectError::InvalidPeerId),
        };
        let replica_id: ReplicaId = match self.collaborators.get(&peer_id) {
            Some(collaborator) => collaborator.replica_id,
            None => return Outcome::refused(ProjectError::UnknownPeer(peer_id)),
        };
        self.collaborators.remove(&peer_id);
        let mut effects: Vec<Effect> = vec![Effect::ForgetSharedBuffersFor(peer_id)];
        let ghost first = seq![Effect::ForgetSharedBuffersFor(peer_id)];
        let ghost want = remove_peer_effects(self.buffer_store.buffers@, replica_id);
        let mut i: usize = 0;
        assert(effects@ =~= first + want.take(0));
        while i < self.buffer_store.buffers.len()
            invariant
                i <= self.buffer_store.buffers.len(),
                want == remove_peer_effects(self.buffer_store.buffers@, replica_id),
                effects@ == first + want.take(i as int),
            decreases self.buffer_store.buffers.len() - i,
        {
            effects.push(
                Effect::RemovePeerFromBuffer {
                    buffer_id: self.buffer_store.buffers[i].id,
                    replica_id,
                },
            );
            i = i + 1;
            assert(effects@ =~= first + want.take(i as int));
        }
        assert(want.take(i as int) =~= want);
        effects.push(Effect::Emit(Event::CollaboratorLeft(peer_id)));
        effects.push(Effect::Notify);
        assert(effects@ =~= first + want + seq![left(peer_id), Effect::Notify]);
        Outcome::done(effects)
    }
}

/// What happens when a participant goes on under another identifier.
pub open spec fn updated_effects(old_peer_id: PeerId, new_peer_id: PeerId, is_host: bool) -> Seq<
    Effect,
> {
    seq![Effect::UpdatePeerId { old_peer_id, new_peer_id }] + (if is_host {
        seq![
            Effect::DiscardIncompleteBuffers,
            Effect::Enqueue(BufferOrderedMessage::Resync),
            Effect::Emit(Event::HostReshared),
        ]
    } else {
        Seq::empty()
    }) + seq![
        Effect::Emit(Event::CollaboratorUpdated { old_peer_id, new_peer_id }),
        Effect::Notify,
    ]
}

impl ProjectView {
    /// The project once a participant joined.
    pub open spec fn after_join(self, newcomer: Collaborator) -> ProjectView {
        ProjectView {
            collaborators: self.collaborators.insert(newcomer.peer_id, newcomer),
            ..self
        }
    }

    /// The project once a participant left.
    pub open spec fn after_leave(self, peer_id: PeerId) -> ProjectView {
        ProjectView { collaborators: self.collaborators.remove(peer_id), ..self }
    }

    /// The project once a participant goes on under another identifier.
    pub open spec fn after_peer_update(self, old_peer_id: PeerId, new_peer_id: PeerId) -> ProjectView {
        ProjectView {
            collaborators: self.collaborators.remove(old_peer_id).insert(
                new_peer_id,
                self.collaborators[old_peer_id],
            ),
            ..self
        }
    }
}

/// A list gives every participant that it names, with what it says of that participant last, and
/// nobody else.
pub proof fn law_listed(messages: Seq<Option<Collaborator>>, peer_id: PeerId)
    requires
        readable(messages),
    ensures
        listed(messages).contains_key(peer_id) <==> exists|i: int|
            0 <= i < messages.len() && (#[trigger] messages[i])->0.peer_id == peer_id,
        listed(messages).contains_key(peer_id) ==> exists|i: int|
            0 <= i < messages.len() && #[trigger] messages[i] == Some(listed(messages)[peer_id])
                && messages[i]->0.peer_id == peer_id && forall|j: int|
                i < j < messages.len() ==> (#[trigger] messages[j])->0.peer_id != peer_id,
    decreases messages.len(),
{
    if messages.len() > 0 {
        let rest = messages.drop_last();
        let last = messages.len() - 1;
        assert(messages[last] is Some);
        assert forall|i: int| 0 <= i < rest.len() implies (#[trigger] rest[i]) is Some by {
            assert(messages[i] is Some);
        }
        law_listed(rest, peer_id);
        if messages[last]->0.peer_id == peer_id {
            assert(messages[last] == Some(listed(messages)[peer_id]));
        } else {
            if listed(rest).contains_key(peer_id) {
                let i = choose|i: int|
                    0 <= i < rest.len() && #[trigger] rest[i] == Some(listed(rest)[peer_id])
                        && rest[i]->0.peer_id == peer_id && forall|j: int|
                        i < j < rest.len() ==> (#[trigger] rest[j])->0.peer_id != peer_id;
                assert(messages[i] == rest[i]);
                assert forall|j: int| i < j < messages.len() implies (
                #[trigger] messages[j])->0.peer_id != peer_id by {
                    if j < last {
                        assert(rest[j] == messages[j]);
                    }
                }
            }
            if exists|i: int| 0 <= i < messages.len() && (#[trigger] messages[i])->0.peer_id
                == peer_id {
                let i = choose|i: int|
                    0 <= i < messages.len() && (#[trigger] messages[i])->0.peer_id == peer_id;
                assert(rest[i] == messages[i]);
            }
        }
    }
}

/// A participant who goes on under another identifier keeps everything else, and the others are
/// not touched.
pub proof fn law_peer_update(view: ProjectView, old_peer_id: PeerId, new_peer_id: PeerId)
    requires
        view.collaborators.contains_key(old_peer_id),
    ensures
        ({
            let after = view.after_peer_update(old_peer_id, new_peer_id).collaborators;
            &&& after.contains_key(new_peer_id)
            &&& after[new_peer_id] == view.collaborators[old_peer_id]
            &&& old_peer_id != new_peer_id ==> !after.contains_key(old_peer_id)
            &&& forall|other: PeerId|
                other != old_peer_id && other != new_peer_id ==> (#[trigger] after.contains_key(other)
                    == view.collaborators.contains_key(other)) && (view.collaborators.contains_key(
                    other,
                ) ==> after[other] == view.collaborators[other])
        }),
{
}

/// A participant who joins and leaves again leaves the project as it was.
pub proof fn law_join_then_leave(view: ProjectView, newcomer: Collaborator)
    requires
        !view.collaborators.contains_key(newcomer.peer_id),
    ensures
        view.after_join(newcomer).after_leave(newcomer.peer_id) == view,
{
    assert(view.after_join(newcomer).after_leave(newcomer.peer_id) =~= view);
}

/// Exactly those who are gone are announced, each once, and nobody else is.
pub proof fn law_announced(effects: Seq<Effect>, gone: Set<PeerId>, peer_id: PeerId)
    requires
        announces_left(effects, gone),
    ensures
        effects.contains(Effect::Emit(Event::CollaboratorLeft(peer_id))) <==> gone.contains(peer_id),
        effects.no_duplicates(),
        forall|i: int|
            0 <= i < effects.len() ==> (#[trigger] effects[i] matches Effect::Emit(event) && event
                is CollaboratorLeft),
{
    if effects.contains(left(peer_id)) {
        let i = choose|i: int| 0 <= i < effects.len() && effects[i] == left(peer_id);
        let other = choose|other: PeerId|
            gone.contains(other) && effects[i] == #[trigger] left(other);
        assert(left(other) == left(peer_id));
    }
    if gone.contains(peer_id) {
        assert(effects.contains(left(peer_id)));
    }
    assert forall|i: int| 0 <= i < effects.len() implies (#[trigger] effects[i] matches Effect::Emit(
        event,
    ) && event is CollaboratorLeft) by {
        let other = choose|other: PeerId|
            gone.contains(other) && effects[i] == #[trigger] left(other);
    }
}

/// What comes first stays first and what comes last stays last, and between them are the
/// announcements of those who are gone, and no more.
pub proof fn law_around(
    effects: Seq<Effect>,
    first: Seq<Effect>,
    gone: Set<PeerId>,
    last: Seq<Effect>,
    peer_id: PeerId,
)
    requires
        around_left(effects, first, gone, last),
    ensures
        first.is_prefix_of(effects),
        last.is_suffix_of(effects),
        effects.len() >= first.len() + last.len(),
        announces_left(effects.subrange(first.len() as int, effects.len() - last.len()), gone),
        !first.contains(Effect::Emit(Event::CollaboratorLeft(peer_id))) && !last.contains(
            Effect::Emit(Event::CollaboratorLeft(peer_id)),
        ) ==> (effects.contains(Effect::Emit(Event::CollaboratorLeft(peer_id)))
            <==> gone.contains(peer_id)),
{
    let middle = choose|middle: Seq<Effect>| #[trigger]
        announces_left(middle, gone) && effects == first + middle + last;
    assert(effects.subrange(0, first.len() as int) =~= first);
    assert(effects.subrange(effects.len() - last.len(), effects.len() as int) =~= last);
    assert(effects.subrange(first.len() as int, effects.len() - last.len()) =~= middle);
    law_announced(middle, gone, peer_id);
    let one = Effect::Emit(Event::CollaboratorLeft(peer_id));
    if middle.contains(one) {
        let i = choose|i: int| 0 <= i < middle.len() && middle[i] == one;
        assert(effects[first.len() + i] == one);
    }
    if effects.contains(one) && !first.contains(one) && !last.contains(one) {
        let i = choose|i: int| 0 <= i < effects.len() && effects[i] == one;
        if i < first.len() {
            assert(first[i] == one);
        } else if i < first.len() + middle.len() {
            assert(middle[i - first.len()] == one);
        } else {
            assert(last[i - first.len() - middle.len()] == one);
        }
    }
}

/// Those who are gone are the collaborators whom no message of the new list names.
pub proof fn law_missing(
    view: ProjectView,
    messages: Seq<Option<Collaborator>>,
    peer_id: PeerId,
)
    ensures
        view.missing_from(messages).contains(peer_id) <==> view.collaborators.contains_key(peer_id)
            && forall|i: int|
            0 <= i < messages.len() ==> !(#[trigger] messages[i] matches Some(collaborator)
                && collaborator.peer_id == peer_id),
{
    lemma_listed_somewhere(messages, peer_id);
}

proof fn lemma_listed_somewhere(messages: Seq<Option<Collaborator>>, peer_id: PeerId)
    ensures
        listed(messages).contains_key(peer_id) <==> exists|i: int|
            0 <= i < messages.len() && (#[trigger] messages[i] matches Some(collaborator)
                && collaborator.peer_id == peer_id),
    decreases messages.len(),
{
    if messages.len() > 0 {
        let rest = messages.drop_last();
        lemma_listed_somewhere(rest, peer_id);
        if listed(rest).contains_key(peer_id) {
            let i = choose|i: int|
                0 <= i < rest.len() && (#[trigger] rest[i] matches Some(collaborator)
                    && collaborator.peer_id == peer_id);
            assert(messages[i] == rest[i]);
        }
        if exists|i: int|
            0 <= i < messages.len() && (#[trigger] messages[i] matches Some(collaborator)
                && collaborator.peer_id == peer_id) {
            let i = choose|i: int|
                0 <= i < messages.len() && (#[trigger] messages[i] matches Some(collaborator)
                    && collaborator.peer_id == peer_id);
            if i < rest.len() {
                assert(rest[i] == messages[i]);
            } else {
                assert(messages.last() == messages[i]);
            }
        }
    }
}

/// The settings of every worktree are forgotten, and a participant who leaves is removed from every
/// buffer by the replica that is given, in the order of the worktrees and of the buffers.
pub proof fn law_removed_everywhere(
    worktrees: Seq<Worktree>,
    buffers: Seq<Buffer>,
    replica_id: ReplicaId,
)
    ensures
        clear_settings_effects(worktrees).len() == worktrees.len(),
        forall|i: int|
            0 <= i < worktrees.len() ==> #[trigger] clear_settings_effects(worktrees)[i]
                == Effect::ClearLocalSettings(worktrees[i].id),
        remove_peer_effects(buffers, replica_id).len() == buffers.len(),
        forall|i: int|
            0 <= i < buffers.len() ==> #[trigger] remove_peer_effects(buffers, replica_id)[i] == (
            Effect::RemovePeerFromBuffer { buffer_id: buffers[i].id, replica_id }),
{
}

/// A participant who goes on under another identifier is known by it from then on. If it is the
/// host, buffers that have not arrived are dropped, then all are synchronized and the observers are
/// told that the host shares again; for anyone else none of this happens. The observers are told of
/// the change at the end.
pub proof fn law_updated(old_peer_id: PeerId, new_peer_id: PeerId, is_host: bool)
    ensures
        ({
            let effects = updated_effects(old_peer_id, new_peer_id, is_host);
            let n = effects.len() as int;
            &&& effects[0] == (Effect::UpdatePeerId { old_peer_id, new_peer_id })
            &&& effects[n - 2] == Effect::Emit(
                Event::CollaboratorUpdated { old_peer_id, new_peer_id },
            )
            &&& effects[n - 1] is Notify
            &&& !is_host ==> n == 3
            &&& is_host ==> n == 6 && effects[1] is DiscardIncompleteBuffers && effects[2]
                == Effect::Enqueue(BufferOrderedMessage::Resync) && effects[3] == Effect::Emit(
                Event::HostReshared,
            )
        }),
{
}

/// Who joins or leaves changes who takes part, by this one participant, and nothing else of the
/// project; neither does a change of identifier.
pub proof fn law_who_takes_part(
    view: ProjectView,
    newcomer: Collaborator,
    peer_id: PeerId,
    other: PeerId,
)
    ensures
        view.after_join(newcomer).collaborators.contains_key(newcomer.peer_id),
        view.after_join(newcomer).collaborators[newcomer.peer_id] == newcomer,
        other != newcomer.peer_id ==> view.after_join(newcomer).collaborators.contains_key(other)
            == view.collaborators.contains_key(other),
        other != newcomer.peer_id && view.collaborators.contains_key(other) ==> view.after_join(
            newcomer,
        ).collaborators[other] == view.collaborators[other],
        (ProjectView { collaborators: view.collaborators, ..view.after_join(newcomer) }) == view,
        !view.after_leave(peer_id).collaborators.contains_key(peer_id),
        other != peer_id ==> view.after_leave(peer_id).collaborators.contains_key(other)
            == view.collaborators.contains_key(other),
        other != peer_id && view.collaborators.contains_key(other) ==> view.after_leave(
            peer_id,
        ).collaborators[other] == view.collaborators[other],
        (ProjectView { collaborators: view.collaborators, ..view.after_leave(peer_id) }) == view,
        (ProjectView {
            collaborators: view.collaborators,
            ..view.after_peer_update(peer_id, other)
        }) == view,
{
}

/// A list of participants can be read exactly if every message of it can.
pub proof fn law_readable(
    a: Seq<Option<Collaborator>>,
    b: Seq<Option<Collaborator>>,
    one: Option<Collaborator>,
)
    ensures
        readable(Seq::empty()),
        readable(seq![one]) <==> one is Some,
        readable(a + b) <==> readable(a) && readable(b),
{
    if one is Some {
        assert(readable(seq![one]));
    } else {
        assert(!(seq![one][0] is Some));
    }
    if readable(a + b) {
        assert forall|i: int| 0 <= i < a.len() implies (#[trigger] a[i]) is Some by {
            assert((a + b)[i] is Some);
        }
        assert forall|i: int| 0 <= i < b.len() implies (#[trigger] b[i]) is Some by {
            assert((a + b)[a.len() + i] is Some);
        }
    }
}

} // verus!
