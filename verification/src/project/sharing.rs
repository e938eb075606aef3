//! Sharing a project, and the end of it.
use super::{Project, ProjectClientState, ProjectView};
use crate::event::{
    Capability, ChannelRole, Effect, Entity, Event, Outcome, ProjectError, Store,
};
use crate::buffer::Buffer;
use crate::collaborators::Collaborator;
use crate::ids::{PayloadId, PeerId};
use vstd::prelude::*;

verus! {

/// What messages are received for while a project is shared.
pub open spec fn shared_entities() -> Seq<Entity> {
    seq![
        Entity::Project,
        Entity::WorktreeStore,
        Entity::BufferStore,
        Entity::LspStore,
        Entity::DapStore,
        Entity::SettingsObserver,
    ]
}

/// What happens when a project is shared.
pub open spec fn shared_effects(project_id: u64) -> Seq<Effect> {
    seq![
        Effect::StoreShared { store: Store::Buffer, project_id },
        Effect::StoreShared { store: Store::Worktree, project_id },
        Effect::StoreShared { store: Store::Lsp, project_id },
        Effect::StoreShared { store: Store::Dap, project_id },
        Effect::StoreShared { store: Store::Task, project_id },
        Effect::StoreShared { store: Store::SettingsObserver, project_id },
        Effect::Emit(Event::RemoteIdChanged(Some(project_id))),
        Effect::Notify,
    ]
}

/// What happens when a project is no longer shared.
pub open spec fn unshared_effects(project_id: u64) -> Seq<Effect> {
    seq![
        Effect::StoreUnshared { store: Store::Worktree },
        Effect::ForgetSharedBuffers,
        Effect::StoreUnshared { store: Store::Buffer },
        Effect::StoreUnshared { store: Store::Task },
        Effect::StoreUnshared { store: Store::Dap },
        Effect::StoreUnshared { store: Store::SettingsObserver },
        Effect::SendUnshareProject { project_id },
    ]
}

/// What happens when the host of a project is gone.
pub open spec fn host_gone_effects() -> Seq<Effect> {
    seq![
        Effect::StoreDisconnectedFromHost { store: Store::Worktree },
        Effect::StoreDisconnectedFromHost { store: Store::Buffer },
        Effect::StoreDisconnectedFromHost { store: Store::Lsp },
    ]
}

/// What a role allows.
pub open spec fn role_capability(role: ChannelRole) -> Capability {
    match role {
        ChannelRole::Member | ChannelRole::Admin => Capability::ReadWrite,
        ChannelRole::Other => Capability::ReadOnly,
    }
}

/// Every open buffer becomes editable, or not.
pub open spec fn capability_effects(buffers: Seq<Buffer>, capability: Capability) -> Seq<Effect> {
    buffers.map_values(
        |b: Buffer| Effect::SetBufferCapability { buffer_id: b.id, capability },
    )
}

impl ProjectView {
    /// The project once it is shared.
    pub open spec fn after_shared(self, project_id: u64) -> ProjectView {
        ProjectView {
            client_state: ProjectClientState::Shared { remote_id: project_id },
            client_subscriptions: self.client_subscriptions + shared_entities(),
            ..self
        }
    }

    /// The project once it is no longer shared.
    pub open spec fn after_unshared(self) -> ProjectView {
        ProjectView {
            client_state: ProjectClientState::Local,
            collaborators: Map::empty(),
            client_subscriptions: Seq::empty(),
            ..self
        }
    }

    /// The project of another user once that user is gone.
    pub open spec fn after_host_gone(self) -> ProjectView {
        match self.client_state {
            ProjectClientState::Remote { capability, remote_id, replica_id, .. } => ProjectView {
                client_state: ProjectClientState::Remote {
                    sharing_has_stopped: true,
                    capability,
                    remote_id,
                    replica_id,
                },
                collaborators: Map::empty(),
                ..self
            },
            _ => self,
        }
    }

    /// The project once the local user has another role in it.
    pub open spec fn after_role(self, role: ChannelRole) -> ProjectView {
        match self.client_state {
            ProjectClientState::Remote { sharing_has_stopped, remote_id, replica_id, .. } =>
            ProjectView {
                client_state: ProjectClientState::Remote {
                    sharing_has_stopped,
                    capability: role_capability(role),
                    remote_id,
                    replica_id,
                },
                ..self
            },
            _ => self,
        }
    }
}

impl Project {
    /// What to subscribe to on the collaboration server before `shared` is called.
    pub fn share_subscriptions(&self) -> (res: Option<Vec<Entity>>)
        ensures
            match self@.client_state {
                ProjectClientState::Local => res matches Some(list) && list@ == shared_entities(),
                _ => res is None,
            },
    {
        match self.client_state {
            ProjectClientState::Local => Some(
                vec![
                    Entity::Project,
                    Entity::WorktreeStore,
                    Entity::BufferStore,
                    Entity::LspStore,
                    Entity::DapStore,
                    Entity::SettingsObserver,
                ],
            ),
            _ => None,
        }
    }

    /// Shares a project that has one user so far, under a number of the collaboration server;
    /// `subscribed` is what became of the subscriptions.
    pub fn shared(&mut self, project_id: u64, subscribed: Result<(), PayloadId>) -> (res: Outcome)
        requires
            old(self).wf(),
        ensures
            final(self).wf(),
            match (old(self)@.client_state, subscribed) {
                (ProjectClientState::Local, Ok(())) => res.is(shared_effects(project_id), Ok(()))
                    && final(self)@ == old(self)@.after_shared(project_id),
                (ProjectClientState::Local, Err(error)) => res.is(
                    Seq::empty(),
                    Err(ProjectError::Surroundings(error)),
                ) && final(self)@ == old(self)@,
                _ => res.is(Seq::empty(), Err(ProjectError::AlreadyShared)) && final(self)@ == old(self)@,
            },
    {
        let mut subscriptions = match self.share_subscriptions() {
            Some(list) => list,
            None => return Outcome::refused(ProjectError::AlreadyShared),
        };
        if let Err(error) = subscribed {
            return Outcome::refused(ProjectError::Surroundings(error));
        }
        self.client_subscriptions.append(&mut subscriptions);
        self.client_state = ProjectClientState::Shared { remote_id: project_id };
        Outcome::done(
            vec![
                Effect::StoreShared { store: Store::Buffer, project_id },
                Effect::StoreShared { store: Store::Worktree, project_id },
                Effect::StoreShared { store: Store::Lsp, project_id },
                Effect::StoreShared { store: Store::Dap, project_id },
                Effect::StoreShared { store: Store::Task, project_id },
                Effect::StoreShared { store: Store::SettingsObserver, project_id },
                Effect::Emit(Event::RemoteIdChanged(Some(project_id))),
                Effect::Notify,
            ],
        )
    }

    fn unshare_internal(&mut self) -> (res: Outcome)
        requires
            old(self).wf(),
        ensures
            final(self).wf(),
            match old(self)@.client_state {
                ProjectClientState::Remote { .. } => res.is(
                    Seq::empty(),
                    Err(ProjectError::UnshareRemoteProject),
                ) && final(self)@ == old(self)@,
                ProjectClientState::Local => res.is(
                    Seq::empty(),
                    Err(ProjectError::UnshareUnsharedProject),
                ) && final(self)@ == old(self)@,
                ProjectClientState::Shared { remote_id } => res.is(
                    unshared_effects(remote_id),
                    Ok(()),
                ) && final(self)@ == old(self)@.after_unshared(),
            },
    {
        if self.is_via_collab() {
            return Outcome::refused(ProjectError::UnshareRemoteProject);
        }
        if let ProjectClientState::Shared { remote_id } = self.client_state {
            self.client_state = ProjectClientState::Local;
            self.collaborators.clear();
            self.client_subscriptions.clear();
            Outcome::done(
                vec![
                    Effect::StoreUnshared { store: Store::Worktree },
                    Effect::ForgetSharedBuffers,
                    Effect::StoreUnshared { store: Store::Buffer },
                    Effect::StoreUnshared { store: Store::Task },
                    Effect::StoreUnshared { store: Store::Dap },
                    Effect::StoreUnshared { store: Store::SettingsObserver },
                    Effect::SendUnshareProject { project_id: remote_id },
                ],
            )
        } else {
            Outcome::refused(ProjectError::UnshareUnsharedProject)
        }
    }

    /// Ends the sharing of a project that the local user shares.
    pub fn unshare(&mut self) -> (res: Outcome)
        requires
            old(self).wf(),
        ensures
            final(self).wf(),
            match old(self)@.client_state {
                ProjectClientState::Remote { .. } => res.is(
                    Seq::empty(),
                    Err(ProjectError::UnshareRemoteProject),
                ) && final(self)@ == old(self)@,
                ProjectClientState::Local => res.is(
                    Seq::empty(),
                    Err(ProjectError::UnshareUnsharedProject),
                ) && final(self)@ == old(self)@,
                ProjectClientState::Shared { remote_id } => res.is(
                    unshared_effects(remote_id).push(Effect::Notify),
                    Ok(()),
                ) && final(self)@ == old(self)@.after_unshared(),
            },
    {
        let mut outcome = self.unshare_internal();
        if outcome.result.is_ok() {
            outcome.effects.push(Effect::Notify);
        }
        outcome
    }

    fn disconnected_from_host_internal(&mut self) -> (effects: Vec<Effect>)
        requires
            old(self).wf(),
        ensures
            final(self).wf(),
            final(self)@ == old(self)@.after_host_gone(),
            effects@ == (if old(self)@.via_collab() {
                host_gone_effects()
            } else {
                Seq::empty()
            }),
    {
        if let ProjectClientState::Remote { capability, remote_id, replica_id, .. } =
            self.client_state {
            self.client_state =
            ProjectClientState::Remote {
                sharing_has_stopped: true,
                capability,
                remote_id,
                replica_id,
            };
            self.collaborators.clear();
            vec![
                Effect::StoreDisconnectedFromHost { store: Store::Worktree },
                Effect::StoreDisconnectedFromHost { store: Store::Buffer },
                Effect::StoreDisconnectedFromHost { store: Store::Lsp },
            ]
        } else {
            Vec::new()
        }
    }

    /// The user who shares the project is gone.
    pub fn disconnected_from_host(&mut self) -> (effects: Vec<Effect>)
        requires
            old(self).wf(),
        ensures
            final(self).wf(),
            old(self)@.disconnected() ==> final(self)@ == old(self)@ && effects@
                == Seq::<Effect>::empty(),
            !old(self)@.disconnected() ==> final(self)@ == old(self)@.after_host_gone() && effects@
                == (if old(self)@.via_collab() {
                host_gone_effects()
            } else {
                Seq::empty()
            }) + seq![Effect::Emit(Event::DisconnectedFromHost), Effect::Notify],
    {
        if self.is_disconnected() {
            return Vec::new();
        }
        let mut effects = self.disconnected_from_host_internal();
        let ghost before = effects@;
        effects.push(Effect::Emit(Event::DisconnectedFromHost));
        effects.push(Effect::Notify);
        assert(effects@ =~= before + seq![
            Effect::Emit(Event::DisconnectedFromHost),
            Effect::Notify,
        ]);
        effects
    }

    /// The local user has another role in the project of another user.
    pub fn set_role(&mut self, role: ChannelRole) -> (effects: Vec<Effect>)
        requires
            old(self).wf(),
        ensures
            final(self).wf(),
            final(self)@ == old(self)@.after_role(role),
            effects@ == (if old(self)@.via_collab() && old(self)@.allowed() != role_capability(
                role,
            ) {
                capability_effects(old(self)@.buffer_store.buffers@, role_capability(role))
            } else {
                Seq::empty()
            }),
    {
        let new_capability = match role {
            ChannelRole::Member | ChannelRole::Admin => Capability::ReadWrite,
            ChannelRole::Other => Capability::ReadOnly,
        };
        let mut effects: Vec<Effect> = Vec::new();
        if let ProjectClientState::Remote {
            sharing_has_stopped,
            capability,
            remote_id,
            replica_id,
        } = self.client_state {
            if capability == new_capability {
                return effects;
            }
            self.client_state =
            ProjectClientState::Remote {
                sharing_has_stopped,
                capability: new_capability,
                remote_id,
                replica_id,
            };
            let ghost want = capability_effects(self.buffer_store.buffers@, new_capability);
            let mut i: usize = 0;
            while i < self.buffer_store.buffers.len()
                invariant
                    i <= self.buffer_store.buffers.len(),
                    want == capability_effects(self.buffer_store.buffers@, new_capability),
                    effects@ == want.take(i as int),
                decreases self.buffer_store.buffers.len() - i,
            {
                effects.push(
                    Effect::SetBufferCapability {
                        buffer_id: self.buffer_store.buffers[i].id,
                        capability: new_capability,
                    },
                );
                i = i + 1;
                assert(effects@ =~= want.take(i as int));
            }
            assert(effects@ =~= want);
        }
        effects
    }

    /// The user closes the project.
    pub fn close(&self) -> (effects: Vec<Effect>)
        ensures
            effects@ == seq![Effect::Emit(Event::Closed)],
    {
        vec![Effect::Emit(Event::Closed)]
    }

    /// The project is dropped: the processes on the ssh server end, and so does the sharing.
    pub fn release(&mut self) -> (effects: Vec<Effect>)
        requires
            old(self).wf(),
        ensures
            final(self).wf(),
            effects@ == (if old(self)@.ssh_client is Some {
                seq![Effect::ShutdownSsh]
            } else {
                Seq::empty()
            }) + (match old(self)@.client_state {
                ProjectClientState::Local => Seq::empty(),
                ProjectClientState::Shared { remote_id } => unshared_effects(remote_id),
                ProjectClientState::Remote { remote_id, .. } => seq![
                    Effect::SendLeaveProject { project_id: remote_id },
                ] + host_gone_effects(),
            }),
            final(self)@ == (ProjectView {
                ssh_client: None,
                ..match old(self)@.client_state {
                    ProjectClientState::Local => old(self)@,
                    ProjectClientState::Shared { .. } => old(self)@.after_unshared(),
                    ProjectClientState::Remote { .. } => old(self)@.after_host_gone(),
                }
            }),
    {
        let mut effects: Vec<Effect> = Vec::new();
        if let Some(_) = self.ssh_client.take() {
            effects.push(Effect::ShutdownSsh);
        }
        let ghost shutdown = effects@;
        match self.client_state {
            ProjectClientState::Local => {
                assert(effects@ =~= shutdown + Seq::<Effect>::empty());
            },
            ProjectClientState::Shared { .. } => {
                let mut outcome = self.unshare_internal();
                effects.append(&mut outcome.effects);
            },
            ProjectClientState::Remote { remote_id, .. } => {
                effects.push(Effect::SendLeaveProject { project_id: remote_id });
                let mut rest = self.disconnected_from_host_internal();
                effects.append(&mut rest);
                assert(effects@ =~= shutdown + (seq![
                    Effect::SendLeaveProject { project_id: remote_id },
                ] + host_gone_effects()));
            },
        }
        effects
    }

    /// The program ends: the processes on the ssh server end with it.
    pub fn on_app_quit(&mut self) -> (effects: Vec<Effect>)
        requires
            old(self).wf(),
        ensures
            final(self).wf(),
            final(self)@ == (ProjectView { ssh_client: None, ..old(self)@ }),
            effects@ == (if old(self)@.ssh_client is Some {
                seq![Effect::ShutdownSsh]
            } else {
                Seq::empty()
            }),
    {
        let mut effects: Vec<Effect> = Vec::new();
        if let Some(_) = self.ssh_client.take() {
            effects.push(Effect::ShutdownSsh);
        }
        effects
    }

    /// The collaboration server says that the project is no longer shared: a project that the
    /// local user shares is unshared, and the host of one of another user is gone.
    pub fn handle_unshare_project(&mut self) -> (res: Outcome)
        requires
            old(self).wf(),
        ensures
            final(self).wf(),
            match old(self)@.client_state {
                ProjectClientState::Local => res.is(
                    Seq::empty(),
                    Err(ProjectError::UnshareUnsharedProject),
                ) && final(self)@ == old(self)@,
                ProjectClientState::Shared { remote_id } => res.is(
                    unshared_effects(remote_id).push(Effect::Notify),
                    Ok(()),
                ) && final(self)@ == old(self)@.after_unshared(),
                ProjectClientState::Remote { .. } => res.is(
                    if old(self)@.disconnected() {
                        Seq::empty()
                    } else {
                        host_gone_effects() + seq![
                            Effect::Emit(Event::DisconnectedFromHost),
                            Effect::Notify,
                        ]
                    },
                    Ok(()),
                ) && final(self)@ == if old(self)@.disconnected() {
                    old(self)@
                } else {
                    old(self)@.after_host_gone()
                },
            },
    {
        if self.is_local() || self.is_via_ssh() {
            self.unshare()
        } else {
            Outcome::done(self.disconnected_from_host())
        }
    }
}

/// Sharing a project that was never shared and unsharing it again changes nothing.
pub proof fn law_unshare_undoes_share(view: ProjectView, project_id: u64)
    requires
        view.client_state is Local,
        view.client_subscriptions.len() == 0,
        view.collaborators == Map::<PeerId, Collaborator>::empty(),
    ensures
        view.after_shared(project_id).after_unshared() == view,
{
    assert(view.after_shared(project_id).after_unshared() =~= view);
}

/// Sharing gives a project the number it is shared under, and leaves alone whether its files lie
/// on this machine and whether it can be edited; unsharing takes the number away.
pub proof fn law_share_changes_number_only(view: ProjectView, project_id: u64)
    requires
        view.client_state is Local,
    ensures
        view.shared_id() is None,
        view.after_shared(project_id).shared_id() == Some(project_id),
        view.after_shared(project_id).local() == view.local(),
        view.after_shared(project_id).via_ssh() == view.via_ssh(),
        view.after_shared(project_id).allowed() == view.allowed(),
        view.after_shared(project_id).after_unshared().shared_id() is None,
{
}

/// Once the host is gone the project is disconnected and cannot be edited, nobody takes part in
/// it, and it stays so however often the host goes.
pub proof fn law_host_gone(view: ProjectView)
    requires
        view.via_collab(),
    ensures
        view.after_host_gone().disconnected(),
        view.after_host_gone().read_only(),
        view.after_host_gone().collaborators == Map::<PeerId, Collaborator>::empty(),
        view.after_host_gone().after_host_gone() == view.after_host_gone(),
        view.after_host_gone().shared_id() == view.shared_id(),
{
}

/// A role decides alone whether the project of another user can be edited: the last one counts,
/// and no role brings a host back.
pub proof fn law_role(view: ProjectView, first: ChannelRole, last: ChannelRole)
    ensures
        view.after_role(first).after_role(last) == view.after_role(last),
        view.via_collab() ==> view.after_role(last).allowed() == role_capability(last),
        !view.via_collab() ==> view.after_role(last) == view,
        view.after_role(last).disconnected() == view.disconnected(),
{
}

/// When a project is shared, each of its stores but those of images, toolchains and prettier is
/// told so once, under the number of the project; then the observers are told. Messages are
/// received for every entity.
pub proof fn law_who_is_told_of_sharing(project_id: u64)
    ensures
        forall|effect: Effect| #[trigger]
            shared_effects(project_id).contains(effect) <==> match effect {
                Effect::StoreShared { store, project_id: number } => number == project_id && !(store
                    is Image || store is Toolchain || store is Prettier),
                Effect::Emit(event) => event == Event::RemoteIdChanged(Some(project_id)),
                Effect::Notify => true,
                _ => false,
            },
        shared_effects(project_id).len() == 8,
        forall|i: int| 0 <= i < 6 ==> #[trigger] shared_effects(project_id)[i] is StoreShared,
        shared_effects(project_id).last() is Notify,
        forall|entity: Entity| #[trigger] shared_entities().contains(entity),
        shared_entities().len() == 6,
{
    let list = shared_effects(project_id);
    assert(list.contains(list[0]));
    assert(list.contains(list[1]));
    assert(list.contains(list[2]));
    assert(list.contains(list[3]));
    assert(list.contains(list[4]));
    assert(list.contains(list[5]));
    assert(list.contains(list[6]));
    assert(list.contains(list[7]));
    let all = shared_entities();
    assert(all.contains(all[0]));
    assert(all.contains(all[1]));
    assert(all.contains(all[2]));
    assert(all.contains(all[3]));
    assert(all.contains(all[4]));
    assert(all.contains(all[5]));
}

/// When a project is no longer shared, each store that was told that it is, but that of language
/// servers, is told once, and buffers that were shared are forgotten; the collaboration server is
/// told last, by the number of the project.
pub proof fn law_who_is_told_of_unsharing(project_id: u64)
    ensures
        forall|effect: Effect| #[trigger]
            unshared_effects(project_id).contains(effect) <==> match effect {
                Effect::StoreUnshared { store } => !(store is Lsp) && shared_effects(
                    project_id,
                ).contains(Effect::StoreShared { store, project_id }),
                Effect::ForgetSharedBuffers => true,
                Effect::SendUnshareProject { project_id: number } => number == project_id,
                _ => false,
            },
        unshared_effects(project_id).len() == 7,
        unshared_effects(project_id).last() is SendUnshareProject,
{
    law_who_is_told_of_sharing(project_id);
    let list = unshared_effects(project_id);
    assert(list.contains(list[0]));
    assert(list.contains(list[1]));
    assert(list.contains(list[2]));
    assert(list.contains(list[3]));
    assert(list.contains(list[4]));
    assert(list.contains(list[5]));
    assert(list.contains(list[6]));
}

/// When the host is gone, the stores of worktrees, buffers and language servers are told, once
/// each, and nothing else happens.
pub proof fn law_who_is_told_of_a_lost_host()
    ensures
        forall|effect: Effect| #[trigger]
            host_gone_effects().contains(effect) <==> match effect {
                Effect::StoreDisconnectedFromHost { store } => store is Worktree || store is Buffer
                    || store is Lsp,
                _ => false,
            },
        host_gone_effects().len() == 3,
{
    let list = host_gone_effects();
    assert(list.contains(list[0]));
    assert(list.contains(list[1]));
    assert(list.contains(list[2]));
}

/// Members and admins may write, and nobody else; every buffer gets the capability, in the order of
/// the buffers.
pub proof fn law_who_may_write(role: ChannelRole, buffers: Seq<Buffer>, capability: Capability)
    ensures
        role_capability(role) == Capability::ReadWrite <==> role is Member || role is Admin,
        role_capability(role) == Capability::ReadOnly <==> role is Other,
        capability_effects(buffers, capability).len() == buffers.len(),
        forall|i: int|
            0 <= i < buffers.len() ==> #[trigger] capability_effects(buffers, capability)[i] == (
            Effect::SetBufferCapability { buffer_id: buffers[i].id, capability }),
{
}

/// What sharing, its end, the loss of the host and a new role change of a project: nothing but how
/// it is connected and, where there is an end, who takes part and what is received.
pub proof fn law_what_sharing_changes(view: ProjectView, project_id: u64, role: ChannelRole)
    ensures
        view.after_shared(project_id).client_state == (ProjectClientState::Shared {
            remote_id: project_id,
        }),
        view.client_subscriptions.is_prefix_of(view.after_shared(project_id).client_subscriptions),
        forall|entity: Entity| #[trigger]
            view.after_shared(project_id).client_subscriptions.contains(entity),
        view.after_shared(project_id).client_subscriptions.len() == view.client_subscriptions.len()
            + 6,
        (ProjectView {
            client_state: view.client_state,
            client_subscriptions: view.client_subscriptions,
            ..view.after_shared(project_id)
        }) == view,
        view.after_unshared().client_state is Local,
        view.after_unshared().client_subscriptions.len() == 0,
        view.after_unshared().collaborators.dom() == Set::<PeerId>::empty(),
        (ProjectView {
            client_state: view.client_state,
            client_subscriptions: view.client_subscriptions,
            collaborators: view.collaborators,
            ..view.after_unshared()
        }) == view,
        !(view.client_state is Remote) ==> view.after_host_gone() == view && view.after_role(role)
            == view,
        view.client_state matches ProjectClientState::Remote {
            sharing_has_stopped,
            capability,
            remote_id,
            replica_id,
        } ==> {
            &&& view.after_host_gone().client_state == (ProjectClientState::Remote {
                sharing_has_stopped: true,
                capability,
                remote_id,
                replica_id,
            })
            &&& view.after_host_gone().collaborators.dom() == Set::<PeerId>::empty()
            &&& (ProjectView {
                client_state: view.client_state,
                collaborators: view.collaborators,
                ..view.after_host_gone()
            }) == view
            &&& view.after_role(role).client_state == (ProjectClientState::Remote {
                sharing_has_stopped,
                capability: if role is Member || role is Admin {
                    Capability::ReadWrite
                } else {
                    Capability::ReadOnly
                },
                remote_id,
                replica_id,
            })
            &&& (ProjectView { client_state: view.client_state, ..view.after_role(role) }) == view
        },
{
    law_who_is_told_of_sharing(project_id);
    let before = view.client_subscriptions;
    let after = view.after_shared(project_id).client_subscriptions;
    assert(after.subrange(0, before.len() as int) =~= before);
    assert forall|entity: Entity| #[trigger] after.contains(entity) by {
        assert(shared_entities().contains(entity));
        let i = choose|i: int| 0 <= i < shared_entities().len() && shared_entities()[i] == entity;
        assert(after[before.len() + i] == entity);
    }
}

} // verus!
