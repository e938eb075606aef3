//! What a project sends for the messages that keep their place among buffer operations.
use super::{Project, ProjectClientState, ProjectView};
use crate::ids::{BufferId, LanguageServerId, PayloadId};
use crate::ordered::{Action, ActionView};
use vstd::prelude::*;

verus! {

/// What is sent for a step of the sender.
#[derive(Debug, PartialEq)]
pub enum OrderedRequest {
    /// Nothing.
    Nothing,
    /// Nothing, and the answer that the sender waits for is known.
    Answer(bool),
    /// An update of a buffer, whose answer the sender waits for.
    UpdateBuffer { project_id: u64, buffer_id: BufferId, operations: Vec<PayloadId> },
    /// A synchronization with the host, whose end the sender waits for.
    Synchronize { project_id: u64 },
    /// A message of a language server.
    UpdateLanguageServer {
        project_id: u64,
        language_server_id: LanguageServerId,
        message: PayloadId,
    },
}

impl ProjectView {
    /// Whether a request is what is sent for a step of the sender. What would be sent to the
    /// participants of a project that has none is not sent, as if it were accepted; a project that
    /// is not a guest's cannot be synchronized.
    pub open spec fn sends(self, action: ActionView, request: OrderedRequest) -> bool {
        match action {
            ActionView::Continue | ActionView::BatchDone => request is Nothing,
            ActionView::SendUpdate { buffer_id, operations } => match self.shared_id() {
                Some(id) => request matches OrderedRequest::UpdateBuffer {
                    project_id,
                    buffer_id: sent_id,
                    operations: sent,
                } && project_id == id && sent_id == buffer_id && sent@ == operations,
                None => request == OrderedRequest::Answer(true),
            },
            ActionView::Synchronize => if self.via_collab() && !self.disconnected() {
                request == (OrderedRequest::Synchronize { project_id: self.shared_id()->0 })
            } else {
                request == OrderedRequest::Answer(false)
            },
            ActionView::SendLanguageServerUpdate { language_server_id, message } =>
            match self.shared_id() {
                Some(project_id) => request == (OrderedRequest::UpdateLanguageServer {
                    project_id,
                    language_server_id,
                    message,
                }),
                None => request is Nothing,
            },
        }
    }
}

impl Project {
    /// What is sent for a step of the sender.
    pub fn ordered_request(&self, action: Action) -> (request: OrderedRequest)
        ensures
            self@.sends(action@, request),
    {
        match action {
            Action::Continue | Action::BatchDone => OrderedRequest::Nothing,
            Action::SendUpdate { buffer_id, operations } => match self.remote_id() {
                Some(project_id) => OrderedRequest::UpdateBuffer {
                    project_id,
                    buffer_id,
                    operations,
                },
                None => OrderedRequest::Answer(true),
            },
            Action::Synchronize => match self.synchronize_remote_buffers() {
                Ok(project_id) => OrderedRequest::Synchronize { project_id },
                Err(_) => OrderedRequest::Answer(false),
            },
            Action::SendLanguageServerUpdate { language_server_id, message } =>
            match self.remote_id() {
                Some(project_id) => OrderedRequest::UpdateLanguageServer {
                    project_id,
                    language_server_id,
                    message,
                },
                None => OrderedRequest::Nothing,
            },
        }
    }
}

/// A project that is not shared sends nothing, and loses nothing by it: every update counts as
/// accepted.
pub proof fn law_unshared_sends_nothing(view: ProjectView, action: ActionView, request: OrderedRequest)
    requires
        view.shared_id() is None,
        view.sends(action, request),
    ensures
        request is Nothing || request is Answer,
        action is SendUpdate ==> request == OrderedRequest::Answer(true),
{
}

/// What is sent depends on the action and on how the project is connected, and on nothing else. A
/// project that is shared sends every update of a buffer and every message of a language server
/// under its number, whoever shares it; one that is not sends neither, and counts its updates as
/// accepted. Only a guest whose host is still there can synchronize.
pub proof fn law_what_is_sent(view: ProjectView, action: ActionView, request: OrderedRequest)
    requires
        view.sends(action, request),
    ensures
        action matches ActionView::SendUpdate { buffer_id, operations } ==> match view.client_state {
            ProjectClientState::Local => request == OrderedRequest::Answer(true),
            ProjectClientState::Shared { remote_id } => request
                matches OrderedRequest::UpdateBuffer {
                project_id,
                buffer_id: sent_id,
                operations: sent,
            } && project_id == remote_id && sent_id == buffer_id && sent@ == operations,
            ProjectClientState::Remote { remote_id, .. } => request
                matches OrderedRequest::UpdateBuffer {
                project_id,
                buffer_id: sent_id,
                operations: sent,
            } && project_id == remote_id && sent_id == buffer_id && sent@ == operations,
        },
        action matches ActionView::SendLanguageServerUpdate { language_server_id, message } ==> request
            == (match view.client_state {
            ProjectClientState::Local => OrderedRequest::Nothing,
            ProjectClientState::Shared { remote_id } => OrderedRequest::UpdateLanguageServer {
                project_id: remote_id,
                language_server_id,
                message,
            },
            ProjectClientState::Remote {
                remote_id,
                ..
            } => OrderedRequest::UpdateLanguageServer {
                project_id: remote_id,
                language_server_id,
                message,
            },
        }),
        action is Synchronize ==> request == (match view.client_state {
            ProjectClientState::Remote { sharing_has_stopped, remote_id, .. } => if sharing_has_stopped {
                OrderedRequest::Answer(false)
            } else {
                OrderedRequest::Synchronize { project_id: remote_id }
            },
            _ => OrderedRequest::Answer(false),
        }),
        action is Continue || action is BatchDone ==> request is Nothing,
{
}

/// What an action says is what it holds.
pub proof fn law_action_view(action: Action)
    ensures
        match action {
            Action::Continue => action@ is Continue,
            Action::SendUpdate { buffer_id, operations } => action@ == (ActionView::SendUpdate {
                buffer_id,
                operations: operations@,
            }),
            Action::Synchronize => action@ is Synchronize,
            Action::SendLanguageServerUpdate { language_server_id, message } => action@ == (
            ActionView::SendLanguageServerUpdate { language_server_id, message }),
            Action::BatchDone => action@ is BatchDone,
        },
{
}

} // verus!
