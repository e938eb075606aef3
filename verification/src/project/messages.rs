//! Messages that a project answers with little more than an announcement.
use super::Project;
use crate::event::{
    Effect, Event, LanguageServerPromptRequest, MessageActionItem, ProjectError, PromptLevel, Reply,
    Server, SSH_PROJECT_ID,
};
use crate::ids::WorktreeId;
use vstd::prelude::*;

verus! {

/// How urgent a prompt is, as messages carry it.
#[derive(Clone, Copy, Debug, PartialEq, Eq, Structural)]
pub enum PromptLevelProto {
    Info,
    Warning,
    Critical,
}

/// A question of a language server, as the ssh server sends it.
#[derive(Debug)]
pub struct PromptMessage {
    pub level: Option<PromptLevelProto>,
    pub message: String,
    /// The titles of the answers that are offered.
    pub actions: Vec<String>,
    pub lsp_name: String,
}

/// How urgent a prompt is.
pub open spec fn prompt_level(level: PromptLevelProto) -> PromptLevel {
    match level {
        PromptLevelProto::Info => PromptLevel::Info,
        PromptLevelProto::Warning => PromptLevel::Warning,
        PromptLevelProto::Critical => PromptLevel::Critical,
    }
}

/// How urgent a prompt is.
pub fn proto_to_prompt(level: PromptLevelProto) -> (res: PromptLevel)
    ensures
        res == prompt_level(level),
{
    match level {
        PromptLevelProto::Info => PromptLevel::Info,
        PromptLevelProto::Warning => PromptLevel::Warning,
        PromptLevelProto::Critical => PromptLevel::Critical,
    }
}

/// Whether the answers have these titles and nothing else.
pub open spec fn titled(actions: Seq<MessageActionItem>, titles: Seq<String>) -> bool {
    actions.len() == titles.len() && forall|i: int|
        0 <= i < titles.len() ==> (#[trigger] actions[i]).title == titles[i]
            && actions[i].properties@.len() == 0
}

/// The place of a title among the titles.
pub open spec fn title_index(titles: Seq<String>, title: Seq<char>) -> Option<u64>
    decreases titles.len(),
{
    if titles.len() == 0 {
        None
    } else {
        match title_index(titles.drop_last(), title) {
            Some(i) => Some(i),
            None => if titles.last()@ == title {
                Some((titles.len() - 1) as u64)
            } else {
                None
            },
        }
    }
}

/// The place of the answer that the user gave. An offered answer has a title and nothing else, so
/// one with further properties is none of them.
pub open spec fn answer_index(titles: Seq<String>, answer: Option<MessageActionItem>) -> Option<
    u64,
> {
    match answer {
        Some(item) => if item.properties@.len() == 0 {
            title_index(titles, item.title@)
        } else {
            None
        },
        None => None,
    }
}

/// The place that is sent back for an answer is the first that was offered with its title, and none
/// is sent back if none was.
pub proof fn law_answer_is_first(titles: Seq<String>, title: Seq<char>)
    requires
        titles.len() <= u64::MAX,
    ensures
        title_index(titles, title) matches Some(i) ==> i < titles.len() && titles[i as int]@ == title
            && forall|j: int| 0 <= j < i ==> (#[trigger] titles[j])@ != title,
        title_index(titles, title) is None ==> forall|j: int|
            0 <= j < titles.len() ==> (#[trigger] titles[j])@ != title,
    decreases titles.len(),
{
    if titles.len() > 0 {
        let rest = titles.drop_last();
        law_answer_is_first(rest, title);
        match title_index(rest, title) {
            Some(i) => {
                assert(titles[i as int] == rest[i as int]);
                assert forall|j: int| 0 <= j < i implies (#[trigger] titles[j])@ != title by {
                    assert(rest[j] == titles[j]);
                }
            },
            None => {
                assert forall|j: int| 0 <= j < titles.len() - 1 implies (#[trigger] titles[j])@
                    != title by {
                    assert(rest[j] == titles[j]);
                }
            },
        }
    }
}

/// The place of the answer that the user gave, to be sent back to the language server.
pub fn prompt_response(titles: &Vec<String>, answer: &Option<MessageActionItem>) -> (res: Option<
    u64,
>)
    ensures
        res == answer_index(titles@, *answer),
{
    let item = match answer {
        Some(item) => item,
        None => return None,
    };
    if item.properties.len() > 0 {
        return None;
    }
    let mut i: usize = 0;
    while i < titles.len()
        invariant
            i <= titles.len(),
            answer_index(titles@, *answer) == title_index(titles@, item.title@),
            title_index(titles@.take(i as int), item.title@) is None,
        decreases titles.len() - i,
    {
        assert(titles@.take(i as int + 1).drop_last() =~= titles@.take(i as int));
        if titles[i] == item.title {
            proof {
                lemma_title_index_prefix(titles@, item.title@, i as int + 1);
            }
            return Some(i as u64);
        }
        i = i + 1;
    }
    assert(titles@.take(i as int) =~= titles@);
    None
}

proof fn lemma_title_index_prefix(titles: Seq<String>, title: Seq<char>, n: int)
    requires
        0 <= n <= titles.len(),
        title_index(titles.take(n), title) is Some,
    ensures
        title_index(titles, title) == title_index(titles.take(n), title),
    decreases titles.len() - n,
{
    if n < titles.len() {
        assert(titles.take(n + 1).drop_last() =~= titles.take(n));
        lemma_title_index_prefix(titles, title, n + 1);
    } else {
        assert(titles.take(n) =~= titles);
    }
}

impl Project {
    /// The ssh server has a message for the user.
    pub fn handle_toast(&self, notification_id: String, message: String) -> (effects: Vec<Effect>)
        ensures
            effects@ == seq![Effect::Emit(Event::Toast { notification_id, message })],
    {
        let mut effects: Vec<Effect> = Vec::new();
        effects.push(Effect::Emit(Event::Toast { notification_id, message }));
        effects
    }

    /// The ssh server takes a message to the user back.
    pub fn handle_hide_toast(&self, notification_id: String) -> (effects: Vec<Effect>)
        ensures
            effects@ == seq![Effect::Emit(Event::HideToast { notification_id })],
    {
        let mut effects: Vec<Effect> = Vec::new();
        effects.push(Effect::Emit(Event::HideToast { notification_id }));
        effects
    }

    /// A language server asks the user something; `prompt_response` follows once the user
    /// answered.
    pub fn handle_language_server_prompt_request(&self, request: PromptMessage) -> (res: Reply<
        Vec<String>,
    >)
        ensures
            match request.level {
                None => res.result == Err::<Vec<String>, ProjectError>(
                    ProjectError::InvalidPromptLevel,
                ) && res.effects@ == Seq::<Effect>::empty(),
                Some(level) => {
                    &&& res.result matches Ok(titles) && titles@ == request.actions@
                    &&& res.effects@.len() == 1
                    &&& res.effects@[0] matches Effect::Emit(Event::LanguageServerPrompt(prompt))
                        && prompt.level == prompt_level(level) && prompt.message == request.message
                        && prompt.lsp_name == request.lsp_name && titled(
                        prompt.actions@,
                        request.actions@,
                    )
                },
            },
    {
        let level = match request.level {
            Some(level) => proto_to_prompt(level),
            None => return Reply {
                effects: Vec::new(),
                result: Err(ProjectError::InvalidPromptLevel),
            },
        };
        let titles = request.actions;
        let mut actions: Vec<MessageActionItem> = Vec::new();
        let mut i: usize = 0;
        while i < titles.len()
            invariant
                i <= titles.len(),
                titled(actions@, titles@.take(i as int)),
            decreases titles.len() - i,
        {
            let ghost before = actions@;
            actions.push(MessageActionItem { title: titles[i].clone(), properties: Vec::new() });
            assert forall|k: int| 0 <= k < i + 1 implies (#[trigger] actions@[k]).title
                == titles@.take(i as int + 1)[k] && actions@[k].properties@.len() == 0 by {
                if k < i {
                    assert(actions@[k] == before[k]);
                    assert(before[k].title == titles@.take(i as int)[k]);
                }
            }
            i = i + 1;
        }
        assert(titles@.take(i as int) =~= titles@);
        let mut effects: Vec<Effect> = Vec::new();
        effects.push(
            Effect::Emit(
                Event::LanguageServerPrompt(
                    LanguageServerPromptRequest {
                        level,
                        message: request.message,
                        actions,
                        lsp_name: request.lsp_name,
                    },
                ),
            ),
        );
        Reply { effects, result: Ok(titles) }
    }

    /// The host changed a worktree. Its own worktrees a project does not hear of this way.
    pub fn handle_update_worktree(&self, worktree_id: u64) -> (effects: Vec<Effect>)
        requires
            self@.worktree_store.with_id(WorktreeId(worktree_id)) matches Some(worktree)
                ==> !worktree.is_local,
        ensures
            effects@ == (if self@.worktree_store.with_id(WorktreeId(worktree_id)) is Some {
                seq![Effect::UpdateWorktreeFromRemote(WorktreeId(worktree_id))]
            } else {
                Seq::empty()
            }),
    {
        let id = WorktreeId::from_proto(worktree_id);
        match self.worktree_store.worktree_for_id(id) {
            Some(_) => vec![Effect::UpdateWorktreeFromRemote(id)],
            None => Vec::new(),
        }
    }

    /// The ssh server changed a buffer: the participants are told too.
    pub fn handle_update_buffer_from_ssh(&self) -> (effects: Vec<Effect>)
        ensures
            effects@ == (match self@.shared_id() {
                Some(project_id) => seq![
                    Effect::ForwardUpdateBuffer { server: Server::Collab, project_id },
                    Effect::HandleUpdateBuffer,
                ],
                None => seq![Effect::HandleUpdateBuffer],
            }),
    {
        match self.remote_id() {
            Some(project_id) => vec![
                Effect::ForwardUpdateBuffer { server: Server::Collab, project_id },
                Effect::HandleUpdateBuffer,
            ],
            None => vec![Effect::HandleUpdateBuffer],
        }
    }

    /// A participant changed a buffer: the ssh server is told too.
    pub fn handle_update_buffer(&self) -> (effects: Vec<Effect>)
        ensures
            effects@ == (if self@.ssh_client is Some {
                seq![
                    Effect::ForwardUpdateBuffer {
                        server: Server::Ssh,
                        project_id: SSH_PROJECT_ID,
                    },
                    Effect::HandleUpdateBuffer,
                ]
            } else {
                seq![Effect::HandleUpdateBuffer]
            }),
    {
        if self.ssh_client.is_some() {
            vec![
                Effect::ForwardUpdateBuffer { server: Server::Ssh, project_id: SSH_PROJECT_ID },
                Effect::HandleUpdateBuffer,
            ]
        } else {
            vec![Effect::HandleUpdateBuffer]
        }
    }

    /// The host sends a buffer: it is edited under the number of the local user, and only if the
    /// local user may edit.
    pub fn handle_create_buffer_for_peer(&self) -> (effects: Vec<Effect>)
        ensures
            effects@ == seq![
                Effect::HandleCreateBufferForPeer {
                    replica_id: self@.own_replica_id(),
                    capability: self@.allowed(),
                },
            ],
    {
        vec![
            Effect::HandleCreateBufferForPeer {
                replica_id: self.replica_id(),
                capability: self.capability(),
            },
        ]
    }
}

/// An answer counts exactly if it has a title that is offered and no further properties, and then
/// as the first answer with that title; no answer counts as none.
pub proof fn law_answer(titles: Seq<String>, item: MessageActionItem)
    requires
        titles.len() <= u64::MAX,
    ensures
        answer_index(titles, None) is None,
        item.properties@.len() > 0 ==> answer_index(titles, Some(item)) is None,
        item.properties@.len() == 0 ==> match answer_index(titles, Some(item)) {
            Some(i) => i < titles.len() && titles[i as int]@ == item.title@ && forall|j: int|
                0 <= j < i ==> (#[trigger] titles[j])@ != item.title@,
            None => forall|j: int| 0 <= j < titles.len() ==> (#[trigger] titles[j])@ != item.title@,
        },
{
    law_answer_is_first(titles, item.title@);
}

/// A prompt has the level that its message names, and offers the titles of the message, one for
/// one, without further properties.
pub proof fn law_prompt(
    level: PromptLevelProto,
    actions: Seq<MessageActionItem>,
    titles: Seq<String>,
)
    ensures
        prompt_level(level) is Info <==> level is Info,
        prompt_level(level) is Warning <==> level is Warning,
        prompt_level(level) is Critical <==> level is Critical,
        titled(actions, titles) <==> actions.len() == titles.len() && (forall|i: int|
            0 <= i < actions.len() ==> (#[trigger] actions[i]).title == titles[i]) && (forall|i: int|
            0 <= i < actions.len() ==> (#[trigger] actions[i]).properties@.len() == 0),
{
    if actions.len() == titles.len() && (forall|i: int|
        0 <= i < actions.len() ==> (#[trigger] actions[i]).title == titles[i]) && (forall|i: int|
        0 <= i < actions.len() ==> (#[trigger] actions[i]).properties@.len() == 0) {
        assert forall|i: int| 0 <= i < titles.len() implies (#[trigger] actions[i]).title
            == titles[i] && actions[i].properties@.len() == 0 by {}
    }
}

} // verus!
