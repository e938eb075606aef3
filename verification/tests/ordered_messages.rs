use project::event::{BufferOrderedMessage, ChannelRole};
use project::ids::{BufferId, LanguageServerId, PayloadId};
use project::ordered::{Action, OrderedMessages, Phase, MAX_BATCH_SIZE};
use project::project::create::JoinProjectResponse;
use project::project::ordering::OrderedRequest;
use project::project::Project;

fn op(buffer: u64, operation: u64) -> BufferOrderedMessage {
    BufferOrderedMessage::Operation {
        buffer_id: BufferId(buffer),
        operation: PayloadId(operation),
    }
}

fn lsp(message: u64) -> BufferOrderedMessage {
    BufferOrderedMessage::LanguageServerUpdate {
        language_server_id: LanguageServerId(1),
        message: PayloadId(message),
    }
}

fn update(buffer: u64, operations: &[u64]) -> Action {
    Action::SendUpdate {
        buffer_id: BufferId(buffer),
        operations: operations.iter().map(|o| PayloadId(*o)).collect(),
    }
}

fn lsp_action(message: u64) -> Action {
    Action::SendLanguageServerUpdate {
        language_server_id: LanguageServerId(1),
        message: PayloadId(message),
    }
}

// Runs a batch, answering updates and synchronizations in turn with the given answers.
fn run(
    sender: &mut OrderedMessages,
    messages: Vec<BufferOrderedMessage>,
    is_local: bool,
    answers: &[bool],
) -> Vec<Action> {
    let mut answers = answers.iter();
    let mut actions = Vec::new();
    sender.begin_batch(messages, is_local);
    while sender.phase() != Phase::Idle {
        let action = sender.step();
        let awaits = matches!(action, Action::SendUpdate { .. } | Action::Synchronize);
        if action != Action::Continue {
            actions.push(action);
        }
        if awaits {
            sender.report(*answers.next().unwrap_or(&true));
        }
    }
    actions
}

#[test]
fn operations_are_sent_together_per_buffer() {
    let mut sender = OrderedMessages::new();
    let actions = run(&mut sender, vec![op(1, 10), op(2, 20), op(1, 11)], false, &[]);
    assert_eq!(actions, vec![update(1, &[10, 11]), update(2, &[20]), Action::BatchDone]);
    assert_eq!(MAX_BATCH_SIZE, 128);
}

#[test]
fn language_server_messages_keep_their_place() {
    let mut sender = OrderedMessages::new();
    let actions = run(&mut sender, vec![op(1, 10), lsp(7), op(1, 11), lsp(8)], false, &[]);
    assert_eq!(
        actions,
        vec![
            update(1, &[10]),
            lsp_action(7),
            update(1, &[11]),
            lsp_action(8),
            Action::BatchDone
        ]
    );
}

#[test]
fn the_order_is_kept_over_batches() {
    let mut sender = OrderedMessages::new();
    let mut actions = run(&mut sender, vec![op(1, 10), lsp(7), op(1, 11)], false, &[]);
    actions.extend(run(&mut sender, vec![], false, &[]));
    actions.extend(run(&mut sender, vec![lsp(8), op(2, 20), op(1, 12)], false, &[]));
    assert_eq!(
        actions,
        vec![
            update(1, &[10]),
            lsp_action(7),
            update(1, &[11]),
            Action::BatchDone,
            Action::BatchDone,
            lsp_action(8),
            update(2, &[20]),
            update(1, &[12]),
            Action::BatchDone
        ]
    );
}

#[test]
fn a_guest_drops_operations_after_a_refusal() {
    let mut sender = OrderedMessages::new();
    let actions = run(&mut sender, vec![op(1, 10), op(2, 20)], false, &[false]);
    assert_eq!(actions, vec![update(1, &[10]), Action::BatchDone]);
    assert!(sender.needs_resync_with_host());
    let actions = run(&mut sender, vec![op(1, 11), lsp(7)], false, &[]);
    assert_eq!(actions, vec![lsp_action(7), Action::BatchDone]);
    let actions = run(
        &mut sender,
        vec![op(1, 12), BufferOrderedMessage::Resync, op(1, 13)],
        false,
        &[false],
    );
    assert_eq!(actions, vec![Action::Synchronize, Action::BatchDone]);
    assert!(sender.needs_resync_with_host());
    let actions =
        run(&mut sender, vec![BufferOrderedMessage::Resync, op(1, 14)], false, &[true, true]);
    assert_eq!(actions, vec![Action::Synchronize, update(1, &[14]), Action::BatchDone]);
    assert!(!sender.needs_resync_with_host());
}

#[test]
fn a_local_project_goes_on_after_a_refusal() {
    let mut sender = OrderedMessages::new();
    let actions = run(&mut sender, vec![op(1, 10), op(2, 20)], true, &[false, false]);
    assert_eq!(actions, vec![update(1, &[10]), update(2, &[20]), Action::BatchDone]);
    assert!(!sender.needs_resync_with_host());
}

#[test]
fn a_synchronization_drops_what_was_collected() {
    let mut sender = OrderedMessages::new();
    let actions =
        run(&mut sender, vec![op(1, 10), BufferOrderedMessage::Resync, op(1, 11)], false, &[]);
    assert_eq!(actions, vec![Action::Synchronize, update(1, &[11]), Action::BatchDone]);
}

#[test]
fn requests_of_each_sort_of_project() {
    let mut project = Project::local(PayloadId(1), None).0;
    assert_eq!(project.ordered_request(update(1, &[10])), OrderedRequest::Answer(true));
    assert_eq!(project.ordered_request(lsp_action(7)), OrderedRequest::Nothing);
    assert_eq!(project.ordered_request(Action::Synchronize), OrderedRequest::Answer(false));
    project.shared(9, Ok(()));
    assert_eq!(
        project.ordered_request(update(1, &[10])),
        OrderedRequest::UpdateBuffer {
            project_id: 9,
            buffer_id: BufferId(1),
            operations: vec![PayloadId(10)]
        }
    );
    assert_eq!(
        project.ordered_request(lsp_action(7)),
        OrderedRequest::UpdateLanguageServer {
            project_id: 9,
            language_server_id: LanguageServerId(1),
            message: PayloadId(7)
        }
    );
    assert_eq!(project.ordered_request(Action::Synchronize), OrderedRequest::Answer(false));
    assert_eq!(project.ordered_request(Action::BatchDone), OrderedRequest::Nothing);
    let response = JoinProjectResponse {
        message_id: 1,
        project_id: 42,
        replica_id: 3,
        role: ChannelRole::Member,
        worktree_ids: vec![],
        collaborator_user_ids: vec![],
    };
    let mut guest = Project::from_join_project_response(response, false, &vec![]).0;
    assert_eq!(
        guest.ordered_request(Action::Synchronize),
        OrderedRequest::Synchronize { project_id: 42 }
    );
    guest.disconnected_from_host();
    assert_eq!(guest.ordered_request(Action::Synchronize), OrderedRequest::Answer(false));
}
