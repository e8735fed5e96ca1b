use neuraloc_core::errors::AppError;
use neuraloc_core::context::{input_token_budget, ChatMessage, ChatRole, ContextPlanner, RollingContextWindow};

fn message(role: ChatRole, content: &str) -> ChatMessage {
    ChatMessage { role, content: content.into() }
}

#[test]
fn retains_newest_complete_history_turns() {
    let window = RollingContextWindow::from_messages(&[
        message(ChatRole::System, "Be precise."),
        message(ChatRole::User, "First"),
        message(ChatRole::Assistant, "First answer"),
        message(ChatRole::User, "Second"),
        message(ChatRole::Assistant, "Second answer"),
        message(ChatRole::User, "Current"),
    ])
    .unwrap();

    assert_eq!(window.history_turn_count(), 2);
    assert_eq!(window.history_message_count(), 4);
    assert_eq!(window.retained_history_message_count(1), 2);
    assert_eq!(
        window.messages_with_newest_turns(1),
        vec![
            message(ChatRole::System, "Be precise."),
            message(ChatRole::User, "Second"),
            message(ChatRole::Assistant, "Second answer"),
            message(ChatRole::User, "Current"),
        ]
    );
}

#[test]
fn allows_a_user_turn_without_a_completed_assistant() {
    let window = RollingContextWindow::from_messages(&[
        message(ChatRole::User, "Unanswered"),
        message(ChatRole::User, "Current"),
    ])
    .unwrap();

    assert_eq!(window.history_turn_count(), 1);
    assert_eq!(window.retained_history_message_count(1), 1);
}

#[test]
fn rejects_invalid_role_order() {
    assert!(RollingContextWindow::from_messages(&[
        message(ChatRole::Assistant, "Unexpected"),
        message(ChatRole::User, "Current"),
    ])
    .is_err());
    assert!(RollingContextWindow::from_messages(&[
        message(ChatRole::User, "History"),
        message(ChatRole::System, "Too late"),
        message(ChatRole::User, "Current"),
    ])
    .is_err());
    assert!(RollingContextWindow::from_messages(&[message(ChatRole::Assistant, "No user")]).is_err());
}

#[test]
fn full_window_reproduces_the_request() {
    let messages = vec![
        message(ChatRole::System, "Rules"),
        message(ChatRole::User, "Q1"),
        message(ChatRole::Assistant, "A1"),
        message(ChatRole::User, "Q2"),
    ];
    let window = RollingContextWindow::from_messages(&messages).unwrap();
    assert_eq!(window.messages_with_newest_turns(window.history_turn_count()), messages);
    assert_eq!(window.messages_with_newest_turns(5), messages);
}

#[test]
fn empty_and_system_only_requests_are_refused() {
    assert!(RollingContextWindow::from_messages(&[]).is_err());
    assert!(RollingContextWindow::from_messages(&[message(ChatRole::System, "Rules")]).is_err());
}

#[test]
fn zero_retained_turns_keep_only_system_and_current() {
    let window = RollingContextWindow::from_messages(&[
        message(ChatRole::System, "Rules"),
        message(ChatRole::User, "Q1"),
        message(ChatRole::Assistant, "A1"),
        message(ChatRole::User, "Q2"),
    ])
    .unwrap();
    assert_eq!(window.retained_history_message_count(0), 0);
    assert_eq!(
        window.messages_with_newest_turns(0),
        vec![message(ChatRole::System, "Rules"), message(ChatRole::User, "Q2")]
    );
}

#[test]
fn input_budget_reserves_output_and_safety_tokens() {
    assert_eq!(input_token_budget(4096, 512).unwrap(), 4096 - 512 - 32);
    assert_eq!(
        input_token_budget(512, 512),
        Err(AppError::Operation(
            "the 512-token response reserve leaves no room in the 512-token context window; lower the response limit".into()
        ))
    );
}

#[test]
fn planner_picks_the_longest_fitting_run_of_turns() {
    let window = RollingContextWindow::from_messages(&[
        message(ChatRole::User, "Q1"),
        message(ChatRole::Assistant, "A1"),
        message(ChatRole::User, "Q2"),
        message(ChatRole::Assistant, "A2"),
        message(ChatRole::User, "Q3"),
    ])
    .unwrap();
    let mut planner = ContextPlanner::new(100, 64, window.history_turn_count());
    assert_eq!(planner.next_query(), Some(2));
    planner.record(150).unwrap();
    assert_eq!(planner.next_query(), Some(0));
    planner.record(30).unwrap();
    assert_eq!(planner.next_query(), Some(1));
    planner.record(80).unwrap();
    assert_eq!(planner.next_query(), Some(2));
    planner.record(150).unwrap();
    assert_eq!(planner.next_query(), None);
    let plan = planner.finish(&window, 196, 64);
    assert_eq!(
        plan.messages,
        vec![message(ChatRole::User, "Q2"), message(ChatRole::Assistant, "A2"), message(ChatRole::User, "Q3")]
    );
    assert_eq!(plan.report.retained_history_messages, 2);
    assert_eq!(plan.report.omitted_history_messages, 2);
    assert_eq!(plan.report.input_tokens, 80);
    assert_eq!(plan.report.strategy, "rolling_window");
}

#[test]
fn planner_refuses_when_mandatory_messages_exceed_the_budget() {
    let mut planner = ContextPlanner::new(100, 64, 1);
    planner.record(150).unwrap();
    assert_eq!(
        planner.record(120),
        Err(AppError::Operation(
            "the system prompt and current message need 120 input tokens, but only 100 remain after reserving 64 output tokens; lower the response limit or shorten the prompt/message".into()
        ))
    );
}
