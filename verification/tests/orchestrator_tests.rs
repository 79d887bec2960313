use research_agent::orchestrator::{ModelReply, Session, SessionStep, system_prompt, TURN_CAP};

#[test]
fn test_system_prompt_not_empty() {
    assert!(!system_prompt().is_empty());
    assert!(system_prompt().contains("research"));
}

#[test]
fn test_tool_cap_enforced() {
    // The engine keeps requesting tool runs; only the cap's worth is granted.
    let mut session = Session::new();
    let mut granted = 0;
    let mut exhausted = false;
    for _ in 0..(TURN_CAP + 3) {
        match session.on_model_reply(ModelReply::ToolRequest("rust".to_string())) {
            SessionStep::RunTool(q) => {
                assert_eq!(q, "rust");
                granted += 1;
                session.on_tool_result();
            }
            SessionStep::CapExhausted => {
                exhausted = true;
                break;
            }
            SessionStep::Finished(_) => panic!("no answer was given"),
        }
    }
    assert_eq!(granted, TURN_CAP);
    assert!(exhausted);
}

#[test]
fn test_answer_finishes_session() {
    let mut session = Session::new();
    match session.on_model_reply(ModelReply::Answer("a summary".to_string())) {
        SessionStep::Finished(text) => assert_eq!(text, "a summary"),
        _ => panic!("an answer must finish the session"),
    }
    assert!(session.is_done());
}

#[test]
fn test_tool_then_answer() {
    let mut session = Session::new();
    let step = session.on_model_reply(ModelReply::ToolRequest("rust".to_string()));
    assert!(matches!(step, SessionStep::RunTool(_)));
    assert!(!session.is_done());
    session.on_tool_result();
    let step = session.on_model_reply(ModelReply::Answer("done".to_string()));
    assert!(matches!(step, SessionStep::Finished(_)));
    assert!(session.is_done());
}
