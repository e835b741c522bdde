use kaam::error::TaskError;
use kaam::task::{Priority, Status, Task};

fn sample(id: u32, priority: Option<Priority>, due: Option<&str>, status: Status) -> Task {
    Task {
        id,
        description: "Sample".to_string(),
        priority,
        due_date: due.map(|d| d.to_string()),
        status,
        created_at: "2026-01-16".to_string(),
    }
}

#[test]
fn test_priority_from_str() {
    assert_eq!("low".parse::<Priority>().unwrap(), Priority::Low);
    assert_eq!("medium".parse::<Priority>().unwrap(), Priority::Medium);
    assert_eq!("high".parse::<Priority>().unwrap(), Priority::High);
    assert_eq!("HIGH".parse::<Priority>().unwrap(), Priority::High);
    assert!("invalid".parse::<Priority>().is_err());
}

#[test]
fn test_priority_display() {
    assert_eq!(Priority::Low.to_string(), "low");
    assert_eq!(Priority::Medium.to_string(), "medium");
    assert_eq!(Priority::High.to_string(), "high");
}

#[test]
fn test_status_from_str() {
    assert_eq!("pending".parse::<Status>().unwrap(), Status::Pending);
    assert_eq!("done".parse::<Status>().unwrap(), Status::Done);
    assert_eq!("DONE".parse::<Status>().unwrap(), Status::Done);
    assert!("invalid".parse::<Status>().is_err());
}

#[test]
fn test_status_display() {
    assert_eq!(Status::Pending.to_string(), "pending");
    assert_eq!(Status::Done.to_string(), "done");
}

#[test]
fn test_task_display_pending() {
    let task = Task {
        id: 1,
        description: "Test task".to_string(),
        priority: Some(Priority::High),
        due_date: Some("2026-01-20".to_string()),
        status: Status::Pending,
        created_at: "2026-01-16".to_string(),
    };
    assert_eq!(task.to_string(), "[ ] #1: Test task [high] (due: 2026-01-20)");
}

#[test]
fn test_task_display_done() {
    let task = Task {
        id: 2,
        description: "Done task".to_string(),
        priority: None,
        due_date: None,
        status: Status::Done,
        created_at: "2026-01-16".to_string(),
    };
    assert_eq!(task.to_string(), "[x] #2: Done task");
}

#[test]
fn priority_parse_mixed_case() {
    assert_eq!(Priority::from_token("Low").unwrap(), Priority::Low);
    assert_eq!(Priority::from_token("mEdIuM").unwrap(), Priority::Medium);
    assert_eq!(Status::from_token("Pending").unwrap(), Status::Pending);
}

#[test]
fn priority_parse_error_names_token() {
    match Priority::from_token("urgent") {
        Err(TaskError::InvalidInput(m)) => {
            assert_eq!(m, "Invalid priority: urgent. Use low, medium, or high")
        }
        other => panic!("unexpected {:?}", other),
    }
    match Priority::from_token("") {
        Err(TaskError::InvalidInput(m)) => {
            assert_eq!(m, "Invalid priority: . Use low, medium, or high")
        }
        other => panic!("unexpected {:?}", other),
    }
}

#[test]
fn status_parse_error_names_token() {
    match Status::from_token("Later") {
        Err(TaskError::InvalidInput(m)) => assert_eq!(m, "Invalid status: Later. Use pending or done"),
        other => panic!("unexpected {:?}", other),
    }
}

#[test]
fn from_folded_uses_folded_form_and_names_original() {
    assert_eq!(Priority::from_folded("high", "HIGH").unwrap(), Priority::High);
    assert!(Priority::from_folded("HIGH", "HIGH").is_err());
    assert_eq!(Status::from_folded("done", "Done").unwrap(), Status::Done);
    match Status::from_folded("x", "X") {
        Err(TaskError::InvalidInput(m)) => assert_eq!(m, "Invalid status: X. Use pending or done"),
        other => panic!("unexpected {:?}", other),
    }
}

#[test]
fn tokens_round_trip_through_parsing() {
    for p in [Priority::Low, Priority::Medium, Priority::High] {
        assert_eq!(Priority::from_token(&p.to_string()).unwrap(), p);
    }
    for s in [Status::Pending, Status::Done] {
        assert_eq!(Status::from_token(&s.to_string()).unwrap(), s);
    }
}

#[test]
fn render_with_only_priority_or_only_due() {
    let t = sample(7, Some(Priority::Low), None, Status::Pending);
    assert_eq!(t.to_string(), "[ ] #7: Sample [low]");
    let t = sample(12, None, Some("tomorrow"), Status::Done);
    assert_eq!(t.to_string(), "[x] #12: Sample (due: tomorrow)");
}

#[test]
fn render_large_ids() {
    let t = sample(4294967295, Some(Priority::Medium), None, Status::Done);
    assert_eq!(t.to_string(), "[x] #4294967295: Sample [medium]");
    let t = sample(100, None, None, Status::Pending);
    assert_eq!(t.to_string(), "[ ] #100: Sample");
}

#[test]
fn parse_error_carries_message() {
    match "Someday".parse::<Status>() {
        Err(TaskError::InvalidInput(m)) => assert_eq!(m, "Invalid status: Someday. Use pending or done"),
        other => panic!("unexpected {:?}", other),
    }
    match "LOWEST".parse::<Priority>() {
        Err(TaskError::InvalidInput(m)) => {
            assert_eq!(m, "Invalid priority: LOWEST. Use low, medium, or high")
        }
        other => panic!("unexpected {:?}", other),
    }
}
