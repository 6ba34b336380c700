use taskwarrior_web::endpoints::tasks::task_query_builder::{
    TaskPriority, TaskQuery, TaskReport, TaskStatus,
};
use taskwarrior_web::endpoints::tasks::{is_a_tag, is_tag_keyword};
use taskwarrior_web::{FlashMsg, FlashMsgRoles, NewTask, TWGlobalState};

#[test]
fn modifying_existing_task_query() {
    let p = TWGlobalState {
        query: Some("priority:H".to_string()),
        report: None,
        ..TWGlobalState::default()
    };
    let mut task_query = TaskQuery::new(p);
    task_query.update(TWGlobalState {
        report: None,
        status: Some("pending".to_string()),
        ..TWGlobalState::default()
    });
    assert_eq!(
        &task_query.as_filter_text().join(" "),
        "priority:H status:pending"
    )
}

#[test]
fn with_priority_string_with_status() {
    let p = TWGlobalState {
        query: Some("priority:H".to_string()),
        report: None,
        status: Some("pending".to_string()),
        ..TWGlobalState::default()
    };
    let task_query = TaskQuery::new(p);
    assert_eq!(
        &task_query.as_filter_text().join(" "),
        "priority:H status:pending"
    )
}

#[test]
fn with_priority_string_with_no_status() {
    let p = TWGlobalState {
        query: Some("priority:H".to_string()),
        report: None,
        ..TWGlobalState::default()
    };
    let task_query = TaskQuery::new(p);
    assert_eq!(&task_query.as_filter_text().join(" "), "priority:H next")
}

#[test]
fn with_empty_search_param() {
    let p = TWGlobalState {
        report: None,
        ..TWGlobalState::default()
    };
    let task_query = TaskQuery::new(p);
    assert_eq!(&task_query.as_filter_text().join(" "), "next")
}

#[test]
fn when_containing_status() {
    let p = TWGlobalState {
        report: None,
        status: Some("completed".to_string()),
        ..TWGlobalState::default()
    };
    let query = TaskQuery::new(p).as_filter_text();
    assert_eq!(&query.join(" "), "status:completed")
}

#[test]
fn query_toggles_tags_project_and_priority() {
    let mut q = TaskQuery::new(TWGlobalState { report: None, ..TWGlobalState::default() });
    q.update(TWGlobalState {
        report: None,
        query: Some("+home".to_string()),
        ..TWGlobalState::default()
    });
    q.update(TWGlobalState {
        report: None,
        query: Some("+work".to_string()),
        ..TWGlobalState::default()
    });
    q.update(TWGlobalState {
        report: None,
        query: Some("project:a.b".to_string()),
        ..TWGlobalState::default()
    });
    assert_eq!(q.tags(), &vec!["+home".to_string(), "+work".to_string()]);
    assert_eq!(q.project(), &Some("project:a.b".to_string()));
    assert_eq!(q.as_filter_text().join(" "), "project:a.b +home +work next");
    // the same words again take everything away
    q.update(TWGlobalState {
        report: None,
        query: Some("+home".to_string()),
        ..TWGlobalState::default()
    });
    q.update(TWGlobalState {
        report: None,
        query: Some("project:a.b".to_string()),
        ..TWGlobalState::default()
    });
    assert_eq!(q.tags(), &vec!["+work".to_string()]);
    assert_eq!(q.project(), &None);
    q.update(TWGlobalState {
        report: None,
        query: Some("priority:M".to_string()),
        ..TWGlobalState::default()
    });
    assert_eq!(q.priority(), &TaskPriority::Medium);
    q.update(TWGlobalState {
        report: None,
        query: Some("priority:M".to_string()),
        ..TWGlobalState::default()
    });
    assert_eq!(q.priority(), &TaskPriority::NotSet);
}

#[test]
fn query_status_and_report_take_turns() {
    let mut q = TaskQuery::new(TWGlobalState::default());
    assert_eq!(q.report(), &TaskReport::Next);
    q.update(TWGlobalState {
        report: None,
        status: Some("waiting".to_string()),
        ..TWGlobalState::default()
    });
    assert_eq!(q.status(), &TaskStatus::Waiting);
    assert_eq!(q.report(), &TaskReport::NotSet);
    // the same status again brings the next report back
    q.update(TWGlobalState {
        report: None,
        status: Some("waiting".to_string()),
        ..TWGlobalState::default()
    });
    assert_eq!(q.status(), &TaskStatus::NotSet);
    assert_eq!(q.report(), &TaskReport::Next);
    q.update(TWGlobalState { report: Some("ready".to_string()), ..TWGlobalState::default() });
    assert_eq!(q.report(), &TaskReport::Ready);
    q.update(TWGlobalState { report: Some("bogus".to_string()), ..TWGlobalState::default() });
    assert_eq!(q.report(), &TaskReport::NotSet);
}

#[test]
fn query_custom_query_and_filter() {
    let mut q = TaskQuery::new(TWGlobalState::default());
    q.update(TWGlobalState {
        report: None,
        custom_query: Some("mine".to_string()),
        filter: Some("limit:5 \"a b\"".to_string()),
        task_entry: Some("entry".to_string()),
        ..TWGlobalState::default()
    });
    assert_eq!(q.custom_query(), &Some("mine".to_string()));
    assert_eq!(q.filter(), &Some("limit:5 \"a b\"".to_string()));
    assert_eq!(q.new_entry(), &Some("entry".to_string()));
    assert_eq!(q.report(), &TaskReport::NotSet);
    assert_eq!(
        q.get_query(true),
        vec!["limit:5".to_string(), "a b".to_string(), "entry".to_string(), "export".to_string()]
    );
    // a report takes the custom query and the filter away
    q.update(TWGlobalState::default());
    assert_eq!(q.custom_query(), &None);
    assert_eq!(q.filter(), &None);
    assert_eq!(q.get_query(true), vec!["export".to_string(), "next".to_string()]);
}

#[test]
fn query_filter_with_open_quote_gives_no_word() {
    let mut q = TaskQuery::empty();
    q.set_filter("\"open");
    assert_eq!(q.as_filter_text().len(), 0);
    q.set_filter("794618dd-7a41-4aca-ab2e-70cc4a04b5e6");
    assert_eq!(q.as_filter_text(), vec!["794618dd-7a41-4aca-ab2e-70cc4a04b5e6".to_string()]);
    assert_eq!(TaskQuery::all().as_filter_text(), vec!["all".to_string()]);
}

#[test]
fn enum_words_and_names() {
    assert_eq!(TaskReport::from("ready".to_string()), TaskReport::Ready);
    assert_eq!(TaskReport::from("new".to_string()), TaskReport::New);
    assert_eq!(TaskReport::from("all".to_string()), TaskReport::All);
    assert_eq!(TaskReport::from("".to_string()), TaskReport::NotSet);
    assert_eq!(TaskReport::New.to_string(), "new");
    assert_eq!(TaskReport::NotSet.to_string(), "");
    assert_eq!(TaskPriority::from("H".to_string()), TaskPriority::High);
    assert_eq!(TaskPriority::from("priority:L".to_string()), TaskPriority::Low);
    assert_eq!(TaskPriority::from("h".to_string()), TaskPriority::NotSet);
    assert_eq!(TaskPriority::Low.to_string(), "priority:L");
    assert_eq!(TaskStatus::from("status:completed".to_string()), TaskStatus::Completed);
    assert_eq!(TaskStatus::from("deleted".to_string()), TaskStatus::NotSet);
    assert_eq!(TaskStatus::Waiting.to_string(), "status:waiting");
}

#[test]
fn tag_words() {
    assert_eq!(is_tag_keyword("next"), true);
    assert_eq!(is_tag_keyword("pending"), true);
    assert_eq!(is_tag_keyword("completed"), true);
    assert_eq!(is_tag_keyword("new"), true);
    assert_eq!(is_tag_keyword("Next"), false);
    assert_eq!(is_tag_keyword("+next"), false);
    assert_eq!(is_a_tag("+home"), true);
    assert_eq!(is_a_tag("new"), true);
    assert_eq!(is_a_tag("home"), false);
    assert_eq!(is_a_tag(""), false);
}

#[test]
fn flash_message_timeout_defaults() {
    let m = FlashMsg::new("Undo successful", None, FlashMsgRoles::Success);
    assert_eq!(m.msg(), "Undo successful");
    assert_eq!(m.timeout(), 15);
    assert_eq!(matches!(m.role(), FlashMsgRoles::Success), true);
    let m = FlashMsg::new("x", Some(3), FlashMsgRoles::Error);
    assert_eq!(m.timeout(), 3);
}

#[test]
fn new_task_form_entries() {
    let t = NewTask::new(None, Some("a b".into()), None, Some("f".into()), Some("due:x".into()));
    assert_eq!(t.description(), "");
    assert_eq!(t.tags(), &Some("a b".to_string()));
    assert_eq!(t.project(), &None);
    assert_eq!(t.filter_value(), &Some("f".to_string()));
    assert_eq!(t.additional(), &Some("due:x".to_string()));
    let t = NewTask::new(Some("d".into()), None, Some("P".into()), None, None);
    assert_eq!(t.description(), "d");
    assert_eq!(t.project(), &Some("P".to_string()));
}
