use std::str::FromStr;

use chrono::{Datelike, Days, Months, TimeZone, Timelike, Utc};
use taskchampion::{Replica, Status, StorageConfig, Tag, Uuid};
use taskwarrior_web::backend::task::{convert_task_status, TaskEvent, TaskProperties};
use taskwarrior_web::common::errors::{FieldError, FormValidation};
use taskwarrior_web::endpoints::tasks::task_modify::{
    parse_timestamp, resolve_dependency_reference, task_change_tag,
};
use taskwarrior_web::endpoints::tasks::{
    begin_batch, change_task_status, classify, read_directive, run_modify_command, task_add,
    task_apply_user_defined, toggle_task_active, DirectiveKind,
};
use taskwarrior_web::NewTask;

/// A store that lives in memory.
fn new_replica() -> Replica {
    Replica::new(StorageConfig::InMemory.into_storage().expect("Cannot create the storage"))
}

/// Stages a new task and commits the batch if the form was accepted.
fn add(replica: &mut Replica, task: &NewTask) -> Result<Uuid, FormValidation> {
    let uuid = Uuid::new_v4();
    let mut ops = begin_batch();
    let mut t = replica.create_task(uuid, &mut ops).expect("Cannot create the task");
    let ws = replica.working_set().expect("Cannot read the working set");
    let batch = task_add(task, &mut t, &ws, ops)?;
    assert_eq!(batch.hooks.len(), 1);
    assert_eq!(matches!(batch.hooks[0].event, TaskEvent::OnAdd), true);
    assert_eq!(batch.hooks[0].old.is_none(), true);
    match replica.commit_operations(batch.ops) {
        Ok(_) => Ok(uuid),
        Err(e) => Err(FormValidation::from_store_error(&e)),
    }
}

/// Stages the change of a task and commits the batch if the line was
/// accepted.
fn modify(replica: &mut Replica, uuid: Uuid, cmd_text: &str) -> Result<(), FormValidation> {
    let mut t = replica.get_task(uuid).expect("Cannot read the task").expect("Valid task found");
    let ws = replica.working_set().expect("Cannot read the working set");
    let batch = run_modify_command(&mut t, &ws, cmd_text)?;
    assert_eq!(batch.ops[0].is_undo_point(), true);
    assert_eq!(batch.ops.iter().filter(|op| op.is_undo_point()).count(), 1);
    assert_eq!(batch.hooks.len(), 1);
    assert_eq!(matches!(batch.hooks[0].event, TaskEvent::OnModify), true);
    assert_eq!(batch.hooks[0].old.is_some(), true);
    match replica.commit_operations(batch.ops) {
        Ok(_) => Ok(()),
        Err(e) => Err(FormValidation::from_store_error(&e)),
    }
}

/// Toggles the timer of a task; gives whether the task runs and how many
/// hook calls are due.
fn toggle(replica: &mut Replica, uuid: Uuid, request: &str) -> (bool, usize) {
    let mut t = replica.get_task(uuid).expect("Cannot read the task").expect("Task does not exist");
    let all: Vec<taskchampion::Task> =
        replica.all_tasks().expect("Cannot read the tasks").into_values().collect();
    let out = toggle_task_active(&mut t, &all, request).expect("Cannot toggle");
    let calls = out.batch.hooks.len();
    replica.commit_operations(out.batch.ops).expect("Cannot commit");
    (out.active, calls)
}

fn plain_task(replica: &mut Replica, description: &str) -> Uuid {
    let task = NewTask::new(Some(description.to_string()), None, None, None, None);
    add(replica, &task).expect("Cannot add the task")
}

fn additional_errors(result: &FormValidation) -> Vec<FieldError> {
    match result.fields.get("additional") {
        Some(errors) => errors.clone(),
        None => Vec::new(),
    }
}

#[test]
fn test_task_add() {
    let mut replica = new_replica();
    let task_name = Uuid::new_v4();

    let task = NewTask::new(
        Some(task_name.clone().to_string()),
        Some("+twk development".into()),
        Some("TWK".into()),
        None,
        Some("priority:H".into()),
    );
    let result = add(&mut replica, &task);
    assert_eq!(result.is_ok(), true);
    let tasks = replica.all_tasks().expect("Cannot retrieve tasks");
    let our_task = tasks
        .iter()
        .find(|p| p.1.get_description() == &task_name.to_string());
    assert_eq!(our_task.is_some(), true);
    let our_task = our_task.expect("Cannot unwrap task");
    // compare the data.
    let task_map = our_task.1.clone().into_task_data();
    assert_eq!(task_map.get("project"), Some("TWK"));
    let tags: Vec<Tag> = our_task.1.get_tags().collect();
    assert_eq!(tags.contains(&Tag::from_str("twk").unwrap()), true);
    assert_eq!(tags.contains(&Tag::from_str("development").unwrap()), true);
    assert_eq!(task_map.get("priority"), Some("H"));
}

#[test]
fn test_task_add_fail() {
    let mut replica = new_replica();
    let task_name = Uuid::new_v4();

    let task = NewTask::new(
        Some(task_name.clone().to_string()),
        Some("+twk development".into()),
        Some("TWK".into()),
        None,
        Some("priority:H due:\"".into()),
    );
    let result = add(&mut replica, &task);
    assert_eq!(result.is_ok(), false);
    let result = result.unwrap_err();
    assert_eq!(result.is_success(), false);
    assert_eq!(result.has_error("additional"), true);
    // nothing of the form reached the store
    assert_eq!(replica.all_tasks().expect("Cannot retrieve tasks").len(), 0);
}

#[test]
fn test_task_modify_successful() {
    let mut replica = new_replica();
    let task_name = Uuid::new_v4();

    let task = NewTask::new(
        Some(task_name.clone().to_string()),
        Some("+twk development".into()),
        Some("TWK".into()),
        None,
        Some("priority:H".into()),
    );
    let result = add(&mut replica, &task);
    assert_eq!(result.is_ok(), true);
    let tasks = replica.all_tasks().expect("Cannot retrieve tasks");
    let our_task_1 = tasks
        .iter()
        .find(|p| p.1.get_description() == &task_name.to_string());
    assert_eq!(our_task_1.is_some(), true);
    let our_task_1 = our_task_1.expect("Cannot unwrap task");

    // create a second one.
    let task_name_2 = Uuid::new_v4();

    let task = NewTask::new(
        Some(task_name_2.clone().to_string()),
        Some("+twk development".into()),
        Some("TWK".into()),
        None,
        Some("priority:H".into()),
    );
    let result = add(&mut replica, &task);
    assert_eq!(result.is_ok(), true);
    let tasks = replica.all_tasks().expect("Cannot retrieve tasks");
    let our_task_2 = tasks
        .iter()
        .find(|p| p.1.get_description() == &task_name_2.to_string());
    assert_eq!(our_task_2.is_some(), true);

    let dt_wait = Utc::now().checked_add_days(Days::new(15)).unwrap();
    let dt_wait_str = dt_wait.format("%Y-%m-%d").to_string();
    let dt_wait = dt_wait
        .with_hour(0)
        .unwrap()
        .with_minute(0)
        .unwrap()
        .with_second(0)
        .unwrap()
        .with_nanosecond(0)
        .unwrap();
    let dt_due = Utc::now().checked_add_days(Days::new(60)).unwrap();
    let dt_due_str = dt_due.format("%Y-%m-%d").to_string();
    let dt_due = dt_due
        .with_hour(0)
        .unwrap()
        .with_minute(0)
        .unwrap()
        .with_second(0)
        .unwrap()
        .with_nanosecond(0)
        .unwrap();

    // Now modify!
    let cmd_text = format!(
        "wait:{} due:{} +concert -twk \"description:This is a title with spaces\" depends:{} project:{}  status:completed",
        dt_wait_str,
        dt_due_str,
        task_name_2.to_string(),
        "KWT"
    );
    let result = modify(&mut replica, our_task_1.0.clone(), &cmd_text);
    assert_eq!(result.is_ok(), true);
    let updated_task = replica.get_task(our_task_1.0.clone());
    assert_eq!(updated_task.is_ok(), true);
    let updated_task = updated_task.unwrap();
    assert_eq!(updated_task.is_some(), true);
    let updated_task = updated_task.unwrap();

    // Compare the data.
    assert_eq!(
        updated_task.get_description(),
        "This is a title with spaces"
    );
    assert_eq!(updated_task.get_value("project"), Some("KWT"));
    assert_eq!(updated_task.get_due(), Some(dt_due));
    assert_eq!(updated_task.get_wait(), Some(dt_wait));
    assert_eq!(updated_task.is_waiting(), true);
    assert_eq!(updated_task.get_dependencies().count(), 1);
    assert_eq!(updated_task.get_status(), Status::Completed);
    assert_eq!(updated_task.get_dependencies().next(), Some(task_name_2));
    let set_tags = vec![
        "concert",
        "development",
        "WAITING",
        "COMPLETED",
        "UNBLOCKED",
    ];
    for tag in updated_task.get_tags() {
        let tag_name = tag.to_string();
        println!("Comparing {} in {:?}", tag_name, set_tags);
        assert_eq!(set_tags.contains(&tag_name.as_str()), true);
    }
}

#[test]
fn test_task_modify_breakit() {
    let mut replica = new_replica();
    let task_name = Uuid::new_v4();

    let task = NewTask::new(
        Some(task_name.clone().to_string()),
        Some("+twk development".into()),
        Some("TWK".into()),
        None,
        Some("priority:H".into()),
    );
    let result = add(&mut replica, &task);
    assert_eq!(result.is_ok(), true);
    let tasks = replica.all_tasks().expect("Cannot retrieve tasks");
    let our_task_1 = tasks
        .iter()
        .find(|p| p.1.get_description() == &task_name.to_string());
    assert_eq!(our_task_1.is_some(), true);
    let our_task_1 = our_task_1.expect("Cannot unwrap task");

    // Now modify!
    let cmd_text = format!(
        "wait:{} due:{} +concert -twk +d/c -e/b +WAITING -PENDING start \"description:This is a title with spaces\" depends:{} project:{}",
        "abc",
        "def",
        String::from("ec2c596f-5fa3-442c-80ee-98b087e32bbd"),
        ""
    );
    let result = modify(&mut replica, our_task_1.0.clone(), &cmd_text);

    let result = result.unwrap_err();
    println!("{:?}", result);

    assert_eq!(result.is_success(), false);
    assert_eq!(result.has_error("additional"), true);
    let add_errors = result.fields.get("additional");
    assert_eq!(add_errors.is_some(), true);
    let add_errors = add_errors.unwrap();
    assert_eq!(add_errors.len(), 7);

    let mut keywords = vec![
        "wait",
        "due",
        "start",
        "tag",
        "tag",
        "Synthetic",
        "Synthetic",
    ];
    for err in add_errors {
        assert_eq!(&err.field, "additional");
        let p = keywords.iter().position(|p| err.message.contains(*p));
        assert_eq!(p.is_some(), true);
        let p = p.unwrap();
        let _ = keywords.remove(p);
    }
    assert_eq!(keywords.is_empty(), true);
}

#[test]
fn test_task_add_recur() {
    let mut replica = new_replica();
    let task_name = Uuid::new_v4();
    let dt_wait = Utc::now()
        .with_day(1)
        .unwrap()
        .checked_add_months(Months::new(1))
        .unwrap();

    let task = NewTask::new(
        Some(task_name.clone().to_string()),
        Some("+twk development".into()),
        Some("TWK".into()),
        None,
        Some(format!(
            "priority:H recur:monthly due:{}",
            dt_wait.format("%Y-%m-%d")
        )),
    );
    let result = add(&mut replica, &task);
    assert_eq!(result.is_ok(), true);
    let tasks = replica.all_tasks().expect("Cannot retrieve tasks");
    let our_task = tasks
        .iter()
        .find(|p| p.1.get_description() == &task_name.to_string());
    assert_eq!(our_task.is_some(), true);
    let our_task = our_task.expect("Cannot unwrap task");
    // compare the data.
    assert_eq!(our_task.1.get_status(), Status::Recurring);
    assert_eq!(our_task.1.get_value("rtype"), Some("periodic"));
    assert_eq!(our_task.1.get_value("recur"), Some("monthly"));
}

#[test]
fn new_task_is_pending_and_entered_now() {
    let mut replica = new_replica();
    let before = Utc::now().timestamp();
    let uuid = plain_task(&mut replica, "write the report");
    let after = Utc::now().timestamp();
    let t = replica.get_task(uuid).unwrap().unwrap();
    assert_eq!(t.get_description(), "write the report");
    assert_eq!(t.get_status(), Status::Pending);
    let entry = t.get_entry().expect("The task has no entry").timestamp();
    assert_eq!(before <= entry && entry <= after, true);
    assert_eq!(t.get_tags().filter(|tag| tag.is_user()).count(), 0);
    assert_eq!(t.get_value("project"), None);
}

#[test]
fn new_task_needs_a_description() {
    let mut replica = new_replica();
    let task = NewTask::new(Some("   ".to_string()), None, None, None, None);
    let result = add(&mut replica, &task).unwrap_err();
    assert_eq!(result.is_success(), false);
    assert_eq!(result.has_error("description"), true);
    let errors = result.fields.get("description").unwrap();
    assert_eq!(errors.len(), 1);
    assert_eq!(errors[0].field, "description");
    assert_eq!(errors[0].message, "Description field is mandatory");
    assert_eq!(result.has_error("additional"), false);
    assert_eq!(replica.all_tasks().unwrap().len(), 0);
}

#[test]
fn new_task_gathers_the_errors_of_every_part() {
    let mut replica = new_replica();
    let task = NewTask::new(
        None,
        Some("ok 9bad +fine WAITING".to_string()),
        Some("P".to_string()),
        None,
        Some("start:now due:nonsense priority:L".to_string()),
    );
    let result = add(&mut replica, &task).unwrap_err();
    assert_eq!(result.fields.get("description").unwrap().len(), 1);
    let tags = result.fields.get("tags").unwrap();
    assert_eq!(tags.len(), 2);
    assert_eq!(tags[0].message, "invalid tag \"9bad\"");
    assert_eq!(tags[1].message, "Usage Error: Synthetic tags cannot be modified");
    let additional = result.fields.get("additional").unwrap();
    assert_eq!(additional.len(), 2);
    assert_eq!(additional[0].message, "Manual modification of the field start is not allowed.");
    assert_eq!(
        additional[1].message,
        "Failed parsing timestamp for due (input contains invalid characters)."
    );
    assert_eq!(result.msg, None);
}

#[test]
fn failed_line_leaves_the_store_as_it_was() {
    let mut replica = new_replica();
    let uuid = plain_task(&mut replica, "first wording");
    let result = modify(&mut replica, uuid, "description:X due:not-a-date");
    let result = result.unwrap_err();
    assert_eq!(result.is_success(), false);
    assert_eq!(additional_errors(&result).len(), 1);
    let t = replica.get_task(uuid).unwrap().unwrap();
    assert_eq!(t.get_description(), "first wording");
    assert_eq!(t.get_due(), None);
}

#[test]
fn tag_added_and_removed_in_one_line() {
    let mut replica = new_replica();
    let uuid = plain_task(&mut replica, "tagged");
    assert_eq!(modify(&mut replica, uuid, "+keep").is_ok(), true);
    let before: Vec<String> = replica
        .get_task(uuid)
        .unwrap()
        .unwrap()
        .get_tags()
        .filter(|t| t.is_user())
        .map(|t| t.to_string())
        .collect();
    assert_eq!(before, vec!["keep".to_string()]);
    assert_eq!(modify(&mut replica, uuid, "+foo -foo").is_ok(), true);
    let after: Vec<String> = replica
        .get_task(uuid)
        .unwrap()
        .unwrap()
        .get_tags()
        .filter(|t| t.is_user())
        .map(|t| t.to_string())
        .collect();
    assert_eq!(after, before);
}

#[test]
fn dependency_by_index_by_identity_and_unknown() {
    let mut replica = new_replica();
    let first = plain_task(&mut replica, "first");
    let second = plain_task(&mut replica, "second");
    let third = plain_task(&mut replica, "third");
    let target = plain_task(&mut replica, "target");
    let ws = replica.working_set().unwrap();
    assert_eq!(ws.by_index(1), Some(first));
    assert_eq!(ws.by_index(2), Some(second));
    assert_eq!(ws.by_index(3), Some(third));

    assert_eq!(resolve_dependency_reference("3", &ws), Some(third.as_u128()));
    assert_eq!(resolve_dependency_reference("+3", &ws), Some(third.as_u128()));
    assert_eq!(resolve_dependency_reference("0", &ws), None);
    assert_eq!(resolve_dependency_reference("99", &ws), None);
    assert_eq!(resolve_dependency_reference("-3", &ws), None);
    assert_eq!(resolve_dependency_reference("3 ", &ws), None);
    assert_eq!(
        resolve_dependency_reference(&second.to_string(), &ws),
        Some(second.as_u128())
    );
    assert_eq!(
        resolve_dependency_reference("ec2c596f5fa3442c80ee98b087e32bbd", &ws),
        Some(Uuid::from_str("ec2c596f-5fa3-442c-80ee-98b087e32bbd").unwrap().as_u128())
    );

    assert_eq!(modify(&mut replica, target, "depends:3").is_ok(), true);
    let deps: Vec<Uuid> = replica.get_task(target).unwrap().unwrap().get_dependencies().collect();
    assert_eq!(deps, vec![third]);

    let line = format!("depends:{}", second);
    assert_eq!(modify(&mut replica, target, &line).is_ok(), true);
    let mut deps: Vec<Uuid> =
        replica.get_task(target).unwrap().unwrap().get_dependencies().collect();
    deps.sort();
    let mut expected = vec![second, third];
    expected.sort();
    assert_eq!(deps, expected);

    let result = modify(&mut replica, target, "depends:not-a-ref").unwrap_err();
    let errors = additional_errors(&result);
    assert_eq!(errors.len(), 1);
    assert_eq!(errors[0].message, "Dependency task not-a-ref not found or invalid ID given.");
    assert_eq!(errors[0].message.contains("not-a-ref"), true);
}

#[test]
fn dependency_list_with_signs_and_blanks() {
    let mut replica = new_replica();
    let first = plain_task(&mut replica, "first");
    let second = plain_task(&mut replica, "second");
    let target = plain_task(&mut replica, "target");
    assert_eq!(modify(&mut replica, target, "\"depends: 1 , ,+2,\"").is_ok(), true);
    let mut deps: Vec<Uuid> =
        replica.get_task(target).unwrap().unwrap().get_dependencies().collect();
    deps.sort();
    let mut expected = vec![first, second];
    expected.sort();
    assert_eq!(deps, expected);
    assert_eq!(modify(&mut replica, target, "DEPENDS:-1").is_ok(), true);
    let deps: Vec<Uuid> = replica.get_task(target).unwrap().unwrap().get_dependencies().collect();
    assert_eq!(deps, vec![second]);
    // a sign alone is a reference, and one bad reference stops no other
    let result = modify(&mut replica, target, "depends:+,7,-2").unwrap_err();
    let errors = additional_errors(&result);
    assert_eq!(errors.len(), 2);
    assert_eq!(errors[0].message, "Dependency task + not found or invalid ID given.");
    assert_eq!(errors[1].message, "Dependency task 7 not found or invalid ID given.");
    let deps: Vec<Uuid> = replica.get_task(target).unwrap().unwrap().get_dependencies().collect();
    assert_eq!(deps, vec![second]);
}

#[test]
fn due_date_is_midnight_utc() {
    let mut replica = new_replica();
    let uuid = plain_task(&mut replica, "dated");
    assert_eq!(modify(&mut replica, uuid, "due:2025-06-01").is_ok(), true);
    let t = replica.get_task(uuid).unwrap().unwrap();
    assert_eq!(t.get_due(), Some(Utc.with_ymd_and_hms(2025, 6, 1, 0, 0, 0).unwrap()));
    assert_eq!(t.get_value("due"), Some("1748736000"));

    let result = modify(&mut replica, uuid, "due:not-a-date").unwrap_err();
    let errors = additional_errors(&result);
    assert_eq!(errors.len(), 1);
    assert_eq!(
        errors[0].message,
        "Failed parsing timestamp for due (input contains invalid characters)."
    );
    let t = replica.get_task(uuid).unwrap().unwrap();
    assert_eq!(t.get_value("due"), Some("1748736000"));
}

#[test]
fn timestamps_with_offset_and_cleared() {
    let mut replica = new_replica();
    let uuid = plain_task(&mut replica, "dated");
    assert_eq!(
        modify(&mut replica, uuid, "wait:2025-06-01T12:30:00+02:00 ENTRY:2024-01-01").is_ok(),
        true
    );
    let t = replica.get_task(uuid).unwrap().unwrap();
    assert_eq!(t.get_wait(), Some(Utc.with_ymd_and_hms(2025, 6, 1, 10, 30, 0).unwrap()));
    assert_eq!(t.get_entry(), Some(Utc.with_ymd_and_hms(2024, 1, 1, 0, 0, 0).unwrap()));
    // an empty value takes the timestamp away
    assert_eq!(modify(&mut replica, uuid, "wait:").is_ok(), true);
    let t = replica.get_task(uuid).unwrap().unwrap();
    assert_eq!(t.get_wait(), None);
    assert_eq!(t.get_entry(), Some(Utc.with_ymd_and_hms(2024, 1, 1, 0, 0, 0).unwrap()));
}

#[test]
fn timestamp_values_are_read() {
    let value = Some("2025-06-01".to_string());
    assert_eq!(matches!(parse_timestamp("due", &value), Ok(Some(_))), true);
    assert_eq!(matches!(parse_timestamp("due", &None), Ok(None)), true);
    assert_eq!(matches!(parse_timestamp("due", &Some("  ".to_string())), Ok(None)), true);
    let refused = parse_timestamp("Due", &Some("2025-13-01".to_string()));
    let error = match refused {
        Err(e) => e,
        Ok(_) => panic!("The date was taken"),
    };
    assert_eq!(error.field, "additional");
    assert_eq!(error.message, "Failed parsing timestamp for Due (input is out of range).");
}

#[test]
fn unknown_status_is_kept() {
    let mut replica = new_replica();
    let uuid = plain_task(&mut replica, "odd");
    assert_eq!(modify(&mut replica, uuid, "status:bogus-value").is_ok(), true);
    let t = replica.get_task(uuid).unwrap().unwrap();
    assert_eq!(t.get_status(), Status::Unknown("bogus-value".to_string()));
    assert_eq!(t.get_value("status"), Some("bogus-value"));
    // a status without a value changes nothing, and is no error
    assert_eq!(modify(&mut replica, uuid, "status").is_ok(), true);
    let t = replica.get_task(uuid).unwrap().unwrap();
    assert_eq!(t.get_value("status"), Some("bogus-value"));
}

#[test]
fn status_names_are_read() {
    assert_eq!(convert_task_status("pending"), Status::Pending);
    assert_eq!(convert_task_status("completed"), Status::Completed);
    assert_eq!(convert_task_status("deleted"), Status::Deleted);
    assert_eq!(convert_task_status("recurring"), Status::Recurring);
    assert_eq!(convert_task_status("Pending"), Status::Unknown("Pending".to_string()));
    assert_eq!(convert_task_status(""), Status::Unknown("".to_string()));
}

#[test]
fn unknown_status_leaves_the_end_as_it_is() {
    let mut replica = new_replica();
    let uuid = plain_task(&mut replica, "odd");
    assert_eq!(modify(&mut replica, uuid, "status:odd").is_ok(), true);
    assert_eq!(replica.get_task(uuid).unwrap().unwrap().get_value("end"), None);
    assert_eq!(modify(&mut replica, uuid, "status:deleted").is_ok(), true);
    let end = replica.get_task(uuid).unwrap().unwrap().get_value("end").map(|e| e.to_string());
    assert_eq!(end.is_some(), true);
    assert_eq!(modify(&mut replica, uuid, "status:odd").is_ok(), true);
    let t = replica.get_task(uuid).unwrap().unwrap();
    assert_eq!(t.get_value("end").map(|e| e.to_string()), end);
    assert_eq!(modify(&mut replica, uuid, "status:completed").is_ok(), true);
    let t = replica.get_task(uuid).unwrap().unwrap();
    assert_eq!(t.get_value("end").map(|e| e.to_string()), end);
}

#[test]
fn completed_task_has_an_end_and_pending_has_none() {
    let mut replica = new_replica();
    let uuid = plain_task(&mut replica, "done soon");
    assert_eq!(modify(&mut replica, uuid, "status:completed").is_ok(), true);
    let t = replica.get_task(uuid).unwrap().unwrap();
    assert_eq!(t.get_status(), Status::Completed);
    assert_eq!(t.get_value("end").is_some(), true);
    assert_eq!(modify(&mut replica, uuid, "status:pending").is_ok(), true);
    let t = replica.get_task(uuid).unwrap().unwrap();
    assert_eq!(t.get_status(), Status::Pending);
    assert_eq!(t.get_value("end"), None);
}

#[test]
fn toggle_start_stops_every_other_task() {
    let mut replica = new_replica();
    let a = plain_task(&mut replica, "A");
    let b = plain_task(&mut replica, "B");
    let c = plain_task(&mut replica, "C");
    // let B and C run, whatever the exclusivity rule says
    for uuid in [b, c] {
        let mut ops = begin_batch();
        let mut t = replica.get_task(uuid).unwrap().unwrap();
        t.start(&mut ops).unwrap();
        replica.commit_operations(ops).unwrap();
    }
    assert_eq!(replica.get_task(b).unwrap().unwrap().is_active(), true);
    assert_eq!(replica.get_task(c).unwrap().unwrap().is_active(), true);

    let (active, calls) = toggle(&mut replica, a, "start");
    assert_eq!(active, true);
    assert_eq!(calls, 3);
    assert_eq!(replica.get_task(a).unwrap().unwrap().is_active(), true);
    assert_eq!(replica.get_task(b).unwrap().unwrap().is_active(), false);
    assert_eq!(replica.get_task(c).unwrap().unwrap().is_active(), false);
    let running: Vec<Uuid> = replica
        .all_tasks()
        .unwrap()
        .into_iter()
        .filter(|(_, t)| t.is_active())
        .map(|(uuid, _)| uuid)
        .collect();
    assert_eq!(running, vec![a]);
}

#[test]
fn toggle_stop_and_start_again() {
    let mut replica = new_replica();
    let a = plain_task(&mut replica, "A");
    let b = plain_task(&mut replica, "B");
    assert_eq!(toggle(&mut replica, a, "start"), (true, 1));
    // starting the task that runs keeps it running
    assert_eq!(toggle(&mut replica, a, "start"), (true, 1));
    assert_eq!(replica.get_task(a).unwrap().unwrap().is_active(), true);
    // stopping another task sweeps the running one
    assert_eq!(toggle(&mut replica, b, "stop"), (false, 2));
    assert_eq!(replica.get_task(a).unwrap().unwrap().is_active(), false);
    assert_eq!(replica.get_task(b).unwrap().unwrap().is_active(), false);
    assert_eq!(toggle(&mut replica, b, "start"), (true, 1));
    assert_eq!(toggle(&mut replica, b, "stop"), (false, 1));
    assert_eq!(replica.get_task(b).unwrap().unwrap().is_active(), false);
    // any other request starts and stops nothing on the target
    assert_eq!(toggle(&mut replica, a, "pause"), (false, 1));
}

#[test]
fn toggle_hook_calls_tell_before_and_after() {
    let mut replica = new_replica();
    let a = plain_task(&mut replica, "A");
    let b = plain_task(&mut replica, "B");
    assert_eq!(toggle(&mut replica, b, "start"), (true, 1));
    let mut t = replica.get_task(a).unwrap().unwrap();
    let all: Vec<taskchampion::Task> = replica.all_tasks().unwrap().into_values().collect();
    let out = toggle_task_active(&mut t, &all, "start").unwrap();
    assert_eq!(out.batch.hooks.len(), 2);
    let swept = &out.batch.hooks[0];
    assert_eq!(swept.new.get_uuid(), b);
    assert_eq!(swept.old.as_ref().unwrap().is_active(), true);
    assert_eq!(swept.new.is_active(), false);
    let own = &out.batch.hooks[1];
    assert_eq!(own.new.get_uuid(), a);
    assert_eq!(own.old.as_ref().unwrap().is_active(), false);
    assert_eq!(own.new.is_active(), true);
    assert_eq!(out.batch.ops[0].is_undo_point(), true);
    assert_eq!(out.batch.ops.iter().filter(|op| op.is_undo_point()).count(), 1);
}

#[test]
fn status_change_stops_the_timer() {
    let mut replica = new_replica();
    let a = plain_task(&mut replica, "A");
    assert_eq!(toggle(&mut replica, a, "start"), (true, 1));
    let mut t = replica.get_task(a).unwrap().unwrap();
    let batch = change_task_status(&mut t, "completed").unwrap();
    assert_eq!(batch.hooks.len(), 1);
    assert_eq!(batch.hooks[0].old.as_ref().unwrap().is_active(), true);
    assert_eq!(batch.hooks[0].new.is_active(), false);
    replica.commit_operations(batch.ops).unwrap();
    let t = replica.get_task(a).unwrap().unwrap();
    assert_eq!(t.is_active(), false);
    assert_eq!(t.get_status(), Status::Completed);
}

#[test]
fn open_quote_is_one_error_and_stages_nothing() {
    let mut replica = new_replica();
    let uuid = plain_task(&mut replica, "quoted");
    let mut t = replica.get_task(uuid).unwrap().unwrap();
    let ws = replica.working_set().unwrap();
    let result = run_modify_command(&mut t, &ws, "description:\"unterminated");
    let result = match result {
        Err(v) => v,
        Ok(_) => panic!("The line was taken"),
    };
    assert_eq!(result.is_success(), false);
    let errors = additional_errors(&result);
    assert_eq!(errors.len(), 1);
    assert_eq!(errors[0].message, "missing closing quote");
    assert_eq!(t.get_description(), "quoted");
    assert_eq!(t, replica.get_task(uuid).unwrap().unwrap());
}

#[test]
fn forbidden_field_is_refused_among_valid_directives() {
    let mut replica = new_replica();
    let uuid = plain_task(&mut replica, "guarded");
    for line in ["start:now", "priority:H start:now +fine", "+fine START:now", "stop", "done:1",
        "end:2025-01-01", "Modified:x"]
    {
        let result = modify(&mut replica, uuid, line).unwrap_err();
        let errors = additional_errors(&result);
        assert_eq!(errors.len(), 1);
        assert_eq!(errors[0].message.starts_with("Manual modification of the field "), true);
        assert_eq!(errors[0].message.ends_with(" is not allowed."), true);
    }
    let result = modify(&mut replica, uuid, "start:now").unwrap_err();
    assert_eq!(
        additional_errors(&result)[0].message,
        "Manual modification of the field start is not allowed."
    );
    let t = replica.get_task(uuid).unwrap().unwrap();
    assert_eq!(t.get_priority(), "");
    assert_eq!(t.is_active(), false);
}

#[test]
fn error_count_does_not_depend_on_the_order() {
    let mut replica = new_replica();
    let uuid = plain_task(&mut replica, "ordered");
    let lines = [
        "due:nonsense +ok start:1 depends:zz priority:H",
        "priority:H depends:zz start:1 +ok due:nonsense",
        "start:1 priority:H due:nonsense depends:zz +ok",
    ];
    for line in lines {
        let result = modify(&mut replica, uuid, line).unwrap_err();
        assert_eq!(additional_errors(&result).len(), 3);
    }
}

#[test]
fn reserved_and_user_defined_attributes() {
    let mut replica = new_replica();
    let uuid = plain_task(&mut replica, "attributes");
    assert_eq!(modify(&mut replica, uuid, "project:home.garden estimate:3h flag").is_ok(), true);
    let t = replica.get_task(uuid).unwrap().unwrap();
    assert_eq!(t.get_value("project"), Some("home.garden"));
    assert_eq!(t.get_user_defined_attribute("estimate"), Some("3h"));
    assert_eq!(t.get_user_defined_attribute("flag"), Some(""));
    // a reserved name keeps the case in which it was written
    assert_eq!(modify(&mut replica, uuid, "Project:X").is_ok(), true);
    let t = replica.get_task(uuid).unwrap().unwrap();
    assert_eq!(t.get_value("Project"), Some("X"));
    assert_eq!(t.get_value("project"), Some("home.garden"));
    // a name of the data model is no user-defined attribute
    let result = modify(&mut replica, uuid, "tag_x:1").unwrap_err();
    assert_eq!(
        additional_errors(&result)[0].message,
        "Usage Error: Property name tag_x as special meaning in a task and cannot be used as a UDA"
    );
}

#[test]
fn description_and_priority_directives() {
    let mut replica = new_replica();
    let uuid = plain_task(&mut replica, "plain");
    assert_eq!(
        modify(&mut replica, uuid, "\"Description: a  b \" PRIORITY:M").is_ok(),
        true
    );
    let t = replica.get_task(uuid).unwrap().unwrap();
    assert_eq!(t.get_description(), "a  b");
    assert_eq!(t.get_priority(), "M");
    assert_eq!(modify(&mut replica, uuid, "description priority").is_ok(), true);
    let t = replica.get_task(uuid).unwrap().unwrap();
    assert_eq!(t.get_description(), "");
    assert_eq!(t.get_priority(), "");
}

#[test]
fn recurrence_sets_rule_status_and_marker() {
    let mut replica = new_replica();
    let uuid = plain_task(&mut replica, "again");
    assert_eq!(modify(&mut replica, uuid, "recur:weekly").is_ok(), true);
    let t = replica.get_task(uuid).unwrap().unwrap();
    assert_eq!(t.get_value("recur"), Some("weekly"));
    assert_eq!(t.get_value("rtype"), Some("periodic"));
    assert_eq!(t.get_status(), Status::Recurring);
}

#[test]
fn words_are_read_as_directives() {
    assert_eq!(read_directive("due:2025-06-01"), ("due".to_string(), Some("2025-06-01".to_string())));
    assert_eq!(read_directive(" a : b:c "), ("a".to_string(), Some("b:c".to_string())));
    assert_eq!(read_directive("+tag"), ("+tag".to_string(), None));
    assert_eq!(read_directive("key:"), ("key".to_string(), Some("".to_string())));
    assert_eq!(read_directive(":v"), ("".to_string(), Some("v".to_string())));
    assert_eq!(read_directive(""), ("".to_string(), None));
}

#[test]
fn keys_are_classified_in_order() {
    assert_eq!(classify("+tag", false), DirectiveKind::TagAdd);
    assert_eq!(classify("-tag", false), DirectiveKind::TagRemove);
    assert_eq!(classify("+tag", true), DirectiveKind::UserDefined);
    assert_eq!(classify("Depends", true), DirectiveKind::Depends);
    assert_eq!(classify("depends", false), DirectiveKind::Depends);
    assert_eq!(classify("DESCRIPTION", true), DirectiveKind::Description);
    assert_eq!(classify("priority", true), DirectiveKind::Priority);
    assert_eq!(classify("entry", true), DirectiveKind::Timestamp);
    assert_eq!(classify("Wait", true), DirectiveKind::Timestamp);
    assert_eq!(classify("due", false), DirectiveKind::Timestamp);
    assert_eq!(classify("status", true), DirectiveKind::Status);
    assert_eq!(classify("recur", true), DirectiveKind::Recur);
    assert_eq!(classify("start", true), DirectiveKind::Forbidden);
    assert_eq!(classify("stop", true), DirectiveKind::Forbidden);
    assert_eq!(classify("done", false), DirectiveKind::Forbidden);
    assert_eq!(classify("END", true), DirectiveKind::Forbidden);
    assert_eq!(classify("modified", true), DirectiveKind::Forbidden);
    assert_eq!(classify("project", true), DirectiveKind::Reserved);
    assert_eq!(classify("PROJECT", true), DirectiveKind::Reserved);
    assert_eq!(classify("estimate", true), DirectiveKind::UserDefined);
    assert_eq!(classify("", true), DirectiveKind::UserDefined);
}

#[test]
fn reserved_properties_by_name() {
    assert_eq!(TaskProperties::DESCRIPTION.to_string(), "description");
    assert_eq!(TaskProperties::PROJECT.to_string(), "project");
    assert_eq!(TaskProperties::END.to_string(), "end");
    assert_eq!(matches!(TaskProperties::try_from("Due"), Ok(TaskProperties::DUE)), true);
    assert_eq!(matches!(TaskProperties::try_from("ENTRY"), Ok(TaskProperties::ENTRY)), true);
    assert_eq!(
        TaskProperties::try_from("Colour").unwrap_err().to_string(),
        "Property Colour is not a reserved property."
    );
    assert_eq!(TaskEvent::OnAdd.to_string(), "on-add");
    assert_eq!(TaskEvent::OnModify.to_string(), "on-modify");
}

#[test]
fn verdict_keeps_errors_by_field() {
    let mut v = FormValidation::default();
    assert_eq!(v.is_success(), true);
    assert_eq!(v.has_error("additional"), false);
    assert_eq!(v.fields.is_empty(), true);
    v.push(FieldError::new("additional", "one".to_string()));
    v.push(FieldError::new("tags", "two".to_string()));
    v.push(FieldError::new("additional", "three".to_string()));
    assert_eq!(v.is_success(), false);
    assert_eq!(v.has_error("additional"), true);
    assert_eq!(v.has_error("tags"), true);
    assert_eq!(v.has_error("description"), false);
    let errors = v.fields.get("additional").unwrap();
    assert_eq!(errors.len(), 2);
    assert_eq!(errors[0].message, "one");
    assert_eq!(errors[1].message, "three");
    assert_eq!(v.fields.get("tags").unwrap().len(), 1);
    assert_eq!(v.fields.get("description").is_none(), true);
}

#[test]
fn verdict_message_rejects_and_its_removal_leaves_the_fields_to_decide() {
    let mut v = FormValidation::default();
    v.set_error(Some("store is gone"));
    assert_eq!(v.is_success(), false);
    assert_eq!(v.msg, Some("store is gone".to_string()));
    v.set_error(None);
    assert_eq!(v.is_success(), true);
    assert_eq!(v.msg, None);
    v.push(FieldError::new("additional", "one".to_string()));
    v.set_error(None);
    assert_eq!(v.is_success(), false);
    let v = FormValidation::rejected("no");
    assert_eq!(v.is_success(), false);
    assert_eq!(v.msg, Some("no".to_string()));
    assert_eq!(v.fields.is_empty(), true);
    let v = FormValidation::from_store_error(&taskchampion::Error::Database("lost".to_string()));
    assert_eq!(v.is_success(), false);
    assert_eq!(v.msg, Some("Task Database Error: lost".to_string()));
    let v = FormValidation::from_error(&anyhow::Error::msg("broken"));
    assert_eq!(v.msg, Some("broken".to_string()));
}

#[test]
fn verdict_in_a_line() {
    let mut v = FormValidation::default();
    assert_eq!(v.to_string(), "FormValidation error was true, affected fields: ");
    v.push(FieldError::new("additional", "one".to_string()));
    assert_eq!(v.to_string(), "FormValidation error was false, affected fields: additional=one");
    v.push(FieldError::new("tags", "two".to_string()));
    v.push(FieldError::new("additional", "three".to_string()));
    assert_eq!(
        v.to_string(),
        "FormValidation error was false, affected fields: additional=one, additional=three; tags=two"
    );
    assert_eq!(v.fields.field_names(), vec!["additional".to_string(), "tags".to_string()]);
    assert_eq!(v.fields.len(), 2);
}

#[test]
fn empty_status_is_a_status_and_empty_timestamp_clears() {
    let mut replica = new_replica();
    let uuid = plain_task(&mut replica, "asymmetric");
    assert_eq!(modify(&mut replica, uuid, "due:2025-06-01").is_ok(), true);
    assert_eq!(modify(&mut replica, uuid, "status: due:").is_ok(), true);
    let t = replica.get_task(uuid).unwrap().unwrap();
    assert_eq!(t.get_value("status"), Some(""));
    assert_eq!(t.get_status(), Status::Unknown("".to_string()));
    assert_eq!(t.get_due(), None);
}

#[test]
fn tag_names_are_taken_or_refused() {
    let mut replica = new_replica();
    let uuid = plain_task(&mut replica, "tags");
    let taken = ["a", "abc", ":abc", "a9", "Ab", "aB", "a_b", "a.b", "é", "É", "aÉ", "A1", "x\"y"];
    let refused = [
        "", "9a", "a:b", "a b", " a", "a ", "a\tb", "+a", "-a", "a+b", "a-b", "a*b", "a/b", "a(b",
        "a<b", "a>b", "a^b", "a!b", "a%b", "a=b", "a~b", "*", "AB", "NOSUCH", "A", "\u{a0}a",
    ];
    let synthetic = [
        "WAITING", "ACTIVE", "PENDING", "COMPLETED", "DELETED", "BLOCKED", "UNBLOCKED", "BLOCKING",
    ];
    for add in [true, false] {
        for name in taken {
            let mut t = replica.get_task(uuid).unwrap().unwrap();
            let mut ops = begin_batch();
            let mut v = FormValidation::default();
            task_change_tag(&mut t, &mut ops, &mut v, "tags", name, add);
            assert_eq!(v.is_success(), true);
            assert_eq!(ops.len() > 1, true);
            assert_eq!(t.get_value(format!("tag_{}", name)).is_some(), add);
        }
        for name in refused {
            let mut t = replica.get_task(uuid).unwrap().unwrap();
            let mut ops = begin_batch();
            let mut v = FormValidation::default();
            task_change_tag(&mut t, &mut ops, &mut v, "tags", name, add);
            let errors = v.fields.get("tags").expect("The name was taken");
            assert_eq!(errors.len(), 1);
            assert_eq!(errors[0].message, format!("invalid tag {:?}", name));
            assert_eq!(ops.len(), 1);
            assert_eq!(t, replica.get_task(uuid).unwrap().unwrap());
        }
        for name in synthetic {
            let mut t = replica.get_task(uuid).unwrap().unwrap();
            let mut ops = begin_batch();
            let mut v = FormValidation::default();
            task_change_tag(&mut t, &mut ops, &mut v, "additional", name, add);
            let errors = v.fields.get("additional").expect("The name was taken");
            assert_eq!(errors.len(), 1);
            assert_eq!(errors[0].message, "Usage Error: Synthetic tags cannot be modified");
            assert_eq!(ops.len(), 1);
        }
    }
}

#[test]
fn names_of_the_data_model_are_no_user_defined_attributes() {
    let mut replica = new_replica();
    let uuid = plain_task(&mut replica, "attributes");
    let known = [
        "description", "due", "modified", "start", "status", "priority", "wait", "end", "entry",
        "tag_", "tag_x", "annotation_", "annotation_1", "dep_", "dep_x",
    ];
    let free = [
        "Description", "DUE", "project", "tags", "tag", "annotation", "dep", "xtag_", "until",
        "scheduled", "recur", "", "estimate",
    ];
    for key in known {
        let mut t = replica.get_task(uuid).unwrap().unwrap();
        let mut ops = begin_batch();
        let mut v = FormValidation::default();
        task_apply_user_defined(&mut t, &mut ops, &mut v, (key.to_string(), Some("v".to_string())));
        let errors = v.fields.get("additional").expect("The name was taken");
        assert_eq!(errors.len(), 1);
        assert_eq!(
            errors[0].message,
            format!(
                "Usage Error: Property name {} as special meaning in a task and cannot be used as a UDA",
                key
            )
        );
        assert_eq!(ops.len(), 1);
        assert_eq!(t, replica.get_task(uuid).unwrap().unwrap());
    }
    for key in free {
        let mut t = replica.get_task(uuid).unwrap().unwrap();
        let mut ops = begin_batch();
        let mut v = FormValidation::default();
        task_apply_user_defined(&mut t, &mut ops, &mut v, (key.to_string(), None));
        assert_eq!(v.is_success(), true);
        assert_eq!(t.get_value(key), Some(""));
        assert_eq!(ops.len() > 1, true);
    }
}

/// What an operation changes: the task, the property and its new value. A
/// value that the clock wrote is blanked; the undo marker and the creation
/// of a task change no property.
fn shown(op: &taskchampion::Operation) -> Option<(Uuid, String, Option<String>)> {
    match op {
        taskchampion::Operation::Update { uuid, property, value, .. } => {
            let clock = property == "modified" || property == "end" || property == "start";
            let value = match value {
                Some(v) => Some(if clock { String::new() } else { v.clone() }),
                None => None,
            };
            Some((*uuid, property.clone(), value))
        }
        _ => None,
    }
}

fn set(uuid: Uuid, property: &str, value: &str) -> Option<(Uuid, String, Option<String>)> {
    Some((uuid, property.to_string(), Some(value.to_string())))
}

fn unset(uuid: Uuid, property: &str) -> Option<(Uuid, String, Option<String>)> {
    Some((uuid, property.to_string(), None))
}

#[test]
fn modify_batch_holds_exactly_the_changes() {
    let mut replica = new_replica();
    let uuid = plain_task(&mut replica, "batch");
    let mut t = replica.get_task(uuid).unwrap().unwrap();
    let ws = replica.working_set().unwrap();
    let batch = match run_modify_command(&mut t, &ws, "project:home +urgent priority:H") {
        Ok(batch) => batch,
        Err(_) => panic!("The line was refused"),
    };
    let seen: Vec<_> = batch.ops.iter().map(shown).collect();
    assert_eq!(
        seen,
        vec![
            None,
            set(uuid, "modified", ""),
            set(uuid, "project", "home"),
            set(uuid, "tag_urgent", ""),
            set(uuid, "priority", "H"),
        ]
    );
    assert_eq!(batch.ops[0].is_undo_point(), true);
}

#[test]
fn modify_batch_of_an_empty_line_is_the_marker_alone() {
    let mut replica = new_replica();
    let uuid = plain_task(&mut replica, "batch");
    let mut t = replica.get_task(uuid).unwrap().unwrap();
    let ws = replica.working_set().unwrap();
    let batch = match run_modify_command(&mut t, &ws, "") {
        Ok(batch) => batch,
        Err(_) => panic!("The line was refused"),
    };
    assert_eq!(batch.ops.len(), 1);
    assert_eq!(batch.ops[0].is_undo_point(), true);
}

#[test]
fn status_batch_holds_the_stop_and_the_status() {
    let mut replica = new_replica();
    let a = plain_task(&mut replica, "A");
    assert_eq!(toggle(&mut replica, a, "start"), (true, 1));
    let mut t = replica.get_task(a).unwrap().unwrap();
    let batch = change_task_status(&mut t, "completed").unwrap();
    let seen: Vec<_> = batch.ops.iter().map(shown).collect();
    assert_eq!(
        seen,
        vec![
            None,
            set(a, "modified", ""),
            unset(a, "start"),
            set(a, "end", ""),
            set(a, "status", "completed"),
        ]
    );
    replica.commit_operations(batch.ops).unwrap();

    // a task that rests and has ended: back to pending takes the end away
    let mut t = replica.get_task(a).unwrap().unwrap();
    let batch = change_task_status(&mut t, "pending").unwrap();
    let seen: Vec<_> = batch.ops.iter().map(shown).collect();
    assert_eq!(
        seen,
        vec![None, set(a, "modified", ""), unset(a, "end"), set(a, "status", "pending")]
    );
}

#[test]
fn toggle_batch_holds_each_stop_and_the_start() {
    let mut replica = new_replica();
    let a = plain_task(&mut replica, "A");
    let b = plain_task(&mut replica, "B");
    let c = plain_task(&mut replica, "C");
    let d = plain_task(&mut replica, "D");
    for uuid in [b, c] {
        let mut ops = begin_batch();
        let mut t = replica.get_task(uuid).unwrap().unwrap();
        t.start(&mut ops).unwrap();
        replica.commit_operations(ops).unwrap();
    }
    let mut t = replica.get_task(a).unwrap().unwrap();
    let all: Vec<taskchampion::Task> = replica.all_tasks().unwrap().into_values().collect();
    let out = toggle_task_active(&mut t, &all, "start").expect("Cannot toggle");

    let mut expected = vec![None];
    for other in all.iter() {
        if other.is_active() && other.get_uuid() != a {
            expected.push(set(other.get_uuid(), "modified", ""));
            expected.push(unset(other.get_uuid(), "start"));
        }
    }
    expected.push(set(a, "modified", ""));
    expected.push(set(a, "start", ""));
    let seen: Vec<_> = out.batch.ops.iter().map(shown).collect();
    assert_eq!(seen, expected);
    assert_eq!(seen.len(), 7);
    assert_eq!(seen.iter().any(|s| matches!(s, Some((uuid, _, _)) if *uuid == d)), false);
    assert_eq!(seen.iter().any(|s| *s == unset(b, "start")), true);
    assert_eq!(seen.iter().any(|s| *s == unset(c, "start")), true);
}

#[test]
fn toggle_batch_of_a_stop_comes_before_the_sweep() {
    let mut replica = new_replica();
    let a = plain_task(&mut replica, "A");
    let b = plain_task(&mut replica, "B");
    for uuid in [a, b] {
        let mut ops = begin_batch();
        let mut t = replica.get_task(uuid).unwrap().unwrap();
        t.start(&mut ops).unwrap();
        replica.commit_operations(ops).unwrap();
    }
    let mut t = replica.get_task(a).unwrap().unwrap();
    let all: Vec<taskchampion::Task> = replica.all_tasks().unwrap().into_values().collect();
    let out = toggle_task_active(&mut t, &all, "stop").expect("Cannot toggle");
    let seen: Vec<_> = out.batch.ops.iter().map(shown).collect();
    assert_eq!(
        seen,
        vec![
            None,
            set(a, "modified", ""),
            unset(a, "start"),
            set(b, "modified", ""),
            unset(b, "start"),
        ]
    );

    // any other request leaves the target alone and still sweeps
    let mut t = replica.get_task(a).unwrap().unwrap();
    let out = toggle_task_active(&mut t, &all, "pause").expect("Cannot toggle");
    let seen: Vec<_> = out.batch.ops.iter().map(shown).collect();
    assert_eq!(seen, vec![None, set(b, "modified", ""), unset(b, "start")]);
}

#[test]
fn new_task_batch_holds_the_form_in_order() {
    let mut replica = new_replica();
    let uuid = Uuid::new_v4();
    let mut ops = begin_batch();
    let mut t = replica.create_task(uuid, &mut ops).unwrap();
    let held = ops.len();
    let ws = replica.working_set().unwrap();
    let task = NewTask::new(
        Some("write".to_string()),
        Some("one two".to_string()),
        Some("home".to_string()),
        None,
        Some("priority:L".to_string()),
    );
    let batch = match task_add(&task, &mut t, &ws, ops) {
        Ok(batch) => batch,
        Err(_) => panic!("The form was refused"),
    };
    assert_eq!(batch.ops[0].is_undo_point(), true);
    let seen: Vec<_> = batch.ops.iter().skip(held).map(shown).collect();
    assert_eq!(
        seen,
        vec![
            set(uuid, "modified", ""),
            set(uuid, "description", "write"),
            set(uuid, "status", "pending"),
            seen[3].clone(),
            set(uuid, "tag_one", ""),
            set(uuid, "tag_two", ""),
            set(uuid, "project", "home"),
            set(uuid, "priority", "L"),
        ]
    );
    assert_eq!(matches!(&seen[3], Some((id, property, Some(_))) if *id == uuid && property == "entry"), true);
}

#[test]
fn reserved_names_are_read_in_any_case_of_the_first_letters() {
    for name in ["wait", "WAIT", "Wait", "wAiT"] {
        assert_eq!(matches!(TaskProperties::try_from(name), Ok(TaskProperties::WAIT)), true);
    }
    assert_eq!(TaskProperties::try_from("wa\u{130}t").is_err(), true);
    assert_eq!(TaskProperties::try_from("w@it").is_err(), true);
    assert_eq!(TaskProperties::try_from("[start]").is_err(), true);
}

#[test]
fn short_references_are_indexes_or_nothing() {
    let mut replica = new_replica();
    let a = plain_task(&mut replica, "A");
    let ws = replica.working_set().unwrap();
    let index = ws.by_uuid(a).expect("The task is in the working set");
    assert_eq!(resolve_dependency_reference(&index.to_string(), &ws), Some(a.as_u128()));
    assert_eq!(resolve_dependency_reference("not-a-ref", &ws), None);
    assert_eq!(resolve_dependency_reference("0123456789abcdef0123456789abcde", &ws), None);
    assert_eq!(
        resolve_dependency_reference("0123456789abcdef0123456789abcdef", &ws),
        Some(0x0123456789abcdef0123456789abcdef_u128)
    );
    assert_eq!(
        resolve_dependency_reference("urn:uuid:01234567-89ab-cdef-0123-456789abcdef", &ws),
        Some(0x0123456789abcdef0123456789abcdef_u128)
    );
    assert_eq!(
        resolve_dependency_reference("urn:uuid:01234567-89ab-cdef-0123-456789abcdef0", &ws),
        None
    );
}
