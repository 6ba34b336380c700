use taskwarrior_web::backend::listing::{project_list, sorted_unique, tag_list};
use taskwarrior_web::backend::task::{hook_input, is_hook_script, TaskEvent};
use taskwarrior_web::backend::undo::{group_by_task, task_operation, Change, TaskOperation};
use taskwarrior_web::common::utils::ShortcutSearch;
use taskwarrior_web::elapsed::{age_text, timer_text};
use taskwarrior_web::endpoints::views::{
    dependency_order, project_leaf, project_name_link, shown_filters, Place,
};

fn strings(words: &[&str]) -> Vec<String> {
    words.iter().map(|w| w.to_string()).collect()
}

#[test]
fn timer_shows_the_largest_full_unit() {
    assert_eq!(timer_text(0), "0s");
    assert_eq!(timer_text(52), "52s");
    assert_eq!(timer_text(59), "59s");
    assert_eq!(timer_text(60), "00:01:00");
    assert_eq!(timer_text(20 * 60 + 52), "00:20:52");
    assert_eq!(timer_text(3599), "00:59:59");
    assert_eq!(timer_text(3600), "01:00");
    assert_eq!(timer_text(3600 + 20 * 60), "01:20");
    assert_eq!(timer_text(100 * 3600 + 5 * 60 + 7), "100:05");
    assert_eq!(timer_text(-75), "-75s");
    assert_eq!(timer_text(i64::MAX), "2562047788015215:30");
    assert_eq!(timer_text(i64::MIN), "-9223372036854775808s");
}

#[test]
fn age_shows_weeks_days_hours_or_minutes() {
    assert_eq!(age_text(0, false), "0m");
    assert_eq!(age_text(59, false), "0m");
    assert_eq!(age_text(60, false), "1m");
    assert_eq!(age_text(3599, false), "59m");
    assert_eq!(age_text(3600, false), "1h");
    assert_eq!(age_text(86399, false), "23h");
    assert_eq!(age_text(86400, false), "1d");
    assert_eq!(age_text(6 * 86400 + 5, false), "6d");
    assert_eq!(age_text(7 * 86400, false), "1w");
    assert_eq!(age_text(30 * 86400, false), "4w");
    assert_eq!(age_text(-2 * 86400, false), "-2d");
    assert_eq!(age_text(-2 * 86400, true), "2d");
    assert_eq!(age_text(3 * 3600, true), "-3h");
    assert_eq!(age_text(-90, true), "1m");
    assert_eq!(age_text(i64::MIN, true), "15250284452471w");
}

#[test]
fn projects_are_shown_with_the_projects_above_them() {
    assert_eq!(
        shown_filters(&strings(&["project:a.b.c", "+tag", "next"])),
        strings(&["project:a", "project:a.b", "project:a.b.c", "+tag", "next"])
    );
    assert_eq!(shown_filters(&strings(&["project:solo"])), strings(&["project:solo"]));
    assert_eq!(shown_filters(&strings(&["project:"])), strings(&["project:"]));
    assert_eq!(
        shown_filters(&strings(&["project:a.b:rest", "projects:x"])),
        strings(&["project:a", "project:a.b", "projects:x"])
    );
    assert_eq!(
        shown_filters(&strings(&["project:a..b"])),
        strings(&["project:a", "project:a.", "project:a..b"])
    );
    assert_eq!(shown_filters(&Vec::new()), Vec::<String>::new());
}

#[test]
fn dependencies_are_placed_by_completion_and_index() {
    assert_eq!(dependency_order(true, Some(1), true, Some(2)), Place::Beside);
    assert_eq!(dependency_order(true, Some(1), false, Some(2)), Place::After);
    assert_eq!(dependency_order(false, Some(9), true, Some(2)), Place::Before);
    assert_eq!(dependency_order(false, Some(1), false, Some(2)), Place::Before);
    assert_eq!(dependency_order(false, Some(3), false, Some(2)), Place::After);
    assert_eq!(dependency_order(false, Some(2), false, Some(2)), Place::Beside);
    assert_eq!(dependency_order(false, None, false, Some(2)), Place::After);
    assert_eq!(dependency_order(false, Some(9999998), false, None), Place::Before);
    assert_eq!(dependency_order(false, None, false, None), Place::Beside);
    assert_eq!(dependency_order(false, Some(9999999), false, None), Place::Beside);
}

#[test]
fn shortcut_search_grows_once_and_gives_up() {
    let mut search = ShortcutSearch::begin();
    assert_eq!(search, ShortcutSearch { len: 2, tries: 0 });
    let mut misses = 0;
    loop {
        match search.after_miss() {
            Some(next) => {
                misses += 1;
                if misses == 1000 {
                    assert_eq!(next, ShortcutSearch { len: 2, tries: 1000 });
                }
                if misses == 1001 {
                    assert_eq!(next, ShortcutSearch { len: 3, tries: 0 });
                }
                search = next;
            }
            None => break,
        }
    }
    assert_eq!(search, ShortcutSearch { len: 3, tries: 1000 });
    assert_eq!(misses, 2001);
}

#[test]
fn hook_scripts_read_the_task_before_and_after() {
    assert_eq!(hook_input(&TaskEvent::OnAdd, "", "{new}", "\n"), "{new}\n");
    assert_eq!(hook_input(&TaskEvent::OnModify, "{old}", "{new}", "\n"), "{old}\n{new}\n");
    assert_eq!(hook_input(&TaskEvent::OnModify, "", "{new}", "\r\n"), "\r\n{new}\r\n");
}

#[test]
fn hook_scripts_are_executable_files_named_by_the_event() {
    assert_eq!(is_hook_script("on-add.sh", &TaskEvent::OnAdd, true, 0o755), true);
    assert_eq!(is_hook_script("on-add", &TaskEvent::OnAdd, true, 0o100), true);
    assert_eq!(is_hook_script("on-add", &TaskEvent::OnAdd, true, 0o001), true);
    assert_eq!(is_hook_script("on-add.sh", &TaskEvent::OnAdd, true, 0o644), false);
    assert_eq!(is_hook_script("on-add.sh", &TaskEvent::OnAdd, false, 0o755), false);
    assert_eq!(is_hook_script("on-add.sh", &TaskEvent::OnModify, true, 0o755), false);
    assert_eq!(is_hook_script("on-modify-notify", &TaskEvent::OnModify, true, 0o750), true);
    assert_eq!(is_hook_script("my-on-modify", &TaskEvent::OnModify, true, 0o755), false);
}

#[test]
fn names_are_listed_once_and_ascending() {
    assert_eq!(
        sorted_unique(&strings(&["b", "a", "c", "a", "ab", "", "B", "b"])),
        strings(&["", "B", "a", "ab", "b", "c"])
    );
    assert_eq!(sorted_unique(&strings(&["é", "z", "e"])), strings(&["e", "z", "é"]));
    assert_eq!(sorted_unique(&Vec::new()), Vec::<String>::new());
    let projects = vec![
        Some("work".to_string()),
        None,
        Some("".to_string()),
        Some("home".to_string()),
        Some("work".to_string()),
        Some("home.garden".to_string()),
    ];
    assert_eq!(project_list(&projects), strings(&["home", "home.garden", "work"]));
    let properties = strings(&[
        "description", "tag_next", "tag_", "status", "tag_home", "dep_x", "tag_home", "Tag_no",
        "xtag_no",
    ]);
    assert_eq!(tag_list(&properties), strings(&["", "home", "next"]));
}

#[test]
fn undo_report_lines() {
    let line: TaskOperation<u8, u16> =
        task_operation(Change::Create { uuid: 7 }).expect("no line");
    assert_eq!(line.operation, "Create");
    assert_eq!(line.uuid, 7);
    assert_eq!(line.property, None);
    assert_eq!(line.timestamp, None);
    assert_eq!(line.old_task, None);
    assert_eq!(line.is_tag_change, false);

    let line: TaskOperation<u8, u16> =
        task_operation(Change::Delete { uuid: 8, old_task: 99 }).expect("no line");
    assert_eq!(line.operation, "Delete");
    assert_eq!(line.uuid, 8);
    assert_eq!(line.old_task, Some(99));
    assert_eq!(line.is_tag_change, false);

    let line: TaskOperation<u8, u16> = task_operation(Change::Update {
        uuid: 9,
        property: "tag_home".to_string(),
        old_value: None,
        value: Some("".to_string()),
        timestamp: 5,
    })
    .expect("no line");
    assert_eq!(line.operation, "Modified");
    assert_eq!(line.uuid, 9);
    assert_eq!(line.property, Some("home".to_string()));
    assert_eq!(line.old_value, None);
    assert_eq!(line.value, Some("".to_string()));
    assert_eq!(line.timestamp, Some(5));
    assert_eq!(line.is_tag_change, true);

    let line: TaskOperation<u8, u16> = task_operation(Change::Update {
        uuid: 9,
        property: "description".to_string(),
        old_value: Some("a".to_string()),
        value: Some("b".to_string()),
        timestamp: 6,
    })
    .expect("no line");
    assert_eq!(line.property, Some("description".to_string()));
    assert_eq!(line.old_value, Some("a".to_string()));
    assert_eq!(line.is_tag_change, false);

    let none: Option<TaskOperation<u8, u16>> = task_operation(Change::UndoPoint);
    assert_eq!(none.is_none(), true);
}

#[test]
fn undo_report_is_grouped_by_task() {
    let changes: Vec<Change<u8, u16>> = vec![
        Change::UndoPoint,
        Change::Create { uuid: 2 },
        Change::Update {
            uuid: 1,
            property: "status".to_string(),
            old_value: None,
            value: Some("pending".to_string()),
            timestamp: 1,
        },
        Change::Update {
            uuid: 2,
            property: "tag_x".to_string(),
            old_value: None,
            value: Some("".to_string()),
            timestamp: 2,
        },
        Change::Delete { uuid: 1, old_task: 4 },
    ];
    let mut lines = Vec::new();
    for change in changes {
        if let Some(line) = task_operation(change) {
            lines.push(line);
        }
    }
    let groups = group_by_task(lines);
    assert_eq!(groups.len(), 2);
    assert_eq!(groups[0].uuid, 2);
    assert_eq!(groups[0].lines.len(), 2);
    assert_eq!(groups[0].lines[0].operation, "Create");
    assert_eq!(groups[0].lines[1].property, Some("x".to_string()));
    assert_eq!(groups[1].uuid, 1);
    assert_eq!(groups[1].lines.len(), 2);
    assert_eq!(groups[1].lines[0].operation, "Modified");
    assert_eq!(groups[1].lines[1].operation, "Delete");
    let empty: Vec<TaskOperation<u8, u16>> = Vec::new();
    assert_eq!(group_by_task(empty).len(), 0);
}

#[test]
fn project_names_above_and_last_part() {
    assert_eq!(project_name_link("a.b.c", 0), "");
    assert_eq!(project_name_link("a.b.c", 1), "a");
    assert_eq!(project_name_link("a.b.c", 2), "a.b");
    assert_eq!(project_name_link("a.b.c", 3), "a.b.c");
    assert_eq!(project_name_link("a.b.c", 9), "a.b.c");
    assert_eq!(project_name_link("", 1), "");
    assert_eq!(project_name_link(".x", 2), ".x");
    assert_eq!(project_leaf("project:a.b.c"), "c");
    assert_eq!(project_leaf("a.b"), "b");
    assert_eq!(project_leaf("solo"), "solo");
    assert_eq!(project_leaf("project:"), "");
    assert_eq!(project_leaf("project:a."), "");
    assert_eq!(project_leaf("project:project:x.y"), "y");
    assert_eq!(project_leaf("proproject:ject:x"), "project:x");
}
