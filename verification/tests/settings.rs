use taskwarrior_web::common::cache::{MemoryCache, MnemonicsCache, MnemonicsTable, MnemonicsType};
use taskwarrior_web::common::config::{AppSettings, CustomQuery, ValidateSetting};

#[test]
fn test_config_default() {
    let cq = AppSettings::default();
    assert_eq!(cq.custom_queries.len(), 0);
}

#[test]
fn test_config_validation() {
    let mut appconf = AppSettings::default();

    appconf.custom_queries.insert(
        String::from("two_query"),
        CustomQuery {
            query: String::from("limit:1"),
            description: String::from("report of another thing"),
            fixed_key: Some(String::from("ni")),
        },
    );
    assert_eq!(appconf.custom_queries.len(), 1);

    appconf.custom_queries.insert(
        String::from("third_query"),
        CustomQuery {
            query: String::from("limit:10"),
            description: String::from("Simple query"),
            fixed_key: Some(String::from("ni")),
        },
    );
    let valid = appconf.validate();
    assert_eq!(valid.len(), 1);

    // Lets add further query with only a fixed_key with less than one char.
    appconf.custom_queries.insert(
        String::from("fourth_query"),
        CustomQuery {
            query: String::from("project:TWK"),
            description: String::from("Simple query #4"),
            fixed_key: Some(String::from("n")),
        },
    );
    let valid = appconf.validate();
    assert_eq!(valid.len(), 2);
}

#[test]
fn test_config_register_shortcut() {
    let mut appconf = AppSettings::default();
    let mut mock = MemoryCache { map: MnemonicsTable::default() };

    let result = mock.insert(MnemonicsType::CustomQuery, "two_query", "ad", false);
    assert_eq!(result.is_ok(), true);
    assert_eq!(mock.get(MnemonicsType::CustomQuery, "two_query"), Some(String::from("ad")));

    appconf.custom_queries.insert(
        String::from("two_query"),
        CustomQuery {
            query: String::from("limit:1"),
            description: String::from("report of another thing"),
            fixed_key: Some(String::from("ni")),
        },
    );
    appconf.custom_queries.insert(
        String::from("third_query"),
        CustomQuery {
            query: String::from("limit:10"),
            description: String::from("Simple query"),
            fixed_key: None,
        },
    );

    appconf.register_shortcuts(&mut mock);

    assert_eq!(mock.get(MnemonicsType::CustomQuery, "two_query"), Some(String::from("ni")));
    assert_eq!(mock.get(MnemonicsType::CustomQuery, "third_query"), None);
}

#[test]
fn validation_messages_are_exact() {
    let mut appconf = AppSettings::default();
    appconf.custom_queries.insert(
        String::from("one"),
        CustomQuery {
            query: String::from("limit:1"),
            description: String::from("first"),
            fixed_key: Some(String::from("ab")),
        },
    );
    appconf.custom_queries.insert(
        String::from("two"),
        CustomQuery {
            query: String::from("limit:2"),
            description: String::from("second"),
            fixed_key: Some(String::from("abc")),
        },
    );
    appconf.custom_queries.insert(
        String::from("three"),
        CustomQuery {
            query: String::from("limit:3"),
            description: String::from("third"),
            fixed_key: Some(String::from("ab")),
        },
    );
    let errors = appconf.validate();
    assert_eq!(errors.len(), 2);
    assert_eq!(errors[0].field, "fixed_key");
    assert_eq!(
        errors[0].message,
        "Fixed key must be 2 unique characters. Currently assigned Some(\"abc\") for second!"
    );
    assert_eq!(errors[1].field, "fixed_key");
    assert_eq!(errors[1].message, "Duplicate shortcut ab asssigned to query three");
}

#[test]
fn valid_settings_have_no_complaint() {
    let mut appconf = AppSettings::default();
    assert_eq!(appconf.validate().len(), 0);
    appconf.custom_queries.insert(
        String::from("one"),
        CustomQuery {
            query: String::from("limit:1"),
            description: String::from("first"),
            fixed_key: None,
        },
    );
    appconf.custom_queries.insert(
        String::from("two"),
        CustomQuery {
            query: String::from("limit:2"),
            description: String::from("second"),
            fixed_key: Some(String::from("xy")),
        },
    );
    assert_eq!(appconf.validate().len(), 0);
}

#[test]
fn shortcut_tables_set_and_remove() {
    let mut table = MnemonicsTable::default();
    assert_eq!(table.get(MnemonicsType::TAG).get("personal"), None);
    table.insert(MnemonicsType::TAG, "personal", "xz");
    assert_eq!(table.get(MnemonicsType::TAG).get("personal"), Some(&String::from("xz")));
    assert_eq!(table.get(MnemonicsType::PROJECT).get("personal"), None);
    table.insert(MnemonicsType::TAG, "personal", "ab");
    assert_eq!(table.get(MnemonicsType::TAG).get("personal"), Some(&String::from("ab")));
    assert_eq!(table.get(MnemonicsType::TAG).len(), 1);
    table.remove(MnemonicsType::TAG, "personal");
    assert_eq!(table.get(MnemonicsType::TAG).get("personal"), None);
    assert_eq!(table.get(MnemonicsType::TAG).is_empty(), true);
}

#[test]
fn shortcut_is_unique_between_tags_and_projects() {
    let mut table = MnemonicsTable::default();
    assert_eq!(table.insert_unique(MnemonicsType::TAG, "personal", "xz", false).is_ok(), true);
    assert_eq!(
        table.insert_unique(MnemonicsType::PROJECT, "taskwarrior", "xz", false).is_ok(),
        false
    );
    table.remove(MnemonicsType::TAG, "personal");
    assert_eq!(
        table.insert_unique(MnemonicsType::PROJECT, "taskwarrior", "xz", false).is_ok(),
        true
    );
    assert_eq!(table.insert_unique(MnemonicsType::TAG, "personal", "xz", false).is_ok(), false);
    // a custom query may share a shortcut with a tag or a project
    assert_eq!(table.insert_unique(MnemonicsType::CustomQuery, "q", "xz", false).is_ok(), true);
}

#[test]
fn shortcut_taken_is_overridden_only_on_request() {
    let mut table = MnemonicsTable::default();
    assert_eq!(
        table.insert_unique(MnemonicsType::CustomQuery, "one_query", "ad", false).is_ok(),
        true
    );
    assert_eq!(
        table.insert_unique(MnemonicsType::CustomQuery, "second_query", "ad", true).is_ok(),
        true
    );
    assert_eq!(table.get(MnemonicsType::CustomQuery).get("one_query"), None);
    assert_eq!(
        table.get(MnemonicsType::CustomQuery).get("second_query"),
        Some(&String::from("ad"))
    );
    let refused = table.insert_unique(MnemonicsType::CustomQuery, "one_query", "ad", false);
    assert_eq!(refused.is_err(), true);
    assert_eq!(refused.unwrap_err().to_string(), "Duplicate key generated!");
    // the same name may take its own shortcut again
    assert_eq!(
        table.insert_unique(MnemonicsType::CustomQuery, "second_query", "ad", false).is_ok(),
        true
    );
}

#[test]
fn memory_cache_refuses_a_taken_shortcut() {
    let mut cache = MemoryCache::new(MnemonicsTable::default());
    assert_eq!(cache.insert(MnemonicsType::TAG, "personal", "xz", false).is_ok(), true);
    let refused = cache.insert(MnemonicsType::TAG, "private", "xz", false);
    assert_eq!(refused.unwrap_err().to_string(), "Duplicate key generated!");
    assert_eq!(cache.get(MnemonicsType::TAG, "personal"), Some(String::from("xz")));
    assert_eq!(cache.get(MnemonicsType::TAG, "private"), None);
    let clash = cache.insert(MnemonicsType::PROJECT, "home", "xz", true);
    assert_eq!(clash.unwrap_err().to_string(), "Duplicate key generated!");
    assert_eq!(cache.get(MnemonicsType::PROJECT, "home"), None);
    assert_eq!(cache.insert(MnemonicsType::TAG, "private", "xz", true).is_ok(), true);
    assert_eq!(cache.get(MnemonicsType::TAG, "personal"), None);
    assert_eq!(cache.get(MnemonicsType::TAG, "private"), Some(String::from("xz")));
    assert_eq!(cache.remove(MnemonicsType::TAG, "private").is_ok(), true);
    assert_eq!(cache.get(MnemonicsType::TAG, "private"), None);
    assert_eq!(cache.save().is_ok(), true);
}

#[test]
fn registering_takes_a_fixed_key_from_its_holder() {
    let mut appconf = AppSettings::default();
    let mut cache = MemoryCache::new(MnemonicsTable::default());
    assert_eq!(cache.insert(MnemonicsType::CustomQuery, "old_query", "ni", false).is_ok(), true);
    assert_eq!(cache.insert(MnemonicsType::CustomQuery, "kept_query", "ke", false).is_ok(), true);
    assert_eq!(cache.insert(MnemonicsType::TAG, "personal", "ni", false).is_ok(), true);
    assert_eq!(cache.insert(MnemonicsType::CustomQuery, "same_query", "sa", false).is_ok(), true);

    appconf.custom_queries.insert(
        String::from("new_query"),
        CustomQuery {
            query: String::from("limit:1"),
            description: String::from("takes the key"),
            fixed_key: Some(String::from("ni")),
        },
    );
    appconf.custom_queries.insert(
        String::from("same_query"),
        CustomQuery {
            query: String::from("limit:2"),
            description: String::from("has its key"),
            fixed_key: Some(String::from("sa")),
        },
    );
    appconf.register_shortcuts(&mut cache);

    assert_eq!(cache.get(MnemonicsType::CustomQuery, "new_query"), Some(String::from("ni")));
    assert_eq!(cache.get(MnemonicsType::CustomQuery, "same_query"), Some(String::from("sa")));
    assert_eq!(cache.get(MnemonicsType::CustomQuery, "old_query"), None);
    assert_eq!(cache.get(MnemonicsType::CustomQuery, "kept_query"), Some(String::from("ke")));
    assert_eq!(cache.get(MnemonicsType::TAG, "personal"), Some(String::from("ni")));
}
