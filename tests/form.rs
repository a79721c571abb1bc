use form_state::{Form, FormStruct, InputChange, TextFields};

fn record(fields: &[(&str, &str)]) -> TextFields {
    let mut r = TextFields::new();
    for (name, value) in fields {
        r.insert_field(name, value);
    }
    r
}

fn errs(entries: &[(&str, &[Option<&str>])]) -> Vec<(String, Vec<Option<String>>)> {
    entries
        .iter()
        .map(|(f, ms)| {
            (
                f.to_string(),
                ms.iter().map(|m| m.map(|t| t.to_string())).collect(),
            )
        })
        .collect()
}

#[test]
fn missing_field_reads_empty_and_absent() {
    let form = Form::with_initial_values(record(&[("username", "bob")]));
    assert_eq!(form.value("nickname"), "");
    assert_eq!(form.value_opt("nickname"), None);
    assert_eq!(form.value("username"), "bob");
    assert_eq!(form.value_opt("username"), Some("bob".to_string()));
}

#[test]
fn explicit_empty_field_is_present() {
    let form = Form::with_initial_values(record(&[("x", "")]));
    assert_eq!(form.value("x"), "");
    assert_eq!(form.value_opt("x"), Some(String::new()));
}

#[test]
fn new_form_has_default_values_and_no_errors() {
    let form: Form<TextFields> = Form::new();
    assert_eq!(form.value_opt("x"), None);
    assert_eq!(form.error("x"), None);
    assert!(form.errors().is_empty());
}

#[test]
fn set_field_value_some_is_read_back() {
    let mut form = Form::with_initial_values(record(&[("x", "old")]));
    form.set_field_value("x", Some("hello".to_string()));
    assert_eq!(form.value("x"), "hello");
}

#[test]
fn set_field_value_none_clears() {
    let mut form = Form::with_initial_values(record(&[("x", "old")]));
    form.set_field_value("x", None);
    assert_eq!(form.value("x"), "");
    assert_eq!(form.value_opt("x"), Some(String::new()));
}

#[test]
fn set_field_value_on_unknown_field_changes_nothing() {
    let mut form = Form::with_initial_values(record(&[("x", "a")]));
    form.set_field_value("y", Some("b".to_string()));
    assert_eq!(form.value_opt("y"), None);
    assert_eq!(form.value("x"), "a");
}

#[test]
fn failed_submit_records_error_and_withholds_values() {
    let mut form = Form::with_initial_values(record(&[("email", "nope")]));
    let submit = form.handle_submit(Err(errs(&[("email", &[Some("invalid format")])])));
    assert!(!submit);
    assert_eq!(form.error("email"), Some("invalid format".to_string()));
    assert_eq!(form.value("email"), "nope");
}

#[test]
fn passed_submit_hands_on_values_and_keeps_errors() {
    let mut form = Form::with_initial_values(record(&[("email", "nope")]));
    assert!(!form.handle_submit(Err(errs(&[("email", &[Some("invalid format")])]))));
    form.set_field_value("email", Some("a@b.c".to_string()));
    let submit = form.handle_submit(Ok(()));
    assert!(submit);
    assert_eq!(form.values().get("email"), Some("a@b.c".to_string()));
    assert_eq!(form.error("email"), Some("invalid format".to_string()));
    assert_eq!(form.errors().len(), 1);
}

#[test]
fn passed_submit_on_fresh_form_leaves_no_errors() {
    let mut form = Form::with_initial_values(record(&[("a", "1")]));
    assert!(form.handle_submit(Ok(())));
    assert!(form.errors().is_empty());
    assert_eq!(form.value("a"), "1");
}

#[test]
fn input_change_updates_only_named_field() {
    let mut form = Form::with_initial_values(record(&[("username", ""), ("email", "e@x.y")]));
    form.handle_input(Some(InputChange {
        name: "username".to_string(),
        value: "alice".to_string(),
    }));
    assert_eq!(form.value("username"), "alice");
    assert_eq!(form.value("email"), "e@x.y");
    assert_eq!(form.value_opt("password"), None);
}

#[test]
fn input_from_non_input_target_is_ignored() {
    let mut form = Form::with_initial_values(record(&[("username", "bob")]));
    form.handle_input(None);
    assert_eq!(form.value("username"), "bob");
}

#[test]
fn input_for_unknown_field_is_ignored() {
    let mut form = Form::with_initial_values(record(&[("username", "bob")]));
    form.handle_input(Some(InputChange { name: "other".to_string(), value: "v".to_string() }));
    assert_eq!(form.value_opt("other"), None);
    assert_eq!(form.value("username"), "bob");
}

#[test]
fn later_message_on_same_field_overwrites() {
    let mut form = Form::with_initial_values(record(&[("password", "x")]));
    let submit = form.handle_submit(Err(errs(&[(
        "password",
        &[Some("too short"), Some("needs a digit")],
    )])));
    assert!(!submit);
    assert_eq!(form.error("password"), Some("needs a digit".to_string()));
}

#[test]
fn message_less_error_is_recorded_as_empty_text() {
    let mut form = Form::with_initial_values(record(&[("age", "x")]));
    assert!(!form.handle_submit(Err(errs(&[("age", &[None])]))));
    assert_eq!(form.error("age"), Some(String::new()));
}

#[test]
fn new_failure_overwrites_only_fields_it_names() {
    let mut form = Form::with_initial_values(record(&[("a", ""), ("b", "")]));
    assert!(!form.handle_submit(Err(errs(&[("a", &[Some("bad a")]), ("b", &[Some("bad b")])]))));
    assert!(!form.handle_submit(Err(errs(&[("b", &[Some("worse b")]), ("c", &[])]))));
    assert_eq!(form.error("a"), Some("bad a".to_string()));
    assert_eq!(form.error("b"), Some("worse b".to_string()));
    assert_eq!(form.error("c"), None);
    assert_eq!(form.errors().len(), 2);
}

#[test]
fn text_fields_get_and_set() {
    let mut r = record(&[("name", "n")]);
    assert!(r.has_field("name"));
    assert!(!r.has_field("other"));
    r.set("name", "m");
    r.set("other", "o");
    assert_eq!(r.get("name"), Some("m".to_string()));
    assert_eq!(r.get("other"), None);
    r.insert_field("other", "o");
    assert_eq!(r.get("other"), Some("o".to_string()));
    assert_eq!(TextFields::default().get("name"), None);
}
