use loan_workflow::form::{ClientData, Field, FormData, FormField};

#[test]
fn new_client_form_is_empty_and_incomplete() {
    let form = ClientData::new();
    assert_eq!(form.name, "");
    assert_eq!(form.age, "");
    assert_eq!(form.income, "");
    assert_eq!(form.mortgage, "");
    assert!(!form.is_complete());
}

#[test]
fn client_form_is_complete_when_no_required_field_is_empty() {
    let mut form = ClientData::new();
    form.set(Field::Name, "Ann".to_string());
    assert!(!form.is_complete());
    form.set(Field::Age, "not a number".to_string());
    assert!(!form.is_complete());
    form.set(Field::Mortgage, "1".to_string());
    assert!(!form.is_complete());
    form.set(Field::Income, "?".to_string());
    assert!(form.is_complete());
    form.set(Field::Mortgage, String::new());
    assert!(form.is_complete());
    form.set(Field::Age, String::new());
    assert!(!form.is_complete());
}

#[test]
fn setting_a_client_field_changes_that_field_only() {
    let mut form = ClientData::new();
    form.set(Field::Income, "150000".to_string());
    assert_eq!(
        form,
        ClientData {
            name: String::new(),
            age: String::new(),
            income: "150000".to_string(),
            mortgage: String::new(),
        }
    );
    form.set(Field::Income, "1".to_string());
    form.set(Field::Mortgage, "2".to_string());
    form.set(Field::Name, "3".to_string());
    form.set(Field::Age, "4".to_string());
    assert_eq!(form.name, "3");
    assert_eq!(form.age, "4");
    assert_eq!(form.income, "1");
    assert_eq!(form.mortgage, "2");
}

#[test]
fn client_form_clone_is_equal() {
    let mut form = ClientData::new();
    form.set(Field::Name, "Ann".to_string());
    form.set(Field::Age, "30".to_string());
    assert_eq!(form.clone(), form);
}

#[test]
fn short_form_is_complete_when_no_field_is_empty() {
    let mut form = FormData::new();
    assert!(!form.is_complete());
    form.set(FormField::Name, "Ann".to_string());
    form.set(FormField::Age, "x".to_string());
    assert!(!form.is_complete());
    form.set(FormField::Income, "y".to_string());
    assert!(form.is_complete());
    assert_eq!(form.clone(), form);
    assert_eq!(
        form,
        FormData { name: "Ann".to_string(), age: "x".to_string(), income: "y".to_string() }
    );
}
