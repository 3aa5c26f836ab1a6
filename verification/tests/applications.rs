use loan_workflow::form::{FormData, FormField};
use loan_workflow::loading::{Action, AppEvent, AppState, Application, DELAY_SECONDS};
use loan_workflow::score::Status;

fn filled(income: &str) -> Application {
    let mut a = Application::new();
    a.edit(FormField::Name, "Ann".to_string());
    a.edit(FormField::Age, "30".to_string());
    a.edit(FormField::Income, income.to_string());
    a
}

#[test]
fn application_starts_with_an_open_empty_form() {
    let a = Application::new();
    assert_eq!(*a.form(), FormData::new());
    assert_eq!(*a.state(), AppState::Form);
}

#[test]
fn application_with_an_empty_field_is_refused() {
    for missing in [FormField::Name, FormField::Age, FormField::Income] {
        let mut a = filled("1000");
        a.edit(missing, String::new());
        let before = a.form().clone();
        assert_eq!(a.submit(), Action::Nothing);
        assert_eq!(*a.state(), AppState::Form);
        assert_eq!(*a.form(), before);
    }
}

#[test]
fn complete_application_starts_the_wait_once() {
    let mut a = filled("1000");
    assert_eq!(a.submit(), Action::Wait { seconds: 2 });
    assert_eq!(DELAY_SECONDS, 2);
    assert_eq!(*a.state(), AppState::Loading(filled("1000").form().clone()));
    assert_eq!(a.submit(), Action::Nothing);
    assert_eq!(*a.state(), AppState::Loading(filled("1000").form().clone()));
}

#[test]
fn assessment_arrives_when_the_wait_is_over() {
    let mut a = filled("1000");
    assert!(!a.delay_elapsed());
    assert_eq!(*a.state(), AppState::Form);
    a.submit();
    assert!(a.delay_elapsed());
    match a.state() {
        AppState::Result(assessment) => {
            assert_eq!(assessment.score.millionths(), 1_000_000);
            assert_eq!(assessment.status, Status::UnderReview);
            assert!(!assessment.qualifies);
            assert_eq!(assessment.form, *filled("1000").form());
            assert_eq!(
                assessment.message,
                "Based on our model, you do not qualify for a mortgage. You can verify the proof below (...)"
            );
        }
        other => panic!("unexpected state {:?}", other),
    }
    assert!(!a.delay_elapsed());
    assert_eq!(a.submit(), Action::Nothing);
}

#[test]
fn assessment_is_on_the_form_as_submitted() {
    let mut a = filled("60000");
    a.submit();
    a.edit(FormField::Income, "1".to_string());
    assert_eq!(a.form().income, "1");
    a.delay_elapsed();
    match a.state() {
        AppState::Result(assessment) => {
            assert!(assessment.qualifies);
            assert_eq!(assessment.score.millionths(), 60_000_000);
            assert_eq!(assessment.form.income, "60000");
        }
        other => panic!("unexpected state {:?}", other),
    }
}

#[test]
fn application_restart_resets_from_every_state() {
    let mut states: Vec<Application> = Vec::new();
    states.push(Application::new());
    states.push(filled("1000"));
    let mut a = filled("1000");
    a.submit();
    states.push(a);
    let mut a = filled("1000");
    a.submit();
    a.delay_elapsed();
    states.push(a);
    for mut a in states {
        a.restart();
        assert_eq!(*a.form(), FormData::new());
        assert_eq!(*a.state(), AppState::Form);
        assert_eq!(a, Application::new());
    }
}

#[test]
fn application_step_applies_events() {
    let mut a = Application::new();
    assert_eq!(a.step(AppEvent::Submit), Action::Nothing);
    assert_eq!(a.step(AppEvent::Edit { field: FormField::Name, text: "Ann".to_string() }), Action::Nothing);
    assert_eq!(a.step(AppEvent::Edit { field: FormField::Age, text: "30".to_string() }), Action::Nothing);
    assert_eq!(a.step(AppEvent::Edit { field: FormField::Income, text: "70000".to_string() }), Action::Nothing);
    assert_eq!(a, filled("70000"));
    assert_eq!(a.step(AppEvent::DelayElapsed), Action::Nothing);
    assert_eq!(a, filled("70000"));
    assert_eq!(a.step(AppEvent::Submit), Action::Wait { seconds: DELAY_SECONDS });
    assert_eq!(a.step(AppEvent::Submit), Action::Nothing);
    assert_eq!(a.step(AppEvent::DelayElapsed), Action::Nothing);
    let mut b = filled("70000");
    b.submit();
    b.delay_elapsed();
    assert_eq!(a, b);
    assert_eq!(a.step(AppEvent::Restart), Action::Nothing);
    assert_eq!(a, Application::new());
}
