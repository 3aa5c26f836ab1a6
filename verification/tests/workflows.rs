use loan_workflow::form::{ClientData, Field};
use loan_workflow::score::Status;
use loan_workflow::workflow::{
    ClientPanel, Event, ObserverPanel, Screen, ServerPanel, Workflow,
};

fn filled() -> Workflow {
    let mut w = Workflow::new();
    w.edit(Field::Name, "Ann".to_string());
    w.edit(Field::Age, "30".to_string());
    w.edit(Field::Income, "150000".to_string());
    w.edit(Field::Mortgage, "200000".to_string());
    w
}

#[test]
fn workflow_starts_on_the_client_screen() {
    let w = Workflow::new();
    assert_eq!(w.screen(), Screen::ClientInput);
    assert_eq!(*w.client_data(), ClientData::new());
    assert!(w.result().is_none());
    assert!(w.is_active(Screen::ClientInput));
    assert!(!w.is_active(Screen::ServerProcessing));
    assert!(!w.is_active(Screen::ObserverReview));
}

#[test]
fn submit_with_an_empty_field_is_refused() {
    for missing in [Field::Name, Field::Age, Field::Income] {
        let mut w = filled();
        w.edit(missing, String::new());
        let before = w.client_data().clone();
        assert!(!w.submit());
        assert_eq!(w.screen(), Screen::ClientInput);
        assert_eq!(*w.client_data(), before);
        assert!(w.result().is_none());
    }
    let mut empty = Workflow::new();
    assert!(!empty.submit());
    assert_eq!(empty, Workflow::new());
}

#[test]
fn submit_with_a_complete_form_advances_once() {
    let mut w = filled();
    assert!(w.submit());
    assert_eq!(w.screen(), Screen::ServerProcessing);
    assert!(w.result().is_none());
    assert_eq!(*w.client_data(), *filled().client_data());
    assert!(!w.submit());
    assert_eq!(w.screen(), Screen::ServerProcessing);
}

#[test]
fn mortgage_amount_is_optional() {
    let mut w = Workflow::new();
    w.edit(Field::Name, "Ann".to_string());
    w.edit(Field::Age, "30".to_string());
    assert_eq!(w.client_panel(), ClientPanel::Form { can_submit: false });
    w.edit(Field::Income, "150000".to_string());
    assert_eq!(w.client_data().mortgage, "");
    assert_eq!(w.client_panel(), ClientPanel::Form { can_submit: true });
    assert!(w.submit());
    assert_eq!(w.screen(), Screen::ServerProcessing);
    assert!(w.process());
    assert!(w.result().unwrap().approved);
    let mut only_mortgage = Workflow::new();
    only_mortgage.edit(Field::Mortgage, "200000".to_string());
    assert!(!only_mortgage.submit());
}

#[test]
fn submit_does_not_check_numbers() {
    let mut w = Workflow::new();
    w.edit(Field::Name, "Ann".to_string());
    w.edit(Field::Age, "abc".to_string());
    w.edit(Field::Income, "much".to_string());
    w.edit(Field::Mortgage, "?".to_string());
    assert!(w.submit());
    assert!(w.process());
    let result = w.result().unwrap();
    assert_eq!(result.score.millionths(), 0);
    assert_eq!(result.status, Status::UnderReview);
    assert!(!result.approved);
}

#[test]
fn full_run_through_the_three_screens() {
    let mut w = filled();
    assert!(!w.process());
    assert!(!w.send());
    assert!(w.submit());
    assert!(!w.send());
    assert!(w.process());
    assert!(!w.process());
    {
        let result = w.result().unwrap();
        assert_eq!(result.score.millionths(), 195_000_000);
        assert_eq!(result.status, Status::High);
        assert!(result.approved);
        assert_eq!(result.client_data, *w.client_data());
    }
    assert_eq!(w.screen(), Screen::ServerProcessing);
    assert!(w.send());
    assert_eq!(w.screen(), Screen::ObserverReview);
    assert!(w.result().is_some());
    assert!(!w.send());
    assert!(!w.submit());
    assert!(!w.process());
    assert_eq!(w.screen(), Screen::ObserverReview);
}

#[test]
fn editing_is_ignored_after_submission() {
    let mut w = filled();
    assert!(w.submit());
    w.edit(Field::Income, "1".to_string());
    assert_eq!(w.client_data().income, "150000");
    assert!(w.process());
    w.edit(Field::Name, "Bob".to_string());
    assert!(w.send());
    w.edit(Field::Age, "1".to_string());
    assert_eq!(*w.client_data(), *filled().client_data());
    assert_eq!(w.result().unwrap().score.millionths(), 195_000_000);
}

#[test]
fn restart_resets_from_every_state() {
    let mut states: Vec<Workflow> = Vec::new();
    states.push(Workflow::new());
    states.push(filled());
    let mut w = filled();
    w.submit();
    states.push(w);
    let mut w = filled();
    w.submit();
    w.process();
    states.push(w);
    let mut w = filled();
    w.submit();
    w.process();
    w.send();
    states.push(w);
    for mut w in states {
        w.restart();
        assert_eq!(w.screen(), Screen::ClientInput);
        assert_eq!(*w.client_data(), ClientData::new());
        assert!(w.result().is_none());
        assert_eq!(w, Workflow::new());
    }
}

#[test]
fn step_applies_events() {
    let mut by_step = Workflow::new();
    by_step.step(Event::Edit { field: Field::Name, text: "Ann".to_string() });
    by_step.step(Event::Edit { field: Field::Age, text: "30".to_string() });
    by_step.step(Event::Submit);
    assert_eq!(by_step.screen(), Screen::ClientInput);
    by_step.step(Event::Edit { field: Field::Mortgage, text: "200000".to_string() });
    by_step.step(Event::Submit);
    assert_eq!(by_step.screen(), Screen::ClientInput);
    by_step.step(Event::Edit { field: Field::Income, text: "150000".to_string() });
    assert_eq!(by_step, filled());
    by_step.step(Event::Send);
    by_step.step(Event::Process);
    assert_eq!(by_step, filled());
    by_step.step(Event::Submit);
    by_step.step(Event::Process);
    by_step.step(Event::Send);
    let mut by_call = filled();
    by_call.submit();
    by_call.process();
    by_call.send();
    assert_eq!(by_step, by_call);
    assert_eq!(by_step.screen(), Screen::ObserverReview);
    by_step.step(Event::Restart);
    assert_eq!(by_step, Workflow::new());
}

#[test]
fn panels_follow_the_state() {
    let mut w = Workflow::new();
    assert_eq!(w.client_panel(), ClientPanel::Form { can_submit: false });
    assert_eq!(w.server_panel(), ServerPanel::AwaitingData);
    assert_eq!(w.observer_panel(), ObserverPanel::AwaitingResults);
    let mut w2 = filled();
    assert_eq!(w2.client_panel(), ClientPanel::Form { can_submit: true });
    w2.submit();
    assert_eq!(w2.client_panel(), ClientPanel::Waiting);
    assert_eq!(w2.server_panel(), ServerPanel::ReadyToProcess);
    assert_eq!(w2.observer_panel(), ObserverPanel::AwaitingResults);
    w2.process();
    assert_eq!(w2.client_panel(), ClientPanel::Waiting);
    assert_eq!(w2.server_panel(), ServerPanel::Complete);
    assert_eq!(w2.observer_panel(), ObserverPanel::ReviewPending);
    w2.send();
    assert_eq!(w2.client_panel(), ClientPanel::Waiting);
    assert_eq!(w2.server_panel(), ServerPanel::AwaitingData);
    assert_eq!(w2.observer_panel(), ObserverPanel::Results);
    w.edit(Field::Name, "x".to_string());
    assert_eq!(w.client_panel(), ClientPanel::Form { can_submit: false });
}
