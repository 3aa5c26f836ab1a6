//! The three-screen review workflow: a client fills in a form, the bank
//! processes it, and an observer reviews the outcome.
//!
//! The workflow is a state machine. Each user action is an event; an event
//! that is not allowed in the current state changes nothing.

use crate::amount::{
    amount_of, has_minus, is_decimal, is_infinite, is_nan, lemma_amount_decides_as_written,
    parse_amount, written_exceeds, Measure,
};
use crate::form::{ClientData, ClientText, Field};
use crate::numeral::{age_of, is_whole_number, parse_age};
use crate::score::{
    lemma_more_never_lowers, score, score_of, status_of, status_rank, Formula, Score, Status,
    AGE_WEIGHT, HIGH_ABOVE, MODERATE_ABOVE,
};
use vstd::prelude::*;

verus! {

/// The screens of the workflow, in the order in which they are visited.
#[derive(Clone, Copy, Debug, PartialEq, Eq, Structural)]
pub enum Screen {
    ClientInput,
    ServerProcessing,
    ObserverReview,
}

/// What processing a client's form produces.
#[derive(Debug, PartialEq, Eq)]
pub struct ProcessingResult {
    /// The form as it was submitted.
    pub client_data: ClientData,
    /// The score computed from the age and the income.
    pub score: Score,
    /// The category of the score.
    pub status: Status,
    /// Whether the application is approved: whether the score is high.
    pub approved: bool,
    /// The commitment attached to the outcome; a fixed text.
    pub commitment: String,
    /// The evidence attached to the outcome; a fixed text.
    pub evidence: String,
    /// The signature attached to the outcome; a fixed text.
    pub signature: String,
}

/// A processing result as plain values.
pub struct Outcome {
    pub client_data: ClientText,
    pub score: Measure,
    pub status: Status,
    pub approved: bool,
    pub commitment: Seq<char>,
    pub evidence: Seq<char>,
    pub signature: Seq<char>,
}

impl View for ProcessingResult {
    type V = Outcome;

    open spec fn view(&self) -> Outcome {
        Outcome {
            client_data: self.client_data@,
            score: self.score@,
            status: self.status,
            approved: self.approved,
            commitment: self.commitment@,
            evidence: self.evidence@,
            signature: self.signature@,
        }
    }
}

/// The outcome of processing the form `data`: the score of the age and the
/// income written in it, where text that is no number counts as zero, the
/// status of that score, approval exactly for a high score, and the three
/// fixed attachments.
pub open spec fn outcome_of(data: ClientText) -> Outcome {
    let points = score_of(Formula::IncomeAndAge, age_of(data.age), amount_of(data.income));
    Outcome {
        client_data: data,
        score: points,
        status: status_of(points),
        approved: points.exceeds(HIGH_ABOVE as int),
        commitment: "COMMITMENT"@,
        evidence: "PROOF"@,
        signature: "SIGNATURE"@,
    }
}

/// Processes a submitted form. Never fails: an age or an income that is no
/// number is scored as zero.
pub fn process_input(data: ClientData) -> (r: ProcessingResult)
    ensures
        r@ == outcome_of(data@),
{
    let age: u32 = parse_age(data.age.as_str());
    let income = parse_amount(data.income.as_str());
    let points = score(Formula::IncomeAndAge, age, income);
    let status = points.status();
    let approved: bool = points.exceeds(HIGH_ABOVE);
    ProcessingResult {
        client_data: data,
        score: points,
        status,
        approved,
        commitment: "COMMITMENT".to_owned(),
        evidence: "PROOF".to_owned(),
        signature: "SIGNATURE".to_owned(),
    }
}

/// An age that is no whole number is scored as the age zero, and an income
/// that is neither a decimal number nor one of the three words as the
/// income zero; neither stops the processing.
pub proof fn lemma_unreadable_numbers_score_as_zero(data: ClientText)
    ensures
        !is_whole_number(data.age) ==> outcome_of(data).score == score_of(
            Formula::IncomeAndAge,
            0,
            amount_of(data.income),
        ),
        !is_decimal(data.income) && !is_nan(data.income) && !is_infinite(data.income)
            ==> outcome_of(data).score == score_of(
            Formula::IncomeAndAge,
            age_of(data.age),
            Measure::Number { whole: 0, fraction: false },
        ),
{
}

/// Approval is decided on the income as it is written, every digit
/// counted: for an income that is a decimal text, the application is
/// approved exactly when the written income, in thousandths, is greater
/// than what the high mark leaves after the weight of the age.
pub proof fn lemma_approval_counts_every_digit(data: ClientText)
    requires
        is_decimal(data.income),
        !is_nan(data.income),
        !is_infinite(data.income),
    ensures
        outcome_of(data).approved <==> written_exceeds(
            data.income,
            HIGH_ABOVE - AGE_WEIGHT * age_of(data.age),
        ),
        outcome_of(data).status == Status::UnderReview <==> !written_exceeds(
            data.income,
            MODERATE_ABOVE - AGE_WEIGHT * age_of(data.age),
        ),
{
    let weight = AGE_WEIGHT * age_of(data.age);
    assert(0 <= weight <= AGE_WEIGHT * u32::MAX);
    lemma_amount_decides_as_written(data.income, HIGH_ABOVE - weight);
    lemma_amount_decides_as_written(data.income, MODERATE_ABOVE - weight);
}

/// An infinite income is approved, unless it has a minus sign; an income
/// that is no number is not approved, whatever the age.
pub proof fn lemma_words_are_decided(data: ClientText)
    ensures
        is_nan(data.income) ==> !outcome_of(data).approved && outcome_of(data).status
            == Status::UnderReview,
        is_infinite(data.income) && !is_nan(data.income) ==> (outcome_of(data).approved
            <==> !has_minus(data.income)),
{
    let weight = AGE_WEIGHT * age_of(data.age);
    assert(0 <= weight <= AGE_WEIGHT * u32::MAX);
}

/// Raising the age or the income never turns an approval into a refusal.
pub proof fn lemma_more_never_refuses(lower: ClientText, higher: ClientText)
    requires
        age_of(lower.age) <= age_of(higher.age),
        amount_of(lower.income).at_most(amount_of(higher.income)),
    ensures
        outcome_of(lower).approved ==> outcome_of(higher).approved,
        status_rank(outcome_of(lower).status) <= status_rank(outcome_of(higher).status),
{
    lemma_more_never_lowers(
        Formula::IncomeAndAge,
        age_of(lower.age),
        amount_of(lower.income),
        age_of(higher.age),
        amount_of(higher.income),
    );
}

/// An application is approved exactly when its status is high.
pub proof fn lemma_approved_is_high(data: ClientText)
    ensures
        outcome_of(data).approved <==> outcome_of(data).status == Status::High,
{
}

/// A user action on the workflow.
#[derive(Debug, PartialEq, Eq)]
pub enum Event {
    /// Typing `text` into `field` of the client form.
    Edit { field: Field, text: String },
    /// Submitting the client form to the bank.
    Submit,
    /// Asking the bank to process the submitted form.
    Process,
    /// Sending the outcome on to the observer.
    Send,
    /// Starting over with an empty form.
    Restart,
}

/// The workflow: the screen that is active, the client's form, and the
/// outcome of processing once there is one.
#[derive(Debug, PartialEq, Eq)]
pub struct Workflow {
    screen: Screen,
    client_data: ClientData,
    result: Option<ProcessingResult>,
}

/// The state of a workflow as plain values.
pub struct State {
    pub screen: Screen,
    pub client_data: ClientText,
    pub result: Option<Outcome>,
}

/// The place of a screen in the order of the workflow.
pub open spec fn rank(screen: Screen) -> nat {
    match screen {
        Screen::ClientInput => 0,
        Screen::ServerProcessing => 1,
        Screen::ObserverReview => 2,
    }
}

impl State {
    /// The state in which every workflow starts: the client screen, an
    /// empty form, no outcome.
    pub open spec fn initial() -> State {
        State { screen: Screen::ClientInput, client_data: ClientText::blank(), result: None }
    }

    /// What holds of every state a workflow can reach.
    ///
    /// There is an outcome only from the processing screen on, and always
    /// on the review screen; an outcome is that of the form as it stands;
    /// and the form is complete once it has left the client screen.
    pub open spec fn valid(self) -> bool {
        &&& self.screen == Screen::ClientInput ==> self.result is None
        &&& self.screen == Screen::ObserverReview ==> self.result is Some
        &&& self.result matches Some(outcome) ==> outcome == outcome_of(self.client_data)
        &&& self.screen != Screen::ClientInput ==> self.client_data.is_complete()
    }

    /// The state after typing `text` into `field`. The form can be edited
    /// on the client screen only.
    pub open spec fn edited(self, field: Field, text: Seq<char>) -> State {
        if self.screen == Screen::ClientInput {
            State { client_data: self.client_data.with(field, text), ..self }
        } else {
            self
        }
    }

    /// Whether submitting is accepted: on the client screen, with a
    /// complete form.
    pub open spec fn can_submit(self) -> bool {
        self.screen == Screen::ClientInput && self.client_data.is_complete()
    }

    /// The state after submitting the form.
    pub open spec fn submitted(self) -> State {
        if self.can_submit() {
            State { screen: Screen::ServerProcessing, ..self }
        } else {
            self
        }
    }

    /// Whether processing is accepted: on the processing screen, before
    /// there is an outcome.
    pub open spec fn can_process(self) -> bool {
        self.screen == Screen::ServerProcessing && self.result is None
    }

    /// The state after processing the form.
    pub open spec fn processed(self) -> State {
        if self.can_process() {
            State { result: Some(outcome_of(self.client_data)), ..self }
        } else {
            self
        }
    }

    /// Whether sending is accepted: on the processing screen, once there
    /// is an outcome.
    pub open spec fn can_send(self) -> bool {
        self.screen == Screen::ServerProcessing && self.result is Some
    }

    /// The state after sending the outcome to the observer.
    pub open spec fn sent(self) -> State {
        if self.can_send() {
            State { screen: Screen::ObserverReview, ..self }
        } else {
            self
        }
    }

    /// The state after `event`.
    pub open spec fn after(self, event: Event) -> State {
        match event {
            Event::Edit { field, text } => self.edited(field, text@),
            Event::Submit => self.submitted(),
            Event::Process => self.processed(),
            Event::Send => self.sent(),
            Event::Restart => State::initial(),
        }
    }
}

impl View for Workflow {
    type V = State;

    closed spec fn view(&self) -> State {
        State {
            screen: self.screen,
            client_data: self.client_data@,
            result: match self.result {
                Some(r) => Some(r@),
                None => None,
            },
        }
    }
}

impl Workflow {
    #[verifier::type_invariant]
    spec fn well_formed(self) -> bool {
        self@.valid()
    }

    /// A workflow at its start.
    pub fn new() -> (r: Workflow)
        ensures
            r@ == State::initial(),
            r@.valid(),
    {
        Workflow { screen: Screen::ClientInput, client_data: ClientData::new(), result: None }
    }

    /// The screen that is active.
    pub fn screen(&self) -> (r: Screen)
        ensures
            r == self@.screen,
    {
        self.screen
    }

    /// The client's form.
    pub fn client_data(&self) -> (r: &ClientData)
        ensures
            r@ == self@.client_data,
    {
        &self.client_data
    }

    /// The outcome of processing, once there is one. It is always the
    /// outcome of the form as it stands.
    pub fn result(&self) -> (r: Option<&ProcessingResult>)
        ensures
            r is Some == self@.result is Some,
            r matches Some(outcome) ==> self@.result == Some(outcome@) && outcome@ == outcome_of(
                self@.client_data,
            ),
            self@.valid(),
    {
        proof {
            use_type_invariant(self);
        }
        self.result.as_ref()
    }

    /// Types `text` into `field`. Changes nothing away from the client
    /// screen.
    pub fn edit(&mut self, field: Field, text: String)
        ensures
            final(self)@ == old(self)@.edited(field, text@),
            final(self)@.valid(),
    {
        proof {
            use_type_invariant(&*self);
        }
        if self.screen == Screen::ClientInput {
            let mut data = self.client_data.clone();
            data.set(field, text);
            self.client_data = data;
        }
    }

    /// Submits the form, and tells whether that was accepted. It is
    /// accepted on the client screen when no required field of the form is
    /// empty;
    /// otherwise nothing changes.
    pub fn submit(&mut self) -> (accepted: bool)
        ensures
            accepted == old(self)@.can_submit(),
            final(self)@ == old(self)@.submitted(),
            final(self)@.valid(),
    {
        proof {
            use_type_invariant(&*self);
        }
        if self.screen == Screen::ClientInput && self.client_data.is_complete() {
            self.screen = Screen::ServerProcessing;
            true
        } else {
            false
        }
    }

    /// Processes the submitted form, and tells whether that was accepted.
    /// It is accepted on the processing screen while there is no outcome;
    /// otherwise nothing changes.
    pub fn process(&mut self) -> (accepted: bool)
        ensures
            accepted == old(self)@.can_process(),
            final(self)@ == old(self)@.processed(),
            final(self)@.valid(),
    {
        proof {
            use_type_invariant(&*self);
        }
        if self.screen == Screen::ServerProcessing && self.result.is_none() {
            let outcome = process_input(self.client_data.clone());
            self.result = Some(outcome);
            true
        } else {
            false
        }
    }

    /// Sends the outcome to the observer, and tells whether that was
    /// accepted. It is accepted on the processing screen once there is an
    /// outcome; otherwise nothing changes.
    pub fn send(&mut self) -> (accepted: bool)
        ensures
            accepted == old(self)@.can_send(),
            final(self)@ == old(self)@.sent(),
            final(self)@.valid(),
    {
        proof {
            use_type_invariant(&*self);
        }
        if self.screen == Screen::ServerProcessing && self.result.is_some() {
            self.screen = Screen::ObserverReview;
            true
        } else {
            false
        }
    }

    /// Starts over: empties the form, drops the outcome and returns to the
    /// client screen, whatever the state was.
    pub fn restart(&mut self)
        ensures
            final(self)@ == State::initial(),
            final(self)@.valid(),
    {
        *self = Workflow::new();
    }

    /// Applies one event.
    pub fn step(&mut self, event: Event)
        ensures
            final(self)@ == old(self)@.after(event),
            final(self)@.valid(),
    {
        match event {
            Event::Edit { field, text } => {
                self.edit(field, text);
            },
            Event::Submit => {
                self.submit();
            },
            Event::Process => {
                self.process();
            },
            Event::Send => {
                self.send();
            },
            Event::Restart => {
                self.restart();
            },
        }
    }
}

/// A workflow starts in a valid state.
pub proof fn lemma_initial_is_valid()
    ensures
        State::initial().valid(),
{
}

/// No event leads out of the valid states.
pub proof fn lemma_valid_is_kept(state: State, event: Event)
    requires
        state.valid(),
    ensures
        state.after(event).valid(),
{
}

/// On the client screen, submitting a form with an empty required field is
/// refused: the state stays as it was, and so the client screen stays
/// active.
pub proof fn lemma_incomplete_form_is_refused(state: State)
    requires
        state.screen == Screen::ClientInput,
        !state.client_data.is_complete(),
    ensures
        state.submitted() == state,
        state.submitted().screen == Screen::ClientInput,
{
}

/// On the client screen, submitting a form without an empty required field
/// moves to the processing screen and changes nothing else; and it does so
/// once: submitting again changes nothing.
pub proof fn lemma_complete_form_advances_once(state: State)
    requires
        state.screen == Screen::ClientInput,
        state.client_data.is_complete(),
    ensures
        state.submitted() == (State { screen: Screen::ServerProcessing, ..state }),
        state.submitted().submitted() == state.submitted(),
{
}

/// Restarting, from any state, gives an empty form, no outcome and the
/// client screen.
pub proof fn lemma_restart_resets(state: State)
    ensures
        state.after(Event::Restart).client_data == ClientText::blank(),
        state.after(Event::Restart).result is None,
        state.after(Event::Restart).screen == Screen::ClientInput,
{
}

/// Screens are visited in order: no event but a restart leads to an
/// earlier screen, and none skips one.
pub proof fn lemma_screens_go_forward(state: State, event: Event)
    requires
        event != Event::Restart,
    ensures
        rank(state.screen) <= rank(state.after(event).screen) <= rank(state.screen) + 1,
{
}

/// The form cannot change once it has left the client screen, nor an
/// outcome once it is there, except by a restart.
pub proof fn lemma_submitted_form_is_fixed(state: State, event: Event)
    requires
        event != Event::Restart,
    ensures
        state.screen != Screen::ClientInput ==> state.after(event).client_data
            == state.client_data,
        state.result is Some ==> state.after(event).result == state.result,
{
}

/// What the client's panel shows.
#[derive(Clone, Copy, Debug, PartialEq, Eq, Structural)]
pub enum ClientPanel {
    /// The form, with a submit button that is enabled or not.
    Form { can_submit: bool },
    /// A note that the client is waiting.
    Waiting,
}

/// What the bank's panel shows.
#[derive(Clone, Copy, Debug, PartialEq, Eq, Structural)]
pub enum ServerPanel {
    /// A note that no form has arrived.
    AwaitingData,
    /// The button that starts processing.
    ReadyToProcess,
    /// The outcome, with the button that sends it on.
    Complete,
}

/// What the observer's panel shows.
#[derive(Clone, Copy, Debug, PartialEq, Eq, Structural)]
pub enum ObserverPanel {
    /// A note that there is no outcome yet.
    AwaitingResults,
    /// A note that an outcome exists and has not been sent on.
    ReviewPending,
    /// The outcome, with the buttons that start over.
    Results,
}

impl State {
    /// What the client's panel shows in this state: the form while the
    /// client screen is active, its button enabled exactly for a complete
    /// form.
    pub open spec fn client_panel(self) -> ClientPanel {
        if self.screen == Screen::ClientInput {
            ClientPanel::Form { can_submit: self.client_data.is_complete() }
        } else {
            ClientPanel::Waiting
        }
    }

    /// What the bank's panel shows in this state.
    pub open spec fn server_panel(self) -> ServerPanel {
        if self.screen != Screen::ServerProcessing {
            ServerPanel::AwaitingData
        } else if self.result is None {
            ServerPanel::ReadyToProcess
        } else {
            ServerPanel::Complete
        }
    }

    /// What the observer's panel shows in this state.
    pub open spec fn observer_panel(self) -> ObserverPanel {
        if self.result is None {
            ObserverPanel::AwaitingResults
        } else if self.screen != Screen::ObserverReview {
            ObserverPanel::ReviewPending
        } else {
            ObserverPanel::Results
        }
    }
}

impl Workflow {
    /// Tells whether `screen` is the active one.
    pub fn is_active(&self, screen: Screen) -> (r: bool)
        ensures
            r == (self@.screen == screen),
    {
        self.screen == screen
    }

    /// What the client's panel shows.
    pub fn client_panel(&self) -> (r: ClientPanel)
        ensures
            r == self@.client_panel(),
    {
        if self.screen == Screen::ClientInput {
            ClientPanel::Form { can_submit: self.client_data.is_complete() }
        } else {
            ClientPanel::Waiting
        }
    }

    /// What the bank's panel shows.
    pub fn server_panel(&self) -> (r: ServerPanel)
        ensures
            r == self@.server_panel(),
    {
        if self.screen != Screen::ServerProcessing {
            ServerPanel::AwaitingData
        } else if self.result.is_none() {
            ServerPanel::ReadyToProcess
        } else {
            ServerPanel::Complete
        }
    }

    /// What the observer's panel shows.
    pub fn observer_panel(&self) -> (r: ObserverPanel)
        ensures
            r == self@.observer_panel(),
    {
        if self.result.is_none() {
            ObserverPanel::AwaitingResults
        } else if self.screen != Screen::ObserverReview {
            ObserverPanel::ReviewPending
        } else {
            ObserverPanel::Results
        }
    }
}

/// Every button that a panel shows is one whose action is accepted: the
/// enabled submit button, the process button and the send button each stand
/// for an event that changes the state.
pub proof fn lemma_shown_actions_are_accepted(state: State)
    ensures
        state.client_panel() == (ClientPanel::Form { can_submit: true }) <==> state.can_submit(),
        state.server_panel() == ServerPanel::ReadyToProcess <==> state.can_process(),
        state.server_panel() == ServerPanel::Complete <==> state.can_send(),
{
}

} // verus!
