//! The mortgage application with a waiting time: an applicant fills in a
//! short form, waits while the application is evaluated, and is shown the
//! assessment.
//!
//! The library decides; the embedding program waits. Submitting a form
//! answers with the action to take, and the program reports back when the
//! wait is over.

use crate::amount::{
    amount_of, has_minus, is_decimal, is_infinite, is_nan, lemma_amount_decides_as_written,
    parse_amount, written_exceeds, Measure,
};
use crate::form::{FormData, FormField, FormText};
use crate::score::{score, score_of, status_of, Formula, Score, Status, MODERATE_ABOVE};
use vstd::prelude::*;
use vstd::string::*;

verus! {

/// How long an evaluation is made to take, in seconds.
pub const DELAY_SECONDS: u64 = 2;

/// What evaluating a submitted form produces.
#[derive(Debug, PartialEq, Eq)]
pub struct Evaluation {
    /// The form as it was submitted.
    pub form: FormData,
    /// The score computed from the income.
    pub score: Score,
    /// The category of the score.
    pub status: Status,
    /// Whether the applicant qualifies: whether the score is above moderate.
    pub qualifies: bool,
    /// The sentence shown to the applicant.
    pub message: String,
}

/// An evaluation as plain values.
pub struct Assessment {
    pub form: FormText,
    pub score: Measure,
    pub status: Status,
    pub qualifies: bool,
    pub message: Seq<char>,
}

impl View for Evaluation {
    type V = Assessment;

    open spec fn view(&self) -> Assessment {
        Assessment {
            form: self.form@,
            score: self.score@,
            status: self.status,
            qualifies: self.qualifies,
            message: self.message@,
        }
    }
}

/// The sentence that tells an applicant whether they qualify.
pub open spec fn message_of(qualifies: bool) -> Seq<char> {
    "Based on our model, you "@ + (if qualifies {
        "qualify"@
    } else {
        "do not qualify"@
    }) + " for a mortgage. You can verify the proof below (...)"@
}

/// The assessment of the form `form`: the score of the income written in it,
/// where text that is no number counts as zero, the status of that score,
/// and qualification exactly for a score above the moderate mark.
pub open spec fn assessment_of(form: FormText) -> Assessment {
    let points = score_of(Formula::IncomeOnly, 0, amount_of(form.income));
    Assessment {
        form,
        score: points,
        status: status_of(points),
        qualifies: points.exceeds(MODERATE_ABOVE as int),
        message: message_of(points.exceeds(MODERATE_ABOVE as int)),
    }
}

/// Writes the sentence that tells an applicant whether they qualify.
pub fn message(qualifies: bool) -> (r: String)
    ensures
        r@ == message_of(qualifies),
{
    let advice: &str = if qualifies {
        "qualify"
    } else {
        "do not qualify"
    };
    let opening: String = "Based on our model, you ".to_owned();
    opening.concat(advice).concat(" for a mortgage. You can verify the proof below (...)")
}

/// Evaluates a submitted form. Never fails: an income that is no number
/// is scored as zero.
pub fn evaluate(form: FormData) -> (r: Evaluation)
    ensures
        r@ == assessment_of(form@),
{
    let income = parse_amount(form.income.as_str());
    let points = score(Formula::IncomeOnly, 0, income);
    let status = points.status();
    let qualifies: bool = points.exceeds(MODERATE_ABOVE);
    Evaluation { form, score: points, status, qualifies, message: message(qualifies) }
}

/// An applicant qualifies exactly when the status is moderate or high; and
/// an income that is neither a decimal number nor one of the three words is
/// scored as the income zero, which does not qualify.
pub proof fn lemma_qualifies_is_above_moderate(form: FormText)
    ensures
        assessment_of(form).qualifies <==> assessment_of(form).status != Status::UnderReview,
        !is_decimal(form.income) && !is_nan(form.income) && !is_infinite(form.income)
            ==> assessment_of(form).score == (Measure::Number { whole: 0, fraction: false })
            && !assessment_of(form).qualifies,
{
}

/// Qualification is decided on the income as it is written, every digit
/// counted: for an income that is a decimal text, the applicant qualifies
/// exactly when the written income, in thousandths, is greater than the
/// moderate mark. An infinite income qualifies unless it has a minus sign,
/// and an income that is no number does not qualify.
pub proof fn lemma_qualification_counts_every_digit(form: FormText)
    ensures
        is_decimal(form.income) && !is_nan(form.income) && !is_infinite(form.income) ==> (
        assessment_of(form).qualifies <==> written_exceeds(form.income, MODERATE_ABOVE as int)),
        is_nan(form.income) ==> !assessment_of(form).qualifies,
        is_infinite(form.income) && !is_nan(form.income) ==> (assessment_of(form).qualifies
            <==> !has_minus(form.income)),
{
    if is_decimal(form.income) && !is_nan(form.income) && !is_infinite(form.income) {
        lemma_amount_decides_as_written(form.income, MODERATE_ABOVE as int);
    }
}

/// Raising the income never turns qualifying into not qualifying; the name
/// and the age play no part.
pub proof fn lemma_more_never_disqualifies(lower: FormText, higher: FormText)
    requires
        amount_of(lower.income).at_most(amount_of(higher.income)),
    ensures
        assessment_of(lower).qualifies ==> assessment_of(higher).qualifies,
{
}

/// Where an application stands.
#[derive(Debug, PartialEq, Eq)]
pub enum AppState {
    /// The form is open for submission.
    Form,
    /// The form that was submitted is being evaluated.
    Loading(FormData),
    /// The evaluation is done.
    Result(Evaluation),
}

/// Where an application stands, as plain values.
pub enum Stage {
    Form,
    Loading(FormText),
    Result(Assessment),
}

impl View for AppState {
    type V = Stage;

    open spec fn view(&self) -> Stage {
        match self {
            AppState::Form => Stage::Form,
            AppState::Loading(form) => Stage::Loading(form@),
            AppState::Result(evaluation) => Stage::Result(evaluation@),
        }
    }
}

/// What the embedding program is to do after an event.
#[derive(Clone, Copy, Debug, PartialEq, Eq, Structural)]
pub enum Action {
    /// Nothing.
    Nothing,
    /// Wait for so many seconds, then report that the wait is over.
    Wait { seconds: u64 },
}

/// A user action on the application, or the end of a wait.
#[derive(Debug, PartialEq, Eq)]
pub enum AppEvent {
    /// Typing `text` into `field` of the form.
    Edit { field: FormField, text: String },
    /// Submitting the form.
    Submit,
    /// The wait that a submission asked for is over.
    DelayElapsed,
    /// Starting over with an empty form.
    Restart,
}

/// The application: the form as it stands, and the stage reached.
#[derive(Debug, PartialEq, Eq)]
pub struct Application {
    form: FormData,
    state: AppState,
}

/// The state of an application as plain values.
pub struct Session {
    pub form: FormText,
    pub stage: Stage,
}

/// The place of a stage in the order of the application.
pub open spec fn stage_rank(stage: Stage) -> nat {
    match stage {
        Stage::Form => 0,
        Stage::Loading(_) => 1,
        Stage::Result(_) => 2,
    }
}

impl Session {
    /// The state in which every application starts: an empty form, open
    /// for submission.
    pub open spec fn initial() -> Session {
        Session { form: FormText::blank(), stage: Stage::Form }
    }

    /// What holds of every state an application can reach: a form under
    /// evaluation is complete, and an assessment is that of a complete form.
    pub open spec fn valid(self) -> bool {
        match self.stage {
            Stage::Form => true,
            Stage::Loading(submitted) => submitted.is_complete(),
            Stage::Result(assessment) => assessment.form.is_complete() && assessment == assessment_of(
                assessment.form,
            ),
        }
    }

    /// The state after typing `text` into `field`. The form stays open to
    /// typing at every stage; what was submitted is not touched by it.
    pub open spec fn edited(self, field: FormField, text: Seq<char>) -> Session {
        Session { form: self.form.with(field, text), ..self }
    }

    /// Whether submitting is accepted: with the form open for submission
    /// and complete.
    pub open spec fn can_submit(self) -> bool {
        self.stage is Form && self.form.is_complete()
    }

    /// The state after submitting the form.
    pub open spec fn submitted(self) -> Session {
        if self.can_submit() {
            Session { stage: Stage::Loading(self.form), ..self }
        } else {
            self
        }
    }

    /// The state after the wait is over: the assessment of the form as it
    /// was submitted.
    pub open spec fn evaluated(self) -> Session {
        match self.stage {
            Stage::Loading(submitted) => Session {
                stage: Stage::Result(assessment_of(submitted)),
                ..self
            },
            _ => self,
        }
    }

    /// The state after `event`.
    pub open spec fn after(self, event: AppEvent) -> Session {
        match event {
            AppEvent::Edit { field, text } => self.edited(field, text@),
            AppEvent::Submit => self.submitted(),
            AppEvent::DelayElapsed => self.evaluated(),
            AppEvent::Restart => Session::initial(),
        }
    }

    /// What the embedding program is to do after `event` arrives in this
    /// state: wait after a submission that was accepted, and nothing
    /// otherwise.
    pub open spec fn action(self, event: AppEvent) -> Action {
        if event == AppEvent::Submit && self.can_submit() {
            Action::Wait { seconds: DELAY_SECONDS }
        } else {
            Action::Nothing
        }
    }
}

impl View for Application {
    type V = Session;

    closed spec fn view(&self) -> Session {
        Session { form: self.form@, stage: self.state@ }
    }
}

impl Application {
    #[verifier::type_invariant]
    spec fn well_formed(self) -> bool {
        self@.valid()
    }

    /// An application at its start.
    pub fn new() -> (r: Application)
        ensures
            r@ == Session::initial(),
            r@.valid(),
    {
        Application { form: FormData::new(), state: AppState::Form }
    }

    /// The form as it stands.
    pub fn form(&self) -> (r: &FormData)
        ensures
            r@ == self@.form,
    {
        &self.form
    }

    /// The stage reached. A form under evaluation is always complete, and
    /// an assessment is always that of the form it holds.
    pub fn state(&self) -> (r: &AppState)
        ensures
            r@ == self@.stage,
            self@.valid(),
    {
        proof {
            use_type_invariant(self);
        }
        &self.state
    }

    /// Types `text` into `field`.
    pub fn edit(&mut self, field: FormField, text: String)
        ensures
            final(self)@ == old(self)@.edited(field, text@),
            final(self)@.valid(),
    {
        proof {
            use_type_invariant(&*self);
        }
        let mut form = self.form.clone();
        form.set(field, text);
        self.form = form;
    }

    /// Submits the form and says what to do next. The submission is
    /// accepted when the form is open for submission and no field of it is
    /// empty: the application then holds the form as submitted and asks for
    /// the wait. Otherwise nothing changes and nothing is to be done.
    pub fn submit(&mut self) -> (action: Action)
        ensures
            final(self)@ == old(self)@.submitted(),
            final(self)@.valid(),
            action == old(self)@.action(AppEvent::Submit),
    {
        proof {
            use_type_invariant(&*self);
        }
        let open: bool = match &self.state {
            AppState::Form => true,
            _ => false,
        };
        if open && self.form.is_complete() {
            self.state = AppState::Loading(self.form.clone());
            Action::Wait { seconds: DELAY_SECONDS }
        } else {
            Action::Nothing
        }
    }

    /// Reports that the wait is over, and tells whether an evaluation was
    /// pending. If one was, the application now holds its assessment;
    /// otherwise nothing changes.
    pub fn delay_elapsed(&mut self) -> (accepted: bool)
        ensures
            accepted == old(self)@.stage is Loading,
            final(self)@ == old(self)@.evaluated(),
            final(self)@.valid(),
    {
        proof {
            use_type_invariant(&*self);
        }
        let pending: Option<FormData> = match &self.state {
            AppState::Loading(submitted) => Some(submitted.clone()),
            _ => None,
        };
        match pending {
            Some(submitted) => {
                self.state = AppState::Result(evaluate(submitted));
                true
            },
            None => false,
        }
    }

    /// Starts over: empties the form, drops what was submitted and any
    /// assessment, and opens the form for submission, whatever the state was.
    pub fn restart(&mut self)
        ensures
            final(self)@ == Session::initial(),
            final(self)@.valid(),
    {
        *self = Application::new();
    }

    /// Applies one event and says what to do next.
    pub fn step(&mut self, event: AppEvent) -> (action: Action)
        ensures
            final(self)@ == old(self)@.after(event),
            final(self)@.valid(),
            action == old(self)@.action(event),
    {
        match event {
            AppEvent::Edit { field, text } => {
                self.edit(field, text);
                Action::Nothing
            },
            AppEvent::Submit => self.submit(),
            AppEvent::DelayElapsed => {
                self.delay_elapsed();
                Action::Nothing
            },
            AppEvent::Restart => {
                self.restart();
                Action::Nothing
            },
        }
    }
}

/// An application starts in a valid state.
pub proof fn lemma_initial_is_valid()
    ensures
        Session::initial().valid(),
{
}

/// No event leads out of the valid states.
pub proof fn lemma_valid_is_kept(session: Session, event: AppEvent)
    requires
        session.valid(),
    ensures
        session.after(event).valid(),
{
}

/// Submitting a form with an empty field is refused: the state stays as it
/// was, the form stays open, and no wait is asked for.
pub proof fn lemma_incomplete_form_is_refused(session: Session)
    requires
        session.stage is Form,
        !session.form.is_complete(),
    ensures
        session.submitted() == session,
        session.submitted().stage is Form,
        session.action(AppEvent::Submit) == Action::Nothing,
{
}

/// Submitting an open form without an empty field starts the evaluation of
/// the form as it stands and asks for the wait; and it does so once:
/// submitting again changes nothing and asks for nothing.
pub proof fn lemma_complete_form_advances_once(session: Session)
    requires
        session.stage is Form,
        session.form.is_complete(),
    ensures
        session.submitted() == (Session { stage: Stage::Loading(session.form), ..session }),
        session.action(AppEvent::Submit) == (Action::Wait { seconds: DELAY_SECONDS }),
        session.submitted().submitted() == session.submitted(),
        session.submitted().action(AppEvent::Submit) == Action::Nothing,
{
}

/// Restarting, from any state, gives an empty form, open for submission,
/// with nothing pending and no assessment.
pub proof fn lemma_restart_resets(session: Session)
    ensures
        session.after(AppEvent::Restart).form == FormText::blank(),
        session.after(AppEvent::Restart).stage is Form,
{
}

/// Stages are reached in order: no event but a restart leads to an
/// earlier stage, and none skips one.
pub proof fn lemma_stages_go_forward(session: Session, event: AppEvent)
    requires
        event != AppEvent::Restart,
    ensures
        stage_rank(session.stage) <= stage_rank(session.after(event).stage) <= stage_rank(
            session.stage,
        ) + 1,
{
}

/// The assessment is of the form as it was submitted: typing during the wait
/// does not change it.
pub proof fn lemma_assessment_is_on_submitted_form(
    session: Session,
    field: FormField,
    text: Seq<char>,
)
    requires
        session.can_submit(),
    ensures
        session.submitted().edited(field, text).evaluated().stage == Stage::Result(
            assessment_of(session.form),
        ),
{
}

} // verus!
