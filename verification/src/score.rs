//! The score of an application and the status that follows from it.
//!
//! A score is counted in millionths of a point. An income contributes one
//! point per thousand currency units; under the formula that counts age as
//! well, each year of age contributes one and a half points. A score keeps
//! what an amount keeps, so that its status is decided on the income as it
//! was written, with every digit counted.

use crate::amount::{Amount, Measure};
use vstd::prelude::*;

verus! {

/// What one year of age adds to a score, in millionths of a point.
pub const AGE_WEIGHT: i128 = 1_500_000;

/// A score above this many millionths of a point is high.
pub const HIGH_ABOVE: i128 = 100_000_000;

/// A score above this many millionths of a point, and not high, is moderate.
pub const MODERATE_ABOVE: i128 = 50_000_000;

/// Which inputs a score is made of.
#[derive(Clone, Copy, Debug, PartialEq, Eq, Structural)]
pub enum Formula {
    /// Income and age together.
    IncomeAndAge,
    /// Income alone.
    IncomeOnly,
}

/// The category that a score falls in.
#[derive(Clone, Copy, Debug, PartialEq, Eq, Structural)]
pub enum Status {
    High,
    Moderate,
    UnderReview,
}

/// A score, in millionths of a point: the whole millionths, rounded down,
/// and whether a fraction of a millionth lies above them; or no number,
/// where the income is none.
#[derive(Clone, Copy, Debug, PartialEq, Eq)]
pub struct Score {
    millionths: i128,
    fraction: bool,
    number: bool,
}

impl View for Score {
    type V = Measure;

    /// The score, in millionths of a point.
    closed spec fn view(&self) -> Measure {
        if self.number {
            Measure::Number { whole: self.millionths as int, fraction: self.fraction }
        } else {
            Measure::NotANumber
        }
    }
}

/// The score, in millionths of a point, of an applicant of `age` years with
/// an income of `income` thousandths of a currency unit: the income, and
/// under the formula that counts age the weight of the age added to it. An
/// income that is no number gives a score that is none.
pub open spec fn score_of(formula: Formula, age: nat, income: Measure) -> Measure {
    match formula {
        Formula::IncomeAndAge => income.plus(AGE_WEIGHT * age),
        Formula::IncomeOnly => income,
    }
}

/// The status of a score: high above the high mark, moderate above the
/// moderate mark, under review otherwise. A score that is no number is
/// above no mark.
pub open spec fn status_of(score: Measure) -> Status {
    if score.exceeds(HIGH_ABOVE as int) {
        Status::High
    } else if score.exceeds(MODERATE_ABOVE as int) {
        Status::Moderate
    } else {
        Status::UnderReview
    }
}

/// The place of a status in the order from under review to high.
pub open spec fn status_rank(status: Status) -> nat {
    match status {
        Status::UnderReview => 0,
        Status::Moderate => 1,
        Status::High => 2,
    }
}

/// The label under which a status is shown.
pub open spec fn label_of(status: Status) -> Seq<char> {
    match status {
        Status::High => "high"@,
        Status::Moderate => "moderate"@,
        Status::UnderReview => "under review"@,
    }
}

impl Score {
    #[verifier::type_invariant]
    spec fn well_formed(self) -> bool {
        !self.number ==> self.millionths == 0 && !self.fraction
    }

    /// The score of exactly `millionths` millionths of a point.
    pub fn from_millionths(millionths: i128) -> (r: Score)
        ensures
            r@ == (Measure::Number { whole: millionths as int, fraction: false }),
    {
        Score { millionths, fraction: false, number: true }
    }

    /// The score that is no number.
    pub fn not_a_number() -> (r: Score)
        ensures
            r@ == Measure::NotANumber,
    {
        Score { millionths: 0, fraction: false, number: false }
    }

    /// Tells whether the score is a number.
    pub fn is_number(&self) -> (r: bool)
        ensures
            r == self@ is Number,
    {
        self.number
    }

    /// The whole millionths of the score, rounded down; zero for what is
    /// no number.
    pub fn millionths(&self) -> (v: i128)
        ensures
            self@ matches Measure::Number { whole, .. } ==> v == whole,
            self@ is NotANumber ==> v == 0,
    {
        proof {
            use_type_invariant(self);
        }
        self.millionths
    }

    /// Tells whether a fraction of a millionth lies above the whole
    /// millionths.
    pub fn has_fraction(&self) -> (r: bool)
        ensures
            self@ matches Measure::Number { fraction, .. } ==> r == fraction,
            self@ is NotANumber ==> !r,
    {
        proof {
            use_type_invariant(self);
        }
        self.fraction
    }

    /// Tells whether the score is greater than `mark` millionths of a
    /// point.
    pub fn exceeds(&self, mark: i128) -> (r: bool)
        ensures
            r == self@.exceeds(mark as int),
    {
        self.number && (self.millionths > mark || (self.millionths == mark && self.fraction))
    }

    /// The status that this score falls in.
    pub fn status(&self) -> (r: Status)
        ensures
            r == status_of(self@),
    {
        if self.exceeds(HIGH_ABOVE) {
            Status::High
        } else if self.exceeds(MODERATE_ABOVE) {
            Status::Moderate
        } else {
            Status::UnderReview
        }
    }
}

impl Status {
    /// The label under which this status is shown.
    pub fn label(&self) -> (r: &'static str)
        ensures
            r@ == label_of(*self),
    {
        match self {
            Status::High => "high",
            Status::Moderate => "moderate",
            Status::UnderReview => "under review",
        }
    }
}

/// Computes the score of an applicant from the age and the income.
pub fn score(formula: Formula, age: u32, income: Amount) -> (r: Score)
    ensures
        r@ == score_of(formula, age as nat, income@),
{
    if !income.is_number() {
        return Score::not_a_number();
    }
    let base: i128 = income.thousandths();
    let fraction: bool = income.has_fraction();
    match formula {
        Formula::IncomeAndAge => Score {
            millionths: base + AGE_WEIGHT * (age as i128),
            fraction,
            number: true,
        },
        Formula::IncomeOnly => Score { millionths: base, fraction, number: true },
    }
}

/// Scoring is a function of its inputs: the same formula, age and income
/// give the same score and the same status, whenever and wherever they are
/// scored.
pub proof fn lemma_same_inputs_same_score(
    formula: Formula,
    age_a: nat,
    income_a: Measure,
    age_b: nat,
    income_b: Measure,
)
    requires
        age_a == age_b,
        income_a == income_b,
    ensures
        score_of(formula, age_a, income_a) == score_of(formula, age_b, income_b),
        status_of(score_of(formula, age_a, income_a)) == status_of(
            score_of(formula, age_b, income_b),
        ),
{
}

/// Raising the age or the income never lowers the score or the status.
pub proof fn lemma_more_never_lowers(
    formula: Formula,
    age_a: nat,
    income_a: Measure,
    age_b: nat,
    income_b: Measure,
)
    requires
        age_a <= age_b,
        income_a.at_most(income_b),
    ensures
        score_of(formula, age_a, income_a).at_most(score_of(formula, age_b, income_b)),
        status_rank(status_of(score_of(formula, age_a, income_a))) <= status_rank(
            status_of(score_of(formula, age_b, income_b)),
        ),
{
}

/// A score that is no number is above no mark: its status is under
/// review.
pub proof fn lemma_no_number_is_under_review(formula: Formula, age: nat)
    ensures
        status_of(score_of(formula, age, Measure::NotANumber)) == Status::UnderReview,
{
}

} // verus!
