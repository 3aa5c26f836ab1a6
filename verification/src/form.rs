//! The text a user has typed into a form, and the check that decides
//! whether the form may be submitted.
//!
//! Fields hold raw text. Nothing is parsed here, and a field that is meant
//! to hold a number is not checked for holding one: a form is complete as
//! soon as none of its required fields is empty. The name, the age and the
//! income are required; the amount of the mortgage is optional.

use vstd::prelude::*;

verus! {

/// The fields of the client form.
#[derive(Clone, Copy, Debug, PartialEq, Eq, Structural)]
pub enum Field {
    Name,
    Age,
    Income,
    Mortgage,
}

/// Whether a form cannot be submitted while `field` is empty: so for the
/// name, the age and the income, and not for the amount of the mortgage.
pub open spec fn is_required(field: Field) -> bool {
    field != Field::Mortgage
}

/// What a client has typed: a name, an age, an annual income and,
/// optionally, the amount of the mortgage asked for.
#[derive(Debug, PartialEq, Eq)]
pub struct ClientData {
    pub name: String,
    pub age: String,
    pub income: String,
    pub mortgage: String,
}

/// The text of a client form, field by field.
pub struct ClientText {
    pub name: Seq<char>,
    pub age: Seq<char>,
    pub income: Seq<char>,
    pub mortgage: Seq<char>,
}

impl ClientText {
    /// The form with nothing typed into it.
    pub open spec fn blank() -> ClientText {
        ClientText {
            name: Seq::empty(),
            age: Seq::empty(),
            income: Seq::empty(),
            mortgage: Seq::empty(),
        }
    }

    /// Whether every required field holds some text: the name, the age
    /// and the income. The amount of the mortgage may be left empty.
    pub open spec fn is_complete(self) -> bool {
        self.name.len() > 0 && self.age.len() > 0 && self.income.len() > 0
    }

    /// The text of one field.
    pub open spec fn get(self, field: Field) -> Seq<char> {
        match field {
            Field::Name => self.name,
            Field::Age => self.age,
            Field::Income => self.income,
            Field::Mortgage => self.mortgage,
        }
    }

    /// This form with the text of one field replaced.
    pub open spec fn with(self, field: Field, text: Seq<char>) -> ClientText {
        match field {
            Field::Name => ClientText { name: text, ..self },
            Field::Age => ClientText { age: text, ..self },
            Field::Income => ClientText { income: text, ..self },
            Field::Mortgage => ClientText { mortgage: text, ..self },
        }
    }
}

impl View for ClientData {
    type V = ClientText;

    open spec fn view(&self) -> ClientText {
        ClientText {
            name: self.name@,
            age: self.age@,
            income: self.income@,
            mortgage: self.mortgage@,
        }
    }
}

impl Clone for ClientData {
    fn clone(&self) -> (r: Self)
        ensures
            r == *self,
    {
        ClientData {
            name: self.name.clone(),
            age: self.age.clone(),
            income: self.income.clone(),
            mortgage: self.mortgage.clone(),
        }
    }
}

impl ClientData {
    /// A form with nothing typed into it.
    pub fn new() -> (r: ClientData)
        ensures
            r@ == ClientText::blank(),
    {
        ClientData {
            name: String::new(),
            age: String::new(),
            income: String::new(),
            mortgage: String::new(),
        }
    }

    /// Tells whether the form may be submitted: whether the name, the age
    /// and the income each hold some text. The amount of the mortgage is
    /// not asked for.
    pub fn is_complete(&self) -> (r: bool)
        ensures
            r == self@.is_complete(),
    {
        !self.name.as_str().is_empty() && !self.age.as_str().is_empty()
            && !self.income.as_str().is_empty()
    }

    /// Replaces the text of one field, as typing into it does.
    pub fn set(&mut self, field: Field, text: String)
        ensures
            final(self)@ == old(self)@.with(field, text@),
    {
        match field {
            Field::Name => {
                self.name = text;
            },
            Field::Age => {
                self.age = text;
            },
            Field::Income => {
                self.income = text;
            },
            Field::Mortgage => {
                self.mortgage = text;
            },
        }
    }
}

/// The fields of the short application form.
#[derive(Clone, Copy, Debug, PartialEq, Eq, Structural)]
pub enum FormField {
    Name,
    Age,
    Income,
}

/// What an applicant has typed into the short form: a name, an age and an
/// annual income.
#[derive(Debug, PartialEq, Eq)]
pub struct FormData {
    pub name: String,
    pub age: String,
    pub income: String,
}

/// The text of a short form, field by field.
pub struct FormText {
    pub name: Seq<char>,
    pub age: Seq<char>,
    pub income: Seq<char>,
}

impl FormText {
    /// The form with nothing typed into it.
    pub open spec fn blank() -> FormText {
        FormText { name: Seq::empty(), age: Seq::empty(), income: Seq::empty() }
    }

    /// Whether every field holds some text.
    pub open spec fn is_complete(self) -> bool {
        self.name.len() > 0 && self.age.len() > 0 && self.income.len() > 0
    }

    /// The text of one field.
    pub open spec fn get(self, field: FormField) -> Seq<char> {
        match field {
            FormField::Name => self.name,
            FormField::Age => self.age,
            FormField::Income => self.income,
        }
    }

    /// This form with the text of one field replaced.
    pub open spec fn with(self, field: FormField, text: Seq<char>) -> FormText {
        match field {
            FormField::Name => FormText { name: text, ..self },
            FormField::Age => FormText { age: text, ..self },
            FormField::Income => FormText { income: text, ..self },
        }
    }
}

impl View for FormData {
    type V = FormText;

    open spec fn view(&self) -> FormText {
        FormText { name: self.name@, age: self.age@, income: self.income@ }
    }
}

impl Clone for FormData {
    fn clone(&self) -> (r: Self)
        ensures
            r == *self,
    {
        FormData {
            name: self.name.clone(),
            age: self.age.clone(),
            income: self.income.clone(),
        }
    }
}

impl FormData {
    /// A form with nothing typed into it.
    pub fn new() -> (r: FormData)
        ensures
            r@ == FormText::blank(),
    {
        FormData { name: String::new(), age: String::new(), income: String::new() }
    }

    /// Tells whether the form may be submitted: whether every field holds
    /// some text.
    pub fn is_complete(&self) -> (r: bool)
        ensures
            r == self@.is_complete(),
    {
        !self.name.as_str().is_empty() && !self.age.as_str().is_empty()
            && !self.income.as_str().is_empty()
    }

    /// Replaces the text of one field, as typing into it does.
    pub fn set(&mut self, field: FormField, text: String)
        ensures
            final(self)@ == old(self)@.with(field, text@),
    {
        match field {
            FormField::Name => {
                self.name = text;
            },
            FormField::Age => {
                self.age = text;
            },
            FormField::Income => {
                self.income = text;
            },
        }
    }
}

/// Typing into a field changes that field and no other.
pub proof fn lemma_edit_changes_one_field(
    form: ClientText,
    field: Field,
    text: Seq<char>,
    other: Field,
)
    ensures
        form.with(field, text).get(field) == text,
        other != field ==> form.with(field, text).get(other) == form.get(other),
{
}

/// A client form is complete exactly when none of its required fields is
/// empty; what the fields hold beyond that, and whether the optional field
/// holds anything, plays no part.
pub proof fn lemma_complete_is_no_field_empty(form: ClientText)
    ensures
        form.is_complete() <==> forall|field: Field|
            is_required(field) ==> (#[trigger] form.get(field)).len() > 0,
{
    if forall|field: Field| is_required(field) ==> (#[trigger] form.get(field)).len() > 0 {
        assert(form.get(Field::Name).len() > 0);
        assert(form.get(Field::Age).len() > 0);
        assert(form.get(Field::Income).len() > 0);
    }
}

/// The amount of the mortgage is optional: typing into it, or emptying it,
/// never changes whether the form is complete.
pub proof fn lemma_mortgage_is_optional(form: ClientText, text: Seq<char>)
    ensures
        form.with(Field::Mortgage, text).is_complete() == form.is_complete(),
{
}

/// A short form is complete exactly when none of its three fields is
/// empty.
pub proof fn lemma_short_complete_is_no_field_empty(form: FormText)
    ensures
        form.is_complete() <==> forall|field: FormField| (#[trigger] form.get(field)).len() > 0,
{
    if forall|field: FormField| (#[trigger] form.get(field)).len() > 0 {
        assert(form.get(FormField::Name).len() > 0);
        assert(form.get(FormField::Age).len() > 0);
        assert(form.get(FormField::Income).len() > 0);
    }
}

} // verus!
