//! Three independent pieces of state: a count, a name and a flag.

use vstd::prelude::*;

verus! {

/// A count, a name and a flag.
#[derive(Debug, PartialEq, Eq)]
pub struct Trio {
    pub count: i32,
    pub name: String,
    pub flag: bool,
}

/// A trio as plain values.
pub struct TrioValues {
    pub count: int,
    pub name: Seq<char>,
    pub flag: bool,
}

impl View for Trio {
    type V = TrioValues;

    open spec fn view(&self) -> TrioValues {
        TrioValues { count: self.count as int, name: self.name@, flag: self.flag }
    }
}

impl Trio {
    /// The trio at its start: a count of zero, the name Alice, the flag
    /// down.
    pub fn new() -> (r: Trio)
        ensures
            r@ == (TrioValues { count: 0, name: "Alice"@, flag: false }),
    {
        Trio { count: 0, name: "Alice".to_owned(), flag: false }
    }

    /// Raises the count by one.
    pub fn increment(&mut self)
        requires
            old(self).count < i32::MAX,
        ensures
            final(self)@ == (TrioValues { count: old(self)@.count + 1, ..old(self)@ }),
    {
        self.count = self.count + 1;
    }

    /// Lowers the count by one.
    pub fn decrement(&mut self)
        requires
            old(self).count > i32::MIN,
        ensures
            final(self)@ == (TrioValues { count: old(self)@.count - 1, ..old(self)@ }),
    {
        self.count = self.count - 1;
    }

    /// Replaces the name.
    pub fn set_name(&mut self, name: String)
        ensures
            final(self)@ == (TrioValues { name: name@, ..old(self)@ }),
    {
        self.name = name;
    }

    /// Turns the flag over.
    pub fn toggle(&mut self)
        ensures
            final(self)@ == (TrioValues { flag: !old(self)@.flag, ..old(self)@ }),
    {
        self.flag = !self.flag;
    }
}

/// The number shown beside the count: the count and one more.
pub fn successor(n: i32) -> (r: i32)
    requires
        n < i32::MAX,
    ensures
        r == n + 1,
{
    n + 1
}

} // verus!
