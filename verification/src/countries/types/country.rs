use crate::text::push_char;
use vstd::prelude::*;

verus! {

/// A country, by the two letters of its code.
#[derive(Clone, Copy, Debug, PartialEq, Eq, Structural, Hash)]
pub struct Country {
    /// First letter of the code.
    pub first: char,
    /// Second letter of the code.
    pub second: char,
}

impl Country {
    /// The code that stands for a country that is not known.
    pub open spec fn unknown_code() -> Country {
        Country { first: 'Z', second: 'Z' }
    }

    /// The two letters of the code.
    pub open spec fn code(self) -> Seq<char> {
        seq![self.first, self.second]
    }

    /// The code that stands for a country that is not known: `ZZ`.
    pub fn unknown() -> (country: Country)
        ensures
            country == Country::unknown_code(),
    {
        Country { first: 'Z', second: 'Z' }
    }

    /// The two letters of the code as a string.
    pub fn to_text(&self) -> (text: String)
        ensures
            text@ == self.code(),
    {
        let mut text = String::new();
        push_char(&mut text, self.first);
        push_char(&mut text, self.second);
        assert(text@ =~= self.code());
        text
    }
}

impl Default for Country {
    fn default() -> (country: Country)
        ensures
            country == Country::unknown_code(),
    {
        Country::unknown()
    }
}

} // verus!
