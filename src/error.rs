//! Why a page could not be turned into a model.
use vstd::prelude::*;

verus! {

/// A failure to extract data from a page.
#[derive(Clone, Debug, PartialEq, Eq)]
pub enum Parsing {
    /// Nothing matched this selector or path.
    MissingElement(String),
    /// The selected element has no attribute of this name.
    MissingAttribute(String),
    /// An embedded JSON blob was not found, or was not valid JSON.
    ExtractionFailure,
    /// The text at this path is not a number of the expected form.
    NumericFormat(String),
}

/// The mathematical content of a [`Parsing`] failure.
pub enum ParseFailure {
    MissingElement(Seq<char>),
    MissingAttribute(Seq<char>),
    ExtractionFailure,
    NumericFormat(Seq<char>),
}

impl View for Parsing {
    type V = ParseFailure;

    open spec fn view(&self) -> ParseFailure {
        match self {
            Parsing::MissingElement(s) => ParseFailure::MissingElement(s@),
            Parsing::MissingAttribute(s) => ParseFailure::MissingAttribute(s@),
            Parsing::ExtractionFailure => ParseFailure::ExtractionFailure,
            Parsing::NumericFormat(s) => ParseFailure::NumericFormat(s@),
        }
    }
}

/// The mathematical content of a parse's outcome.
pub open spec fn outcome<T: View>(r: Result<T, Parsing>) -> Result<T::V, ParseFailure> {
    match r {
        Ok(x) => Ok(x@),
        Err(e) => Err(e@),
    }
}

impl Parsing {
    /// A readable description of the failure.
    pub fn describe(&self) -> (r: String)
        ensures
            r@ == (match self@ {
                ParseFailure::MissingElement(s) => "missing element: "@ + s,
                ParseFailure::MissingAttribute(s) => "missing attribute: "@ + s,
                ParseFailure::ExtractionFailure => "embedded data not found"@,
                ParseFailure::NumericFormat(s) => "not a number: "@ + s,
            }),
    {
        match self {
            Parsing::MissingElement(s) => crate::text::concat("missing element: ", s.as_str()),
            Parsing::MissingAttribute(s) => crate::text::concat("missing attribute: ", s.as_str()),
            Parsing::ExtractionFailure => "embedded data not found".to_owned(),
            Parsing::NumericFormat(s) => crate::text::concat("not a number: ", s.as_str()),
        }
    }
}

} // verus!
