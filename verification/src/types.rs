//! Names and dimension values.
use crate::linear_map::Key;
use vstd::prelude::*;
use vstd::std_specs::convert::FromSpecImpl;

verus! {

/// A value that is converted into its own type, by the [`From`] of each type for itself. It is
/// given back unchanged.
pub assume_specification<TValue>[ <TValue as core::convert::From<TValue>>::from ](t: TValue) -> (same:
    TValue)
    ensures
        same == t,
;

/// The name of a metric, a measurement, a dimension, a gauge or a group of gauges.
#[derive(Debug)]
pub struct Name {
    text: String,
}

impl View for Name {
    type V = Seq<char>;

    closed spec fn view(&self) -> Seq<char> {
        self.text@
    }
}

impl Name {
    /// The text of this name.
    pub fn as_str(&self) -> (text: &str)
        ensures
            text@ == self@,
    {
        self.text.as_str()
    }
}

impl Clone for Name {
    fn clone(&self) -> (copy: Self)
        ensures
            copy@ == self@,
    {
        Name { text: self.text.clone() }
    }
}

impl<'a> From<&'a str> for Name {
    fn from(text: &'a str) -> (name: Self)
        ensures
            name@ == text@,
    {
        Name { text: text.to_owned() }
    }
}

// What `from` gives is said by its view alone: two strings with one text need not be one value.
impl<'a> FromSpecImpl<&'a str> for Name {
    open spec fn obeys_from_spec() -> bool {
        false
    }

    open spec fn from_spec(text: &'a str) -> Self {
        arbitrary()
    }
}

impl Key for Name {
    fn same(&self, other: &Self) -> bool {
        self.text == other.text
    }

    fn duplicate(&self) -> Self {
        self.clone()
    }
}

/// What a [`Dimension`] holds.
pub enum DimensionView {
    Text(Seq<char>),
    Number(u64),
}

/// The value of a dimension.
#[derive(Debug)]
pub enum Dimension {
    Text(String),
    Number(u64),
}

impl View for Dimension {
    type V = DimensionView;

    open spec fn view(&self) -> DimensionView {
        match self {
            Dimension::Text(text) => DimensionView::Text(text@),
            Dimension::Number(number) => DimensionView::Number(*number),
        }
    }
}

impl Dimension {
    /// Whether two dimensions hold the same value.
    pub fn same(&self, other: &Self) -> (same: bool)
        ensures
            same == (self@ == other@),
    {
        match (self, other) {
            (Dimension::Text(left), Dimension::Text(right)) => *left == *right,
            (Dimension::Number(left), Dimension::Number(right)) => *left == *right,
            _ => false,
        }
    }
}

impl Clone for Dimension {
    fn clone(&self) -> (copy: Self)
        ensures
            copy@ == self@,
    {
        match self {
            Dimension::Text(text) => Dimension::Text(text.clone()),
            Dimension::Number(number) => Dimension::Number(*number),
        }
    }
}

impl<'a> From<&'a str> for Dimension {
    fn from(text: &'a str) -> (dimension: Self)
        ensures
            dimension@ == DimensionView::Text(text@),
    {
        Dimension::Text(text.to_owned())
    }
}

// As for names, what `from` gives is said by its view alone.
impl<'a> FromSpecImpl<&'a str> for Dimension {
    open spec fn obeys_from_spec() -> bool {
        false
    }

    open spec fn from_spec(text: &'a str) -> Self {
        arbitrary()
    }
}

impl From<u32> for Dimension {
    fn from(number: u32) -> Self {
        Dimension::Number(number as u64)
    }
}

impl FromSpecImpl<u32> for Dimension {
    open spec fn obeys_from_spec() -> bool {
        true
    }

    open spec fn from_spec(number: u32) -> Self {
        Dimension::Number(number as u64)
    }
}

} // verus!
