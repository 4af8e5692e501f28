//! A color scheme: an author, a name, and exactly sixteen colors addressed by
//! index 0..=15. The engine only ever reads a scheme; callers build one from
//! external scheme data.

use vstd::prelude::*;
use crate::color::Color;

verus! {

/// A named, attributed table of sixteen colors.
#[derive(Debug)]
pub struct ColorScheme {
    pub author: String,
    pub name: String,
    pub colors: Vec<Color>,
}

impl ColorScheme {
    /// A scheme table is well-formed when it holds exactly sixteen colors.
    pub open spec fn wf(&self) -> bool {
        self.colors@.len() == 16
    }

    /// Builds a scheme from its author, its name, and its colors; rejects any
    /// color list that does not hold exactly sixteen entries.
    pub fn new(author: String, name: String, colors: Vec<Color>) -> (r: Option<ColorScheme>)
        ensures
            colors@.len() == 16 ==> (r matches Some(s) && s.wf() && s.author@ == author@
                && s.name@ == name@ && s.colors@ == colors@),
            colors@.len() != 16 ==> r is None,
    {
        if colors.len() == 16 {
            Some(ColorScheme { author, name, colors })
        } else {
            None
        }
    }
}

} // verus!
