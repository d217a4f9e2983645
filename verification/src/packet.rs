//! The packet: the set of problems a competition hands its competitors.

use vstd::prelude::*;
use crate::render::markdown::MarkdownRenderable;
use crate::roi::{self, RawOrImport};

verus! {

/// One test that validates a competitor's solution.  The input and expected
/// output of visible tests are shown to the competitor.
#[derive(Debug, Clone)]
pub struct Test {
    /// Text handed to the solution on its standard input.
    pub input: String,
    /// Text the solution must print on its standard output.
    pub output: String,
    /// Whether the test is shown to the competitor.
    pub visible: bool,
}

/// One problem of the packet.
#[derive(Debug, Clone)]
pub struct Problem {
    /// The keys of the languages this problem may be solved in, where it
    /// restricts them; must be a subset of the configured languages.  Read
    /// as a set: no key appears twice, in first-appearance order.
    pub languages: Option<Vec<String>>,
    /// The problem's title.
    pub title: String,
    /// The problem's description, written in the markup dialect.
    pub description: Option<RawOrImport<MarkdownRenderable, roi::Raw>>,
    /// The tests run against a solution.
    pub tests: Vec<Test>,
}

/// A packet: a titled, optionally prefaced list of problems.
#[derive(Debug, Clone)]
pub struct Packet {
    /// The packet's title.
    pub title: String,
    /// Text put at the top of the rendered packet.
    pub preamble: Option<RawOrImport<MarkdownRenderable, roi::Raw>>,
    /// The problems, in order.
    pub problems: Vec<RawOrImport<Problem>>,
}

} // verus!
