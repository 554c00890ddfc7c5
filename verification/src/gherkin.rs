//! Parsed Gherkin documents: features, rules, scenarios and steps, as the
//! runner reads them.

use vstd::prelude::*;

use crate::feature::{copy_opt_string, copy_rows, opt_view, rows_view};

verus! {

/// Line and column of an element inside a `.feature` file.
#[derive(Clone, Copy, Debug, PartialEq, Eq, Structural, Hash)]
pub struct LineCol {
    /// Line number.
    pub line: usize,
    /// Column number.
    pub col: usize,
}

/// Kind of a step.
#[derive(Clone, Copy, Debug, PartialEq, Eq, Structural, Hash)]
pub enum StepType {
    /// `Given` step.
    Given,
    /// `When` step.
    When,
    /// `Then` step.
    Then,
}

/// A data table attached to a step or holding examples.
#[derive(Debug)]
pub struct Table {
    /// Rows of cells.
    pub rows: Vec<Vec<String>>,
    /// Position of the table.
    pub position: LineCol,
}

/// A single step of a scenario.
#[derive(Debug)]
pub struct Step {
    /// Keyword as written (`Given`, `And`, ...).
    pub keyword: String,
    /// Kind of the step.
    pub ty: StepType,
    /// Text of the step after its keyword.
    pub value: String,
    /// Attached doc string, if any.
    pub docstring: Option<String>,
    /// Attached data table, if any.
    pub table: Option<Table>,
    /// Position of the step.
    pub position: LineCol,
}

/// Steps run before every scenario of a feature or rule.
#[derive(Clone, Debug)]
pub struct Background {
    /// Keyword as written.
    pub keyword: String,
    /// Name of the background.
    pub name: String,
    /// Steps of the background.
    pub steps: Vec<Step>,
    /// Position of the background.
    pub position: LineCol,
}

/// Example rows of a scenario outline.
#[derive(Clone, Debug)]
pub struct Examples {
    /// Table whose first row names the template parameters.
    pub table: Table,
    /// Position of the examples block.
    pub position: LineCol,
}

/// A scenario (or scenario outline).
#[derive(Clone, Debug)]
pub struct Scenario {
    /// Keyword as written.
    pub keyword: String,
    /// Name of the scenario.
    pub name: String,
    /// Steps of the scenario.
    pub steps: Vec<Step>,
    /// Examples of a scenario outline.
    pub examples: Option<Examples>,
    /// Tags, without the leading `@`.
    pub tags: Vec<String>,
    /// Position of the scenario.
    pub position: LineCol,
}

/// A rule grouping scenarios inside a feature.
#[derive(Clone, Debug)]
pub struct Rule {
    /// Keyword as written.
    pub keyword: String,
    /// Name of the rule.
    pub name: String,
    /// Background of the rule.
    pub background: Option<Background>,
    /// Scenarios of the rule.
    pub scenarios: Vec<Scenario>,
    /// Tags, without the leading `@`.
    pub tags: Vec<String>,
    /// Position of the rule.
    pub position: LineCol,
}

/// A parsed `.feature` file.
#[derive(Clone, Debug)]
pub struct Feature {
    /// Keyword as written.
    pub keyword: String,
    /// Name of the feature.
    pub name: String,
    /// Background of the feature.
    pub background: Option<Background>,
    /// Scenarios directly inside the feature.
    pub scenarios: Vec<Scenario>,
    /// Rules of the feature.
    pub rules: Vec<Rule>,
    /// Tags, without the leading `@`.
    pub tags: Vec<String>,
    /// Position of the feature.
    pub position: LineCol,
    /// Path of the `.feature` file, if it came from one.
    pub path: Option<String>,
}

impl View for Table {
    type V = (Seq<Seq<Seq<char>>>, LineCol);

    /// The characters of every cell, row by row, and the position.
    open spec fn view(&self) -> (Seq<Seq<Seq<char>>>, LineCol) {
        (rows_view(self.rows@), self.position)
    }
}

impl Clone for Table {
    fn clone(&self) -> (c: Self)
        ensures
            c@ == self@,
    {
        Table { rows: copy_rows(&self.rows), position: self.position }
    }
}

/// A step reduced to plain values: keyword, kind, text, doc string, table
/// and position.
pub type StepView = (Seq<char>, StepType, Seq<char>, Option<Seq<char>>, Option<(Seq<Seq<Seq<char>>>, LineCol)>, LineCol);

impl View for Step {
    type V = StepView;

    open spec fn view(&self) -> StepView {
        (
            self.keyword@,
            self.ty,
            self.value@,
            opt_view(self.docstring),
            match self.table {
                Some(t) => Some(t@),
                None => None,
            },
            self.position,
        )
    }
}

impl Clone for Step {
    fn clone(&self) -> (c: Self)
        ensures
            c@ == self@,
    {
        let table = match &self.table {
            Some(t) => Some(t.clone()),
            None => None,
        };
        Step {
            keyword: self.keyword.clone(),
            ty: self.ty,
            value: self.value.clone(),
            docstring: copy_opt_string(&self.docstring),
            table,
            position: self.position,
        }
    }
}

/// The characters of each tag.
pub open spec fn tags_view(tags: Seq<String>) -> Seq<Seq<char>> {
    tags.map_values(|t: String| t@)
}

} // verus!
