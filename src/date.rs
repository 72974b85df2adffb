//! Dates that keep the text they were written as, and the outside facts the
//! merge needs.
use vstd::prelude::*;
use crate::error::{ErrorView, HistoryError};
use crate::text::str_eq;
use crate::types::{DateModel, PreserveDate};

verus! {

/// What the date grammar made of one text: an instant, or `None` when it
/// rejected the text.
#[derive(Clone, Debug)]
pub struct DateLookup {
    pub text: String,
    pub instant: Option<i64>,
}

/// The number of edits of a review page.
#[derive(Clone, Debug)]
pub struct CountLookup {
    pub link: String,
    pub count: u64,
}

/// An interactive verdict on whether a review page was substantively reviewed.
#[derive(Clone, Debug)]
pub struct DecisionLookup {
    pub link: String,
    pub reviewed: bool,
}

/// Answers from outside collaborators, gathered for one page.
#[derive(Clone, Debug)]
pub struct Lookups {
    pub dates: Vec<DateLookup>,
    pub edit_counts: Vec<CountLookup>,
    pub decisions: Vec<DecisionLookup>,
}

/// A question for an outside collaborator, which the merge cannot answer itself.
#[derive(Clone, Debug, PartialEq, Eq)]
pub enum Query {
    /// Parse this text with the date grammar.
    Date(String),
    /// Count the edits of this review page.
    EditCount(String),
    /// Ask whether this review page was reviewed.
    Decision(String),
}

/// Why a merge stopped: a failure of the page, or a question to answer and
/// run again with.
#[derive(Clone, Debug, PartialEq, Eq)]
pub enum Halt {
    Fail(HistoryError),
    Ask(Query),
}

pub enum QueryView {
    Date(Seq<char>),
    EditCount(Seq<char>),
    Decision(Seq<char>),
}

/// The view of a halt, over sequences.
pub enum HaltView {
    Fail(ErrorView),
    Ask(QueryView),
}

impl View for Query {
    type V = QueryView;

    open spec fn view(&self) -> QueryView {
        match self {
            Query::Date(s) => QueryView::Date(s@),
            Query::EditCount(s) => QueryView::EditCount(s@),
            Query::Decision(s) => QueryView::Decision(s@),
        }
    }
}

impl View for Halt {
    type V = HaltView;

    open spec fn view(&self) -> HaltView {
        match self {
            Halt::Fail(e) => HaltView::Fail(e@),
            Halt::Ask(q) => HaltView::Ask(q@),
        }
    }
}

/// The view of a result whose error is a halt.
pub open spec fn rv<T: View>(r: Result<T, Halt>) -> Result<T::V, HaltView> {
    match r {
        Ok(t) => Ok(t@),
        Err(h) => Err(h@),
    }
}

/// A failure of the page, as a view.
pub open spec fn fail(e: ErrorView) -> HaltView {
    HaltView::Fail(e)
}

/// The first answer given for a date text, if any.
pub open spec fn date_answer(tbl: Seq<DateLookup>, t: Seq<char>) -> Option<Option<i64>>
    decreases tbl.len(),
{
    if tbl.len() == 0 {
        None
    } else if tbl[0].text@ == t {
        Some(tbl[0].instant)
    } else {
        date_answer(tbl.drop_first(), t)
    }
}

/// The first edit count given for a link, if any.
pub open spec fn count_answer(tbl: Seq<CountLookup>, t: Seq<char>) -> Option<u64>
    decreases tbl.len(),
{
    if tbl.len() == 0 {
        None
    } else if tbl[0].link@ == t {
        Some(tbl[0].count)
    } else {
        count_answer(tbl.drop_first(), t)
    }
}

/// The first verdict given for a link, if any.
pub open spec fn decision_answer(tbl: Seq<DecisionLookup>, t: Seq<char>) -> Option<bool>
    decreases tbl.len(),
{
    if tbl.len() == 0 {
        None
    } else if tbl[0].link@ == t {
        Some(tbl[0].reviewed)
    } else {
        decision_answer(tbl.drop_first(), t)
    }
}

/// The outcome of turning a text into a date, given the answers.
pub open spec fn date_outcome(tbl: Seq<DateLookup>, t: Seq<char>) -> Result<DateModel, HaltView> {
    match date_answer(tbl, t) {
        None => Err(HaltView::Ask(QueryView::Date(t))),
        Some(None) => Err(fail(ErrorView::DateParse(t))),
        Some(Some(i)) => Ok(DateModel { instant: i, text: t }),
    }
}

impl Lookups {
    /// No answers yet.
    pub fn new() -> (r: Lookups)
        ensures
            r.dates@.len() == 0,
            r.edit_counts@.len() == 0,
            r.decisions@.len() == 0,
    {
        Lookups { dates: Vec::new(), edit_counts: Vec::new(), decisions: Vec::new() }
    }

    pub fn date(&self, t: &str) -> (r: Option<Option<i64>>)
        ensures
            r == date_answer(self.dates@, t@),
    {
        let mut i: usize = 0;
        assert(self.dates@.subrange(0, self.dates@.len() as int) =~= self.dates@);
        while i < self.dates.len()
            invariant
                i <= self.dates@.len(),
                date_answer(self.dates@, t@) == date_answer(self.dates@.subrange(i as int, self.dates@.len() as int), t@),
            decreases self.dates.len() - i,
        {
            assert(self.dates@.subrange(i as int, self.dates@.len() as int).drop_first() =~= self.dates@.subrange(i + 1, self.dates@.len() as int));
            if str_eq(self.dates[i].text.as_str(), t) {
                return Some(self.dates[i].instant);
            }
            i = i + 1;
        }
        None
    }

    pub fn edit_count(&self, t: &str) -> (r: Option<u64>)
        ensures
            r == count_answer(self.edit_counts@, t@),
    {
        let mut i: usize = 0;
        assert(self.edit_counts@.subrange(0, self.edit_counts@.len() as int) =~= self.edit_counts@);
        while i < self.edit_counts.len()
            invariant
                i <= self.edit_counts@.len(),
                count_answer(self.edit_counts@, t@) == count_answer(self.edit_counts@.subrange(i as int, self.edit_counts@.len() as int), t@),
            decreases self.edit_counts.len() - i,
        {
            assert(self.edit_counts@.subrange(i as int, self.edit_counts@.len() as int).drop_first() =~= self.edit_counts@.subrange(i + 1, self.edit_counts@.len() as int));
            if str_eq(self.edit_counts[i].link.as_str(), t) {
                return Some(self.edit_counts[i].count);
            }
            i = i + 1;
        }
        None
    }

    pub fn decision(&self, t: &str) -> (r: Option<bool>)
        ensures
            r == decision_answer(self.decisions@, t@),
    {
        let mut i: usize = 0;
        assert(self.decisions@.subrange(0, self.decisions@.len() as int) =~= self.decisions@);
        while i < self.decisions.len()
            invariant
                i <= self.decisions@.len(),
                decision_answer(self.decisions@, t@) == decision_answer(self.decisions@.subrange(i as int, self.decisions@.len() as int), t@),
            decreases self.decisions.len() - i,
        {
            assert(self.decisions@.subrange(i as int, self.decisions@.len() as int).drop_first() =~= self.decisions@.subrange(i + 1, self.decisions@.len() as int));
            if str_eq(self.decisions[i].link.as_str(), t) {
                return Some(self.decisions[i].reviewed);
            }
            i = i + 1;
        }
        None
    }
}

impl PreserveDate {
    /// A date from its text, by the date grammar's answer for that text.
    ///
    /// The text is kept verbatim; when the grammar has not been asked about
    /// it yet, the text is handed back as a question.
    pub fn try_from_string(x: String, facts: &Lookups) -> (r: Result<PreserveDate, Halt>)
        ensures
            rv(r) == date_outcome(facts.dates@, x@),
    {
        match facts.date(x.as_str()) {
            None => Err(Halt::Ask(Query::Date(x))),
            Some(None) => Err(Halt::Fail(HistoryError::DateParse(x))),
            Some(Some(i)) => Ok(PreserveDate { instant: i, orig: x }),
        }
    }
}

} // verus!
