//! Good-article nomination notices.
use vstd::prelude::*;
use crate::builder::Param;
use crate::date::{date_outcome, fail, rv, Halt, HaltView, Lookups};
use crate::error::{ErrorView, HistoryError};
use crate::extractors::{check_schema, either_value, schema_outcome, ExtractContext};
use crate::kind::ActionKind;
use crate::names::{matches_alias, matches_any};
use crate::params::{get, value_of};
use crate::text::{concat, eq_ascii_ci, eq_ignore_ascii_case, opt_view};
use crate::types::{action_models, with_action, Action, ActionModel, ArticleHistory, DateModel, HistoryModel, PreserveDate};

verus! {

/// A good-article notice, as decoded.
#[derive(Clone, Debug)]
pub struct Ga {
    pub date: Option<PreserveDate>,
    pub oldid: Option<String>,
    pub topic: Option<String>,
    pub small: Option<String>,
    pub page: Option<String>,
}

pub struct GaModel {
    pub date: Option<DateModel>,
    pub oldid: Option<Seq<char>>,
    pub topic: Option<Seq<char>>,
    pub small: Option<Seq<char>>,
    pub page: Option<Seq<char>>,
}

impl View for Ga {
    type V = GaModel;

    open spec fn view(&self) -> GaModel {
        GaModel {
            date: crate::types::opt_date(self.date),
            oldid: opt_view(self.oldid),
            topic: opt_view(self.topic),
            small: opt_view(self.small),
            page: opt_view(self.page),
        }
    }
}

/// The names of the nomination blocks: `date` and `1` fill one field, as do
/// `topic` and `subtopic`.
pub open spec fn nomination_keys() -> Seq<&'static str> {
    seq!["date", "1", "oldid", "topic", "subtopic", "small", "page"]
}

pub open spec fn nomination_slots() -> Seq<usize> {
    seq![0usize, 0usize, 1usize, 2usize, 2usize, 3usize, 4usize]
}

/// What a nomination block's parameters decode to.
pub open spec fn decode_nomination(ps: Seq<Param>, dates: Seq<crate::date::DateLookup>) -> Result<GaModel, HaltView> {
    match schema_outcome(ps, nomination_keys(), nomination_slots()) {
        Err(h) => Err(h),
        Ok(()) => {
            let rest = |d: Option<DateModel>|
                GaModel {
                    date: d,
                    oldid: value_of(ps, "oldid"@),
                    topic: either_value(ps, "topic"@, "subtopic"@),
                    small: value_of(ps, "small"@),
                    page: value_of(ps, "page"@),
                };
            match either_value(ps, "date"@, "1"@) {
                None => Ok(rest(None)),
                Some(t) => match date_outcome(dates, t) {
                    Err(h) => Err(h),
                    Ok(d) => Ok(rest(Some(d))),
                },
            }
        },
    }
}

fn either(ps: &Vec<Param>, a: &str, b: &str) -> (r: Option<String>)
    ensures
        opt_view(r) == either_value(ps@, a@, b@),
{
    match get(ps, a) {
        Some(v) => Some(v),
        None => get(ps, b),
    }
}

/// Decodes a nomination block.
pub fn read_nomination(ps: &Vec<Param>, facts: &Lookups) -> (r: Result<Ga, Halt>)
    ensures
        rv(r) == decode_nomination(ps@, facts.dates@),
{
    let keys: [&str; 7] = ["date", "1", "oldid", "topic", "subtopic", "small", "page"];
    let slots: [usize; 7] = [0, 0, 1, 2, 2, 3, 4];
    assert(keys@ =~= nomination_keys());
    assert(slots@ =~= nomination_slots());
    match check_schema(ps, &keys, &slots) {
        Err(h) => {
            return Err(h);
        },
        Ok(()) => {},
    }
    let date = match either(ps, "date", "1") {
        None => None,
        Some(t) => match PreserveDate::try_from_string(t, facts) {
            Err(h) => {
                return Err(h);
            },
            Ok(d) => Some(d),
        },
    };
    Ok(Ga {
        date,
        oldid: get(ps, "oldid"),
        topic: either(ps, "topic", "subtopic"),
        small: get(ps, "small"),
        page: get(ps, "page"),
    })
}

/// The topic after merging a block that may name one: a different topic,
/// ignoring ASCII case, is a conflict.
pub open spec fn topic_after(current: Option<Seq<char>>, t: Option<Seq<char>>) -> Result<Option<Seq<char>>, HaltView> {
    match t {
        None => Ok(current),
        Some(t) => match current {
            Some(c) => if eq_ascii_ci(c, t) {
                Ok(Some(t))
            } else {
                Err(fail(ErrorView::TopicConflict))
            },
            None => Ok(Some(t)),
        },
    }
}

/// The aggregate after folding in a nomination with the given result.
pub open spec fn nomination_merged(m: HistoryModel, title: Seq<char>, v: GaModel, result: Seq<char>) -> Result<HistoryModel, HaltView> {
    match topic_after(m.topic, v.topic) {
        Err(h) => Err(h),
        Ok(topic) => match v.page {
            None => Err(fail(ErrorView::MissingRequiredField("page"@))),
            Some(page) => match v.date {
                None => Err(fail(ErrorView::MissingRequiredField("date"@))),
                Some(d) => Ok(with_action(
                    m,
                    topic,
                    ActionModel {
                        kind: ActionKind::Gan,
                        date: d,
                        link: Some(title + "/GA"@ + page),
                        result: Some(result),
                        oldid: v.oldid,
                    },
                )),
            },
        },
    }
}

/// Folds a nomination into the aggregate as a nomination action with the
/// given result; on failure the aggregate is left as it was.
pub fn merge_nomination(title: &str, v: Ga, into: &mut ArticleHistory, result: &str) -> (r: Result<(), Halt>)
    ensures
        match nomination_merged(old(into)@, title@, v@, result@) {
            Ok(m) => r is Ok && final(into)@ == m,
            Err(h) => r is Err && r->Err_0@ == h && *final(into) == *old(into),
        },
{
    let Ga { date, oldid, topic, small: _, page } = v;
    let conflict = match (&topic, &into.topic) {
        (Some(t), Some(t2)) => !eq_ignore_ascii_case(t2.as_str(), t.as_str()),
        _ => false,
    };
    if conflict {
        return Err(Halt::Fail(HistoryError::TopicConflict));
    }
    let page = match page {
        None => {
            return Err(Halt::Fail(HistoryError::MissingRequiredField(String::from_str("page"))));
        },
        Some(p) => p,
    };
    let date = match date {
        None => {
            return Err(Halt::Fail(HistoryError::MissingRequiredField(String::from_str("date"))));
        },
        Some(d) => d,
    };
    let mut link = concat(title, "/GA");
    link.append(page.as_str());
    if topic.is_some() {
        into.topic = topic;
    }
    let ghost before = into.actions@;
    into.actions.push(Action { kind: ActionKind::Gan, date, link: Some(link), result: Some(String::from_str(result)), oldid });
    assert(action_models(into.actions@) =~= action_models(before).push(into.actions@.last()@));
    Ok(())
}

/// Reads good-article notices.
pub struct GaExtractor;

impl GaExtractor {
    /// The block names this extractor recognises.
    pub open spec fn aliases() -> Seq<&'static str> {
        seq!["ga"]
    }

    pub fn is_extractable(&self, name: &str) -> (r: bool)
        ensures
            r == matches_alias(name@, Self::aliases()),
    {
        let a: [&str; 1] = ["ga"];
        assert(a@ =~= Self::aliases());
        matches_any(name, &a)
    }

    pub fn extract(&self, ps: &Vec<Param>, facts: &Lookups) -> (r: Result<Ga, Halt>)
        ensures
            rv(r) == decode_nomination(ps@, facts.dates@),
    {
        read_nomination(ps, facts)
    }

    /// Adds a listed nomination, linked to its review page under the title.
    pub fn merge_value_into(&self, cx: &ExtractContext, value: Ga, into: &mut ArticleHistory) -> (r: Result<(), Halt>)
        ensures
            match nomination_merged(old(into)@, cx.title@, value@, "listed"@) {
                Ok(m) => r is Ok && final(into)@ == m,
                Err(h) => r is Err && r->Err_0@ == h && *final(into) == *old(into),
            },
    {
        merge_nomination(cx.title.as_str(), value, into, "listed")
    }
}

} // verus!
