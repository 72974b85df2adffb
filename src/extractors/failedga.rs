//! Failed good-article nomination notices.
use vstd::prelude::*;
use crate::builder::Param;
use crate::date::{rv, Halt, Lookups};
use crate::extractors::ga::{decode_nomination, merge_nomination, nomination_merged, read_nomination, Ga, GaModel};
use crate::extractors::ExtractContext;
use crate::names::{matches_alias, matches_any};
use crate::text::opt_view;
use crate::types::{opt_date, ArticleHistory, PreserveDate};

verus! {

/// A failed good-article notice, as decoded.
#[derive(Clone, Debug)]
pub struct FailedGa {
    pub date: Option<PreserveDate>,
    pub oldid: Option<String>,
    pub topic: Option<String>,
    pub small: Option<String>,
    pub page: Option<String>,
}

impl View for FailedGa {
    type V = GaModel;

    open spec fn view(&self) -> GaModel {
        GaModel {
            date: opt_date(self.date),
            oldid: opt_view(self.oldid),
            topic: opt_view(self.topic),
            small: opt_view(self.small),
            page: opt_view(self.page),
        }
    }
}

/// Reads failed good-article notices.
pub struct FailedGaExtractor;

impl FailedGaExtractor {
    pub open spec fn aliases() -> Seq<&'static str> {
        seq!["failedga", "failed ga"]
    }

    pub fn is_extractable(&self, name: &str) -> (r: bool)
        ensures
            r == matches_alias(name@, Self::aliases()),
    {
        let a: [&str; 2] = ["failedga", "failed ga"];
        assert(a@ =~= Self::aliases());
        matches_any(name, &a)
    }

    pub fn extract(&self, ps: &Vec<Param>, facts: &Lookups) -> (r: Result<FailedGa, Halt>)
        ensures
            rv(r) == decode_nomination(ps@, facts.dates@),
    {
        match read_nomination(ps, facts) {
            Ok(Ga { date, oldid, topic, small, page }) => Ok(FailedGa { date, oldid, topic, small, page }),
            Err(h) => Err(h),
        }
    }

    /// Adds a failed nomination, linked to its review page under the title.
    pub fn merge_value_into(&self, cx: &ExtractContext, value: FailedGa, into: &mut ArticleHistory) -> (r: Result<(), Halt>)
        ensures
            match nomination_merged(old(into)@, cx.title@, value@, "failed"@) {
                Ok(m) => r is Ok && final(into)@ == m,
                Err(h) => r is Err && r->Err_0@ == h && *final(into) == *old(into),
            },
    {
        let FailedGa { date, oldid, topic, small, page } = value;
        merge_nomination(cx.title.as_str(), Ga { date, oldid, topic, small, page }, into, "failed")
    }
}

} // verus!
