//! "Did you know" talk-page notices.
use vstd::prelude::*;
use crate::builder::Param;
use crate::date::{date_outcome, fail, rv, Halt, HaltView, Lookups};
use crate::error::{ErrorView, HistoryError};
use crate::extractors::{check_schema, schema_outcome, ExtractContext};
use crate::names::{matches_alias, matches_any};
use crate::params::{get, value_of};
use crate::text::{concat, opt_view};
use crate::types::{dyk_models, with_dyk, ArticleHistory, Dyk as AhDyk, DykModel, HistoryModel, PreserveDate};

verus! {

/// A "did you know" notice, as decoded: its positional parameters are the
/// date, then a year or the entry, then the entry.
#[derive(Clone, Debug)]
pub struct Dyk {
    pub date: String,
    pub two: Option<String>,
    pub three: Option<String>,
    pub entry: Option<String>,
    pub nompage: Option<String>,
    pub views: Option<String>,
    pub image: Option<String>,
}

pub struct DykNoticeModel {
    pub date: Seq<char>,
    pub two: Option<Seq<char>>,
    pub three: Option<Seq<char>>,
    pub entry: Option<Seq<char>>,
    pub nompage: Option<Seq<char>>,
    pub views: Option<Seq<char>>,
    pub image: Option<Seq<char>>,
}

impl View for Dyk {
    type V = DykNoticeModel;

    open spec fn view(&self) -> DykNoticeModel {
        DykNoticeModel {
            date: self.date@,
            two: opt_view(self.two),
            three: opt_view(self.three),
            entry: opt_view(self.entry),
            nompage: opt_view(self.nompage),
            views: opt_view(self.views),
            image: opt_view(self.image),
        }
    }
}

pub open spec fn notice_keys() -> Seq<&'static str> {
    seq!["1", "2", "3", "entry", "nompage", "views", "image"]
}

pub open spec fn notice_slots() -> Seq<usize> {
    seq![0usize, 1usize, 2usize, 3usize, 4usize, 5usize, 6usize]
}

/// What a notice's parameters decode to; the date is required.
pub open spec fn decode_notice(ps: Seq<Param>) -> Result<DykNoticeModel, HaltView> {
    match schema_outcome(ps, notice_keys(), notice_slots()) {
        Err(h) => Err(h),
        Ok(()) => match value_of(ps, "1"@) {
            None => Err(fail(ErrorView::MissingRequiredField("1"@))),
            Some(d) => Ok(DykNoticeModel {
                date: d,
                two: value_of(ps, "2"@),
                three: value_of(ps, "3"@),
                entry: value_of(ps, "entry"@),
                nompage: value_of(ps, "nompage"@),
                views: value_of(ps, "views"@),
                image: value_of(ps, "image"@),
            }),
        },
    }
}

/// Every character is an ASCII digit (so the empty text is one).
pub open spec fn all_digits(s: Seq<char>) -> bool {
    forall|i: int| 0 <= i < s.len() ==> '0' <= #[trigger] s[i] && s[i] <= '9'
}

fn digits_only(s: &str) -> (r: bool)
    ensures
        r == all_digits(s@),
{
    let n = s.unicode_len();
    let mut i: usize = 0;
    while i < n
        invariant
            n == s@.len(),
            i <= n,
            forall|j: int| 0 <= j < i ==> '0' <= #[trigger] s@[j] && s@[j] <= '9',
        decreases n - i,
    {
        let c = s.get_char(i);
        if !('0' <= c && c <= '9') {
            return false;
        }
        i = i + 1;
    }
    true
}

/// The date text, entry and nomination of a notice: a numeric second
/// parameter is the year of the date, otherwise it may stand for the entry.
pub open spec fn notice_parts(v: DykNoticeModel) -> (Seq<char>, Option<Seq<char>>, Option<Seq<char>>) {
    match v.two {
        Some(year) => if all_digits(year) {
            (v.date + " "@ + year, if v.entry is Some { v.entry } else { v.three }, v.nompage)
        } else if v.entry is None {
            (v.date, Some(year), v.nompage)
        } else {
            (v.date, v.entry, v.nompage)
        },
        None => (v.date, v.entry, v.nompage),
    }
}

/// The aggregate after folding in a notice.
pub open spec fn notice_merged(m: HistoryModel, v: DykNoticeModel, dates: Seq<crate::date::DateLookup>) -> Result<HistoryModel, HaltView> {
    let (text, entry, nom) = notice_parts(v);
    match date_outcome(dates, text) {
        Err(h) => Err(h),
        Ok(d) => Ok(with_dyk(m, DykModel { date: d, entry, nom, ignoreerror: false })),
    }
}

/// Reads "did you know" notices.
pub struct DykExtractor;

impl DykExtractor {
    pub open spec fn aliases() -> Seq<&'static str> {
        seq!["dyktalk", "dyk talk"]
    }

    pub fn is_extractable(&self, name: &str) -> (r: bool)
        ensures
            r == matches_alias(name@, Self::aliases()),
    {
        let a: [&str; 2] = ["dyktalk", "dyk talk"];
        assert(a@ =~= Self::aliases());
        matches_any(name, &a)
    }

    pub fn extract(&self, ps: &Vec<Param>) -> (r: Result<Dyk, Halt>)
        ensures
            rv(r) == decode_notice(ps@),
    {
        let keys: [&str; 7] = ["1", "2", "3", "entry", "nompage", "views", "image"];
        let slots: [usize; 7] = [0, 1, 2, 3, 4, 5, 6];
        assert(keys@ =~= notice_keys());
        assert(slots@ =~= notice_slots());
        match check_schema(ps, &keys, &slots) {
            Err(h) => {
                return Err(h);
            },
            Ok(()) => {},
        }
        let date = match get(ps, "1") {
            None => {
                return Err(Halt::Fail(HistoryError::MissingRequiredField(String::from_str("1"))));
            },
            Some(d) => d,
        };
        Ok(Dyk {
            date,
            two: get(ps, "2"),
            three: get(ps, "3"),
            entry: get(ps, "entry"),
            nompage: get(ps, "nompage"),
            views: get(ps, "views"),
            image: get(ps, "image"),
        })
    }

    /// Adds the notice as a "did you know" record.
    pub fn merge_value_into(&self, _cx: &ExtractContext, value: Dyk, into: &mut ArticleHistory, facts: &Lookups) -> (r: Result<(), Halt>)
        ensures
            match notice_merged(old(into)@, value@, facts.dates@) {
                Ok(m) => r is Ok && final(into)@ == m,
                Err(h) => r is Err && r->Err_0@ == h && *final(into) == *old(into),
            },
    {
        let ghost v = value@;
        let Dyk { date, two, three, entry, nompage, views: _, image: _ } = value;
        let (text, entry, nom) = match two {
            Some(year) => if digits_only(year.as_str()) {
                let mut t = concat(date.as_str(), " ");
                t.append(year.as_str());
                let e = match entry {
                    Some(e) => Some(e),
                    None => three,
                };
                (t, e, nompage)
            } else if entry.is_none() {
                (date, Some(year), nompage)
            } else {
                (date, entry, nompage)
            },
            None => (date, entry, nompage),
        };
        assert((text@, opt_view(entry), opt_view(nom)) == notice_parts(v));
        let d = match PreserveDate::try_from_string(text, facts) {
            Err(h) => {
                return Err(h);
            },
            Ok(d) => d,
        };
        let ghost before = into.dyks@;
        into.dyks.push(AhDyk { date: d, entry, nom, ignoreerror: false });
        assert(dyk_models(into.dyks@) =~= dyk_models(before).push(into.dyks@.last()@));
        Ok(())
    }
}

} // verus!
