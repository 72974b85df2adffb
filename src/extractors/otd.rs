//! "On this day" notices.
use vstd::prelude::*;
use crate::builder::Param;
use crate::date::{date_outcome, fail, DateLookup, Halt, HaltView, Lookups};
use crate::error::{ErrorView, HistoryError};
use crate::extractors::ExtractContext;
use crate::names::{matches_alias, matches_any};
use crate::params::{find_repeat, first_repeat, get, has_key, value_of};
use crate::text::{concat, decimal, str_eq, to_decimal};
use crate::types::{otd_models, with_otds, ArticleHistory, DateModel, Otd as AhOtd, OtdModel, PreserveDate};

verus! {

/// One appearance of a notice.
#[derive(Clone, Debug)]
pub struct Otd {
    pub date: PreserveDate,
    pub oldid: String,
}

/// The appearances of a notice, in order.
#[derive(Clone, Debug)]
pub struct Otds {
    pub otds: Vec<Otd>,
}

pub open spec fn appearances(s: Seq<Otd>) -> Seq<(DateModel, Seq<char>)> {
    s.map_values(|o: Otd| (o.date@, o.oldid@))
}

pub open spec fn date_key(n: nat) -> Seq<char> {
    "date"@ + decimal(n)
}

pub open spec fn oldid_key(n: nat) -> Seq<char> {
    "oldid"@ + decimal(n)
}

pub open spec fn appearance_count_from(ps: Seq<Param>, n: nat) -> nat
    decreases ps.len() + 1 - n,
{
    if n == 0 || n > ps.len() {
        0
    } else if has_key(ps, date_key(n)) && has_key(ps, oldid_key(n)) {
        1 + appearance_count_from(ps, n + 1)
    } else {
        0
    }
}

/// The number of appearances: pairs `date{n}`, `oldid{n}` for n = 1, 2, ...
pub open spec fn appearance_count(ps: Seq<Param>) -> nat {
    appearance_count_from(ps, 1)
}

/// Key `k` is one of the pair of appearance `n`.
pub open spec fn pair_has(n: nat, k: Seq<char>) -> bool {
    k == date_key(n) || k == oldid_key(n)
}

pub open spec fn appearance_key(ps: Seq<Param>, k: Seq<char>) -> bool {
    exists|n: nat| 1 <= n <= appearance_count(ps) && #[trigger] pair_has(n, k)
}

pub open spec fn first_stray_from(ps: Seq<Param>, j: int) -> Option<int>
    decreases ps.len() - j,
{
    if j < 0 || j >= ps.len() {
        None
    } else if !appearance_key(ps, ps[j].key@) {
        Some(j)
    } else {
        first_stray_from(ps, j + 1)
    }
}

pub open spec fn decode_appearances_upto(ps: Seq<Param>, dates: Seq<DateLookup>, n: nat) -> Result<Seq<(DateModel, Seq<char>)>, HaltView>
    decreases n,
{
    if n == 0 {
        Ok(Seq::empty())
    } else {
        match decode_appearances_upto(ps, dates, (n - 1) as nat) {
            Err(h) => Err(h),
            Ok(s) => match date_outcome(dates, value_of(ps, date_key(n))->Some_0) {
                Err(h) => Err(h),
                Ok(d) => Ok(s.push((d, value_of(ps, oldid_key(n))->Some_0))),
            },
        }
    }
}

/// What a notice's parameters decode to: every parameter must belong to a
/// complete numbered pair.
pub open spec fn decode_appearances(ps: Seq<Param>, dates: Seq<DateLookup>) -> Result<Seq<(DateModel, Seq<char>)>, HaltView> {
    match first_repeat(ps) {
        Some(j) => Err(fail(ErrorView::DuplicateParameter(ps[j].key@))),
        None => match first_stray_from(ps, 0) {
            Some(j) => Err(fail(ErrorView::UnrecognizedParameter(ps[j].key@))),
            None => decode_appearances_upto(ps, dates, appearance_count(ps)),
        },
    }
}

proof fn lemma_appearances_err(ps: Seq<Param>, dates: Seq<DateLookup>, n: nat, m: nat)
    requires
        n <= m,
        decode_appearances_upto(ps, dates, n) is Err,
    ensures
        decode_appearances_upto(ps, dates, m) == decode_appearances_upto(ps, dates, n),
    decreases m - n,
{
    if n < m {
        lemma_appearances_err(ps, dates, n, (m - 1) as nat);
    }
}

fn keyed(prefix: &str, n: usize) -> (r: String)
    ensures
        r@ == prefix@ + decimal(n as nat),
{
    concat(prefix, to_decimal(n).as_str())
}

fn count_appearances(ps: &Vec<Param>) -> (r: usize)
    requires
        ps@.len() < usize::MAX,
    ensures
        r == appearance_count(ps@),
        r <= ps@.len(),
{
    let mut n: usize = 1;
    while n <= ps.len() && get(ps, keyed("date", n).as_str()).is_some() && get(ps, keyed("oldid", n).as_str()).is_some()
        invariant
            1 <= n <= ps@.len() + 1,
            ps@.len() < usize::MAX,
            appearance_count(ps@) == (n - 1) + appearance_count_from(ps@, n as nat),
        decreases ps@.len() + 1 - n,
    {
        n = n + 1;
    }
    n - 1
}

fn is_appearance_key(ps: &Vec<Param>, cnt: usize, k: &str) -> (r: bool)
    requires
        cnt == appearance_count(ps@),
        cnt < usize::MAX,
    ensures
        r == appearance_key(ps@, k@),
{
    let mut n: usize = 1;
    while n <= cnt
        invariant
            1 <= n <= cnt + 1,
            cnt == appearance_count(ps@),
            cnt < usize::MAX,
            forall|m: nat| 1 <= m < n ==> !#[trigger] pair_has(m, k@),
        decreases cnt + 1 - n,
    {
        let a = str_eq(k, keyed("date", n).as_str());
        let b = str_eq(k, keyed("oldid", n).as_str());
        assert(pair_has(n as nat, k@) == (a || b));
        if a || b {
            assert(pair_has(n as nat, k@));
            return true;
        }
        n = n + 1;
    }
    false
}

/// Reads "on this day" notices.
pub struct OtdExtractor;

impl OtdExtractor {
    pub open spec fn aliases() -> Seq<&'static str> {
        seq!["on this day", "selected anniversary", "otdtalk", "satalk", "onthisday"]
    }

    pub fn is_extractable(&self, name: &str) -> (r: bool)
        ensures
            r == matches_alias(name@, Self::aliases()),
    {
        let a: [&str; 5] = ["on this day", "selected anniversary", "otdtalk", "satalk", "onthisday"];
        assert(a@ =~= Self::aliases());
        matches_any(name, &a)
    }

    pub fn extract(&self, ps: &Vec<Param>, facts: &Lookups) -> (r: Result<Otds, Halt>)
        requires
            ps@.len() < usize::MAX,
        ensures
            match decode_appearances(ps@, facts.dates@) {
                Ok(s) => r is Ok && appearances(r->Ok_0.otds@) == s,
                Err(h) => r is Err && r->Err_0@ == h,
            },
    {
        match find_repeat(ps) {
            Some(j) => {
                return Err(Halt::Fail(HistoryError::DuplicateParameter(ps[j].key.clone())));
            },
            None => {},
        }
        let cnt = count_appearances(ps);
        let mut j: usize = 0;
        while j < ps.len()
            invariant
                j <= ps@.len(),
                cnt == appearance_count(ps@),
                cnt < usize::MAX,
                first_repeat(ps@) is None,
                first_stray_from(ps@, 0) == first_stray_from(ps@, j as int),
            decreases ps.len() - j,
        {
            if !is_appearance_key(ps, cnt, ps[j].key.as_str()) {
                assert(first_stray_from(ps@, j as int) == Some(j as int));
                return Err(Halt::Fail(HistoryError::UnrecognizedParameter(ps[j].key.clone())));
            }
            assert(first_stray_from(ps@, j as int) == first_stray_from(ps@, j + 1));
            j = j + 1;
        }
        assert(first_stray_from(ps@, j as int) is None);
        let mut otds: Vec<Otd> = Vec::new();
        let mut n: usize = 1;
        assert(appearances(otds@) =~= Seq::<(DateModel, Seq<char>)>::empty());
        while n <= cnt
            invariant
                1 <= n <= cnt + 1,
                cnt == appearance_count(ps@),
                cnt < usize::MAX,
                first_repeat(ps@) is None,
                first_stray_from(ps@, 0) is None,
                decode_appearances_upto(ps@, facts.dates@, (n - 1) as nat) == Ok::<
                    Seq<(DateModel, Seq<char>)>,
                    HaltView,
                >(appearances(otds@)),
            decreases cnt + 1 - n,
        {
            proof {
                lemma_present_below(ps@, n as nat);
            }
            let date = match get(ps, keyed("date", n).as_str()) {
                Some(d) => d,
                None => {
                    return Err(Halt::Fail(HistoryError::MissingRequiredField(keyed("date", n))));
                },
            };
            let oldid = match get(ps, keyed("oldid", n).as_str()) {
                Some(o) => o,
                None => {
                    return Err(Halt::Fail(HistoryError::MissingRequiredField(keyed("oldid", n))));
                },
            };
            match PreserveDate::try_from_string(date, facts) {
                Err(h) => {
                    proof {
                        lemma_appearances_err(ps@, facts.dates@, n as nat, cnt as nat);
                    }
                    return Err(h);
                },
                Ok(d) => {
                    let ghost before = otds@;
                    otds.push(Otd { date: d, oldid });
                    assert(appearances(otds@) =~= appearances(before).push((otds@.last().date@, otds@.last().oldid@)));
                },
            }
            n = n + 1;
        }
        Ok(Otds { otds })
    }

    /// Appends the appearances to the aggregate, each with its revision and no link.
    pub fn merge_value_into(&self, _cx: &ExtractContext, value: Otds, into: &mut ArticleHistory) -> (r: Result<(), Halt>)
        ensures
            r is Ok,
            final(into)@ == with_otds(
                old(into)@,
                appearances(value.otds@).map_values(|p: (DateModel, Seq<char>)| OtdModel { date: p.0, oldid: Some(p.1), link: None }),
            ),
    {
        let ghost added = appearances(value.otds@).map_values(|p: (DateModel, Seq<char>)| OtdModel { date: p.0, oldid: Some(p.1), link: None });
        let ghost start = otd_models(into.otds@);
        let mut src = value.otds;
        let ghost all = src@;
        let mut i: usize = 0;
        let total = src.len();
        assert(all.len() == total);
        while src.len() > 0
            invariant
                all.len() <= usize::MAX,
                i + src@.len() == all.len(),
                src@ == all.subrange(i as int, all.len() as int),
                added == appearances(all).map_values(|p: (DateModel, Seq<char>)| OtdModel { date: p.0, oldid: Some(p.1), link: None }),
                otd_models(into.otds@) == start + added.subrange(0, i as int),
                into.actions == old(into).actions,
                into.currentstatus == old(into).currentstatus,
                into.maindate == old(into).maindate,
                into.maindate2 == old(into).maindate2,
                into.itns == old(into).itns,
                into.dyks == old(into).dyks,
                into.four == old(into).four,
                into.featured_topics == old(into).featured_topics,
                into.topic == old(into).topic,
                into.collapse == old(into).collapse,
                into.small == old(into).small,
            decreases src.len(),
        {
            let o = src.remove(0);
            let ghost before = into.otds@;
            into.otds.push(AhOtd { date: o.date, oldid: Some(o.oldid), link: None });
            assert(otd_models(into.otds@) =~= otd_models(before).push(into.otds@.last()@));
            assert(added.subrange(0, i + 1) =~= added.subrange(0, i as int).push(added[i as int]));
            assert(src@ =~= all.subrange(i + 1, all.len() as int));
            i = i + 1;
        }
        assert(added.subrange(0, i as int) =~= added);
        assert(into@ =~= with_otds(old(into)@, added));
        Ok(())
    }
}

proof fn lemma_present_below(ps: Seq<Param>, n: nat)
    requires
        1 <= n <= appearance_count(ps),
    ensures
        has_key(ps, date_key(n)),
        has_key(ps, oldid_key(n)),
{
    lemma_count_from(ps, 1, n);
}

proof fn lemma_count_from(ps: Seq<Param>, s: nat, n: nat)
    requires
        1 <= s <= n,
        n < s + appearance_count_from(ps, s),
    ensures
        has_key(ps, date_key(n)),
        has_key(ps, oldid_key(n)),
    decreases n - s,
{
    if s < n {
        lemma_count_from(ps, s + 1, n);
    }
}

} // verus!
