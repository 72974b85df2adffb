//! "In the news" notices.
use vstd::prelude::*;
use crate::builder::Param;
use crate::date::{date_outcome, fail, DateLookup, Halt, HaltView, Lookups};
use crate::error::{ErrorView, HistoryError};
use crate::extract::flag_of;
use crate::extractors::ExtractContext;
use crate::names::{matches_alias, matches_any};
use crate::params::{blank, find_repeat, first_repeat, get, has_key, is_blank, value_of};
use crate::text::{concat, decimal, opt_view, str_eq, to_decimal};
use crate::types::{itn_models, with_itns, ArticleHistory, DateModel, HistoryModel, Itn as AhItn, ItnModel, PreserveDate};

verus! {

/// One appearance of an "in the news" notice.
#[derive(Clone, Debug)]
pub struct Itn {
    pub date: PreserveDate,
    pub oldid: Option<String>,
    pub alt: bool,
}

pub struct ItnNoticeModel {
    pub date: DateModel,
    pub oldid: Option<Seq<char>>,
    pub alt: bool,
}

impl View for Itn {
    type V = ItnNoticeModel;

    open spec fn view(&self) -> ItnNoticeModel {
        ItnNoticeModel { date: self.date@, oldid: opt_view(self.oldid), alt: self.alt }
    }
}

pub open spec fn notice_models(s: Seq<Itn>) -> Seq<ItnNoticeModel> {
    s.map_values(|i: Itn| i@)
}

pub open spec fn numbered(prefix: Seq<char>, n: nat) -> Seq<char> {
    prefix + decimal(n)
}

/// The date text of appearance `n`: the first is given as month and day in
/// the positional parameters, or as `date` or `date1`.
pub open spec fn itn_date_text(ps: Seq<Param>, n: nat) -> Option<Seq<char>> {
    if n == 1 {
        match value_of(ps, "1"@) {
            Some(m) => Some(
                match value_of(ps, "2"@) {
                    Some(d) => m + " "@ + d,
                    None => m,
                },
            ),
            None => match value_of(ps, "date"@) {
                Some(d) => Some(d),
                None => value_of(ps, "date1"@),
            },
        }
    } else {
        value_of(ps, numbered("date"@, n))
    }
}

pub open spec fn itn_oldid(ps: Seq<Param>, n: nat) -> Option<Seq<char>> {
    if n == 1 {
        match value_of(ps, "oldid"@) {
            Some(o) => Some(o),
            None => value_of(ps, "oldid1"@),
        }
    } else {
        value_of(ps, numbered("oldid"@, n))
    }
}

/// Appearance `n` links to the current-events portal: by the notice-wide
/// flag, or by its own.
pub open spec fn itn_alt(ps: Seq<Param>, n: nat) -> bool {
    flag_of(ps, "alt"@) || flag_of(ps, numbered("alt"@, n))
}

pub open spec fn itn_count_from(ps: Seq<Param>, n: nat) -> nat
    decreases ps.len() + 1 - n,
{
    if n == 0 || n > ps.len() {
        0
    } else if itn_date_text(ps, n) is Some {
        1 + itn_count_from(ps, n + 1)
    } else {
        0
    }
}

pub open spec fn itn_count(ps: Seq<Param>) -> nat {
    itn_count_from(ps, 1)
}

/// Key `k` is read for appearance `n`. The per-appearance flag is not read
/// when the notice-wide one is set.
pub open spec fn itn_uses(ps: Seq<Param>, n: nat, k: Seq<char>) -> bool {
    if n == 1 {
        (has_key(ps, "1"@) && (k == "1"@ || k == "2"@)) || (!has_key(ps, "1"@) && k == "date"@) || (!has_key(
            ps,
            "1"@,
        ) && !has_key(ps, "date"@) && k == "date1"@) || k == "oldid"@ || (!has_key(ps, "oldid"@) && k
            == "oldid1"@) || (!flag_of(ps, "alt"@) && k == "alt1"@)
    } else {
        k == numbered("date"@, n) || k == numbered("oldid"@, n) || (!flag_of(ps, "alt"@) && k == numbered(
            "alt"@,
            n,
        ))
    }
}

pub open spec fn itn_key(ps: Seq<Param>, k: Seq<char>) -> bool {
    k == "alt"@ || exists|n: nat| 1 <= n <= itn_count(ps) && #[trigger] itn_uses(ps, n, k)
}

pub open spec fn first_unread_from(ps: Seq<Param>, j: int) -> Option<int>
    decreases ps.len() - j,
{
    if j < 0 || j >= ps.len() {
        None
    } else if !itn_key(ps, ps[j].key@) {
        Some(j)
    } else {
        first_unread_from(ps, j + 1)
    }
}

pub open spec fn decode_itn_upto(ps: Seq<Param>, dates: Seq<DateLookup>, n: nat) -> Result<Seq<ItnNoticeModel>, HaltView>
    decreases n,
{
    if n == 0 {
        Ok(Seq::empty())
    } else {
        match decode_itn_upto(ps, dates, (n - 1) as nat) {
            Err(h) => Err(h),
            Ok(s) => match date_outcome(dates, itn_date_text(ps, n)->Some_0) {
                Err(h) => Err(h),
                Ok(d) => Ok(s.push(ItnNoticeModel { date: d, oldid: itn_oldid(ps, n), alt: itn_alt(ps, n) })),
            },
        }
    }
}

/// What a notice's parameters decode to: every parameter must be read by
/// some appearance.
pub open spec fn decode_itn_notice(ps: Seq<Param>, dates: Seq<DateLookup>) -> Result<Seq<ItnNoticeModel>, HaltView> {
    match first_repeat(ps) {
        Some(j) => Err(fail(ErrorView::DuplicateParameter(ps[j].key@))),
        None => match first_unread_from(ps, 0) {
            Some(j) => Err(fail(ErrorView::UnrecognizedParameter(ps[j].key@))),
            None => decode_itn_upto(ps, dates, itn_count(ps)),
        },
    }
}

proof fn lemma_itn_err(ps: Seq<Param>, dates: Seq<DateLookup>, n: nat, m: nat)
    requires
        n <= m,
        decode_itn_upto(ps, dates, n) is Err,
    ensures
        decode_itn_upto(ps, dates, m) == decode_itn_upto(ps, dates, n),
    decreases m - n,
{
    if n < m {
        lemma_itn_err(ps, dates, n, (m - 1) as nat);
    }
}

proof fn lemma_itn_present(ps: Seq<Param>, s: nat, n: nat)
    requires
        1 <= s <= n,
        n < s + itn_count_from(ps, s),
    ensures
        itn_date_text(ps, n) is Some,
    decreases n - s,
{
    if s < n {
        lemma_itn_present(ps, s + 1, n);
    }
}

fn keyed(prefix: &str, n: usize) -> (r: String)
    ensures
        r@ == numbered(prefix@, n as nat),
{
    concat(prefix, to_decimal(n).as_str())
}

fn flag(ps: &Vec<Param>, k: &str) -> (r: bool)
    ensures
        r == flag_of(ps@, k@),
{
    match get(ps, k) {
        Some(v) => !blank(v.as_str()),
        None => false,
    }
}

fn date_text(ps: &Vec<Param>, n: usize) -> (r: Option<String>)
    ensures
        opt_view(r) == itn_date_text(ps@, n as nat),
{
    if n == 1 {
        match get(ps, "1") {
            Some(m) => match get(ps, "2") {
                Some(d) => {
                    let mut t = concat(m.as_str(), " ");
                    t.append(d.as_str());
                    Some(t)
                },
                None => Some(m),
            },
            None => match get(ps, "date") {
                Some(d) => Some(d),
                None => get(ps, "date1"),
            },
        }
    } else {
        get(ps, keyed("date", n).as_str())
    }
}

fn oldid_of(ps: &Vec<Param>, n: usize) -> (r: Option<String>)
    ensures
        opt_view(r) == itn_oldid(ps@, n as nat),
{
    if n == 1 {
        match get(ps, "oldid") {
            Some(o) => Some(o),
            None => get(ps, "oldid1"),
        }
    } else {
        get(ps, keyed("oldid", n).as_str())
    }
}

fn uses(ps: &Vec<Param>, n: usize, k: &str) -> (r: bool)
    ensures
        r == itn_uses(ps@, n as nat, k@),
{
    let alt = flag(ps, "alt");
    if n == 1 {
        let has1 = get(ps, "1").is_some();
        (has1 && (str_eq(k, "1") || str_eq(k, "2"))) || (!has1 && str_eq(k, "date")) || (!has1 && get(
            ps,
            "date",
        ).is_none() && str_eq(k, "date1")) || str_eq(k, "oldid") || (get(ps, "oldid").is_none() && str_eq(
            k,
            "oldid1",
        )) || (!alt && str_eq(k, "alt1"))
    } else {
        str_eq(k, keyed("date", n).as_str()) || str_eq(k, keyed("oldid", n).as_str()) || (!alt && str_eq(
            k,
            keyed("alt", n).as_str(),
        ))
    }
}

fn is_read(ps: &Vec<Param>, cnt: usize, k: &str) -> (r: bool)
    requires
        cnt == itn_count(ps@),
        cnt < usize::MAX,
    ensures
        r == itn_key(ps@, k@),
{
    if str_eq(k, "alt") {
        return true;
    }
    let mut n: usize = 1;
    while n <= cnt
        invariant
            1 <= n <= cnt + 1,
            cnt == itn_count(ps@),
            cnt < usize::MAX,
            forall|m: nat| 1 <= m < n ==> !#[trigger] itn_uses(ps@, m, k@),
        decreases cnt + 1 - n,
    {
        if uses(ps, n, k) {
            assert(itn_uses(ps@, n as nat, k@));
            return true;
        }
        n = n + 1;
    }
    false
}

/// The link of an appearance: the current-events portal page of its day, or
/// its revision when an old revision is named, or none.
pub open spec fn itn_link(i: ItnNoticeModel) -> Result<Option<Seq<char>>, HaltView> {
    if i.alt {
        match portal_day(i.date.instant as int) {
            Some(day) => Ok(Some("Portal:Current events/"@ + day)),
            None => Err(fail(ErrorView::DateParse(i.date.text))),
        }
    } else {
        match i.oldid {
            Some(o) => if !is_blank(o) {
                Ok(Some("Special:PermanentLink/"@ + o))
            } else {
                Ok(None)
            },
            None => Ok(None),
        }
    }
}

pub open spec fn itn_links_upto(s: Seq<ItnNoticeModel>, n: nat) -> Result<Seq<ItnModel>, HaltView>
    decreases n,
{
    if n == 0 || n > s.len() {
        Ok(Seq::empty())
    } else {
        match itn_links_upto(s, (n - 1) as nat) {
            Err(h) => Err(h),
            Ok(t) => match itn_link(s[n - 1]) {
                Err(h) => Err(h),
                Ok(l) => Ok(t.push(ItnModel { date: s[n - 1].date, link: l })),
            },
        }
    }
}

/// The aggregate after folding in the appearances.
pub open spec fn itn_merged(m: HistoryModel, s: Seq<ItnNoticeModel>) -> Result<HistoryModel, HaltView> {
    match itn_links_upto(s, s.len()) {
        Err(h) => Err(h),
        Ok(t) => Ok(with_itns(m, t)),
    }
}

proof fn lemma_links_err(s: Seq<ItnNoticeModel>, n: nat, m: nat)
    requires
        n <= m <= s.len(),
        itn_links_upto(s, n) is Err,
    ensures
        itn_links_upto(s, m) == itn_links_upto(s, n),
    decreases m - n,
{
    if n < m {
        lemma_links_err(s, n, (m - 1) as nat);
    }
}

/// Names what the day heading of a UTC instant is: year, full month name and
/// two-digit day, or nothing for an instant outside the calendar's range.
pub uninterp spec fn portal_day(ts: int) -> Option<Seq<char>>;

/// Relies on `chrono::DateTime::from_timestamp`, which gives no date outside
/// its range, and on the `%Y %B %d` format of the date it gives; the result
/// depends on the instant alone.
#[verifier::external_body]
fn day_heading(ts: i64) -> (r: Option<String>)
    ensures
        opt_view(r) == portal_day(ts as int),
{
    match chrono::DateTime::from_timestamp(ts, 0) {
        Some(d) => Some(d.format("%Y %B %d").to_string()),
        None => None,
    }
}

impl Itn {
    /// The link this appearance gets in the aggregate.
    pub fn link(&self) -> (r: Result<Option<String>, Halt>)
        ensures
            match itn_link(self@) {
                Ok(l) => r is Ok && opt_view(r->Ok_0) == l,
                Err(h) => r is Err && r->Err_0@ == h,
            },
    {
        if self.alt {
            match day_heading(self.date.instant) {
                Some(day) => Ok(Some(concat("Portal:Current events/", day.as_str()))),
                None => Err(Halt::Fail(HistoryError::DateParse(self.date.orig.clone()))),
            }
        } else {
            match &self.oldid {
                Some(o) => if !blank(o.as_str()) {
                    Ok(Some(concat("Special:PermanentLink/", o.as_str())))
                } else {
                    Ok(None)
                },
                None => Ok(None),
            }
        }
    }
}

/// Reads "in the news" notices.
pub struct ItnExtractor;

impl ItnExtractor {
    pub open spec fn aliases() -> Seq<&'static str> {
        seq!["itn talk", "itntalk"]
    }

    pub fn is_extractable(&self, name: &str) -> (r: bool)
        ensures
            r == matches_alias(name@, Self::aliases()),
    {
        let a: [&str; 2] = ["itn talk", "itntalk"];
        assert(a@ =~= Self::aliases());
        matches_any(name, &a)
    }

    pub fn extract(&self, ps: &Vec<Param>, facts: &Lookups) -> (r: Result<Vec<Itn>, Halt>)
        requires
            ps@.len() < usize::MAX,
        ensures
            match decode_itn_notice(ps@, facts.dates@) {
                Ok(s) => r is Ok && notice_models(r->Ok_0@) == s,
                Err(h) => r is Err && r->Err_0@ == h,
            },
    {
        match find_repeat(ps) {
            Some(j) => {
                return Err(Halt::Fail(HistoryError::DuplicateParameter(ps[j].key.clone())));
            },
            None => {},
        }
        let mut cnt: usize = 1;
        while cnt <= ps.len() && date_text(ps, cnt).is_some()
            invariant
                1 <= cnt <= ps@.len() + 1,
                ps@.len() < usize::MAX,
                itn_count(ps@) == (cnt - 1) + itn_count_from(ps@, cnt as nat),
            decreases ps@.len() + 1 - cnt,
        {
            cnt = cnt + 1;
        }
        let cnt = cnt - 1;
        let mut j: usize = 0;
        while j < ps.len()
            invariant
                j <= ps@.len(),
                cnt == itn_count(ps@),
                cnt < usize::MAX,
                first_repeat(ps@) is None,
                first_unread_from(ps@, 0) == first_unread_from(ps@, j as int),
            decreases ps.len() - j,
        {
            if !is_read(ps, cnt, ps[j].key.as_str()) {
                assert(first_unread_from(ps@, j as int) == Some(j as int));
                return Err(Halt::Fail(HistoryError::UnrecognizedParameter(ps[j].key.clone())));
            }
            assert(first_unread_from(ps@, j as int) == first_unread_from(ps@, j + 1));
            j = j + 1;
        }
        assert(first_unread_from(ps@, j as int) is None);
        let alt = flag(ps, "alt");
        let mut out: Vec<Itn> = Vec::new();
        let mut n: usize = 1;
        assert(notice_models(out@) =~= Seq::<ItnNoticeModel>::empty());
        while n <= cnt
            invariant
                1 <= n <= cnt + 1,
                cnt == itn_count(ps@),
                cnt < usize::MAX,
                alt == flag_of(ps@, "alt"@),
                first_repeat(ps@) is None,
                first_unread_from(ps@, 0) is None,
                decode_itn_upto(ps@, facts.dates@, (n - 1) as nat) == Ok::<Seq<ItnNoticeModel>, HaltView>(
                    notice_models(out@),
                ),
            decreases cnt + 1 - n,
        {
            proof {
                lemma_itn_present(ps@, 1, n as nat);
            }
            let text = match date_text(ps, n) {
                Some(t) => t,
                None => {
                    return Err(Halt::Fail(HistoryError::MissingRequiredField(keyed("date", n))));
                },
            };
            let oldid = oldid_of(ps, n);
            let alt_n = alt || flag(ps, keyed("alt", n).as_str());
            match PreserveDate::try_from_string(text, facts) {
                Err(h) => {
                    proof {
                        lemma_itn_err(ps@, facts.dates@, n as nat, cnt as nat);
                    }
                    return Err(h);
                },
                Ok(d) => {
                    let ghost before = out@;
                    out.push(Itn { date: d, oldid, alt: alt_n });
                    assert(notice_models(out@) =~= notice_models(before).push(out@.last()@));
                },
            }
            n = n + 1;
        }
        Ok(out)
    }

    /// Appends the appearances with their links to the aggregate; on failure
    /// the aggregate is left as it was.
    pub fn merge_value_into(&self, _cx: &ExtractContext, value: Vec<Itn>, into: &mut ArticleHistory) -> (r: Result<(), Halt>)
        ensures
            match itn_merged(old(into)@, notice_models(value@)) {
                Ok(m) => r is Ok && final(into)@ == m,
                Err(h) => r is Err && r->Err_0@ == h && *final(into) == *old(into),
            },
    {
        let ghost s = notice_models(value@);
        let mut added: Vec<AhItn> = Vec::new();
        let mut i: usize = 0;
        assert(itn_models(added@) =~= Seq::<ItnModel>::empty());
        while i < value.len()
            invariant
                i <= value@.len(),
                s == notice_models(value@),
                itn_links_upto(s, i as nat) == Ok::<Seq<ItnModel>, HaltView>(itn_models(added@)),
            decreases value.len() - i,
        {
            match value[i].link() {
                Err(h) => {
                    proof {
                        lemma_links_err(s, (i + 1) as nat, s.len());
                    }
                    return Err(h);
                },
                Ok(l) => {
                    let ghost before = added@;
                    added.push(AhItn { date: value[i].date.duplicate(), link: l });
                    assert(itn_models(added@) =~= itn_models(before).push(added@.last()@));
                },
            }
            i = i + 1;
        }
        let ghost start = into.itns@;
        let ghost more = added@;
        assert(s.len() == value@.len());
        into.itns.append(&mut added);
        assert(into.itns@ =~= start + more);
        assert(itn_models(into.itns@) =~= itn_models(start) + itn_models(more));
        assert(into@ =~= with_itns(old(into)@, itn_models(more)));
        Ok(())
    }
}

} // verus!
