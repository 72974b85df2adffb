//! Old peer review notices.
use vstd::prelude::*;
use crate::builder::Param;
use crate::date::{count_answer, date_outcome, decision_answer, fail, rv, CountLookup, DateLookup, DecisionLookup, Halt, HaltView, Lookups, Query, QueryView};
use crate::error::{ErrorView, HistoryError};
use crate::extractors::{check_schema, schema_outcome, ExtractContext};
use crate::kind::ActionKind;
use crate::names::{matches_alias, matches_any, starts_with};
use crate::params::{get, value_of};
use crate::text::{concat, opt_view};
use crate::types::{action_models, opt_date, with_action, Action, ActionModel, ArticleHistory, DateModel, HistoryModel, PreserveDate};

verus! {

/// An old peer review notice, as decoded.
#[derive(Clone, Debug)]
pub struct OldPeerReview {
    pub archive: Option<String>,
    pub reviewedname: Option<String>,
    pub archivelink: Option<String>,
    pub id: Option<String>,
    pub date: Option<PreserveDate>,
}

pub struct ReviewModel {
    pub archive: Option<Seq<char>>,
    pub reviewedname: Option<Seq<char>>,
    pub archivelink: Option<Seq<char>>,
    pub id: Option<Seq<char>>,
    pub date: Option<DateModel>,
}

impl View for OldPeerReview {
    type V = ReviewModel;

    open spec fn view(&self) -> ReviewModel {
        ReviewModel {
            archive: opt_view(self.archive),
            reviewedname: opt_view(self.reviewedname),
            archivelink: opt_view(self.archivelink),
            id: opt_view(self.id),
            date: opt_date(self.date),
        }
    }
}

/// The answer of the edit-count service: how many edits a page has.
#[derive(Clone, Copy, Debug)]
pub struct ApiResponse {
    pub count: u64,
}

pub open spec fn review_keys() -> Seq<&'static str> {
    seq!["archive", "reviewedname", "archivelink", "ID", "date"]
}

pub open spec fn review_slots() -> Seq<usize> {
    seq![0usize, 1usize, 2usize, 3usize, 4usize]
}

/// What a notice's parameters decode to.
pub open spec fn decode_review(ps: Seq<Param>, dates: Seq<DateLookup>) -> Result<ReviewModel, HaltView> {
    match schema_outcome(ps, review_keys(), review_slots()) {
        Err(h) => Err(h),
        Ok(()) => {
            let rest = |d: Option<DateModel>|
                ReviewModel {
                    archive: value_of(ps, "archive"@),
                    reviewedname: value_of(ps, "reviewedname"@),
                    archivelink: value_of(ps, "archivelink"@),
                    id: value_of(ps, "ID"@),
                    date: d,
                };
            match value_of(ps, "date"@) {
                None => Ok(rest(None)),
                Some(t) => match date_outcome(dates, t) {
                    Err(h) => Err(h),
                    Ok(d) => Ok(rest(Some(d))),
                },
            }
        },
    }
}

/// The title without its talk namespace.
pub open spec fn subject_title(t: Seq<char>) -> Seq<char> {
    if "Talk:"@.len() <= t.len() && t.subrange(0, "Talk:"@.len() as int) == "Talk:"@ {
        t.subrange("Talk:"@.len() as int, t.len() as int)
    } else {
        t
    }
}

/// The review page: the archive link when given, else the numbered archive
/// of the reviewed page (the subject page unless named).
pub open spec fn review_link(v: ReviewModel, title: Seq<char>) -> Seq<char> {
    match v.archivelink {
        Some(l) => l,
        None => "Wikipedia:Peer review/"@ + (match v.reviewedname {
            Some(n) => n,
            None => subject_title(title),
        }) + "/archive"@ + (match v.archive {
            Some(a) => a,
            None => "1"@,
        }),
    }
}

/// Whether the review counts as reviewed: by its edit count, else by a
/// person's verdict where one may be asked, else not at all.
pub open spec fn review_verdict(
    link: Seq<char>,
    threshold: u64,
    interactive: bool,
    counts: Seq<CountLookup>,
    decisions: Seq<DecisionLookup>,
) -> Result<Seq<char>, HaltView> {
    match count_answer(counts, link) {
        None => Err(HaltView::Ask(QueryView::EditCount(link))),
        Some(c) => if c >= threshold {
            Ok("Reviewed"@)
        } else if !interactive {
            Err(fail(ErrorView::ReviewUndecided))
        } else {
            match decision_answer(decisions, link) {
                None => Err(HaltView::Ask(QueryView::Decision(link))),
                Some(true) => Ok("Reviewed"@),
                Some(false) => Ok("Not reviewed"@),
            }
        },
    }
}

/// The aggregate after folding in a peer review notice.
pub open spec fn review_merged(
    m: HistoryModel,
    v: ReviewModel,
    title: Seq<char>,
    interactive: bool,
    threshold: u64,
    counts: Seq<CountLookup>,
    decisions: Seq<DecisionLookup>,
) -> Result<HistoryModel, HaltView> {
    let link = review_link(v, title);
    match review_verdict(link, threshold, interactive, counts, decisions) {
        Err(h) => Err(h),
        Ok(res) => match v.date {
            None => Err(fail(ErrorView::MissingRequiredField("date"@))),
            Some(d) => Ok(with_action(
                m,
                m.topic,
                ActionModel { kind: ActionKind::Pr, date: d, link: Some(link), result: Some(res), oldid: v.id },
            )),
        },
    }
}

/// Names what the edit-count service returns for a page: its URL path
/// segment, percent-encoded.
pub uninterp spec fn url_encoded(s: Seq<char>) -> Seq<char>;

/// Relies on `urlencoding::encode`: percent-encodes every byte of the UTF-8
/// text but ASCII alphanumerics and `-`, `_`, `.`, `~`; the result depends on
/// the text alone.
#[verifier::external_body]
fn encode_component(s: &str) -> (r: String)
    ensures
        r@ == url_encoded(s@),
{
    urlencoding::encode(s).into_owned()
}

/// The text with every space replaced by an underscore.
pub open spec fn underscored(s: Seq<char>) -> Seq<char> {
    Seq::new(s.len(), |i: int| if s[i] == ' ' { '_' } else { s[i] })
}

fn underscore(s: &str) -> (r: String)
    ensures
        r@ == underscored(s@),
{
    proof {
        reveal_strlit("_");
    }
    let n = s.unicode_len();
    let mut out = String::new();
    let mut i: usize = 0;
    while i < n
        invariant
            n == s@.len(),
            i <= n,
            out@ =~= underscored(s@.subrange(0, i as int)),
        decreases n - i,
    {
        let c = s.get_char(i);
        let ghost prev = out@;
        if c == ' ' {
            proof {
                reveal_strlit("_");
            }
            assert("_"@ =~= seq!['_']);
            out.append("_");
        } else {
            let one = s.substring_char(i, i + 1);
            assert(one@ =~= seq![c]);
            out.append(one);
        }
        assert(out@ =~= prev.push(if c == ' ' { '_' } else { c }));
        assert(underscored(s@.subrange(0, i + 1)) =~= underscored(s@.subrange(0, i as int)).push(
            if c == ' ' { '_' } else { c },
        ));
        i = i + 1;
    }
    assert(s@.subrange(0, n as int) =~= s@);
    out
}

/// The address at which the edit-count service reports a review page's edits.
pub fn edit_count_url(link: &str) -> (r: String)
    ensures
        r@ == "https://en.wikipedia.org/w/rest.php/v1/page/"@ + url_encoded(underscored(link@))
            + "/history/counts/edits"@,
{
    let page = encode_component(underscore(link).as_str());
    let mut u = concat("https://en.wikipedia.org/w/rest.php/v1/page/", page.as_str());
    u.append("/history/counts/edits");
    u
}

fn subject(title: &str) -> (r: &str)
    ensures
        r@ == subject_title(title@),
{
    proof {
        reveal_strlit("Talk:");
    }
    if starts_with(title, "Talk:") {
        title.substring_char(5, title.unicode_len())
    } else {
        title
    }
}

/// The review page of a notice on the page with the given title.
pub fn link_of(v: &OldPeerReview, title: &str) -> (r: String)
    ensures
        r@ == review_link(v@, title@),
{
    match &v.archivelink {
        Some(l) => l.clone(),
        None => {
            let mut s = String::from_str("Wikipedia:Peer review/");
            match &v.reviewedname {
                Some(n) => s.append(n.as_str()),
                None => s.append(subject(title)),
            }
            s.append("/archive");
            match &v.archive {
                Some(a) => s.append(a.as_str()),
                None => s.append("1"),
            }
            s
        },
    }
}

/// Reads old peer review notices.
pub struct OldPrExtractor;

impl OldPrExtractor {
    pub open spec fn aliases() -> Seq<&'static str> {
        seq!["old peer review", "oldpeerreview"]
    }

    pub fn is_extractable(&self, name: &str) -> (r: bool)
        ensures
            r == matches_alias(name@, Self::aliases()),
    {
        let a: [&str; 2] = ["old peer review", "oldpeerreview"];
        assert(a@ =~= Self::aliases());
        matches_any(name, &a)
    }

    pub fn extract(&self, ps: &Vec<Param>, facts: &Lookups) -> (r: Result<OldPeerReview, Halt>)
        ensures
            rv(r) == decode_review(ps@, facts.dates@),
    {
        let keys: [&str; 5] = ["archive", "reviewedname", "archivelink", "ID", "date"];
        let slots: [usize; 5] = [0, 1, 2, 3, 4];
        assert(keys@ =~= review_keys());
        assert(slots@ =~= review_slots());
        match check_schema(ps, &keys, &slots) {
            Err(h) => {
                return Err(h);
            },
            Ok(()) => {},
        }
        let date = match get(ps, "date") {
            None => None,
            Some(t) => match PreserveDate::try_from_string(t, facts) {
                Err(h) => {
                    return Err(h);
                },
                Ok(d) => Some(d),
            },
        };
        Ok(OldPeerReview {
            archive: get(ps, "archive"),
            reviewedname: get(ps, "reviewedname"),
            archivelink: get(ps, "archivelink"),
            id: get(ps, "ID"),
            date,
        })
    }

    /// Adds the review as a peer review action, once its edit count (and, below
    /// the threshold, a person's verdict) is known.
    pub fn merge_value_into(&self, cx: &ExtractContext, value: OldPeerReview, into: &mut ArticleHistory, facts: &Lookups) -> (r: Result<(), Halt>)
        ensures
            match review_merged(
                old(into)@,
                value@,
                cx.title@,
                cx.allow_interactive,
                cx.review_threshold,
                facts.edit_counts@,
                facts.decisions@,
            ) {
                Ok(m) => r is Ok && final(into)@ == m,
                Err(h) => r is Err && r->Err_0@ == h && *final(into) == *old(into),
            },
    {
        let link = link_of(&value, cx.title.as_str());
        let count = match facts.edit_count(link.as_str()) {
            None => {
                return Err(Halt::Ask(Query::EditCount(link)));
            },
            Some(c) => c,
        };
        let result = if count >= cx.review_threshold {
            "Reviewed"
        } else if !cx.allow_interactive {
            return Err(Halt::Fail(HistoryError::ReviewUndecided));
        } else {
            match facts.decision(link.as_str()) {
                None => {
                    return Err(Halt::Ask(Query::Decision(link)));
                },
                Some(true) => "Reviewed",
                Some(false) => "Not reviewed",
            }
        };
        let OldPeerReview { archive: _, reviewedname: _, archivelink: _, id, date } = value;
        let date = match date {
            None => {
                return Err(Halt::Fail(HistoryError::MissingRequiredField(String::from_str("date"))));
            },
            Some(d) => d,
        };
        let ghost before = into.actions@;
        into.actions.push(Action { kind: ActionKind::Pr, date, link: Some(link), result: Some(String::from_str(result)), oldid: id });
        assert(action_models(into.actions@) =~= action_models(before).push(into.actions@.last()@));
        Ok(())
    }
}

} // verus!
