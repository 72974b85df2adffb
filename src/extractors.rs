//! The extractors of secondary blocks, and the dispatch among them.
use vstd::prelude::*;
use crate::builder::Param;
use crate::date::{fail, HaltView, Halt};
use crate::error::{ErrorView, HistoryError};
use crate::params::value_of;
use crate::text::str_eq;
use crate::date::Lookups;
use crate::names::matches_alias;
use crate::types::{ArticleHistory, HistoryModel, OtdModel, DateModel, with_otds};
use crate::extractors::dyk::{decode_notice, notice_merged, DykExtractor};
use crate::extractors::failedga::FailedGaExtractor;
use crate::extractors::ga::{decode_nomination, nomination_merged, GaExtractor};
use crate::extractors::itn::{decode_itn_notice, itn_merged, ItnExtractor};
use crate::extractors::oldpr::{decode_review, review_merged, OldPrExtractor};
use crate::extractors::otd::{appearances, decode_appearances, OtdExtractor};

pub mod dyk;
pub mod failedga;
pub mod ga;
pub mod itn;
pub mod oldpr;
pub mod otd;

verus! {

/// What the merges need to know of the page being treated.
#[derive(Clone, Debug)]
pub struct ExtractContext {
    /// The talk page's title.
    pub title: String,
    /// Whether a person may be asked to decide what cannot be decided otherwise.
    pub allow_interactive: bool,
    /// The number of edits from which a peer review counts as reviewed.
    pub review_threshold: u64,
}

/// The field that key `k` fills in a schema of accepted keys, where aliases
/// of one field share its slot.
pub open spec fn slot_of(keys: Seq<&str>, slots: Seq<usize>, k: Seq<char>) -> Option<usize>
    decreases keys.len(),
{
    if keys.len() == 0 || slots.len() == 0 {
        None
    } else if keys[0]@ == k {
        Some(slots[0])
    } else {
        slot_of(keys.drop_first(), slots.drop_first(), k)
    }
}

/// Parameter `j` is unknown to the schema, or fills a field that an earlier
/// parameter filled.
pub open spec fn bad_param(ps: Seq<Param>, keys: Seq<&str>, slots: Seq<usize>, j: int) -> bool {
    slot_of(keys, slots, ps[j].key@) is None || exists|i: int|
        0 <= i < j && slot_of(keys, slots, #[trigger] ps[i].key@) == slot_of(keys, slots, ps[j].key@)
}

pub open spec fn first_bad_from(ps: Seq<Param>, keys: Seq<&str>, slots: Seq<usize>, j: int) -> Option<int>
    decreases ps.len() - j,
{
    if j < 0 || j >= ps.len() {
        None
    } else if bad_param(ps, keys, slots, j) {
        Some(j)
    } else {
        first_bad_from(ps, keys, slots, j + 1)
    }
}

/// Whether the parameters fit the schema: the failure at the first one that does not.
pub open spec fn schema_outcome(ps: Seq<Param>, keys: Seq<&str>, slots: Seq<usize>) -> Result<(), HaltView> {
    match first_bad_from(ps, keys, slots, 0) {
        None => Ok(()),
        Some(j) => if slot_of(keys, slots, ps[j].key@) is None {
            Err(fail(ErrorView::UnrecognizedParameter(ps[j].key@)))
        } else {
            Err(fail(ErrorView::DuplicateParameter(ps[j].key@)))
        },
    }
}

fn slot(keys: &[&str], slots: &[usize], k: &str) -> (r: Option<usize>)
    ensures
        r == slot_of(keys@, slots@, k@),
{
    let mut i: usize = 0;
    assert(keys@.subrange(0, keys@.len() as int) =~= keys@);
    assert(slots@.subrange(0, slots@.len() as int) =~= slots@);
    while i < keys.len() && i < slots.len()
        invariant
            i <= keys@.len(),
            i <= slots@.len(),
            slot_of(keys@, slots@, k@) == slot_of(
                keys@.subrange(i as int, keys@.len() as int),
                slots@.subrange(i as int, slots@.len() as int),
                k@,
            ),
        decreases keys.len() - i,
    {
        assert(keys@.subrange(i as int, keys@.len() as int).drop_first() =~= keys@.subrange(i + 1, keys@.len() as int));
        assert(slots@.subrange(i as int, slots@.len() as int).drop_first() =~= slots@.subrange(i + 1, slots@.len() as int));
        if str_eq(keys[i], k) {
            return Some(slots[i]);
        }
        i = i + 1;
    }
    None
}

/// Checks the parameters against a schema of accepted keys.
pub fn check_schema(ps: &Vec<Param>, keys: &[&str], slots: &[usize]) -> (r: Result<(), Halt>)
    ensures
        match schema_outcome(ps@, keys@, slots@) {
            Ok(()) => r is Ok,
            Err(h) => r is Err && r->Err_0@ == h,
        },
{
    let mut j: usize = 0;
    while j < ps.len()
        invariant
            j <= ps@.len(),
            first_bad_from(ps@, keys@, slots@, 0) == first_bad_from(ps@, keys@, slots@, j as int),
        decreases ps.len() - j,
    {
        let sj = slot(keys, slots, ps[j].key.as_str());
        let mut bad = sj.is_none();
        let mut i: usize = 0;
        while i < j && !bad
            invariant
                i <= j,
                j < ps@.len(),
                sj == slot_of(keys@, slots@, ps@[j as int].key@),
                bad == (sj is None || exists|l: int| 0 <= l < i && slot_of(keys@, slots@, #[trigger] ps@[l].key@) == sj),
            decreases j - i,
        {
            if slot(keys, slots, ps[i].key.as_str()) == sj {
                bad = true;
            }
            i = i + 1;
        }
        assert(bad == bad_param(ps@, keys@, slots@, j as int));
        if bad {
            assert(first_bad_from(ps@, keys@, slots@, j as int) == Some(j as int));
            if sj.is_none() {
                return Err(Halt::Fail(HistoryError::UnrecognizedParameter(ps[j].key.clone())));
            } else {
                return Err(Halt::Fail(HistoryError::DuplicateParameter(ps[j].key.clone())));
            }
        }
        assert(first_bad_from(ps@, keys@, slots@, j as int) == first_bad_from(ps@, keys@, slots@, j + 1));
        j = j + 1;
    }
    assert(first_bad_from(ps@, keys@, slots@, j as int) is None);
    Ok(())
}

/// The value of a field that may be given under either of two names.
pub open spec fn either_value(ps: Seq<Param>, a: Seq<char>, b: Seq<char>) -> Option<Seq<char>> {
    match value_of(ps, a) {
        Some(v) => Some(v),
        None => value_of(ps, b),
    }
}

/// The "on this day" records that decoded appearances become.
pub open spec fn otd_records(s: Seq<(DateModel, Seq<char>)>) -> Seq<OtdModel> {
    s.map_values(|p: (DateModel, Seq<char>)| OtdModel { date: p.0, oldid: Some(p.1), link: None })
}

/// What folding one block into the aggregate gives: `None` when no extractor
/// recognises the block's name. The extractors are tried in a fixed order
/// and the first that recognises the name takes the block.
#[verifier::opaque]
pub open spec fn block_outcome(cx: ExtractContext, name: Seq<char>, ps: Seq<Param>, m: HistoryModel, facts: Lookups) -> Option<Result<HistoryModel, HaltView>> {
    if matches_alias(name, DykExtractor::aliases()) {
        Some(
            match decode_notice(ps) {
                Err(h) => Err(h),
                Ok(v) => notice_merged(m, v, facts.dates@),
            },
        )
    } else if matches_alias(name, OldPrExtractor::aliases()) {
        Some(
            match decode_review(ps, facts.dates@) {
                Err(h) => Err(h),
                Ok(v) => review_merged(
                    m,
                    v,
                    cx.title@,
                    cx.allow_interactive,
                    cx.review_threshold,
                    facts.edit_counts@,
                    facts.decisions@,
                ),
            },
        )
    } else if matches_alias(name, GaExtractor::aliases()) {
        Some(
            match decode_nomination(ps, facts.dates@) {
                Err(h) => Err(h),
                Ok(v) => nomination_merged(m, cx.title@, v, "listed"@),
            },
        )
    } else if matches_alias(name, FailedGaExtractor::aliases()) {
        Some(
            match decode_nomination(ps, facts.dates@) {
                Err(h) => Err(h),
                Ok(v) => nomination_merged(m, cx.title@, v, "failed"@),
            },
        )
    } else if matches_alias(name, OtdExtractor::aliases()) {
        Some(
            match decode_appearances(ps, facts.dates@) {
                Err(h) => Err(h),
                Ok(s) => Ok(with_otds(m, otd_records(s))),
            },
        )
    } else if matches_alias(name, ItnExtractor::aliases()) {
        Some(
            match decode_itn_notice(ps, facts.dates@) {
                Err(h) => Err(h),
                Ok(s) => itn_merged(m, s),
            },
        )
    } else {
        None
    }
}

/// Folds one block into the aggregate through the first extractor that
/// recognises its name; `Ok(false)` when none does, and the aggregate is
/// then untouched.
pub fn extract_all(cx: &ExtractContext, name: &str, ps: &Vec<Param>, ah: &mut ArticleHistory, facts: &Lookups) -> (r: Result<bool, Halt>)
    requires
        ps@.len() < usize::MAX,
    ensures
        match block_outcome(*cx, name@, ps@, old(ah)@, *facts) {
            None => r == Ok::<bool, Halt>(false) && *final(ah) == *old(ah),
            Some(Ok(m)) => r == Ok::<bool, Halt>(true) && final(ah)@ == m,
            Some(Err(h)) => r is Err && r->Err_0@ == h && *final(ah) == *old(ah),
        },
{
    reveal(block_outcome);
    if DykExtractor.is_extractable(name) {
        let v = match DykExtractor.extract(ps) {
            Ok(v) => v,
            Err(h) => {
                return Err(h);
            },
        };
        match DykExtractor.merge_value_into(cx, v, ah, facts) {
            Ok(()) => Ok(true),
            Err(h) => Err(h),
        }
    } else if OldPrExtractor.is_extractable(name) {
        let v = match OldPrExtractor.extract(ps, facts) {
            Ok(v) => v,
            Err(h) => {
                return Err(h);
            },
        };
        match OldPrExtractor.merge_value_into(cx, v, ah, facts) {
            Ok(()) => Ok(true),
            Err(h) => Err(h),
        }
    } else if GaExtractor.is_extractable(name) {
        let v = match GaExtractor.extract(ps, facts) {
            Ok(v) => v,
            Err(h) => {
                return Err(h);
            },
        };
        match GaExtractor.merge_value_into(cx, v, ah) {
            Ok(()) => Ok(true),
            Err(h) => Err(h),
        }
    } else if FailedGaExtractor.is_extractable(name) {
        let v = match FailedGaExtractor.extract(ps, facts) {
            Ok(v) => v,
            Err(h) => {
                return Err(h);
            },
        };
        match FailedGaExtractor.merge_value_into(cx, v, ah) {
            Ok(()) => Ok(true),
            Err(h) => Err(h),
        }
    } else if OtdExtractor.is_extractable(name) {
        let v = match OtdExtractor.extract(ps, facts) {
            Ok(v) => v,
            Err(h) => {
                return Err(h);
            },
        };
        proof {
            assert(appearances(v.otds@).map_values(|p: (DateModel, Seq<char>)| OtdModel { date: p.0, oldid: Some(p.1), link: None }) =~= otd_records(appearances(v.otds@)));
        }
        match OtdExtractor.merge_value_into(cx, v, ah) {
            Ok(()) => Ok(true),
            Err(h) => Err(h),
        }
    } else if ItnExtractor.is_extractable(name) {
        let v = match ItnExtractor.extract(ps, facts) {
            Ok(v) => v,
            Err(h) => {
                return Err(h);
            },
        };
        match ItnExtractor.merge_value_into(cx, v, ah) {
            Ok(()) => Ok(true),
            Err(h) => Err(h),
        }
    } else {
        Ok(false)
    }
}

} // verus!
