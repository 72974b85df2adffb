//! One page's transformation: from a snapshot of its blocks to the edits
//! that fold its history into the aggregate.
use vstd::prelude::*;
use crate::builder::{entries, Entry, Param, NEWLINE_MARK};
use crate::date::{fail, Halt, HaltView, Lookups};
use crate::error::{ErrorView, HistoryError};
use crate::extract::{decode_history, ArticleHistoryExtractor};
use crate::extractors::{block_outcome, extract_all, ExtractContext};
use crate::names::{matches_alias, matches_any, strip_ns, template_name};
use crate::params::{get, value_of};
use crate::status::{resolved_status, sort_by_date};
use crate::builder::rendered_history;
use crate::text::{concat, eq_ascii_ci, eq_ignore_ascii_case, str_eq};
use crate::types::{ArticleHistory, HistoryModel};

verus! {

/// A structured block of the page: its name and its ordered parameters.
#[derive(Clone, Debug)]
pub struct Block {
    pub name: String,
    pub params: Vec<Param>,
}

/// An edit for the document model to apply; `block` is the position of a
/// block in the snapshot the edits were computed from.
#[derive(Clone, Debug)]
pub enum DocEdit {
    /// Detach the block, collapsing the blank lines it leaves.
    Remove { block: usize },
    /// Give the block a new name.
    Rename { block: usize, name: String },
    /// Replace the block's parameters.
    SetParams { block: usize, params: Vec<Param> },
    /// Put a new block immediately before the block.
    InsertBefore { block: usize, name: String, params: Vec<Param> },
}

/// Where the aggregate of a page is.
#[derive(Clone, Copy, Debug, PartialEq, Eq, Structural)]
pub enum Placement {
    /// The block at this position is the aggregate.
    Existing(usize),
    /// A new aggregate goes before the anchor block at this position.
    Beside(usize),
}

/// The bot whose exclusion the page may ask for.
pub const BOT_NAME: &'static str = "DeadbeefBot";

/// The name given to the aggregate block.
pub open spec fn aggregate_name() -> Seq<char> {
    "Article history"@ + NEWLINE_MARK@
}

/// The block that keeps a new aggregate on a line of its own.
pub const NEWLINE_BLOCK: &'static str = "subst:User:0xDeadbeef/newline";

/// `p` occurs in `s`.
pub open spec fn contains(s: Seq<char>, p: Seq<char>) -> bool {
    exists|i: int| 0 <= i && i + p.len() <= s.len() && #[trigger] s.subrange(i, i + p.len()) == p
}

pub fn contains_text(s: &str, p: &str) -> (r: bool)
    ensures
        r == contains(s@, p@),
{
    let n = s.unicode_len();
    let m = p.unicode_len();
    if m > n {
        return false;
    }
    let last = n - m;
    let mut i: usize = 0;
    loop
        invariant
            n == s@.len(),
            m == p@.len(),
            last == n - m,
            i <= last,
            forall|j: int| 0 <= j < i ==> #[trigger] s@.subrange(j, j + m) != p@,
        ensures
            forall|j: int| 0 <= j <= last ==> #[trigger] s@.subrange(j, j + m) != p@,
        decreases last - i,
    {
        let part = s.substring_char(i, i + m);
        if str_eq(part, p) {
            assert(s@.subrange(i as int, i + m) == p@);
            return true;
        }
        if i == last {
            break;
        }
        i = i + 1;
    }
    assert forall|j: int| 0 <= j && j + p@.len() <= s@.len() implies #[trigger] s@.subrange(j, j + p@.len()) != p@ by {
        assert(j <= last);
    }
    false
}

/// The block asks for no automatic edits, by name or through its parameters.
pub open spec fn excludes_bots(name: Seq<char>, ps: Seq<Param>) -> bool {
    eq_ascii_ci(name, "template:nobots"@) || (eq_ascii_ci(name, "template:bots"@) && (value_of(ps, "allow"@)
        == Some("none"@) || value_of(ps, "deny"@) == Some("all"@) || value_of(ps, "optout"@) == Some(
        "all"@,
    ) || (value_of(ps, "deny"@) matches Some(d) && contains(d, BOT_NAME@))))
}

fn value_is(ps: &Vec<Param>, k: &str, v: &str) -> (r: bool)
    ensures
        r == (value_of(ps@, k@) == Some(v@)),
{
    match get(ps, k) {
        Some(x) => str_eq(x.as_str(), v),
        None => false,
    }
}

/// Whether the block asks for no automatic edits.
pub fn check_nobots(b: &Block) -> (r: bool)
    ensures
        r == excludes_bots(b.name@, b.params@),
{
    if eq_ignore_ascii_case(b.name.as_str(), "template:nobots") {
        return true;
    }
    if !eq_ignore_ascii_case(b.name.as_str(), "template:bots") {
        return false;
    }
    value_is(&b.params, "allow", "none") || value_is(&b.params, "deny", "all") || value_is(&b.params, "optout", "all")
        || match get(&b.params, "deny") {
        Some(d) => contains_text(d.as_str(), BOT_NAME),
        None => false,
    }
}

/// The text consists of line breaks only.
pub open spec fn only_newlines(s: Seq<char>) -> bool {
    forall|i: int| 0 <= i < s.len() ==> #[trigger] s[i] == '\n'
}

/// What becomes of the text around a removed block, given the text before
/// and after it (`None` where the neighbour is no text): a run of blank lines
/// before it shrinks to one line break, and a run after it disappears when
/// one stood before it. `None` in the result leaves a neighbour as it is.
pub open spec fn collapsed(prev: Option<Seq<char>>, next: Option<Seq<char>>) -> (Option<Seq<char>>, Option<Seq<char>>) {
    let was_nl = prev matches Some(p) && only_newlines(p) && p.len() > 0;
    let new_prev = match prev {
        Some(p) => if only_newlines(p) && p.len() >= 2 {
            Some(seq!['\n'])
        } else {
            None
        },
        None => None,
    };
    let new_next = match next {
        Some(n) => if !only_newlines(n) {
            None
        } else if was_nl {
            Some(Seq::empty())
        } else if n.len() >= 2 {
            Some(seq!['\n'])
        } else {
            None
        },
        None => None,
    };
    (new_prev, new_next)
}

fn newlines_only(s: &str) -> (r: bool)
    ensures
        r == only_newlines(s@),
{
    let n = s.unicode_len();
    let mut i: usize = 0;
    while i < n
        invariant
            n == s@.len(),
            i <= n,
            forall|j: int| 0 <= j < i ==> #[trigger] s@[j] == '\n',
        decreases n - i,
    {
        if s.get_char(i) != '\n' {
            return false;
        }
        i = i + 1;
    }
    true
}

pub open spec fn opt_str(o: Option<&str>) -> Option<Seq<char>> {
    match o {
        Some(s) => Some(s@),
        None => None,
    }
}

pub open spec fn opt_string(o: Option<String>) -> Option<Seq<char>> {
    match o {
        Some(s) => Some(s@),
        None => None,
    }
}

/// The new texts of the neighbours of a removed block.
pub fn collapse_newlines(prev: Option<&str>, next: Option<&str>) -> (r: (Option<String>, Option<String>))
    ensures
        (opt_string(r.0), opt_string(r.1)) == collapsed(opt_str(prev), opt_str(next)),
{
    proof {
        reveal_strlit("\n");
        reveal_strlit("");
    }
    let (new_prev, was_nl) = match prev {
        Some(p) => {
            let nl = newlines_only(p);
            let len = p.unicode_len();
            (if nl && len >= 2 { Some(String::from_str("\n")) } else { None }, nl && len > 0)
        },
        None => (None, false),
    };
    let new_next = match next {
        Some(n) => if !newlines_only(n) {
            None
        } else if was_nl {
            Some(String::new())
        } else if n.unicode_len() >= 2 {
            Some(String::from_str("\n"))
        } else {
            None
        },
        None => None,
    };
    (new_prev, new_next)
}

/// The names of the anchor blocks, next to which a new aggregate is put.
pub open spec fn anchor_names() -> Seq<&'static str> {
    seq!["WikiProject banner shell", "WikiProjectBannerShell", "WPBS", "WikiProject Banner Shell", "Wpbs"]
}

pub open spec fn is_anchor(name: Seq<char>) -> bool {
    exists|i: int| 0 <= i < anchor_names().len() && strip_ns(name) == #[trigger] anchor_names()[i]@
}

pub open spec fn is_aggregate(name: Seq<char>) -> bool {
    matches_alias(name, ArticleHistoryExtractor::aliases())
}

pub open spec fn first_aggregate_from(blocks: Seq<Block>, j: int) -> Option<int>
    decreases blocks.len() - j,
{
    if j < 0 || j >= blocks.len() {
        None
    } else if is_aggregate(blocks[j].name@) {
        Some(j)
    } else {
        first_aggregate_from(blocks, j + 1)
    }
}

pub open spec fn first_anchor_from(blocks: Seq<Block>, j: int) -> Option<int>
    decreases blocks.len() - j,
{
    if j < 0 || j >= blocks.len() {
        None
    } else if is_anchor(blocks[j].name@) {
        Some(j)
    } else {
        first_anchor_from(blocks, j + 1)
    }
}

/// Where the aggregate is: the one aggregate block, or before the first
/// anchor when there is none.
pub open spec fn placement(blocks: Seq<Block>) -> Result<Placement, HaltView> {
    match first_aggregate_from(blocks, 0) {
        Some(k) => if first_aggregate_from(blocks, k + 1) is Some {
            Err(fail(ErrorView::AmbiguousTemplateInstance))
        } else {
            Ok(Placement::Existing(k as usize))
        },
        None => match first_anchor_from(blocks, 0) {
            Some(a) => Ok(Placement::Beside(a as usize)),
            None => Err(fail(ErrorView::NoAnchor)),
        },
    }
}

/// The first `n` blocks folded into the aggregate, with the positions of the
/// blocks that were taken; a block that excludes bots stops the page.
pub open spec fn fold_blocks(blocks: Seq<Block>, cx: ExtractContext, facts: Lookups, m: HistoryModel, n: nat) -> Result<(HistoryModel, Seq<usize>), HaltView>
    decreases n,
{
    if n == 0 {
        Ok((m, Seq::empty()))
    } else {
        match fold_blocks(blocks, cx, facts, m, (n - 1) as nat) {
            Err(h) => Err(h),
            Ok((m1, taken)) => {
                let b = blocks[n - 1];
                if excludes_bots(b.name@, b.params@) {
                    Err(fail(ErrorView::BotExcluded))
                } else {
                    match block_outcome(cx, b.name@, b.params@, m1, facts) {
                        None => Ok((m1, taken)),
                        Some(Err(h)) => Err(h),
                        Some(Ok(m2)) => Ok((m2, taken.push((n - 1) as usize))),
                    }
                }
            },
        }
    }
}

/// The outcome of a page: where its aggregate is, which blocks were taken,
/// and the aggregate's new parameters.
pub open spec fn page_outcome(blocks: Seq<Block>, cx: ExtractContext, facts: Lookups) -> Result<(Placement, Seq<usize>, Seq<Entry>), HaltView> {
    match placement(blocks) {
        Err(h) => Err(h),
        Ok(p) => {
            let source = match p {
                Placement::Existing(k) => blocks[k as int].params@,
                Placement::Beside(_) => Seq::empty(),
            };
            match decode_history(source, facts.dates@) {
                Err(h) => Err(h),
                Ok(m0) => match fold_blocks(blocks, cx, facts, m0, blocks.len()) {
                    Err(h) => Err(h),
                    Ok((m, taken)) => match resolved_status(m.actions, m.currentstatus) {
                        Err(e) => Err(fail(e@)),
                        Ok(s) => Ok((p, taken, rendered_history(m, sort_by_date(m.actions), s))),
                    },
                },
            }
        },
    }
}

/// The edits for a page's outcome: the taken blocks removed, then the
/// aggregate renamed and given its parameters, or a new aggregate (and a
/// line break) put before the anchor.
pub open spec fn edits_for(edits: Seq<DocEdit>, p: Placement, taken: Seq<usize>, params: Seq<Entry>) -> bool {
    &&& edits.len() == taken.len() + 2
    &&& forall|i: int| 0 <= i < taken.len() ==> #[trigger] edits[i] == (DocEdit::Remove { block: taken[i] })
    &&& match p {
        Placement::Existing(k) => {
            &&& edits[taken.len() as int] matches DocEdit::Rename { block, name } && block == k && name@
                == aggregate_name()
            &&& edits[taken.len() + 1int] matches DocEdit::SetParams { block, params: ps } && block == k
                && entries(ps@) == params
        },
        Placement::Beside(a) => {
            &&& edits[taken.len() as int] matches DocEdit::InsertBefore { block, name, params: ps } && block
                == a && name@ == aggregate_name() && entries(ps@) == params
            &&& edits[taken.len() + 1int] matches DocEdit::InsertBefore { block, name, params: ps } && block
                == a && name@ == NEWLINE_BLOCK@ && ps@.len() == 0
        },
    }
}

proof fn lemma_fold_err(blocks: Seq<Block>, cx: ExtractContext, facts: Lookups, m: HistoryModel, n: nat, k: nat)
    requires
        n <= k,
        fold_blocks(blocks, cx, facts, m, n) is Err,
    ensures
        fold_blocks(blocks, cx, facts, m, k) == fold_blocks(blocks, cx, facts, m, n),
    decreases k - n,
{
    if n < k {
        lemma_fold_err(blocks, cx, facts, m, n, (k - 1) as nat);
    }
}

fn find_aggregate(blocks: &Vec<Block>, from: usize) -> (r: Option<usize>)
    ensures
        match first_aggregate_from(blocks@, from as int) {
            Some(j) => r is Some && r->Some_0 as int == j,
            None => r is None,
        },
        r is Some ==> r->Some_0 < blocks@.len(),
{
    let a: [&str; 4] = ["article history", "article milestones", "articlemilestones", "articlehistory"];
    assert(a@ =~= ArticleHistoryExtractor::aliases());
    let mut j: usize = from;
    while j < blocks.len()
        invariant
            from <= j,
            a@ == ArticleHistoryExtractor::aliases(),
            first_aggregate_from(blocks@, from as int) == first_aggregate_from(blocks@, j as int),
        decreases blocks.len() - j,
    {
        if matches_any(blocks[j].name.as_str(), &a) {
            assert(first_aggregate_from(blocks@, j as int) == Some(j as int));
            return Some(j);
        }
        assert(first_aggregate_from(blocks@, j as int) == first_aggregate_from(blocks@, j + 1));
        j = j + 1;
    }
    assert(first_aggregate_from(blocks@, j as int) is None);
    None
}

fn anchor(name: &str) -> (r: bool)
    ensures
        r == is_anchor(name@),
{
    let t = template_name(name);
    let a: [&str; 5] = ["WikiProject banner shell", "WikiProjectBannerShell", "WPBS", "WikiProject Banner Shell", "Wpbs"];
    assert(a@ =~= anchor_names());
    let mut i: usize = 0;
    while i < 5
        invariant
            i <= 5,
            a@ == anchor_names(),
            t@ == strip_ns(name@),
            forall|l: int| 0 <= l < i ==> strip_ns(name@) != #[trigger] anchor_names()[l]@,
        decreases 5 - i,
    {
        if str_eq(t, a[i]) {
            return true;
        }
        i = i + 1;
    }
    false
}

fn find_anchor(blocks: &Vec<Block>) -> (r: Option<usize>)
    ensures
        match first_anchor_from(blocks@, 0) {
            Some(j) => r is Some && r->Some_0 as int == j,
            None => r is None,
        },
{
    let mut j: usize = 0;
    while j < blocks.len()
        invariant
            first_anchor_from(blocks@, 0) == first_anchor_from(blocks@, j as int),
        decreases blocks.len() - j,
    {
        if anchor(blocks[j].name.as_str()) {
            assert(first_anchor_from(blocks@, j as int) == Some(j as int));
            return Some(j);
        }
        assert(first_anchor_from(blocks@, j as int) == first_anchor_from(blocks@, j + 1));
        j = j + 1;
    }
    assert(first_anchor_from(blocks@, j as int) is None);
    None
}

impl ArticleHistoryExtractor {
    /// The block names of the aggregate.
    pub open spec fn aliases() -> Seq<&'static str> {
        seq!["article history", "article milestones", "articlemilestones", "articlehistory"]
    }

    pub fn is_extractable(&self, name: &str) -> (r: bool)
        ensures
            r == matches_alias(name@, Self::aliases()),
    {
        let a: [&str; 4] = ["article history", "article milestones", "articlemilestones", "articlehistory"];
        assert(a@ =~= Self::aliases());
        matches_any(name, &a)
    }
}

fn locate(blocks: &Vec<Block>) -> (r: Result<Placement, Halt>)
    ensures
        match placement(blocks@) {
            Ok(p) => r == Ok::<Placement, Halt>(p),
            Err(h) => r is Err && r->Err_0@ == h,
        },
        r matches Ok(Placement::Existing(k)) ==> k < blocks@.len(),
{
    match find_aggregate(blocks, 0) {
        Some(k) => {
            if k < blocks.len() - 1 {
                if find_aggregate(blocks, k + 1).is_some() {
                    return Err(Halt::Fail(HistoryError::AmbiguousTemplateInstance));
                }
            } else {
                assert(first_aggregate_from(blocks@, k + 1) is None);
            }
            Ok(Placement::Existing(k))
        },
        None => match find_anchor(blocks) {
            Some(a) => Ok(Placement::Beside(a)),
            None => Err(Halt::Fail(HistoryError::NoAnchor)),
        },
    }
}

/// Folds every block of the page into the aggregate, in document order.
fn fold_page(blocks: &Vec<Block>, cx: &ExtractContext, facts: &Lookups, ah: &mut ArticleHistory) -> (r: Result<Vec<usize>, Halt>)
    requires
        forall|i: int| 0 <= i < blocks@.len() ==> #[trigger] blocks@[i].params@.len() < usize::MAX,
    ensures
        match fold_blocks(blocks@, *cx, *facts, old(ah)@, blocks@.len()) {
            Ok((m, t)) => r is Ok && final(ah)@ == m && r->Ok_0@ == t,
            Err(h) => r is Err && r->Err_0@ == h,
        },
{
    let ghost m0 = ah@;
    let mut taken: Vec<usize> = Vec::new();
    let mut i: usize = 0;
    while i < blocks.len()
        invariant
            i <= blocks@.len(),
            m0 == old(ah)@,
            forall|l: int| 0 <= l < blocks@.len() ==> #[trigger] blocks@[l].params@.len() < usize::MAX,
            fold_blocks(blocks@, *cx, *facts, m0, i as nat) == Ok::<(HistoryModel, Seq<usize>), HaltView>(
                (ah@, taken@),
            ),
        decreases blocks.len() - i,
    {
        let b = &blocks[i];
        if check_nobots(b) {
            proof {
                lemma_fold_err(blocks@, *cx, *facts, m0, (i + 1) as nat, blocks@.len());
            }
            return Err(Halt::Fail(HistoryError::BotExcluded));
        }
        match extract_all(cx, b.name.as_str(), &b.params, ah, facts) {
            Err(h) => {
                proof {
                    lemma_fold_err(blocks@, *cx, *facts, m0, (i + 1) as nat, blocks@.len());
                }
                return Err(h);
            },
            Ok(true) => {
                taken.push(i);
            },
            Ok(false) => {},
        }
        i = i + 1;
    }
    Ok(taken)
}

fn edits_of(place: Placement, taken: &Vec<usize>, params: Vec<Param>) -> (r: Vec<DocEdit>)
    ensures
        edits_for(r@, place, taken@, entries(params@)),
{
    let mut edits: Vec<DocEdit> = Vec::new();
    let mut j: usize = 0;
    while j < taken.len()
        invariant
            j <= taken@.len(),
            edits@.len() == j,
            forall|l: int| 0 <= l < j ==> #[trigger] edits@[l] == (DocEdit::Remove { block: taken@[l] }),
        decreases taken.len() - j,
    {
        edits.push(DocEdit::Remove { block: taken[j] });
        j = j + 1;
    }
    let name = concat("Article history", NEWLINE_MARK);
    match place {
        Placement::Existing(k) => {
            edits.push(DocEdit::Rename { block: k, name });
            edits.push(DocEdit::SetParams { block: k, params });
        },
        Placement::Beside(a) => {
            edits.push(DocEdit::InsertBefore { block: a, name, params });
            edits.push(DocEdit::InsertBefore { block: a, name: String::from_str(NEWLINE_BLOCK), params: Vec::new() });
        },
    }
    edits
}

/// Folds a page's history into its aggregate.
///
/// Takes a snapshot of the page's blocks and returns the edits that make the
/// aggregate canonical, or why the page is left alone, or a question for an
/// outside collaborator: answer it in `facts` and call again.
pub fn merge_page(blocks: &Vec<Block>, cx: &ExtractContext, facts: &Lookups) -> (r: Result<Vec<DocEdit>, Halt>)
    requires
        forall|i: int| 0 <= i < blocks@.len() ==> #[trigger] blocks@[i].params@.len() < usize::MAX,
    ensures
        match page_outcome(blocks@, *cx, *facts) {
            Err(h) => r is Err && r->Err_0@ == h,
            Ok((p, taken, params)) => r is Ok && edits_for(r->Ok_0@, p, taken, params),
        },
{
    let place = match locate(blocks) {
        Ok(p) => p,
        Err(h) => {
            return Err(h);
        },
    };
    let empty: Vec<Param> = Vec::new();
    let source: &Vec<Param> = match place {
        Placement::Existing(k) => &blocks[k].params,
        Placement::Beside(_) => &empty,
    };
    let mut ah = match ArticleHistoryExtractor.extract(source, facts) {
        Ok(h) => h,
        Err(h) => {
            return Err(h);
        },
    };
    let taken = match fold_page(blocks, cx, facts, &mut ah) {
        Ok(t) => t,
        Err(h) => {
            return Err(h);
        },
    };
    let params = match ah.into_template() {
        Ok(ps) => ps,
        Err(e) => {
            return Err(Halt::Fail(e));
        },
    };
    Ok(edits_of(place, &taken, params))
}

} // verus!
