//! Derivation of the summary status from the ordered history of actions.
use vstd::prelude::*;
use crate::error::HistoryError;
use crate::kind::ActionKind;
use crate::text::{eq_ascii_ci, eq_ignore_ascii_case, opt_view, str_eq};
use crate::types::{action_models, Action, ActionModel, ArticleHistory};

verus! {

/// A promotion or demotion state that an action can leave an article in.
#[derive(Clone, Copy, Debug, PartialEq, Eq, Structural)]
pub enum StatusToken {
    Fa,
    Ffac,
    Ffa,
    Fl,
    Fflc,
    Ffl,
    Fpo,
    Ffpoc,
    Ffpo,
    Ga,
    Fgan,
    Dga,
}

/// The code of a status token.
pub open spec fn token_code(t: StatusToken) -> Seq<char> {
    match t {
        StatusToken::Fa => seq!['F', 'A'],
        StatusToken::Ffac => seq!['F', 'F', 'A', 'C'],
        StatusToken::Ffa => seq!['F', 'F', 'A'],
        StatusToken::Fl => seq!['F', 'L'],
        StatusToken::Fflc => seq!['F', 'F', 'L', 'C'],
        StatusToken::Ffl => seq!['F', 'F', 'L'],
        StatusToken::Fpo => seq!['F', 'P', 'O'],
        StatusToken::Ffpoc => seq!['F', 'F', 'P', 'O', 'C'],
        StatusToken::Ffpo => seq!['F', 'F', 'P', 'O'],
        StatusToken::Ga => seq!['G', 'A'],
        StatusToken::Fgan => seq!['F', 'G', 'A', 'N'],
        StatusToken::Dga => seq!['D', 'G', 'A'],
    }
}

impl StatusToken {
    /// The code of this token, as written in a status.
    pub fn as_str(&self) -> (r: &'static str)
        ensures
            r@ == token_code(*self),
    {
        let r = match self {
            StatusToken::Fa => "FA",
            StatusToken::Ffac => "FFAC",
            StatusToken::Ffa => "FFA",
            StatusToken::Fl => "FL",
            StatusToken::Fflc => "FFLC",
            StatusToken::Ffl => "FFL",
            StatusToken::Fpo => "FPO",
            StatusToken::Ffpoc => "FFPOC",
            StatusToken::Ffpo => "FFPO",
            StatusToken::Ga => "GA",
            StatusToken::Fgan => "FGAN",
            StatusToken::Dga => "DGA",
        };
        proof {
            reveal_strlit("FA");
            reveal_strlit("FFAC");
            reveal_strlit("FFA");
            reveal_strlit("FL");
            reveal_strlit("FFLC");
            reveal_strlit("FFL");
            reveal_strlit("FPO");
            reveal_strlit("FFPOC");
            reveal_strlit("FFPO");
            reveal_strlit("GA");
            reveal_strlit("FGAN");
            reveal_strlit("DGA");
        }
        r
    }
}

pub open spec fn says_promoted(r: Seq<char>) -> bool {
    eq_ascii_ci(r, "promoted"@) || eq_ascii_ci(r, "pass"@) || eq_ascii_ci(r, "passed"@)
}

pub open spec fn says_not_promoted(r: Seq<char>) -> bool {
    eq_ascii_ci(r, "not promoted"@) || eq_ascii_ci(r, "fail"@) || eq_ascii_ci(r, "failed"@)
}

pub open spec fn says_kept(r: Seq<char>) -> bool {
    eq_ascii_ci(r, "kept"@) || eq_ascii_ci(r, "pass"@) || eq_ascii_ci(r, "passed"@)
        || eq_ascii_ci(r, "keep"@)
}

pub open spec fn says_demoted(r: Seq<char>) -> bool {
    eq_ascii_ci(r, "demoted"@) || eq_ascii_ci(r, "removed"@) || eq_ascii_ci(r, "remove"@)
        || eq_ascii_ci(r, "fail"@) || eq_ascii_ci(r, "failed"@)
}

pub open spec fn says_listed(r: Seq<char>) -> bool {
    eq_ascii_ci(r, "listed"@) || eq_ascii_ci(r, "promoted"@) || eq_ascii_ci(r, "pass"@)
        || eq_ascii_ci(r, "passed"@)
}

pub open spec fn says_not_listed(r: Seq<char>) -> bool {
    eq_ascii_ci(r, "not listed"@) || eq_ascii_ci(r, "not promoted"@) || eq_ascii_ci(r, "fail"@)
        || eq_ascii_ci(r, "failed"@)
}

pub open spec fn says_delisted(r: Seq<char>) -> bool {
    eq_ascii_ci(r, "delisted"@) || eq_ascii_ci(r, "fail"@) || eq_ascii_ci(r, "failed"@)
}

/// Picks one of two tokens by the result text, or refuses an unknown result.
pub open spec fn pick(
    r: Option<Seq<char>>,
    yes: spec_fn(Seq<char>) -> bool,
    yes_token: StatusToken,
    no: spec_fn(Seq<char>) -> bool,
    no_token: StatusToken,
) -> Result<Option<StatusToken>, HistoryError> {
    match r {
        Some(t) => if yes(t) {
            Ok(Some(yes_token))
        } else if no(t) {
            Ok(Some(no_token))
        } else {
            Err(HistoryError::UnknownActionResult)
        },
        None => Err(HistoryError::UnknownActionResult),
    }
}

/// The rule table: the status token an action of kind `k` with result `r`
/// leaves, none for kinds that do not change promotion state, or an error for
/// a result the table does not know.
pub open spec fn token_of(k: ActionKind, r: Option<Seq<char>>) -> Result<Option<StatusToken>, HistoryError> {
    match k {
        ActionKind::Fac => pick(r, |t| says_promoted(t), StatusToken::Fa, |t| says_not_promoted(t), StatusToken::Ffac),
        ActionKind::Far => pick(r, |t| says_kept(t), StatusToken::Fa, |t| says_demoted(t), StatusToken::Ffa),
        ActionKind::Rbp => Err(HistoryError::UnknownActionResult),
        ActionKind::Flc => pick(r, |t| says_promoted(t), StatusToken::Fl, |t| says_not_promoted(t), StatusToken::Fflc),
        ActionKind::Flr => pick(r, |t| says_kept(t), StatusToken::Fl, |t| says_demoted(t), StatusToken::Ffl),
        ActionKind::Fproc => pick(r, |t| says_promoted(t), StatusToken::Fpo, |t| says_not_promoted(t), StatusToken::Ffpoc),
        ActionKind::Fpor => pick(r, |t| says_kept(t), StatusToken::Fpo, |t| says_demoted(t), StatusToken::Ffpo),
        ActionKind::Gan => pick(r, |t| says_listed(t), StatusToken::Ga, |t| says_not_listed(t), StatusToken::Fgan),
        ActionKind::Gar => pick(r, |t| says_kept(t), StatusToken::Ga, |t| says_delisted(t), StatusToken::Dga),
        _ => Ok(None),
    }
}

pub open spec fn token_of_action(a: ActionModel) -> Result<Option<StatusToken>, HistoryError> {
    token_of(a.kind, a.result)
}

fn is_promoted(r: &str) -> (b: bool)
    ensures
        b == says_promoted(r@),
{
    eq_ignore_ascii_case(r, "promoted") || eq_ignore_ascii_case(r, "pass") || eq_ignore_ascii_case(r, "passed")
}

fn is_not_promoted(r: &str) -> (b: bool)
    ensures
        b == says_not_promoted(r@),
{
    eq_ignore_ascii_case(r, "not promoted") || eq_ignore_ascii_case(r, "fail") || eq_ignore_ascii_case(r, "failed")
}

fn is_kept(r: &str) -> (b: bool)
    ensures
        b == says_kept(r@),
{
    eq_ignore_ascii_case(r, "kept") || eq_ignore_ascii_case(r, "pass") || eq_ignore_ascii_case(r, "passed")
        || eq_ignore_ascii_case(r, "keep")
}

fn is_demoted(r: &str) -> (b: bool)
    ensures
        b == says_demoted(r@),
{
    eq_ignore_ascii_case(r, "demoted") || eq_ignore_ascii_case(r, "removed") || eq_ignore_ascii_case(r, "remove")
        || eq_ignore_ascii_case(r, "fail") || eq_ignore_ascii_case(r, "failed")
}

fn is_listed(r: &str) -> (b: bool)
    ensures
        b == says_listed(r@),
{
    eq_ignore_ascii_case(r, "listed") || eq_ignore_ascii_case(r, "promoted") || eq_ignore_ascii_case(r, "pass")
        || eq_ignore_ascii_case(r, "passed")
}

fn is_not_listed(r: &str) -> (b: bool)
    ensures
        b == says_not_listed(r@),
{
    eq_ignore_ascii_case(r, "not listed") || eq_ignore_ascii_case(r, "not promoted") || eq_ignore_ascii_case(r, "fail")
        || eq_ignore_ascii_case(r, "failed")
}

fn is_delisted(r: &str) -> (b: bool)
    ensures
        b == says_delisted(r@),
{
    eq_ignore_ascii_case(r, "delisted") || eq_ignore_ascii_case(r, "fail") || eq_ignore_ascii_case(r, "failed")
}

impl Action {
    /// The status token this action leaves, by the rule table.
    ///
    /// An error means the result text is outside the table: the page cannot be
    /// treated without guessing.
    pub fn opt_to_current_status(&self) -> (r: Result<Option<StatusToken>, HistoryError>)
        ensures
            r == token_of_action(self@),
    {
        let k = self.kind;
        let res: &str = match &self.result {
            Some(s) => s.as_str(),
            None => {
                return match k {
                    ActionKind::Fac | ActionKind::Far | ActionKind::Rbp | ActionKind::Flc | ActionKind::Flr
                    | ActionKind::Fproc | ActionKind::Fpor | ActionKind::Gan | ActionKind::Gar => Err(
                        HistoryError::UnknownActionResult,
                    ),
                    _ => Ok(None),
                };
            },
        };
        let (yes, yes_token, no, no_token) = match k {
            ActionKind::Fac => (is_promoted(res), StatusToken::Fa, is_not_promoted(res), StatusToken::Ffac),
            ActionKind::Far => (is_kept(res), StatusToken::Fa, is_demoted(res), StatusToken::Ffa),
            ActionKind::Rbp => {
                return Err(HistoryError::UnknownActionResult);
            },
            ActionKind::Flc => (is_promoted(res), StatusToken::Fl, is_not_promoted(res), StatusToken::Fflc),
            ActionKind::Flr => (is_kept(res), StatusToken::Fl, is_demoted(res), StatusToken::Ffl),
            ActionKind::Fproc => (is_promoted(res), StatusToken::Fpo, is_not_promoted(res), StatusToken::Ffpoc),
            ActionKind::Fpor => (is_kept(res), StatusToken::Fpo, is_demoted(res), StatusToken::Ffpo),
            ActionKind::Gan => (is_listed(res), StatusToken::Ga, is_not_listed(res), StatusToken::Fgan),
            ActionKind::Gar => (is_kept(res), StatusToken::Ga, is_delisted(res), StatusToken::Dga),
            _ => {
                return Ok(None);
            },
        };
        if yes {
            Ok(Some(yes_token))
        } else if no {
            Ok(Some(no_token))
        } else {
            Err(HistoryError::UnknownActionResult)
        }
    }
}


/// Where a stable insertion puts an action dated `k` into the date-sorted `s`:
/// after every action dated no later than `k`.
pub open spec fn insert_pos(s: Seq<ActionModel>, k: i64) -> nat
    decreases s.len(),
{
    if s.len() == 0 {
        0
    } else if s.last().date.instant <= k {
        s.len()
    } else {
        insert_pos(s.drop_last(), k)
    }
}

/// The actions sorted by date, ascending; actions with equal dates keep their
/// relative order.
pub open spec fn sort_by_date(s: Seq<ActionModel>) -> Seq<ActionModel>
    decreases s.len(),
{
    if s.len() == 0 {
        s
    } else {
        let t = sort_by_date(s.drop_last());
        t.insert(insert_pos(t, s.last().date.instant) as int, s.last())
    }
}

pub proof fn lemma_insert_pos_bound(s: Seq<ActionModel>, k: i64)
    ensures
        insert_pos(s, k) <= s.len(),
    decreases s.len(),
{
    if s.len() > 0 {
        lemma_insert_pos_bound(s.drop_last(), k);
    }
}

pub proof fn lemma_sort_len(s: Seq<ActionModel>)
    ensures
        sort_by_date(s).len() == s.len(),
    decreases s.len(),
{
    if s.len() > 0 {
        lemma_sort_len(s.drop_last());
        lemma_insert_pos_bound(sort_by_date(s.drop_last()), s.last().date.instant);
    }
}

/// Sorts actions by date, keeping the order of actions with equal dates.
pub fn sort_actions(v: Vec<Action>) -> (r: Vec<Action>)
    ensures
        action_models(r@) == sort_by_date(action_models(v@)),
{
    let ghost orig = action_models(v@);
    let total = v.len();
    assert(orig.len() == total);
    let mut src = v;
    let mut out: Vec<Action> = Vec::new();
    let mut i: usize = 0;
    assert(orig.subrange(0, 0) =~= Seq::<ActionModel>::empty());
    assert(action_models(out@) =~= Seq::<ActionModel>::empty());
    assert(action_models(src@) =~= orig.subrange(0, orig.len() as int));
    while src.len() > 0
        invariant
            i <= orig.len(),
            orig.len() <= usize::MAX,
            action_models(src@) == orig.subrange(i as int, orig.len() as int),
            action_models(out@) == sort_by_date(orig.subrange(0, i as int)),
        decreases src.len(),
    {
        let ghost src_before = src@;
        let a = src.remove(0);
        let ghost am = a@;
        assert(am == action_models(src_before)[0]);
        assert(action_models(src_before).len() == src_before.len());
        assert(am == orig[i as int]);
        assert(action_models(src@) =~= action_models(src_before).subrange(1, src_before.len() as int));
        let k = a.date.instant;
        proof {
            lemma_sort_len(orig.subrange(0, i as int));
        }
        let ghost om = action_models(out@);
        let mut j: usize = out.len();
        assert(om.subrange(0, j as int) =~= om);
        while j > 0 && out[j - 1].date.instant > k
            invariant
                j <= out.len(),
                om == action_models(out@),
                insert_pos(om.subrange(0, j as int), k) == insert_pos(om, k),
            decreases j,
        {
            assert(om.subrange(0, j as int).drop_last() =~= om.subrange(0, j - 1));
            assert(om[j - 1] == out@[j - 1]@);
            j = j - 1;
        }
        proof {
            if j == 0 {
                assert(om.subrange(0, 0) =~= Seq::<ActionModel>::empty());
            } else {
                assert(om[j - 1] == out@[j - 1]@);
            }
        }
        assert(insert_pos(om, k) == j);
        out.insert(j, a);
        assert(action_models(out@) =~= om.insert(j as int, am));
        proof {
            let p = orig.subrange(0, i + 1);
            assert(p.drop_last() =~= orig.subrange(0, i as int));
            assert(p.last() == am);
            assert(action_models(src@) =~= orig.subrange(i + 1, orig.len() as int));
        }
        i = i + 1;
    }
    assert(orig.subrange(0, i as int) =~= orig);
    out
}

/// The tokens of the actions, in order, or the first error of the table.
pub open spec fn tokens_of(s: Seq<ActionModel>) -> Result<Seq<StatusToken>, HistoryError>
    decreases s.len(),
{
    if s.len() == 0 {
        Ok(Seq::empty())
    } else {
        match tokens_of(s.drop_last()) {
            Err(e) => Err(e),
            Ok(t) => match token_of_action(s.last()) {
                Err(e) => Err(e),
                Ok(None) => Ok(t),
                Ok(Some(x)) => Ok(t.push(x)),
            },
        }
    }
}

/// Tokens of the good-article track.
pub open spec fn is_ga_track(t: StatusToken) -> bool {
    t == StatusToken::Ga || t == StatusToken::Fgan || t == StatusToken::Dga
}

/// Tokens after which an older good-article-track token no longer counts; a
/// former or current featured article outranks a good article.
pub open spec fn supersedes_ga(t: StatusToken) -> bool {
    is_ga_track(t) || t == StatusToken::Ffa || t == StatusToken::Fa
}

/// Tokens whose code starts with `F`.
pub open spec fn is_featured(t: StatusToken) -> bool {
    token_code(t)[0] == 'F'
}

/// The first pass over tokens, most recent first: a good-article-track token
/// is dropped once a superseding token has been kept.
pub open spec fn ga_pass(s: Seq<StatusToken>, found: bool) -> Seq<StatusToken>
    decreases s.len(),
{
    if s.len() == 0 {
        s
    } else if is_ga_track(s[0]) && found {
        ga_pass(s.drop_first(), found)
    } else {
        seq![s[0]] + ga_pass(s.drop_first(), found || supersedes_ga(s[0]))
    }
}

/// The second pass: only the most recent `F` token is kept, a failed
/// good-article nomination excepted.
pub open spec fn fa_pass(s: Seq<StatusToken>, found: bool) -> Seq<StatusToken>
    decreases s.len(),
{
    if s.len() == 0 {
        s
    } else if s[0] == StatusToken::Fgan {
        seq![s[0]] + fa_pass(s.drop_first(), found)
    } else if is_featured(s[0]) && found {
        fa_pass(s.drop_first(), found)
    } else {
        seq![s[0]] + fa_pass(s.drop_first(), found || is_featured(s[0]))
    }
}

/// The two combinations of several tokens that a status may have.
pub open spec fn whitelisted(k: Seq<StatusToken>) -> bool {
    k =~= seq![StatusToken::Ffa, StatusToken::Ga] || k =~= seq![StatusToken::Ffac, StatusToken::Ga]
}

/// The surviving tokens, most recent first, of a token history given oldest first.
pub open spec fn surviving(t: Seq<StatusToken>) -> Seq<StatusToken> {
    fa_pass(ga_pass(t.reverse(), false), false)
}

/// The tokens of the derived status of the actions, most recent first.
pub open spec fn derived_tokens(actions: Seq<ActionModel>) -> Result<Seq<StatusToken>, HistoryError> {
    match tokens_of(sort_by_date(actions)) {
        Err(e) => Err(e),
        Ok(t) => {
            let k = surviving(t);
            if k.len() > 1 && !whitelisted(k) {
                Err(HistoryError::AmbiguousStatus)
            } else {
                Ok(k)
            }
        },
    }
}

/// The codes of the tokens joined by `/`.
pub open spec fn join_codes(k: Seq<StatusToken>) -> Seq<char>
    decreases k.len(),
{
    if k.len() == 0 {
        Seq::empty()
    } else if k.len() == 1 {
        token_code(k[0])
    } else {
        join_codes(k.drop_last()) + seq!['/'] + token_code(k.last())
    }
}

/// A declared status agrees with the derived tokens when it is the derived
/// status itself, or the first or last part of a derived status of several
/// parts.
pub open spec fn agrees(declared: Seq<char>, k: Seq<StatusToken>) -> bool {
    declared == join_codes(k) || (k.len() > 1 && (declared == token_code(k[0]) || declared
        == token_code(k.last())))
}

/// The status that resolution leaves, from the actions and the declared
/// status: unset when no action gives a token and none was declared.
pub open spec fn resolved_status(actions: Seq<ActionModel>, declared: Option<Seq<char>>) -> Result<
    Option<Seq<char>>,
    HistoryError,
> {
    match derived_tokens(actions) {
        Err(e) => Err(e),
        Ok(k) => match declared {
            Some(d) => if agrees(d, k) {
                Ok(Some(join_codes(k)))
            } else {
                Err(HistoryError::StatusMismatch)
            },
            None => if k.len() == 0 {
                Ok(None)
            } else {
                Ok(Some(join_codes(k)))
            },
        },
    }
}

fn collect_tokens(actions: &Vec<Action>) -> (r: Result<Vec<StatusToken>, HistoryError>)
    ensures
        match tokens_of(action_models(actions@)) {
            Ok(t) => r is Ok && r->Ok_0@ == t,
            Err(e) => r == Err::<Vec<StatusToken>, HistoryError>(e),
        },
{
    let ghost am = action_models(actions@);
    let mut out: Vec<StatusToken> = Vec::new();
    let mut i: usize = 0;
    assert(am.subrange(0, 0) =~= Seq::<ActionModel>::empty());
    while i < actions.len()
        invariant
            i <= actions@.len(),
            am == action_models(actions@),
            tokens_of(am.subrange(0, i as int)) == Ok::<Seq<StatusToken>, HistoryError>(out@),
        decreases actions.len() - i,
    {
        let t = actions[i].opt_to_current_status();
        let ghost p = am.subrange(0, i + 1);
        assert(p.drop_last() =~= am.subrange(0, i as int));
        assert(p.last() == actions@[i as int]@);
        match t {
            Err(e) => {
                proof {
                    lemma_tokens_err_extends(am, i + 1);
                }
                return Err(e);
            },
            Ok(None) => {},
            Ok(Some(x)) => {
                out.push(x);
            },
        }
        i = i + 1;
    }
    assert(am.subrange(0, i as int) =~= am);
    Ok(out)
}

/// An error on a prefix is the error of the whole history.
proof fn lemma_tokens_err_extends(s: Seq<ActionModel>, n: int)
    requires
        0 <= n <= s.len(),
        tokens_of(s.subrange(0, n)) is Err,
    ensures
        tokens_of(s) == tokens_of(s.subrange(0, n)),
    decreases s.len() - n,
{
    if n < s.len() {
        let p = s.subrange(0, n + 1);
        assert(p.drop_last() =~= s.subrange(0, n));
        lemma_tokens_err_extends(s, n + 1);
    } else {
        assert(s.subrange(0, n) =~= s);
    }
}

fn reversed(v: &Vec<StatusToken>) -> (r: Vec<StatusToken>)
    ensures
        r@ == v@.reverse(),
{
    let mut out: Vec<StatusToken> = Vec::new();
    let mut i: usize = v.len();
    while i > 0
        invariant
            i <= v.len(),
            out@.len() == v.len() - i,
            forall|j: int| 0 <= j < out@.len() ==> #[trigger] out@[j] == v@[v.len() - 1 - j],
        decreases i,
    {
        i = i - 1;
        out.push(v[i]);
    }
    assert(out@ =~= v@.reverse());
    out
}

fn drop_superseded_ga(s: &Vec<StatusToken>) -> (r: Vec<StatusToken>)
    ensures
        r@ == ga_pass(s@, false),
{
    let mut out: Vec<StatusToken> = Vec::new();
    let mut found = false;
    let mut i: usize = 0;
    let n = s.len();
    assert(s@.subrange(0, n as int) =~= s@);
    while i < n
        invariant
            n == s@.len(),
            i <= n,
            ga_pass(s@, false) == out@ + ga_pass(s@.subrange(i as int, n as int), found),
        decreases n - i,
    {
        let t = s[i];
        let ghost rest = s@.subrange(i as int, n as int);
        assert(rest[0] == t);
        assert(rest.drop_first() =~= s@.subrange(i + 1, n as int));
        let ga = match t {
            StatusToken::Ga | StatusToken::Fgan | StatusToken::Dga => true,
            _ => false,
        };
        if ga && found {
        } else {
            let sup = match t {
                StatusToken::Ga | StatusToken::Fgan | StatusToken::Dga | StatusToken::Ffa | StatusToken::Fa => true,
                _ => false,
            };
            assert(out@ + ga_pass(rest, found) =~= out@.push(t) + ga_pass(s@.subrange(i + 1, n as int), found || sup));
            out.push(t);
            found = found || sup;
        }
        i = i + 1;
    }
    assert(ga_pass(s@.subrange(n as int, n as int), found) =~= Seq::<StatusToken>::empty());
    assert(out@ + Seq::<StatusToken>::empty() =~= out@);
    out
}

fn keep_latest_featured(s: &Vec<StatusToken>) -> (r: Vec<StatusToken>)
    ensures
        r@ == fa_pass(s@, false),
{
    let mut out: Vec<StatusToken> = Vec::new();
    let mut found = false;
    let mut i: usize = 0;
    let n = s.len();
    assert(s@.subrange(0, n as int) =~= s@);
    while i < n
        invariant
            n == s@.len(),
            i <= n,
            fa_pass(s@, false) == out@ + fa_pass(s@.subrange(i as int, n as int), found),
        decreases n - i,
    {
        let t = s[i];
        let ghost rest = s@.subrange(i as int, n as int);
        assert(rest[0] == t);
        assert(rest.drop_first() =~= s@.subrange(i + 1, n as int));
        let featured = match t {
            StatusToken::Ga | StatusToken::Dga => false,
            _ => true,
        };
        assert(featured == is_featured(t));
        if t == StatusToken::Fgan {
            assert(out@ + fa_pass(rest, found) =~= out@.push(t) + fa_pass(s@.subrange(i + 1, n as int), found));
            out.push(t);
        } else if featured && found {
        } else {
            assert(out@ + fa_pass(rest, found) =~= out@.push(t) + fa_pass(s@.subrange(i + 1, n as int), found || featured));
            out.push(t);
            found = found || featured;
        }
        i = i + 1;
    }
    assert(fa_pass(s@.subrange(n as int, n as int), found) =~= Seq::<StatusToken>::empty());
    assert(out@ + Seq::<StatusToken>::empty() =~= out@);
    out
}

fn join_tokens(k: &Vec<StatusToken>) -> (r: String)
    ensures
        r@ == join_codes(k@),
{
    let mut out = String::new();
    let mut i: usize = 0;
    while i < k.len()
        invariant
            i <= k@.len(),
            out@ == join_codes(k@.subrange(0, i as int)),
        decreases k.len() - i,
    {
        let ghost p = k@.subrange(0, i + 1);
        assert(p.drop_last() =~= k@.subrange(0, i as int));
        if i > 0 {
            proof {
                reveal_strlit("/");
            }
            out.append("/");
        } else {
            assert(k@.subrange(0, 0) =~= Seq::<StatusToken>::empty());
        }
        out.append(k[i].as_str());
        i = i + 1;
    }
    assert(k@.subrange(0, i as int) =~= k@);
    out
}

impl ArticleHistory {
    /// Sorts the actions by date and sets the status derived from them.
    ///
    /// Fails on a result outside the rule table, on a status of several parts
    /// that is not allowed, and on a declared status that the derived one does
    /// not refine; the declared status is never overwritten then.
    pub fn sort_and_update_status(&mut self) -> (r: Result<(), HistoryError>)
        ensures
            action_models(final(self).actions@) == sort_by_date(action_models(old(self).actions@)),
            match resolved_status(action_models(old(self).actions@), opt_view(old(self).currentstatus)) {
                Ok(s) => r is Ok && opt_view(final(self).currentstatus) == s,
                Err(e) => r == Err::<(), HistoryError>(e) && final(self).currentstatus == old(
                    self,
                ).currentstatus,
            },
            final(self).maindate == old(self).maindate,
            final(self).maindate2 == old(self).maindate2,
            final(self).itns == old(self).itns,
            final(self).dyks == old(self).dyks,
            final(self).otds == old(self).otds,
            final(self).four == old(self).four,
            final(self).featured_topics == old(self).featured_topics,
            final(self).topic == old(self).topic,
            final(self).collapse == old(self).collapse,
            final(self).small == old(self).small,
    {
        let mut taken: Vec<Action> = Vec::new();
        std::mem::swap(&mut taken, &mut self.actions);
        self.actions = sort_actions(taken);
        let toks = match collect_tokens(&self.actions) {
            Ok(t) => t,
            Err(e) => {
                return Err(e);
            },
        };
        let recent_first = reversed(&toks);
        let first = drop_superseded_ga(&recent_first);
        let kept = keep_latest_featured(&first);
        if kept.len() > 1 {
            let allowed = kept.len() == 2 && (kept[0] == StatusToken::Ffa || kept[0] == StatusToken::Ffac)
                && kept[1] == StatusToken::Ga;
            if !allowed {
                return Err(HistoryError::AmbiguousStatus);
            }
        }
        let status = join_tokens(&kept);
        let ok = match &self.currentstatus {
            None => true,
            Some(d) => {
                str_eq(d.as_str(), status.as_str()) || (kept.len() > 1 && (str_eq(
                    d.as_str(),
                    kept[0].as_str(),
                ) || str_eq(d.as_str(), kept[kept.len() - 1].as_str())))
            },
        };
        if !ok {
            return Err(HistoryError::StatusMismatch);
        }
        if self.currentstatus.is_some() || kept.len() > 0 {
            self.currentstatus = Some(status);
        }
        Ok(())
    }
}

} // verus!
