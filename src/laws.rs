//! Properties that relate several operations of the library.
use vstd::prelude::*;
use vstd::multiset::Multiset;
use crate::builder::{action_key, entry, rendered_action, rendered_actions, close, Entry, NEWLINE_MARK};
use crate::date::{date_outcome, fail, DateLookup, HaltView};
use crate::error::{ErrorView, HistoryError};
use crate::extractors::{bad_param, first_bad_from, schema_outcome, slot_of, ExtractContext};
use crate::page::{excludes_bots, fold_blocks, page_outcome, placement, Block};
use crate::date::Lookups;
use crate::builder::Param;
use crate::params::value_of;
use crate::status::{token_of_action, derived_tokens, insert_pos, join_codes, resolved_status, sort_by_date, surviving, token_code, tokens_of, whitelisted, StatusToken};
use crate::types::{ActionModel, HistoryModel};

verus! {

/// The actions are in ascending order of date.
pub open spec fn date_sorted(s: Seq<ActionModel>) -> bool {
    forall|i: int, j: int| 0 <= i < j < s.len() ==> #[trigger] s[i].date.instant <= #[trigger] s[j].date.instant
}

proof fn lemma_insert_pos_split(t: Seq<ActionModel>, k: i64)
    requires
        date_sorted(t),
    ensures
        insert_pos(t, k) <= t.len(),
        forall|i: int| 0 <= i < insert_pos(t, k) ==> #[trigger] t[i].date.instant <= k,
        forall|i: int| insert_pos(t, k) <= i < t.len() ==> #[trigger] t[i].date.instant > k,
    decreases t.len(),
{
    if t.len() > 0 {
        let d = t.drop_last();
        assert(date_sorted(d));
        lemma_insert_pos_split(d, k);
        if t.last().date.instant <= k {
            assert forall|i: int| 0 <= i < t.len() implies #[trigger] t[i].date.instant <= k by {
                if i < t.len() - 1 {
                    assert(t[i].date.instant <= t[t.len() - 1].date.instant);
                }
            }
        } else {
            assert forall|i: int| insert_pos(t, k) <= i < t.len() implies #[trigger] t[i].date.instant > k by {
                if i < t.len() - 1 {
                    assert(d[i] == t[i]);
                }
            }
            assert forall|i: int| 0 <= i < insert_pos(t, k) implies #[trigger] t[i].date.instant <= k by {
                assert(d[i] == t[i]);
            }
        }
    }
}

/// Sorting gives a date-sorted arrangement of the same actions.
pub proof fn lemma_sort_sorted(s: Seq<ActionModel>)
    ensures
        date_sorted(sort_by_date(s)),
        sort_by_date(s).to_multiset() == s.to_multiset(),
        sort_by_date(s).len() == s.len(),
    decreases s.len(),
{
    broadcast use vstd::seq_lib::group_to_multiset_ensures;

    if s.len() == 0 {
    } else {
        let d = s.drop_last();
        lemma_sort_sorted(d);
        let t = sort_by_date(d);
        let x = s.last();
        let p = insert_pos(t, x.date.instant);
        lemma_insert_pos_split(t, x.date.instant);
        let r = t.insert(p as int, x);
        assert(r == sort_by_date(s));
        assert forall|i: int, j: int| 0 <= i < j < r.len() implies #[trigger] r[i].date.instant
            <= #[trigger] r[j].date.instant by {
            if j < p {
            } else if j == p {
                assert(r[i] == t[i]);
            } else if i < p {
                assert(r[j] == t[j - 1]);
                assert(r[i] == t[i]);
            } else if i == p {
                assert(r[j] == t[j - 1]);
            } else {
                assert(r[j] == t[j - 1]);
                assert(r[i] == t[i - 1]);
            }
        }
        vstd::seq_lib::to_multiset_insert(t, p as int, x);
        assert(s =~= d.push(x));
        vstd::seq_lib::to_multiset_build(d, x);
    }
}

/// Sorting an arrangement that is already sorted changes nothing.
pub proof fn lemma_sort_sorted_fixed(s: Seq<ActionModel>)
    requires
        date_sorted(s),
    ensures
        sort_by_date(s) == s,
    decreases s.len(),
{
    if s.len() > 0 {
        let d = s.drop_last();
        assert(date_sorted(d));
        lemma_sort_sorted_fixed(d);
        lemma_insert_pos_split(d, s.last().date.instant);
        if insert_pos(d, s.last().date.instant) < d.len() {
            let i = insert_pos(d, s.last().date.instant) as int;
            assert(d[i] == s[i]);
            assert(s[i].date.instant <= s[s.len() - 1].date.instant);
        }
        assert(d.insert(d.len() as int, s.last()) =~= s);
    }
}

/// Actions that share a date leave the same status token.
pub open spec fn date_determines_token(m: Multiset<ActionModel>) -> bool {
    forall|x: ActionModel, y: ActionModel|
        m.contains(x) && m.contains(y) && x.date.instant == y.date.instant ==> token_of_action(x)
            == token_of_action(y)
}

/// Two arrangements agree, position by position, in date and token.
pub open spec fn same_tokens(a: Seq<ActionModel>, b: Seq<ActionModel>) -> bool {
    a.len() == b.len() && forall|i: int|
        0 <= i < a.len() ==> #[trigger] a[i].date.instant == b[i].date.instant && token_of_action(a[i])
            == token_of_action(b[i])
}

proof fn lemma_tokens_of_same(a: Seq<ActionModel>, b: Seq<ActionModel>)
    requires
        same_tokens(a, b),
    ensures
        tokens_of(a) == tokens_of(b),
    decreases a.len(),
{
    if a.len() > 0 {
        assert(same_tokens(a.drop_last(), b.drop_last())) by {
            assert forall|i: int| 0 <= i < a.drop_last().len() implies #[trigger] a.drop_last()[i].date.instant
                == b.drop_last()[i].date.instant && token_of_action(a.drop_last()[i]) == token_of_action(
                b.drop_last()[i],
            ) by {
                assert(a.drop_last()[i] == a[i]);
                assert(b.drop_last()[i] == b[i]);
            }
        }
        lemma_tokens_of_same(a.drop_last(), b.drop_last());
        let l = a.len() - 1;
        assert(a[l].date.instant == b[l].date.instant);
        assert(token_of_action(a.last()) == token_of_action(b.last()));
    }
}

proof fn lemma_in_multiset(s: Seq<ActionModel>, i: int)
    requires
        0 <= i < s.len(),
    ensures
        s.to_multiset().contains(s[i]),
{
    assert(s.contains(s[i]));
    vstd::seq_lib::to_multiset_contains(s, s[i]);
}

/// Two date-sorted arrangements of the same actions, where actions that share
/// a date leave the same token, agree in date and token position by position.
proof fn lemma_sorted_same_tokens(a: Seq<ActionModel>, b: Seq<ActionModel>)
    requires
        date_sorted(a),
        date_sorted(b),
        a.to_multiset() == b.to_multiset(),
        date_determines_token(a.to_multiset()),
    ensures
        same_tokens(a, b),
    decreases a.len(),
{
    broadcast use vstd::seq_lib::group_to_multiset_ensures;

    vstd::seq_lib::to_multiset_len(a);
    vstd::seq_lib::to_multiset_len(b);
    if a.len() > 0 {
        lemma_in_multiset(a, 0);
        vstd::seq_lib::to_multiset_contains(b, a[0]);
        assert(b.contains(a[0]));
        let k = choose|k: int| 0 <= k < b.len() && b[k] == a[0];
        lemma_in_multiset(b, 0);
        vstd::seq_lib::to_multiset_contains(a, b[0]);
        assert(a.contains(b[0]));
        let m = choose|m: int| 0 <= m < a.len() && a[m] == b[0];
        assert(a[0].date.instant <= a[m].date.instant);
        assert(b[0].date.instant <= b[k].date.instant);
        let d0 = b[0].date.instant;
        assert(a[0].date.instant == d0);
        let a1 = a.drop_first();
        let b1 = b.remove(k);
        vstd::seq_lib::to_multiset_remove(a, 0);
        vstd::seq_lib::to_multiset_remove(b, k);
        assert(a.remove(0) =~= a1);
        assert(date_sorted(a1));
        assert(date_sorted(b1)) by {
            assert forall|i: int, j: int| 0 <= i < j < b1.len() implies #[trigger] b1[i].date.instant
                <= #[trigger] b1[j].date.instant by {
                let bi = if i < k { i } else { i + 1 };
                let bj = if j < k { j } else { j + 1 };
                assert(b1[i] == b[bi]);
                assert(b1[j] == b[bj]);
            }
        }
        assert(date_determines_token(a1.to_multiset())) by {
            assert forall|x: ActionModel, y: ActionModel|
                a1.to_multiset().contains(x) && a1.to_multiset().contains(y) && x.date.instant
                    == y.date.instant implies token_of_action(x) == token_of_action(y) by {
                vstd::seq_lib::to_multiset_contains(a1, x);
                vstd::seq_lib::to_multiset_contains(a1, y);
                let ix = choose|i: int| 0 <= i < a1.len() && a1[i] == x;
                let iy = choose|i: int| 0 <= i < a1.len() && a1[i] == y;
                lemma_in_multiset(a, ix + 1);
                lemma_in_multiset(a, iy + 1);
            }
        }
        lemma_sorted_same_tokens(a1, b1);
        assert forall|i: int| 0 <= i < a.len() implies #[trigger] a[i].date.instant == b[i].date.instant
            && token_of_action(a[i]) == token_of_action(b[i]) by {
            lemma_in_multiset(a, i);
            lemma_in_multiset(b, i);
            vstd::seq_lib::to_multiset_contains(a, b[i]);
            if i == 0 {
                lemma_in_multiset(b, 0);
            } else if i > k {
                assert(a[i] == a1[i - 1]);
                assert(b1[i - 1] == b[i]);
            } else {
                assert(a[i] == a1[i - 1]);
                assert(b1[i - 1] == b[i - 1]);
                assert(b[0].date.instant <= b[i - 1].date.instant);
                assert(b[i].date.instant <= b[k].date.instant);
                lemma_in_multiset(b, i - 1);
                vstd::seq_lib::to_multiset_contains(a, b[i - 1]);
            }
        }
    }
}

/// The derived status does not depend on the order in which the actions are
/// given, as long as actions that share a date leave the same token: any
/// arrangement of the same actions resolves the same way.
pub proof fn lemma_resolve_order_invariant(a: Seq<ActionModel>, b: Seq<ActionModel>, declared: Option<Seq<char>>)
    requires
        a.to_multiset() == b.to_multiset(),
        date_determines_token(a.to_multiset()),
    ensures
        resolved_status(a, declared) == resolved_status(b, declared),
{
    lemma_sort_sorted(a);
    lemma_sort_sorted(b);
    lemma_sorted_same_tokens(sort_by_date(a), sort_by_date(b));
    lemma_tokens_of_same(sort_by_date(a), sort_by_date(b));
}

/// Resolving a second time changes nothing: the sorted actions stay as they
/// are, and the status that the first resolution set is accepted as declared.
pub proof fn lemma_resolve_idempotent(actions: Seq<ActionModel>, declared: Option<Seq<char>>)
    requires
        resolved_status(actions, declared) is Ok,
    ensures
        sort_by_date(sort_by_date(actions)) == sort_by_date(actions),
        resolved_status(sort_by_date(actions), resolved_status(actions, declared)->Ok_0)
            == resolved_status(actions, declared),
{
    lemma_sort_sorted(actions);
    lemma_sort_sorted_fixed(sort_by_date(actions));
}

/// A declared good-article status on a history whose derived status is a
/// former featured article is refused as a mismatch.
pub proof fn lemma_status_conflict(actions: Seq<ActionModel>)
    requires
        derived_tokens(actions) == Ok::<Seq<StatusToken>, HistoryError>(seq![StatusToken::Ffa]),
    ensures
        resolved_status(actions, Some("GA"@)) == Err::<Option<Seq<char>>, HistoryError>(HistoryError::StatusMismatch),
{
    reveal_strlit("GA");
    let k = seq![StatusToken::Ffa];
    assert(join_codes(k) == token_code(StatusToken::Ffa));
    assert("GA"@ != join_codes(k)) by {
        assert("GA"@.len() == 2);
    }
}

/// Of the surviving tokens, a former featured article before a good article
/// is allowed and written `FFA/GA`, while a former featured article before a
/// failed good-article nomination is ambiguous.
pub proof fn lemma_multi_status(actions: Seq<ActionModel>)
    requires
        tokens_of(sort_by_date(actions)) is Ok,
    ensures
        surviving(tokens_of(sort_by_date(actions))->Ok_0) == seq![StatusToken::Ffa, StatusToken::Ga] ==> resolved_status(
            actions,
            None,
        ) == Ok::<Option<Seq<char>>, HistoryError>(Some("FFA/GA"@)),
        surviving(tokens_of(sort_by_date(actions))->Ok_0) == seq![StatusToken::Ffa, StatusToken::Fgan]
            ==> resolved_status(actions, None) == Err::<Option<Seq<char>>, HistoryError>(HistoryError::AmbiguousStatus),
{
    reveal_strlit("FFA/GA");
    let k1 = seq![StatusToken::Ffa, StatusToken::Ga];
    assert(whitelisted(k1));
    assert(k1.drop_last() =~= seq![StatusToken::Ffa]);
    assert(join_codes(k1.drop_last()) == token_code(StatusToken::Ffa));
    assert(join_codes(k1) == token_code(StatusToken::Ffa) + seq!['/'] + token_code(StatusToken::Ga));
    assert(join_codes(k1) =~= "FFA/GA"@);
    let k2 = seq![StatusToken::Ffa, StatusToken::Fgan];
    assert(!whitelisted(k2)) by {
        assert(k2[1] != seq![StatusToken::Ffa, StatusToken::Ga][1]);
        assert(k2[1] != seq![StatusToken::Ffac, StatusToken::Ga][1]);
    }
}

/// A block with one name outside its schema, all its other names known and
/// filling different fields, is refused for that name.
pub proof fn lemma_unknown_parameter(ps: Seq<Param>, keys: Seq<&str>, slots: Seq<usize>, j: int)
    requires
        0 <= j < ps.len(),
        slot_of(keys, slots, ps[j].key@) is None,
        forall|i: int| 0 <= i < ps.len() && i != j ==> #[trigger] slot_of(keys, slots, ps[i].key@) is Some,
        forall|i: int, l: int|
            0 <= i < l < ps.len() && i != j && l != j ==> #[trigger] slot_of(keys, slots, ps[i].key@) != #[trigger] slot_of(
                keys,
                slots,
                ps[l].key@,
            ),
    ensures
        schema_outcome(ps, keys, slots) == Err::<(), HaltView>(fail(ErrorView::UnrecognizedParameter(ps[j].key@))),
{
    lemma_first_bad(ps, keys, slots, j, 0);
}

proof fn lemma_first_bad(ps: Seq<Param>, keys: Seq<&str>, slots: Seq<usize>, j: int, l: int)
    requires
        0 <= l <= j < ps.len(),
        slot_of(keys, slots, ps[j].key@) is None,
        forall|i: int| 0 <= i < ps.len() && i != j ==> #[trigger] slot_of(keys, slots, ps[i].key@) is Some,
        forall|i: int, m: int|
            0 <= i < m < ps.len() && i != j && m != j ==> #[trigger] slot_of(keys, slots, ps[i].key@) != #[trigger] slot_of(
                keys,
                slots,
                ps[m].key@,
            ),
    ensures
        first_bad_from(ps, keys, slots, l) == Some(j),
    decreases j - l,
{
    if l < j {
        assert(!bad_param(ps, keys, slots, l));
        lemma_first_bad(ps, keys, slots, j, l + 1);
    }
}

/// A block that excludes bots stops the fold, however many blocks before it
/// were folded.
pub proof fn lemma_bot_exclusion(blocks: Seq<Block>, cx: ExtractContext, facts: Lookups, m: HistoryModel, k: int)
    requires
        0 <= k < blocks.len(),
        excludes_bots(blocks[k].name@, blocks[k].params@),
        fold_blocks(blocks, cx, facts, m, k as nat) is Ok,
    ensures
        fold_blocks(blocks, cx, facts, m, blocks.len()) == Err::<(HistoryModel, Seq<usize>), HaltView>(
            fail(ErrorView::BotExcluded),
        ),
{
    lemma_fold_stays(blocks, cx, facts, m, (k + 1) as nat, blocks.len());
}

proof fn lemma_fold_stays(blocks: Seq<Block>, cx: ExtractContext, facts: Lookups, m: HistoryModel, n: nat, l: nat)
    requires
        n <= l,
        fold_blocks(blocks, cx, facts, m, n) is Err,
    ensures
        fold_blocks(blocks, cx, facts, m, l) == fold_blocks(blocks, cx, facts, m, n),
    decreases l - n,
{
    if n < l {
        lemma_fold_stays(blocks, cx, facts, m, n, (l - 1) as nat);
    }
}

/// A page with a block that excludes bots never yields edits.
pub proof fn lemma_bot_excluded_page(blocks: Seq<Block>, cx: ExtractContext, facts: Lookups, k: int)
    requires
        0 <= k < blocks.len(),
        excludes_bots(blocks[k].name@, blocks[k].params@),
    ensures
        page_outcome(blocks, cx, facts) is Err,
{
    if placement(blocks) is Ok {
        let p = placement(blocks)->Ok_0;
        let source = match p {
            crate::page::Placement::Existing(i) => blocks[i as int].params@,
            crate::page::Placement::Beside(_) => Seq::empty(),
        };
        if crate::extract::decode_history(source, facts.dates@) is Ok {
            let m0 = crate::extract::decode_history(source, facts.dates@)->Ok_0;
            if fold_blocks(blocks, cx, facts, m0, k as nat) is Ok {
                lemma_bot_exclusion(blocks, cx, facts, m0, k);
            } else {
                lemma_fold_stays(blocks, cx, facts, m0, k as nat, blocks.len());
            }
        }
    }
}

/// Decoding a date keeps its text exactly, whatever instant it stands for.
pub proof fn lemma_date_text_kept(dates: Seq<DateLookup>, t: Seq<char>)
    ensures
        date_outcome(dates, t) matches Ok(d) ==> d.text == t,
{
}

/// The entry of date text `t` under key `k`: `t` with its line ended, and
/// ended once more when it closes its record.
pub open spec fn writes_date(r: Seq<Entry>, k: Seq<char>, t: Seq<char>) -> bool {
    r.contains(entry(k, t, true)) || r.contains(entry(k, t + NEWLINE_MARK@, true))
}

/// Rendering writes the text of every action's date verbatim as the value of
/// that action's date key, followed only by line-continuation markers.
pub proof fn lemma_action_date_rendered(s: Seq<ActionModel>, i: int)
    requires
        0 <= i < s.len(),
    ensures
        writes_date(rendered_actions(s), action_key((i + 1) as nat, "date"@), s[i].date.text),
    decreases s.len(),
{
    let d = s.drop_last();
    let k = action_key((i + 1) as nat, "date"@);
    let t = s[i].date.text;
    if i < s.len() - 1 {
        lemma_action_date_rendered(d, i);
        assert(d[i] == s[i]);
        assert(rendered_actions(s) == rendered_actions(d) + rendered_action(s.last(), s.len()));
        if rendered_actions(d).contains(entry(k, t, true)) {
            let w = choose|w: int| 0 <= w < rendered_actions(d).len() && rendered_actions(d)[w] == entry(k, t, true);
            assert(rendered_actions(s)[w] == entry(k, t, true));
        } else {
            let w = choose|w: int|
                0 <= w < rendered_actions(d).len() && rendered_actions(d)[w] == entry(k, t + NEWLINE_MARK@, true);
            assert(rendered_actions(s)[w] == entry(k, t + NEWLINE_MARK@, true));
        }
    } else {
        let a = s.last();
        let n = s.len();
        let body = seq![
            entry(action_key(n, ""@), crate::kind::kind_code(a.kind), true),
            entry(action_key(n, "date"@), a.date.text, true),
        ] + crate::builder::opt_entry(action_key(n, "link"@), a.link, true) + crate::builder::opt_entry(
            action_key(n, "result"@),
            a.result,
            true,
        ) + crate::builder::opt_entry(action_key(n, "oldid"@), a.oldid, true);
        assert(rendered_action(a, n) == close(body));
        assert(rendered_actions(s) == rendered_actions(d) + close(body));
        let w: int = rendered_actions(d).len() as int + 1;
        assert(body[1] == entry(k, t, true));
        if body.len() == 2 {
            assert(close(body)[1] == (body[1].0, body[1].1 + NEWLINE_MARK@));
            assert(body[1].1 + NEWLINE_MARK@ =~= (t + NEWLINE_MARK@) + NEWLINE_MARK@);
            assert(rendered_actions(s)[w] == entry(k, t + NEWLINE_MARK@, true));
        } else {
            assert(close(body)[1] == body[1]);
            assert(rendered_actions(s)[w] == entry(k, t, true));
        }
    }
}

/// The name is recognised by none of the secondary-block extractors.
pub open spec fn no_extractor_for(name: Seq<char>) -> bool {
    !crate::names::matches_alias(name, crate::extractors::dyk::DykExtractor::aliases())
        && !crate::names::matches_alias(name, crate::extractors::oldpr::OldPrExtractor::aliases())
        && !crate::names::matches_alias(name, crate::extractors::ga::GaExtractor::aliases())
        && !crate::names::matches_alias(name, crate::extractors::failedga::FailedGaExtractor::aliases())
        && !crate::names::matches_alias(name, crate::extractors::otd::OtdExtractor::aliases())
        && !crate::names::matches_alias(name, crate::extractors::itn::ItnExtractor::aliases())
}

/// Once no secondary block is left, folding takes no block and leaves the
/// aggregate as it was decoded, so that the page's outcome is its aggregate
/// resolved and rendered anew.
pub proof fn lemma_fold_fixed_point(blocks: Seq<Block>, cx: ExtractContext, facts: Lookups, m: HistoryModel, n: nat)
    requires
        n <= blocks.len(),
        forall|i: int| 0 <= i < blocks.len() ==> no_extractor_for(#[trigger] blocks[i].name@),
        forall|i: int| 0 <= i < blocks.len() ==> !excludes_bots(#[trigger] blocks[i].name@, blocks[i].params@),
    ensures
        fold_blocks(blocks, cx, facts, m, n) == Ok::<(HistoryModel, Seq<usize>), HaltView>((m, Seq::empty())),
    decreases n,
{
    if n > 0 {
        lemma_fold_fixed_point(blocks, cx, facts, m, (n - 1) as nat);
        let b = blocks[n - 1];
        assert(no_extractor_for(b.name@));
        assert(!excludes_bots(b.name@, b.params@));
        reveal(crate::extractors::block_outcome);
    }
}

/// Rendering writes the text of every "on this day" date verbatim as the
/// value of that record's date key, its line ended only when it closes the
/// record.
pub proof fn lemma_otd_date_rendered(s: Seq<crate::types::OtdModel>, i: int)
    requires
        0 <= i < s.len(),
    ensures
        crate::builder::rendered_otds(s).contains(entry(crate::builder::otd_key((i + 1) as nat, "date"@), s[i].date.text, false))
            || crate::builder::rendered_otds(s).contains(entry(crate::builder::otd_key((i + 1) as nat, "date"@), s[i].date.text, true)),
    decreases s.len(),
{
    let d = s.drop_last();
    let k = crate::builder::otd_key((i + 1) as nat, "date"@);
    let t = s[i].date.text;
    let r = crate::builder::rendered_otds(s);
    if i < s.len() - 1 {
        lemma_otd_date_rendered(d, i);
        assert(d[i] == s[i]);
        let rd = crate::builder::rendered_otds(d);
        assert(r == rd + crate::builder::rendered_otd(s.last(), s.len()));
        if rd.contains(entry(k, t, false)) {
            let w = choose|w: int| 0 <= w < rd.len() && rd[w] == entry(k, t, false);
            assert(r[w] == entry(k, t, false));
        } else {
            let w = choose|w: int| 0 <= w < rd.len() && rd[w] == entry(k, t, true);
            assert(r[w] == entry(k, t, true));
        }
    } else {
        let a = s.last();
        let n = s.len();
        let body = seq![entry(crate::builder::otd_key(n, "date"@), a.date.text, false)] + crate::builder::opt_entry(
            crate::builder::otd_key(n, "oldid"@),
            a.oldid,
            false,
        ) + crate::builder::opt_entry(crate::builder::otd_key(n, "link"@), a.link, false);
        assert(crate::builder::rendered_otd(a, n) == close(body));
        let rd = crate::builder::rendered_otds(d);
        assert(r == rd + close(body));
        let w: int = rd.len() as int;
        assert(body[0] == entry(k, t, false));
        if body.len() == 1 {
            assert(close(body)[0] == (body[0].0, body[0].1 + NEWLINE_MARK@));
            assert(r[w] == entry(k, t, true));
        } else {
            assert(close(body)[0] == body[0]);
            assert(r[w] == entry(k, t, false));
        }
    }
}

/// A nomination block with one name outside its schema, all its other names
/// known and filling different fields, aborts the whole page's fold with
/// that name, however many blocks before it were folded.
pub proof fn lemma_unknown_parameter_page(
    blocks: Seq<Block>,
    cx: ExtractContext,
    facts: Lookups,
    m: HistoryModel,
    k: int,
    j: int,
)
    requires
        0 <= k < blocks.len(),
        fold_blocks(blocks, cx, facts, m, k as nat) is Ok,
        !excludes_bots(blocks[k].name@, blocks[k].params@),
        !crate::names::matches_alias(blocks[k].name@, crate::extractors::dyk::DykExtractor::aliases()),
        !crate::names::matches_alias(blocks[k].name@, crate::extractors::oldpr::OldPrExtractor::aliases()),
        crate::names::matches_alias(blocks[k].name@, crate::extractors::ga::GaExtractor::aliases())
            || crate::names::matches_alias(blocks[k].name@, crate::extractors::failedga::FailedGaExtractor::aliases()),
        0 <= j < blocks[k].params@.len(),
        slot_of(crate::extractors::ga::nomination_keys(), crate::extractors::ga::nomination_slots(), blocks[k].params@[j].key@) is None,
        forall|i: int|
            0 <= i < blocks[k].params@.len() && i != j ==> #[trigger] slot_of(
                crate::extractors::ga::nomination_keys(),
                crate::extractors::ga::nomination_slots(),
                blocks[k].params@[i].key@,
            ) is Some,
        forall|i: int, l: int|
            0 <= i < l < blocks[k].params@.len() && i != j && l != j ==> #[trigger] slot_of(
                crate::extractors::ga::nomination_keys(),
                crate::extractors::ga::nomination_slots(),
                blocks[k].params@[i].key@,
            ) != #[trigger] slot_of(
                crate::extractors::ga::nomination_keys(),
                crate::extractors::ga::nomination_slots(),
                blocks[k].params@[l].key@,
            ),
    ensures
        fold_blocks(blocks, cx, facts, m, blocks.len()) == Err::<(HistoryModel, Seq<usize>), HaltView>(
            fail(ErrorView::UnrecognizedParameter(blocks[k].params@[j].key@)),
        ),
{
    let b = blocks[k];
    lemma_unknown_parameter(
        b.params@,
        crate::extractors::ga::nomination_keys(),
        crate::extractors::ga::nomination_slots(),
        j,
    );
    let m1 = fold_blocks(blocks, cx, facts, m, k as nat)->Ok_0.0;
    reveal(crate::extractors::block_outcome);
    assert(crate::extractors::block_outcome(cx, b.name@, b.params@, m1, facts) == Some(
        Err::<HistoryModel, HaltView>(fail(ErrorView::UnrecognizedParameter(b.params@[j].key@))),
    ));
    assert(fold_blocks(blocks, cx, facts, m, (k + 1) as nat) == Err::<(HistoryModel, Seq<usize>), HaltView>(
        fail(ErrorView::UnrecognizedParameter(b.params@[j].key@)),
    ));
    lemma_fold_stays(blocks, cx, facts, m, (k + 1) as nat, blocks.len());
}

proof fn lemma_appearance_texts(ps: Seq<Param>, dates: Seq<DateLookup>, n: nat)
    requires
        crate::extractors::otd::decode_appearances_upto(ps, dates, n) is Ok,
    ensures
        crate::extractors::otd::decode_appearances_upto(ps, dates, n)->Ok_0.len() == n,
        forall|i: int|
            0 <= i < n ==> (#[trigger] crate::extractors::otd::decode_appearances_upto(ps, dates, n)->Ok_0[i]).0.text
                == value_of(ps, crate::extractors::otd::date_key((i + 1) as nat))->Some_0,
    decreases n,
{
    if n > 0 {
        lemma_appearance_texts(ps, dates, (n - 1) as nat);
    }
}

proof fn lemma_contains_concat(a: Seq<Entry>, b: Seq<Entry>, e: Entry)
    ensures
        a.contains(e) ==> (a + b).contains(e),
        b.contains(e) ==> (a + b).contains(e),
{
    if a.contains(e) {
        let w = choose|w: int| 0 <= w < a.len() && a[w] == e;
        assert((a + b)[w] == e);
    }
    if b.contains(e) {
        let w = choose|w: int| 0 <= w < b.len() && b[w] == e;
        assert((a + b)[a.len() + w] == e);
    }
}

/// A date read from an "on this day" notice keeps its text through the
/// merge into an aggregate and the rendering of that aggregate: the
/// parameter written for it holds exactly the text given for it, followed
/// at most by the line-continuation marker.
pub proof fn lemma_otd_date_fidelity(
    m: HistoryModel,
    ps: Seq<Param>,
    dates: Seq<DateLookup>,
    i: int,
    actions: Seq<ActionModel>,
    status: Option<Seq<char>>,
)
    requires
        crate::extractors::otd::decode_appearances(ps, dates) is Ok,
        0 <= i < crate::extractors::otd::decode_appearances(ps, dates)->Ok_0.len(),
    ensures
        ({
            let h = crate::types::with_otds(
                m,
                crate::extractors::otd_records(crate::extractors::otd::decode_appearances(ps, dates)->Ok_0),
            );
            let k = crate::builder::otd_key((m.otds.len() + i + 1) as nat, "date"@);
            let t = value_of(ps, crate::extractors::otd::date_key((i + 1) as nat))->Some_0;
            crate::builder::rendered_history(h, actions, status).contains(entry(k, t, false))
                || crate::builder::rendered_history(h, actions, status).contains(entry(k, t, true))
        }),
{
    let sq = crate::extractors::otd::decode_appearances(ps, dates)->Ok_0;
    lemma_appearance_texts(ps, dates, crate::extractors::otd::appearance_count(ps));
    let h = crate::types::with_otds(m, crate::extractors::otd_records(sq));
    let w = m.otds.len() + i;
    assert(h.otds[w] == crate::extractors::otd_records(sq)[i]);
    let t = value_of(ps, crate::extractors::otd::date_key((i + 1) as nat))->Some_0;
    assert(h.otds[w].date.text == t);
    lemma_otd_date_rendered(h.otds, w);
    let k = crate::builder::otd_key((w + 1) as nat, "date"@);
    let ro = crate::builder::rendered_otds(h.otds);
    let e = if ro.contains(entry(k, t, false)) { entry(k, t, false) } else { entry(k, t, true) };
    assert(ro.contains(e));
    let x1 = crate::builder::rendered_actions(actions) + crate::builder::opt_entry("currentstatus"@, status, true)
        + crate::builder::opt_entry("maindate"@, crate::builder::opt_text(h.maindate), true)
        + crate::builder::opt_entry("maindate2"@, crate::builder::opt_text(h.maindate2), true)
        + crate::builder::rendered_itns(h.itns) + crate::builder::rendered_dyks(h.dyks);
    lemma_contains_concat(x1, ro, e);
    let x2 = x1 + ro;
    let y1 = crate::builder::flag_entry("four"@, h.four, true);
    lemma_contains_concat(x2, y1, e);
    let x3 = x2 + y1;
    let y2 = crate::builder::rendered_topics(h.featured_topics);
    lemma_contains_concat(x3, y2, e);
    let x4 = x3 + y2;
    let y3 = crate::builder::opt_entry("topic"@, h.topic, true);
    lemma_contains_concat(x4, y3, e);
    let x5 = x4 + y3;
    let y4 = crate::builder::flag_entry("collapse"@, h.collapse, true);
    lemma_contains_concat(x5, y4, e);
    let x6 = x5 + y4;
    let y5 = crate::builder::flag_entry("small"@, h.small, true);
    lemma_contains_concat(x6, y5, e);
    assert(x6 + y5 == crate::builder::rendered_history(h, actions, status));
}

} // verus!
