//! Rebuilds ordered template parameters from the canonical aggregate.
use vstd::prelude::*;
use crate::kind::kind_code;
use crate::text::{concat, decimal, opt_view, to_decimal};
use crate::types::{action_models, dyk_models, itn_models, otd_models, topic_models, Action, ActionModel, ArticleHistory, DateModel, Dyk, DykModel, FeaturedTopic, HistoryModel, Itn, ItnModel, Otd, OtdModel, PreserveDate, TopicModel};

verus! {

/// Appended to every emitted key, so that the host parser sees a changed name.
pub const NULL_MARK: &'static str = "{{subst:null}}";

/// The line-continuation marker that keeps re-rendered fields on lines of their own.
pub const NEWLINE_MARK: &'static str = "{{subst:User:0xDeadbeef/newline}}";

/// The token written for a flag that is set.
pub const YES: &'static str = "yes";

/// One template parameter.
#[derive(Clone, Debug)]
pub struct Param {
    pub key: String,
    pub value: String,
}

/// A parameter as a pair of texts.
pub type Entry = (Seq<char>, Seq<char>);

pub open spec fn entries(s: Seq<Param>) -> Seq<Entry> {
    s.map_values(|p: Param| (p.key@, p.value@))
}

/// The entry for `k = v`, with the value's line ended when `nl` holds.
pub open spec fn entry(k: Seq<char>, v: Seq<char>, nl: bool) -> Entry {
    (k + NULL_MARK@, if nl { v + NEWLINE_MARK@ } else { v })
}

/// The entry of an optional value: nothing when it is absent.
pub open spec fn opt_entry(k: Seq<char>, o: Option<Seq<char>>, nl: bool) -> Seq<Entry> {
    match o {
        Some(v) => seq![entry(k, v, nl)],
        None => Seq::empty(),
    }
}

/// The entry of a flag: the truthy token when set, nothing otherwise.
pub open spec fn flag_entry(k: Seq<char>, f: bool, nl: bool) -> Seq<Entry> {
    if f {
        seq![entry(k, YES@, nl)]
    } else {
        Seq::empty()
    }
}

/// Ends the line of the last entry of a record.
pub open spec fn close(s: Seq<Entry>) -> Seq<Entry> {
    if s.len() == 0 {
        s
    } else {
        s.drop_last().push((s.last().0, s.last().1 + NEWLINE_MARK@))
    }
}

/// The key of field `suffix` of record `i` of a numbered family; with
/// `bare_one`, record 1 carries no number.
pub open spec fn numbered_key(prefix: Seq<char>, i: nat, bare_one: bool, suffix: Seq<char>) -> Seq<char> {
    prefix + (if bare_one && i == 1 { Seq::empty() } else { decimal(i) }) + suffix
}

/// Builds the key of field `suffix` of record `i` of a numbered family.
pub fn numbered(prefix: &str, i: usize, bare_one: bool, suffix: &str) -> (r: String)
    ensures
        r@ == numbered_key(prefix@, i as nat, bare_one, suffix@),
{
    let mut s = String::from_str(prefix);
    if !(bare_one && i == 1) {
        let d = to_decimal(i);
        s.append(d.as_str());
    } else {
        assert(s@ + Seq::<char>::empty() =~= s@);
    }
    s.append(suffix);
    s
}

/// The ordered parameters being built.
pub struct ParamBuilder {
    pub params: Vec<Param>,
}

/// A record that writes itself as the `i`-th of its family.
pub trait AddToParams: Sized {
    spec fn rendered(&self, i: nat) -> Seq<Entry>;

    fn add_to_params(&self, i: usize, params: &mut ParamBuilder)
        requires
            i >= 1,
        ensures
            entries(final(params).params@) == entries(old(params).params@) + self.rendered(i as nat),
    ;
}

/// The entries of a family, numbered from 1.
pub open spec fn rendered_all<T: AddToParams>(s: Seq<T>) -> Seq<Entry>
    decreases s.len(),
{
    if s.len() == 0 {
        Seq::empty()
    } else {
        rendered_all(s.drop_last()) + s.last().rendered(s.len())
    }
}

impl ParamBuilder {
    pub fn new() -> (r: ParamBuilder)
        ensures
            r.params@.len() == 0,
    {
        ParamBuilder { params: Vec::new() }
    }

    /// Adds `key = value` with the value's line ended.
    pub fn addnl(&mut self, key: &str, value: &str)
        ensures
            entries(final(self).params@) == entries(old(self).params@).push(entry(key@, value@, true)),
    {
        let v = concat(value, NEWLINE_MARK);
        self.push_param(key, v);
    }

    /// Adds `key = value`.
    pub fn add(&mut self, key: &str, value: &str)
        ensures
            entries(final(self).params@) == entries(old(self).params@).push(entry(key@, value@, false)),
    {
        self.push_param(key, String::from_str(value));
    }

    fn push_param(&mut self, key: &str, value: String)
        ensures
            entries(final(self).params@) == entries(old(self).params@).push((key@ + NULL_MARK@, value@)),
    {
        let k = concat(key, NULL_MARK);
        self.params.push(Param { key: k, value });
        assert(entries(self.params@) =~= entries(old(self).params@).push((key@ + NULL_MARK@, value@)));
    }

    pub fn addnl_opt(&mut self, key: &str, value: &Option<String>)
        ensures
            entries(final(self).params@) == entries(old(self).params@) + opt_entry(key@, opt_view(*value), true),
    {
        match value {
            Some(v) => self.addnl(key, v.as_str()),
            None => {
                assert(entries(self.params@) + Seq::<Entry>::empty() =~= entries(self.params@));
            },
        }
        assert(entries(self.params@) =~= entries(old(self).params@) + opt_entry(key@, opt_view(*value), true));
    }

    pub fn add_opt(&mut self, key: &str, value: &Option<String>)
        ensures
            entries(final(self).params@) == entries(old(self).params@) + opt_entry(key@, opt_view(*value), false),
    {
        match value {
            Some(v) => self.add(key, v.as_str()),
            None => {},
        }
        assert(entries(self.params@) =~= entries(old(self).params@) + opt_entry(key@, opt_view(*value), false));
    }

    pub fn addnl_flag(&mut self, key: &str, flag: bool)
        ensures
            entries(final(self).params@) == entries(old(self).params@) + flag_entry(key@, flag, true),
    {
        if flag {
            self.addnl(key, YES);
        }
        assert(entries(self.params@) =~= entries(old(self).params@) + flag_entry(key@, flag, true));
    }

    pub fn add_flag(&mut self, key: &str, flag: bool)
        ensures
            entries(final(self).params@) == entries(old(self).params@) + flag_entry(key@, flag, false),
    {
        if flag {
            self.add(key, YES);
        }
        assert(entries(self.params@) =~= entries(old(self).params@) + flag_entry(key@, flag, false));
    }

    /// Ends the line of the last parameter added.
    pub fn newline(&mut self)
        requires
            old(self).params@.len() > 0,
        ensures
            entries(final(self).params@) == close(entries(old(self).params@)),
    {
        let mut last = self.params.pop().unwrap();
        last.value.append(NEWLINE_MARK);
        self.params.push(last);
        assert(entries(self.params@) =~= close(entries(old(self).params@)));
    }

    /// Adds every record of a family, numbered from 1.
    pub fn add_all<T: AddToParams>(&mut self, items: &Vec<T>)
        ensures
            entries(final(self).params@) == entries(old(self).params@) + rendered_all(items@),
    {
        let mut i: usize = 0;
        assert(items@.subrange(0, 0) =~= Seq::<T>::empty());
        assert(entries(self.params@) + Seq::<Entry>::empty() =~= entries(self.params@));
        while i < items.len()
            invariant
                i <= items@.len(),
                entries(self.params@) == entries(old(self).params@) + rendered_all(items@.subrange(0, i as int)),
            decreases items.len() - i,
        {
            let ghost p = items@.subrange(0, i + 1);
            assert(p.drop_last() =~= items@.subrange(0, i as int));
            assert(p.last() == items@[i as int]);
            items[i].add_to_params(i + 1, self);
            assert(entries(self.params@) =~= entries(old(self).params@) + rendered_all(p));
            i = i + 1;
        }
        assert(items@.subrange(0, i as int) =~= items@);
    }
}


pub open spec fn action_key(i: nat, suffix: Seq<char>) -> Seq<char> {
    numbered_key("action"@, i, false, suffix)
}

/// The entries of a record as the `i`-th of its family.
pub open spec fn rendered_action(a: ActionModel, i: nat) -> Seq<Entry> {
    close(
        seq![
            entry(action_key(i, ""@), kind_code(a.kind), true),
            entry(action_key(i, "date"@), a.date.text, true),
        ] + opt_entry(action_key(i, "link"@), a.link, true) + opt_entry(
            action_key(i, "result"@),
            a.result,
            true,
        ) + opt_entry(action_key(i, "oldid"@), a.oldid, true),
    )
}

impl AddToParams for Action {
    open spec fn rendered(&self, i: nat) -> Seq<Entry> {
        rendered_action(self@, i)
    }

    fn add_to_params(&self, i: usize, params: &mut ParamBuilder) {
        let ghost start = entries(params.params@);
        params.addnl(numbered("action", i, false, "").as_str(), self.kind.as_str());
        params.addnl(numbered("action", i, false, "date").as_str(), self.date.orig.as_str());
        let ghost two = entries(params.params@);
        params.addnl_opt(numbered("action", i, false, "link").as_str(), &self.link);
        params.addnl_opt(numbered("action", i, false, "result").as_str(), &self.result);
        params.addnl_opt(numbered("action", i, false, "oldid").as_str(), &self.oldid);
        let ghost body = seq![
            entry(action_key(i as nat, ""@), kind_code(self.kind), true),
            entry(action_key(i as nat, "date"@), self.date.orig@, true),
        ] + opt_entry(action_key(i as nat, "link"@), opt_view(self.link), true) + opt_entry(
            action_key(i as nat, "result"@),
            opt_view(self.result),
            true,
        ) + opt_entry(action_key(i as nat, "oldid"@), opt_view(self.oldid), true);
        assert(entries(params.params@) =~= start + body);
        params.newline();
        assert(close(start + body) =~= start + close(body));
    }
}

pub open spec fn dyk_key(i: nat, suffix: Seq<char>) -> Seq<char> {
    numbered_key("dyk"@, i, true, suffix)
}

/// The entries of a record as the `i`-th of its family.
pub open spec fn rendered_dyk(a: DykModel, i: nat) -> Seq<Entry> {
    close(
        seq![entry(dyk_key(i, "date"@), a.date.text, false)] + opt_entry(
            dyk_key(i, "entry"@),
            a.entry,
            false,
        ) + opt_entry(dyk_key(i, "nom"@), a.nom, false) + flag_entry(
            dyk_key(i, "ignoreerror"@),
            a.ignoreerror,
            false,
        ),
    )
}

impl AddToParams for Dyk {
    open spec fn rendered(&self, i: nat) -> Seq<Entry> {
        rendered_dyk(self@, i)
    }

    fn add_to_params(&self, i: usize, params: &mut ParamBuilder) {
        let ghost start = entries(params.params@);
        params.add(numbered("dyk", i, true, "date").as_str(), self.date.orig.as_str());
        params.add_opt(numbered("dyk", i, true, "entry").as_str(), &self.entry);
        params.add_opt(numbered("dyk", i, true, "nom").as_str(), &self.nom);
        params.add_flag(numbered("dyk", i, true, "ignoreerror").as_str(), self.ignoreerror);
        let ghost body = seq![entry(dyk_key(i as nat, "date"@), self.date.orig@, false)] + opt_entry(
            dyk_key(i as nat, "entry"@),
            opt_view(self.entry),
            false,
        ) + opt_entry(dyk_key(i as nat, "nom"@), opt_view(self.nom), false) + flag_entry(
            dyk_key(i as nat, "ignoreerror"@),
            self.ignoreerror,
            false,
        );
        assert(entries(params.params@) =~= start + body);
        params.newline();
        assert(close(start + body) =~= start + close(body));
    }
}

pub open spec fn itn_key(i: nat, suffix: Seq<char>) -> Seq<char> {
    numbered_key("itn"@, i, true, suffix)
}

/// The entries of a record as the `i`-th of its family.
pub open spec fn rendered_itn(a: ItnModel, i: nat) -> Seq<Entry> {
    close(
        seq![entry(itn_key(i, "date"@), a.date.text, false)] + opt_entry(
            itn_key(i, "link"@),
            a.link,
            false,
        ),
    )
}

impl AddToParams for Itn {
    open spec fn rendered(&self, i: nat) -> Seq<Entry> {
        rendered_itn(self@, i)
    }

    fn add_to_params(&self, i: usize, params: &mut ParamBuilder) {
        let ghost start = entries(params.params@);
        params.add(numbered("itn", i, true, "date").as_str(), self.date.orig.as_str());
        params.add_opt(numbered("itn", i, true, "link").as_str(), &self.link);
        let ghost body = seq![entry(itn_key(i as nat, "date"@), self.date.orig@, false)] + opt_entry(
            itn_key(i as nat, "link"@),
            opt_view(self.link),
            false,
        );
        assert(entries(params.params@) =~= start + body);
        params.newline();
        assert(close(start + body) =~= start + close(body));
    }
}

pub open spec fn otd_key(i: nat, suffix: Seq<char>) -> Seq<char> {
    numbered_key("otd"@, i, true, suffix)
}

/// The entries of a record as the `i`-th of its family.
pub open spec fn rendered_otd(a: OtdModel, i: nat) -> Seq<Entry> {
    close(
        seq![entry(otd_key(i, "date"@), a.date.text, false)] + opt_entry(
            otd_key(i, "oldid"@),
            a.oldid,
            false,
        ) + opt_entry(otd_key(i, "link"@), a.link, false),
    )
}

impl AddToParams for Otd {
    open spec fn rendered(&self, i: nat) -> Seq<Entry> {
        rendered_otd(self@, i)
    }

    fn add_to_params(&self, i: usize, params: &mut ParamBuilder) {
        let ghost start = entries(params.params@);
        params.add(numbered("otd", i, true, "date").as_str(), self.date.orig.as_str());
        params.add_opt(numbered("otd", i, true, "oldid").as_str(), &self.oldid);
        params.add_opt(numbered("otd", i, true, "link").as_str(), &self.link);
        let ghost body = seq![entry(otd_key(i as nat, "date"@), self.date.orig@, false)] + opt_entry(
            otd_key(i as nat, "oldid"@),
            opt_view(self.oldid),
            false,
        ) + opt_entry(otd_key(i as nat, "link"@), opt_view(self.link), false);
        assert(entries(params.params@) =~= start + body);
        params.newline();
        assert(close(start + body) =~= start + close(body));
    }
}

pub open spec fn ft_key(i: nat, suffix: Seq<char>) -> Seq<char> {
    numbered_key("ft"@, i, true, suffix)
}

/// The entries of a record as the `i`-th of its family.
pub open spec fn rendered_topic(a: TopicModel, i: nat) -> Seq<Entry> {
    seq![entry(ft_key(i, "name"@), a.name, true)] + flag_entry(ft_key(i, "main"@), a.main, true)
}

impl AddToParams for FeaturedTopic {
    open spec fn rendered(&self, i: nat) -> Seq<Entry> {
        rendered_topic(self@, i)
    }

    fn add_to_params(&self, i: usize, params: &mut ParamBuilder) {
        let ghost start = entries(params.params@);
        params.addnl(numbered("ft", i, true, "name").as_str(), self.name.as_str());
        params.addnl_flag(numbered("ft", i, true, "main").as_str(), self.main);
        assert(entries(params.params@) =~= start + self.rendered(i as nat));
    }
}

/// The entries of a family of records, numbered from 1.
pub open spec fn rendered_actions(s: Seq<ActionModel>) -> Seq<Entry>
    decreases s.len(),
{
    if s.len() == 0 {
        Seq::empty()
    } else {
        rendered_actions(s.drop_last()) + rendered_action(s.last(), s.len())
    }
}

pub proof fn lemma_rendered_actions(s: Seq<Action>)
    ensures
        rendered_all(s) == rendered_actions(action_models(s)),
    decreases s.len(),
{
    if s.len() > 0 {
        lemma_rendered_actions(s.drop_last());
        assert(action_models(s.drop_last()) =~= action_models(s).drop_last());
    }
}

/// The entries of a family of records, numbered from 1.
pub open spec fn rendered_dyks(s: Seq<DykModel>) -> Seq<Entry>
    decreases s.len(),
{
    if s.len() == 0 {
        Seq::empty()
    } else {
        rendered_dyks(s.drop_last()) + rendered_dyk(s.last(), s.len())
    }
}

pub proof fn lemma_rendered_dyks(s: Seq<Dyk>)
    ensures
        rendered_all(s) == rendered_dyks(dyk_models(s)),
    decreases s.len(),
{
    if s.len() > 0 {
        lemma_rendered_dyks(s.drop_last());
        assert(dyk_models(s.drop_last()) =~= dyk_models(s).drop_last());
    }
}

/// The entries of a family of records, numbered from 1.
pub open spec fn rendered_itns(s: Seq<ItnModel>) -> Seq<Entry>
    decreases s.len(),
{
    if s.len() == 0 {
        Seq::empty()
    } else {
        rendered_itns(s.drop_last()) + rendered_itn(s.last(), s.len())
    }
}

pub proof fn lemma_rendered_itns(s: Seq<Itn>)
    ensures
        rendered_all(s) == rendered_itns(itn_models(s)),
    decreases s.len(),
{
    if s.len() > 0 {
        lemma_rendered_itns(s.drop_last());
        assert(itn_models(s.drop_last()) =~= itn_models(s).drop_last());
    }
}

/// The entries of a family of records, numbered from 1.
pub open spec fn rendered_otds(s: Seq<OtdModel>) -> Seq<Entry>
    decreases s.len(),
{
    if s.len() == 0 {
        Seq::empty()
    } else {
        rendered_otds(s.drop_last()) + rendered_otd(s.last(), s.len())
    }
}

pub proof fn lemma_rendered_otds(s: Seq<Otd>)
    ensures
        rendered_all(s) == rendered_otds(otd_models(s)),
    decreases s.len(),
{
    if s.len() > 0 {
        lemma_rendered_otds(s.drop_last());
        assert(otd_models(s.drop_last()) =~= otd_models(s).drop_last());
    }
}

/// The entries of a family of records, numbered from 1.
pub open spec fn rendered_topics(s: Seq<TopicModel>) -> Seq<Entry>
    decreases s.len(),
{
    if s.len() == 0 {
        Seq::empty()
    } else {
        rendered_topics(s.drop_last()) + rendered_topic(s.last(), s.len())
    }
}

pub proof fn lemma_rendered_topics(s: Seq<FeaturedTopic>)
    ensures
        rendered_all(s) == rendered_topics(topic_models(s)),
    decreases s.len(),
{
    if s.len() > 0 {
        lemma_rendered_topics(s.drop_last());
        assert(topic_models(s.drop_last()) =~= topic_models(s).drop_last());
    }
}

pub open spec fn opt_text(d: Option<DateModel>) -> Option<Seq<char>> {
    match d {
        Some(d) => Some(d.text),
        None => None,
    }
}

/// The parameters of an aggregate whose actions and status are as given, in
/// the fixed order of record kinds.
pub open spec fn rendered_history(h: HistoryModel, actions: Seq<ActionModel>, status: Option<Seq<char>>) -> Seq<Entry> {
    rendered_actions(actions) + opt_entry("currentstatus"@, status, true) + opt_entry(
        "maindate"@,
        opt_text(h.maindate),
        true,
    ) + opt_entry("maindate2"@, opt_text(h.maindate2), true) + rendered_itns(h.itns) + rendered_dyks(h.dyks)
        + rendered_otds(h.otds) + flag_entry("four"@, h.four, true) + rendered_topics(h.featured_topics)
        + opt_entry("topic"@, h.topic, true) + flag_entry("collapse"@, h.collapse, true) + flag_entry(
        "small"@,
        h.small,
        true,
    )
}

fn date_text(d: &Option<PreserveDate>) -> (r: Option<String>)
    ensures
        opt_view(r) == opt_text(crate::types::opt_date(*d)),
{
    match d {
        Some(d) => Some(d.orig.clone()),
        None => None,
    }
}

impl ArticleHistory {
    /// The parameters of this aggregate as they stand, without resolving it.
    pub fn to_params(&self) -> (r: Vec<Param>)
        ensures
            entries(r@) == rendered_history(self@, self@.actions, self@.currentstatus),
    {
        proof {
            lemma_rendered_actions(self.actions@);
            lemma_rendered_itns(self.itns@);
            lemma_rendered_dyks(self.dyks@);
            lemma_rendered_otds(self.otds@);
            lemma_rendered_topics(self.featured_topics@);
        }
        let mut b = ParamBuilder::new();
        b.add_all(&self.actions);
        b.addnl_opt("currentstatus", &self.currentstatus);
        b.addnl_opt("maindate", &date_text(&self.maindate));
        b.addnl_opt("maindate2", &date_text(&self.maindate2));
        b.add_all(&self.itns);
        b.add_all(&self.dyks);
        b.add_all(&self.otds);
        b.addnl_flag("four", self.four);
        b.add_all(&self.featured_topics);
        b.addnl_opt("topic", &self.topic);
        b.addnl_flag("collapse", self.collapse);
        b.addnl_flag("small", self.small);
        assert(entries(b.params@) =~= rendered_history(self@, self@.actions, self@.currentstatus));
        b.params
    }

    /// Resolves the aggregate and renders it as template parameters.
    pub fn into_template(self) -> (r: Result<Vec<Param>, crate::error::HistoryError>)
        ensures
            match crate::status::resolved_status(self@.actions, self@.currentstatus) {
                Ok(s) => r is Ok && entries(r->Ok_0@) == rendered_history(
                    self@,
                    crate::status::sort_by_date(self@.actions),
                    s,
                ),
                Err(e) => r == Err::<Vec<Param>, crate::error::HistoryError>(e),
            },
    {
        let ghost before = self;
        let mut h = self;
        proof {
            crate::status::lemma_sort_len(self@.actions);
        }
        match h.sort_and_update_status() {
            Ok(()) => {},
            Err(e) => {
                return Err(e);
            },
        }
        let r = h.to_params();
        assert(entries(r@) =~= rendered_history(before@, crate::status::sort_by_date(before@.actions), opt_view(h.currentstatus)));
        Ok(r)
    }
}

} // verus!
