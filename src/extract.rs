//! Decoding of the aggregate block's parameters into the canonical record.
use vstd::prelude::*;
use crate::builder::{numbered, numbered_key, Param};
use crate::date::{date_outcome, fail, rv, DateLookup, Halt, HaltView, Lookups};
use crate::error::{ErrorView, HistoryError};
use crate::kind::{kind_of_text, ActionKind};
use crate::params::{blank, get, is_blank, value_of};
use crate::names::starts_with;
use crate::text::{opt_view, str_eq};
use crate::types::{action_models, dyk_models, itn_models, opt_date, otd_models, topic_models, Action, ActionModel, ArticleHistory, DateModel, Dyk, DykModel, FeaturedTopic, HistoryModel, Itn, ItnModel, Otd, OtdModel, PreserveDate, TopicModel};

verus! {

/// The numbered families of the aggregate's parameters.
#[derive(Clone, Copy, Debug, PartialEq, Eq, Structural)]
pub enum Family {
    Action,
    Topic,
    Dyk,
    Otd,
    Itn,
}

pub open spec fn family_prefix(f: Family) -> Seq<char> {
    match f {
        Family::Action => "action"@,
        Family::Topic => "ft"@,
        Family::Dyk => "dyk"@,
        Family::Otd => "otd"@,
        Family::Itn => "itn"@,
    }
}

/// The field names of a family, required field first.
pub open spec fn family_fields(f: Family) -> Seq<Seq<char>> {
    match f {
        Family::Action => seq![""@, "date"@, "link"@, "result"@, "oldid"@],
        Family::Topic => seq!["name"@, "main"@],
        Family::Dyk => seq!["date"@, "entry"@, "nom"@, "ignoreerror"@],
        Family::Otd => seq!["date"@, "oldid"@, "link"@],
        Family::Itn => seq!["date"@, "link"@],
    }
}

/// The key of field `j` of record `n`; record 1 of every family but actions
/// carries no number.
pub open spec fn family_key(f: Family, n: nat, j: int) -> Seq<char> {
    numbered_key(family_prefix(f), n, f != Family::Action, family_fields(f)[j])
}

fn field_count(f: Family) -> (r: usize)
    ensures
        r == family_fields(f).len(),
{
    match f {
        Family::Action => 5,
        Family::Topic => 2,
        Family::Dyk => 4,
        Family::Otd => 3,
        Family::Itn => 2,
    }
}

fn family_key_of(f: Family, n: usize, j: usize) -> (r: String)
    requires
        j < family_fields(f).len(),
    ensures
        r@ == family_key(f, n as nat, j as int),
{
    let (prefix, bare) = match f {
        Family::Action => ("action", false),
        Family::Topic => ("ft", true),
        Family::Dyk => ("dyk", true),
        Family::Otd => ("otd", true),
        Family::Itn => ("itn", true),
    };
    let field = match f {
        Family::Action => if j == 0 { "" } else if j == 1 { "date" } else if j == 2 { "link" } else if j == 3 { "result" } else { "oldid" },
        Family::Topic => if j == 0 { "name" } else { "main" },
        Family::Dyk => if j == 0 { "date" } else if j == 1 { "entry" } else if j == 2 { "nom" } else { "ignoreerror" },
        Family::Otd => if j == 0 { "date" } else if j == 1 { "oldid" } else { "link" },
        Family::Itn => if j == 0 { "date" } else { "link" },
    };
    numbered(prefix, n, bare, field)
}

fn field_name(f: Family, j: usize) -> (r: &'static str)
    requires
        j < family_fields(f).len(),
    ensures
        r@ == family_fields(f)[j as int],
{
    match f {
        Family::Action => if j == 0 { "" } else if j == 1 { "date" } else if j == 2 { "link" } else if j == 3 { "result" } else { "oldid" },
        Family::Topic => if j == 0 { "name" } else { "main" },
        Family::Dyk => if j == 0 { "date" } else if j == 1 { "entry" } else if j == 2 { "nom" } else { "ignoreerror" },
        Family::Otd => if j == 0 { "date" } else if j == 1 { "oldid" } else { "link" },
        Family::Itn => if j == 0 { "date" } else { "link" },
    }
}

/// The names of the fields of the aggregate that are not numbered.
pub open spec fn top_names() -> Seq<Seq<char>> {
    seq!["currentstatus"@, "maindate"@, "maindate2"@, "four"@, "topic"@, "collapse"@, "small"@]
}

/// What a parameter name stands for: a field that is not numbered, field `j`
/// of record `n` of a family, or nothing the schema knows.
#[derive(Clone, Copy, Debug, PartialEq, Eq, Structural)]
pub enum Slot {
    Top(usize),
    Field(Family, usize, usize),
    Unknown,
}

pub enum KeySlot {
    Top(nat),
    Field(Family, nat, nat),
    Unknown,
}

impl View for Slot {
    type V = KeySlot;

    open spec fn view(&self) -> KeySlot {
        match self {
            Slot::Top(t) => KeySlot::Top(*t as nat),
            Slot::Field(f, n, j) => KeySlot::Field(*f, *n as nat, *j as nat),
            Slot::Unknown => KeySlot::Unknown,
        }
    }
}

pub open spec fn is_digit(c: char) -> bool {
    '0' <= c && c <= '9'
}

/// The length of the run of digits that starts the text.
pub open spec fn digit_run(s: Seq<char>) -> nat
    decreases s.len(),
{
    if s.len() > 0 && is_digit(s[0]) {
        1 + digit_run(s.drop_first())
    } else {
        0
    }
}

/// The number that a text of digits writes in decimal; leading zeros are allowed.
pub open spec fn digits_value(s: Seq<char>) -> nat
    decreases s.len(),
{
    if s.len() == 0 {
        0
    } else {
        digits_value(s.drop_last()) * 10 + ((s.last() as u32) - 48) as nat
    }
}

pub open spec fn has_prefix(k: Seq<char>, p: Seq<char>) -> bool {
    p.len() <= k.len() && k.subrange(0, p.len() as int) == p
}

/// The family whose prefix the name starts with, tried in a fixed order.
pub open spec fn family_of(k: Seq<char>) -> Option<Family> {
    if has_prefix(k, "action"@) {
        Some(Family::Action)
    } else if has_prefix(k, "ft"@) {
        Some(Family::Topic)
    } else if has_prefix(k, "dyk"@) {
        Some(Family::Dyk)
    } else if has_prefix(k, "otd"@) {
        Some(Family::Otd)
    } else if has_prefix(k, "itn"@) {
        Some(Family::Itn)
    } else {
        None
    }
}

pub open spec fn index_in(names: Seq<Seq<char>>, t: Seq<char>, j: nat) -> Option<nat>
    decreases names.len() - j,
{
    if j >= names.len() {
        None
    } else if names[j as int] == t {
        Some(j)
    } else {
        index_in(names, t, j + 1)
    }
}

/// The slot of a parameter name. After a family's prefix comes the record
/// number, whose value counts, leading zeros or not; without one, it is
/// record 1 of every family but actions (whose records start at 1, so that
/// a bare action name fits no record).
pub open spec fn key_slot(k: Seq<char>) -> KeySlot {
    match family_of(k) {
        Some(f) => {
            let rest = k.subrange(family_prefix(f).len() as int, k.len() as int);
            let d = digit_run(rest);
            let n = if d == 0 {
                if f == Family::Action { 0nat } else { 1nat }
            } else {
                digits_value(rest.subrange(0, d as int))
            };
            match index_in(family_fields(f), rest.subrange(d as int, rest.len() as int), 0) {
                Some(j) => KeySlot::Field(f, n, j),
                None => KeySlot::Unknown,
            }
        },
        None => match index_in(top_names(), k, 0) {
            Some(t) => KeySlot::Top(t),
            None => KeySlot::Unknown,
        },
    }
}

/// The slot with its record number capped at `cap`.
pub open spec fn capped(s: KeySlot, cap: nat) -> KeySlot {
    match s {
        KeySlot::Field(f, n, j) => KeySlot::Field(f, if n < cap { n } else { cap }, j),
        other => other,
    }
}

proof fn lemma_index_in_bound(names: Seq<Seq<char>>, t: Seq<char>, j: nat)
    ensures
        index_in(names, t, j) matches Some(i) ==> i < names.len() && names[i as int] == t,
    decreases names.len() - j,
{
    if j < names.len() && names[j as int] != t {
        lemma_index_in_bound(names, t, j + 1);
    }
}

fn find_field(f: Family, t: &str) -> (r: Option<usize>)
    ensures
        match index_in(family_fields(f), t@, 0) {
            Some(j) => r == Some(j as usize),
            None => r is None,
        },
{
    let m = field_count(f);
    let mut j: usize = 0;
    while j < m
        invariant
            m == family_fields(f).len(),
            j <= m,
            index_in(family_fields(f), t@, 0) == index_in(family_fields(f), t@, j as nat),
        decreases m - j,
    {
        if str_eq(field_name(f, j), t) {
            return Some(j);
        }
        j = j + 1;
    }
    None
}

fn find_top(t: &str) -> (r: Option<usize>)
    ensures
        match index_in(top_names(), t@, 0) {
            Some(j) => r == Some(j as usize),
            None => r is None,
        },
{
    let names: [&str; 7] = ["currentstatus", "maindate", "maindate2", "four", "topic", "collapse", "small"];
    assert(names@.map_values(|n: &str| n@) =~= top_names());
    let mut j: usize = 0;
    while j < 7
        invariant
            j <= 7,
            names@.map_values(|n: &str| n@) == top_names(),
            index_in(top_names(), t@, 0) == index_in(top_names(), t@, j as nat),
        decreases 7 - j,
    {
        assert(names@.map_values(|n: &str| n@)[j as int] == names@[j as int]@);
        if str_eq(names[j], t) {
            return Some(j);
        }
        j = j + 1;
    }
    None
}

proof fn lemma_value_step(a: nat, cap: nat, d: nat)
    ensures
        (if (if a < cap { a } else { cap }) * 10 + d < cap { (if a < cap { a } else { cap }) * 10 + d } else { cap })
            == (if a * 10 + d < cap { a * 10 + d } else { cap }),
{
}

/// Parses a parameter name into its slot, record numbers capped at `cap`.
fn slot_of_key(k: &str, cap: usize) -> (r: Slot)
    requires
        cap >= 2,
    ensures
        r@ == capped(key_slot(k@), cap as nat),
{
    let f = if starts_with(k, "action") {
        Family::Action
    } else if starts_with(k, "ft") {
        Family::Topic
    } else if starts_with(k, "dyk") {
        Family::Dyk
    } else if starts_with(k, "otd") {
        Family::Otd
    } else if starts_with(k, "itn") {
        Family::Itn
    } else {
        assert(family_of(k@) is None);
        proof {
            lemma_index_in_bound(top_names(), k@, 0);
        }
        return match find_top(k) {
            Some(t) => Slot::Top(t),
            None => Slot::Unknown,
        };
    };
    assert(family_of(k@) == Some(f));
    proof {
        reveal_strlit("action");
        reveal_strlit("ft");
        reveal_strlit("dyk");
        reveal_strlit("otd");
        reveal_strlit("itn");
    }
    let plen: usize = match f {
        Family::Action => 6,
        Family::Topic => 2,
        _ => 3,
    };
    assert(plen == family_prefix(f).len());
    let rest = k.substring_char(plen, k.unicode_len());
    let len = rest.unicode_len();
    let mut i: usize = 0;
    let mut v: u128 = 0;
    assert(rest@.subrange(0, 0) =~= Seq::<char>::empty());
    assert(rest@.subrange(0, len as int) =~= rest@);
    while i < len && '0' <= rest.get_char(i) && rest.get_char(i) <= '9'
        invariant
            len == rest@.len(),
            i <= len,
            digit_run(rest@) == i + digit_run(rest@.subrange(i as int, len as int)),
            v as nat == (if digits_value(rest@.subrange(0, i as int)) < cap as nat {
                digits_value(rest@.subrange(0, i as int))
            } else {
                cap as nat
            }),
        decreases len - i,
    {
        let c = rest.get_char(i);
        let ghost pre = rest@.subrange(0, i as int);
        assert(rest@.subrange(i as int, len as int).drop_first() =~= rest@.subrange(i + 1, len as int));
        assert(rest@.subrange(0, i + 1).drop_last() =~= pre);
        assert(rest@.subrange(0, i + 1).last() == c);
        proof {
            lemma_value_step(digits_value(pre), cap as nat, ((c as u32) - 48) as nat);
        }
        let w = v * 10 + ((c as u32) - 48) as u128;
        v = if w < cap as u128 { w } else { cap as u128 };
        i = i + 1;
    }
    proof {
        if i < len {
            assert(rest@.subrange(i as int, len as int)[0] == rest@[i as int]);
        } else {
            assert(rest@.subrange(i as int, len as int).len() == 0);
        }
    }
    assert(digit_run(rest@) == i);
    let field = rest.substring_char(i, len);
    proof {
        lemma_index_in_bound(family_fields(f), field@, 0);
    }
    let n: usize = if i == 0 {
        match f {
            Family::Action => 0,
            _ => 1,
        }
    } else {
        v as usize
    };
    match find_field(f, field) {
        Some(j) => Slot::Field(f, n, j),
        None => Slot::Unknown,
    }
}

/// The slot of each parameter, record numbers capped at one past the number
/// of parameters.
fn slots_of(ps: &Vec<Param>) -> (r: Vec<Slot>)
    requires
        ps@.len() < usize::MAX,
    ensures
        r@.len() == ps@.len(),
        forall|i: int| 0 <= i < ps@.len() ==> #[trigger] r@[i]@ == capped(key_slot(ps@[i].key@), ps@.len() + 1),
{
    let cap = ps.len() + 1;
    let mut out: Vec<Slot> = Vec::new();
    assert(ps@.len() > 0 ==> cap >= 2);
    let mut i: usize = 0;
    while i < ps.len()
        invariant
            cap == ps@.len() + 1,
            i <= ps@.len(),
            out@.len() == i,
            forall|l: int| 0 <= l < i ==> #[trigger] out@[l]@ == capped(key_slot(ps@[l].key@), cap as nat),
            ps@.len() > 0 ==> cap >= 2,
        decreases ps.len() - i,
    {
        out.push(slot_of_key(ps[i].key.as_str(), cap));
        i = i + 1;
    }
    out
}

/// The slots agree with the parameters' names.
pub open spec fn slots_agree(ps: Seq<Param>, slots: Seq<Slot>) -> bool {
    slots.len() == ps.len() && forall|i: int| 0 <= i < ps.len() ==> #[trigger] slots[i]@ == capped(
        key_slot(ps[i].key@),
        ps.len() + 1,
    )
}

/// The slot is a field of record `n` of the family.
pub open spec fn in_record(s: KeySlot, f: Family, n: nat) -> bool {
    match s {
        KeySlot::Field(g, m, _) => g == f && m == n,
        _ => false,
    }
}

/// Some field of record `n` of the family is given.
pub open spec fn record_present(ps: Seq<Param>, f: Family, n: nat) -> bool {
    exists|i: int| 0 <= i < ps.len() && in_record(#[trigger] key_slot(ps[i].key@), f, n)
}

pub open spec fn count_from(ps: Seq<Param>, f: Family, n: nat) -> nat
    decreases ps.len() + 1 - n,
{
    if n == 0 || n > ps.len() {
        0
    } else if record_present(ps, f, n) {
        1 + count_from(ps, f, n + 1)
    } else {
        0
    }
}

/// The number of records of a family: records 1, 2, ... as long as each has
/// some field given.
pub open spec fn record_count(ps: Seq<Param>, f: Family) -> nat {
    count_from(ps, f, 1)
}

fn present(ps: &Vec<Param>, slots: &Vec<Slot>, f: Family, n: usize) -> (r: bool)
    requires
        slots_agree(ps@, slots@),
        n <= ps@.len(),
    ensures
        r == record_present(ps@, f, n as nat),
{
    let mut i: usize = 0;
    while i < slots.len()
        invariant
            slots_agree(ps@, slots@),
            n <= ps@.len(),
            i <= slots@.len(),
            forall|l: int| 0 <= l < i ==> !in_record(#[trigger] key_slot(ps@[l].key@), f, n as nat),
        decreases slots.len() - i,
    {
        let hit = match slots[i] {
            Slot::Field(g, m, _) => g == f && m == n,
            _ => false,
        };
        assert(slots@[i as int]@ == capped(key_slot(ps@[i as int].key@), ps@.len() + 1));
        if hit {
            assert(in_record(key_slot(ps@[i as int].key@), f, n as nat));
            return true;
        }
        i = i + 1;
    }
    false
}

fn count(ps: &Vec<Param>, slots: &Vec<Slot>, f: Family) -> (r: usize)
    requires
        ps@.len() < usize::MAX,
        slots_agree(ps@, slots@),
    ensures
        r == record_count(ps@, f),
        r <= ps@.len(),
{
    let mut n: usize = 1;
    while n <= ps.len() && present(ps, slots, f, n)
        invariant
            1 <= n <= ps@.len() + 1,
            ps@.len() < usize::MAX,
            slots_agree(ps@, slots@),
            record_count(ps@, f) == (n - 1) + count_from(ps@, f, n as nat),
        decreases ps@.len() + 1 - n,
    {
        n = n + 1;
    }
    n - 1
}

/// Key `k` names a field that the aggregate's schema knows: a field that is
/// not numbered, or a field of one of a family's records.
pub open spec fn recognized(ps: Seq<Param>, k: Seq<char>) -> bool {
    match key_slot(k) {
        KeySlot::Top(_) => true,
        KeySlot::Field(f, n, _) => 1 <= n <= record_count(ps, f),
        KeySlot::Unknown => false,
    }
}

pub open spec fn first_unrecognized_from(ps: Seq<Param>, j: int) -> Option<int>
    decreases ps.len() - j,
{
    if j < 0 || j >= ps.len() {
        None
    } else if !recognized(ps, ps[j].key@) {
        Some(j)
    } else {
        first_unrecognized_from(ps, j + 1)
    }
}

/// Parameter `j` fills the same field of the same record as an earlier one.
pub open spec fn fills_again(ps: Seq<Param>, j: int) -> bool {
    exists|i: int| 0 <= i < j && #[trigger] key_slot(ps[i].key@) == key_slot(ps[j].key@)
}

pub open spec fn first_refill_from(ps: Seq<Param>, j: int) -> Option<int>
    decreases ps.len() - j,
{
    if j < 0 || j >= ps.len() {
        None
    } else if fills_again(ps, j) {
        Some(j)
    } else {
        first_refill_from(ps, j + 1)
    }
}

struct Counts {
    actions: usize,
    topics: usize,
    dyks: usize,
    otds: usize,
    itns: usize,
}

spec fn count_of(c: Counts, f: Family) -> nat {
    match f {
        Family::Action => c.actions as nat,
        Family::Topic => c.topics as nat,
        Family::Dyk => c.dyks as nat,
        Family::Otd => c.otds as nat,
        Family::Itn => c.itns as nat,
    }
}

spec fn counts_of(ps: Seq<Param>, c: Counts) -> bool {
    forall|f: Family| #[trigger] count_of(c, f) == record_count(ps, f) && count_of(c, f) <= ps.len()
}

fn find_unrecognized(ps: &Vec<Param>, slots: &Vec<Slot>, c: &Counts) -> (r: Option<usize>)
    requires
        ps@.len() < usize::MAX,
        slots_agree(ps@, slots@),
        counts_of(ps@, *c),
    ensures
        match first_unrecognized_from(ps@, 0) {
            Some(j) => r is Some && r->Some_0 as int == j,
            None => r is None,
        },
        r is Some ==> r->Some_0 < ps@.len(),
{
    let mut j: usize = 0;
    while j < ps.len()
        invariant
            j <= ps@.len(),
            ps@.len() < usize::MAX,
            slots_agree(ps@, slots@),
            counts_of(ps@, *c),
            first_unrecognized_from(ps@, 0) == first_unrecognized_from(ps@, j as int),
        decreases ps.len() - j,
    {
        let ok = match slots[j] {
            Slot::Top(_) => true,
            Slot::Unknown => false,
            Slot::Field(f, n, _) => {
                let cnt = match f {
                    Family::Action => c.actions,
                    Family::Topic => c.topics,
                    Family::Dyk => c.dyks,
                    Family::Otd => c.otds,
                    Family::Itn => c.itns,
                };
                assert(cnt == count_of(*c, f));
                1 <= n && n <= cnt
            },
        };
        assert(slots@[j as int]@ == capped(key_slot(ps@[j as int].key@), ps@.len() + 1));
        assert(ok == recognized(ps@, ps@[j as int].key@));
        if !ok {
            assert(first_unrecognized_from(ps@, j as int) == Some(j as int));
            return Some(j);
        }
        assert(first_unrecognized_from(ps@, j as int) == first_unrecognized_from(ps@, j + 1));
        j = j + 1;
    }
    assert(first_unrecognized_from(ps@, j as int) is None);
    None
}

/// Every parameter is recognized: then each slot is exact.
pub open spec fn all_recognized(ps: Seq<Param>) -> bool {
    forall|i: int| 0 <= i < ps.len() ==> #[trigger] recognized(ps, ps[i].key@)
}

proof fn lemma_exact_slots(ps: Seq<Param>, slots: Seq<Slot>)
    requires
        slots_agree(ps, slots),
        first_unrecognized_from(ps, 0) is None,
    ensures
        all_recognized(ps),
        forall|i: int| 0 <= i < ps.len() ==> #[trigger] slots[i]@ == key_slot(ps[i].key@),
{
    lemma_unrecognized_none(ps, 0);
    assert forall|i: int| 0 <= i < ps.len() implies #[trigger] slots[i]@ == key_slot(ps[i].key@) by {
        assert(recognized(ps, ps[i].key@));
        lemma_count_bound(ps, key_slot_family(key_slot(ps[i].key@)));
    }
}

spec fn key_slot_family(s: KeySlot) -> Family {
    match s {
        KeySlot::Field(f, _, _) => f,
        _ => Family::Action,
    }
}

proof fn lemma_unrecognized_none(ps: Seq<Param>, j: int)
    requires
        0 <= j,
        first_unrecognized_from(ps, j) is None,
    ensures
        forall|i: int| j <= i < ps.len() ==> #[trigger] recognized(ps, ps[i].key@),
    decreases ps.len() - j,
{
    if j < ps.len() {
        lemma_unrecognized_none(ps, j + 1);
    }
}

proof fn lemma_count_bound(ps: Seq<Param>, f: Family)
    ensures
        record_count(ps, f) <= ps.len(),
{
    lemma_count_from_bound(ps, f, 1);
}

proof fn lemma_count_from_bound(ps: Seq<Param>, f: Family, n: nat)
    requires
        1 <= n <= ps.len() + 1,
    ensures
        n + count_from(ps, f, n) <= ps.len() + 1,
    decreases ps.len() + 1 - n,
{
    if n <= ps.len() && record_present(ps, f, n) {
        lemma_count_from_bound(ps, f, n + 1);
    }
}

fn find_refill(ps: &Vec<Param>, slots: &Vec<Slot>) -> (r: Option<usize>)
    requires
        slots_agree(ps@, slots@),
        first_unrecognized_from(ps@, 0) is None,
    ensures
        match first_refill_from(ps@, 0) {
            Some(j) => r is Some && r->Some_0 as int == j,
            None => r is None,
        },
        r is Some ==> r->Some_0 < ps@.len(),
{
    proof {
        lemma_exact_slots(ps@, slots@);
    }
    let mut j: usize = 0;
    while j < ps.len()
        invariant
            j <= ps@.len(),
            slots@.len() == ps@.len(),
            forall|i: int| 0 <= i < ps@.len() ==> #[trigger] slots@[i]@ == key_slot(ps@[i].key@),
            first_refill_from(ps@, 0) == first_refill_from(ps@, j as int),
        decreases ps.len() - j,
    {
        let mut i: usize = 0;
        while i < j
            invariant
                i <= j,
                j < ps@.len(),
                slots@.len() == ps@.len(),
                forall|l: int| 0 <= l < ps@.len() ==> #[trigger] slots@[l]@ == key_slot(ps@[l].key@),
                first_refill_from(ps@, 0) == first_refill_from(ps@, j as int),
                forall|l: int| 0 <= l < i ==> #[trigger] key_slot(ps@[l].key@) != key_slot(ps@[j as int].key@),
            decreases j - i,
        {
            assert(slots@[i as int]@ == key_slot(ps@[i as int].key@));
            assert(slots@[j as int]@ == key_slot(ps@[j as int].key@));
            if slots[i] == slots[j] {
                assert(fills_again(ps@, j as int));
                assert(first_refill_from(ps@, j as int) == Some(j as int));
                return Some(j);
            }
            i = i + 1;
        }
        assert(!fills_again(ps@, j as int));
        assert(first_refill_from(ps@, j as int) == first_refill_from(ps@, j + 1));
        j = j + 1;
    }
    assert(first_refill_from(ps@, j as int) is None);
    None
}

/// The value of the first parameter that fills field `j` of record `n`.
pub open spec fn field_value(ps: Seq<Param>, f: Family, n: nat, j: nat) -> Option<Seq<char>>
    decreases ps.len(),
{
    if ps.len() == 0 {
        None
    } else if key_slot(ps[0].key@) == KeySlot::Field(f, n, j) {
        Some(ps[0].value@)
    } else {
        field_value(ps.drop_first(), f, n, j)
    }
}

/// A numbered flag is set when its value holds something other than white space.
pub open spec fn field_flag(ps: Seq<Param>, f: Family, n: nat, j: nat) -> bool {
    match field_value(ps, f, n, j) {
        Some(v) => !is_blank(v),
        None => false,
    }
}

fn field_get(ps: &Vec<Param>, slots: &Vec<Slot>, f: Family, n: usize, j: usize) -> (r: Option<String>)
    requires
        slots_agree(ps@, slots@),
        n <= ps@.len(),
    ensures
        opt_view(r) == field_value(ps@, f, n as nat, j as nat),
{
    let mut i: usize = 0;
    assert(ps@.subrange(0, ps@.len() as int) =~= ps@);
    while i < ps.len()
        invariant
            slots_agree(ps@, slots@),
            n <= ps@.len(),
            i <= ps@.len(),
            field_value(ps@, f, n as nat, j as nat) == field_value(
                ps@.subrange(i as int, ps@.len() as int),
                f,
                n as nat,
                j as nat,
            ),
        decreases ps.len() - i,
    {
        assert(ps@.subrange(i as int, ps@.len() as int).drop_first() =~= ps@.subrange(i + 1, ps@.len() as int));
        assert(slots@[i as int]@ == capped(key_slot(ps@[i as int].key@), ps@.len() + 1));
        if slots[i] == Slot::Field(f, n, j) {
            return Some(ps[i].value.clone());
        }
        i = i + 1;
    }
    None
}

fn field_flag_get(ps: &Vec<Param>, slots: &Vec<Slot>, f: Family, n: usize, j: usize) -> (r: bool)
    requires
        slots_agree(ps@, slots@),
        n <= ps@.len(),
    ensures
        r == field_flag(ps@, f, n as nat, j as nat),
{
    match field_get(ps, slots, f, n, j) {
        Some(v) => !blank(v.as_str()),
        None => false,
    }
}

/// A flag is set when its value holds something other than white space.
pub open spec fn flag_of(ps: Seq<Param>, k: Seq<char>) -> bool {
    match value_of(ps, k) {
        Some(v) => !is_blank(v),
        None => false,
    }
}

fn flag(ps: &Vec<Param>, k: &str) -> (r: bool)
    ensures
        r == flag_of(ps@, k@),
{
    match get(ps, k) {
        Some(v) => !blank(v.as_str()),
        None => false,
    }
}

pub open spec fn decode_opt_date(ps: Seq<Param>, dates: Seq<DateLookup>, k: Seq<char>) -> Result<Option<DateModel>, HaltView> {
    match value_of(ps, k) {
        None => Ok(None),
        Some(t) => match date_outcome(dates, t) {
            Err(h) => Err(h),
            Ok(d) => Ok(Some(d)),
        },
    }
}

fn read_opt_date(ps: &Vec<Param>, facts: &Lookups, k: &str) -> (r: Result<Option<PreserveDate>, Halt>)
    ensures
        match decode_opt_date(ps@, facts.dates@, k@) {
            Ok(d) => r is Ok && opt_date(r->Ok_0) == d,
            Err(h) => r is Err && r->Err_0@ == h,
        },
{
    match get(ps, k) {
        None => Ok(None),
        Some(t) => match PreserveDate::try_from_string(t, facts) {
            Ok(d) => Ok(Some(d)),
            Err(h) => Err(h),
        },
    }
}

pub open spec fn decode_action(ps: Seq<Param>, dates: Seq<DateLookup>, n: nat) -> Result<ActionModel, HaltView> {
    let kk = family_key(Family::Action, n, 0);
    let dk = family_key(Family::Action, n, 1);
    match field_value(ps, Family::Action, n, 0) {
        None => Err(fail(ErrorView::MissingRequiredField(kk))),
        Some(kt) => match field_value(ps, Family::Action, n, 1) {
            None => Err(fail(ErrorView::MissingRequiredField(dk))),
            Some(dt) => match kind_of_text(kt) {
                None => Err(fail(ErrorView::UnknownActionKind(kt))),
                Some(kind) => match date_outcome(dates, dt) {
                    Err(h) => Err(h),
                    Ok(d) => Ok(ActionModel {
                        kind,
                        date: d,
                        link: field_value(ps, Family::Action, n, 2),
                        result: field_value(ps, Family::Action, n, 3),
                        oldid: field_value(ps, Family::Action, n, 4),
                    }),
                },
            },
        },
    }
}

fn decode_action_at(ps: &Vec<Param>, slots: &Vec<Slot>, facts: &Lookups, n: usize) -> (r: Result<Action, Halt>)
    requires
        slots_agree(ps@, slots@),
        n <= ps@.len(),
    ensures
        rv(r) == decode_action(ps@, facts.dates@, n as nat),
{
    let kk = family_key_of(Family::Action, n, 0);
    let dk = family_key_of(Family::Action, n, 1);
    let kt = match field_get(ps, slots, Family::Action, n, 0) {
        None => {
            return Err(Halt::Fail(HistoryError::MissingRequiredField(kk)));
        },
        Some(t) => t,
    };
    let dt = match field_get(ps, slots, Family::Action, n, 1) {
        None => {
            return Err(Halt::Fail(HistoryError::MissingRequiredField(dk)));
        },
        Some(t) => t,
    };
    let kind = match ActionKind::parse(kt.as_str()) {
        None => {
            return Err(Halt::Fail(HistoryError::UnknownActionKind(kt)));
        },
        Some(k) => k,
    };
    let date = match PreserveDate::try_from_string(dt, facts) {
        Err(h) => {
            return Err(h);
        },
        Ok(d) => d,
    };
    Ok(Action {
        kind,
        date,
        link: field_get(ps, slots, Family::Action, n, 2),
        result: field_get(ps, slots, Family::Action, n, 3),
        oldid: field_get(ps, slots, Family::Action, n, 4),
    })
}

pub open spec fn decode_topic(ps: Seq<Param>, dates: Seq<DateLookup>, n: nat) -> Result<TopicModel, HaltView> {
    let nk = family_key(Family::Topic, n, 0);
    match field_value(ps, Family::Topic, n, 0) {
        None => Err(fail(ErrorView::MissingRequiredField(nk))),
        Some(name) => Ok(TopicModel { name, main: field_flag(ps, Family::Topic, n, 1) }),
    }
}

fn decode_topic_at(ps: &Vec<Param>, slots: &Vec<Slot>, facts: &Lookups, n: usize) -> (r: Result<FeaturedTopic, Halt>)
    requires
        slots_agree(ps@, slots@),
        n <= ps@.len(),
    ensures
        rv(r) == decode_topic(ps@, facts.dates@, n as nat),
{
    let nk = family_key_of(Family::Topic, n, 0);
    let name = match field_get(ps, slots, Family::Topic, n, 0) {
        None => {
            return Err(Halt::Fail(HistoryError::MissingRequiredField(nk)));
        },
        Some(t) => t,
    };
    Ok(FeaturedTopic { name, main: field_flag_get(ps, slots, Family::Topic, n, 1) })
}

pub open spec fn decode_dyk(ps: Seq<Param>, dates: Seq<DateLookup>, n: nat) -> Result<DykModel, HaltView> {
    let dk = family_key(Family::Dyk, n, 0);
    match field_value(ps, Family::Dyk, n, 0) {
        None => Err(fail(ErrorView::MissingRequiredField(dk))),
        Some(dt) => match date_outcome(dates, dt) {
            Err(h) => Err(h),
            Ok(d) => Ok(DykModel {
                date: d,
                entry: field_value(ps, Family::Dyk, n, 1),
                nom: field_value(ps, Family::Dyk, n, 2),
                ignoreerror: field_flag(ps, Family::Dyk, n, 3),
            }),
        },
    }
}

fn decode_dyk_at(ps: &Vec<Param>, slots: &Vec<Slot>, facts: &Lookups, n: usize) -> (r: Result<Dyk, Halt>)
    requires
        slots_agree(ps@, slots@),
        n <= ps@.len(),
    ensures
        rv(r) == decode_dyk(ps@, facts.dates@, n as nat),
{
    let dk = family_key_of(Family::Dyk, n, 0);
    let dt = match field_get(ps, slots, Family::Dyk, n, 0) {
        None => {
            return Err(Halt::Fail(HistoryError::MissingRequiredField(dk)));
        },
        Some(t) => t,
    };
    let date = match PreserveDate::try_from_string(dt, facts) {
        Err(h) => {
            return Err(h);
        },
        Ok(d) => d,
    };
    Ok(Dyk {
        date,
        entry: field_get(ps, slots, Family::Dyk, n, 1),
        nom: field_get(ps, slots, Family::Dyk, n, 2),
        ignoreerror: field_flag_get(ps, slots, Family::Dyk, n, 3),
    })
}

pub open spec fn decode_otd(ps: Seq<Param>, dates: Seq<DateLookup>, n: nat) -> Result<OtdModel, HaltView> {
    let dk = family_key(Family::Otd, n, 0);
    match field_value(ps, Family::Otd, n, 0) {
        None => Err(fail(ErrorView::MissingRequiredField(dk))),
        Some(dt) => match date_outcome(dates, dt) {
            Err(h) => Err(h),
            Ok(d) => Ok(OtdModel {
                date: d,
                oldid: field_value(ps, Family::Otd, n, 1),
                link: field_value(ps, Family::Otd, n, 2),
            }),
        },
    }
}

fn decode_otd_at(ps: &Vec<Param>, slots: &Vec<Slot>, facts: &Lookups, n: usize) -> (r: Result<Otd, Halt>)
    requires
        slots_agree(ps@, slots@),
        n <= ps@.len(),
    ensures
        rv(r) == decode_otd(ps@, facts.dates@, n as nat),
{
    let dk = family_key_of(Family::Otd, n, 0);
    let dt = match field_get(ps, slots, Family::Otd, n, 0) {
        None => {
            return Err(Halt::Fail(HistoryError::MissingRequiredField(dk)));
        },
        Some(t) => t,
    };
    let date = match PreserveDate::try_from_string(dt, facts) {
        Err(h) => {
            return Err(h);
        },
        Ok(d) => d,
    };
    Ok(Otd {
        date,
        oldid: field_get(ps, slots, Family::Otd, n, 1),
        link: field_get(ps, slots, Family::Otd, n, 2),
    })
}

pub open spec fn decode_itn(ps: Seq<Param>, dates: Seq<DateLookup>, n: nat) -> Result<ItnModel, HaltView> {
    let dk = family_key(Family::Itn, n, 0);
    match field_value(ps, Family::Itn, n, 0) {
        None => Err(fail(ErrorView::MissingRequiredField(dk))),
        Some(dt) => match date_outcome(dates, dt) {
            Err(h) => Err(h),
            Ok(d) => Ok(ItnModel {
                date: d,
                link: field_value(ps, Family::Itn, n, 1),
            }),
        },
    }
}

fn decode_itn_at(ps: &Vec<Param>, slots: &Vec<Slot>, facts: &Lookups, n: usize) -> (r: Result<Itn, Halt>)
    requires
        slots_agree(ps@, slots@),
        n <= ps@.len(),
    ensures
        rv(r) == decode_itn(ps@, facts.dates@, n as nat),
{
    let dk = family_key_of(Family::Itn, n, 0);
    let dt = match field_get(ps, slots, Family::Itn, n, 0) {
        None => {
            return Err(Halt::Fail(HistoryError::MissingRequiredField(dk)));
        },
        Some(t) => t,
    };
    let date = match PreserveDate::try_from_string(dt, facts) {
        Err(h) => {
            return Err(h);
        },
        Ok(d) => d,
    };
    Ok(Itn {
        date,
        link: field_get(ps, slots, Family::Itn, n, 1),
    })
}

/// Records 1 to `n` of the family, or the first failure among them.
pub open spec fn decode_actions_upto(ps: Seq<Param>, dates: Seq<DateLookup>, n: nat) -> Result<Seq<ActionModel>, HaltView>
    decreases n,
{
    if n == 0 {
        Ok(Seq::empty())
    } else {
        match decode_actions_upto(ps, dates, (n - 1) as nat) {
            Err(h) => Err(h),
            Ok(s) => match decode_action(ps, dates, n) {
                Err(h) => Err(h),
                Ok(x) => Ok(s.push(x)),
            },
        }
    }
}

proof fn lemma_actions_err(ps: Seq<Param>, dates: Seq<DateLookup>, n: nat, m: nat)
    requires
        n <= m,
        decode_actions_upto(ps, dates, n) is Err,
    ensures
        decode_actions_upto(ps, dates, m) == decode_actions_upto(ps, dates, n),
    decreases m - n,
{
    if n < m {
        lemma_actions_err(ps, dates, n, (m - 1) as nat);
    }
}

fn decode_actions(ps: &Vec<Param>, slots: &Vec<Slot>, facts: &Lookups, cnt: usize) -> (r: Result<Vec<Action>, Halt>)
    requires
        cnt < usize::MAX,
        cnt <= ps@.len(),
        slots_agree(ps@, slots@),
    ensures
        match decode_actions_upto(ps@, facts.dates@, cnt as nat) {
            Ok(s) => r is Ok && action_models(r->Ok_0@) == s,
            Err(h) => r is Err && r->Err_0@ == h,
        },
{
    let mut out: Vec<Action> = Vec::new();
    let mut n: usize = 1;
    assert(action_models(out@) =~= Seq::<ActionModel>::empty());
    while n <= cnt
        invariant
            1 <= n <= cnt + 1,
            cnt < usize::MAX,
            cnt <= ps@.len(),
            slots_agree(ps@, slots@),
            decode_actions_upto(ps@, facts.dates@, (n - 1) as nat) == Ok::<Seq<ActionModel>, HaltView>(action_models(out@)),
        decreases cnt + 1 - n,
    {
        match decode_action_at(ps, slots, facts, n) {
            Err(h) => {
                proof {
                    lemma_actions_err(ps@, facts.dates@, n as nat, cnt as nat);
                }
                return Err(h);
            },
            Ok(x) => {
                let ghost before = out@;
                out.push(x);
                assert(action_models(out@) =~= action_models(before).push(x@));
            },
        }
        n = n + 1;
    }
    Ok(out)
}

/// Records 1 to `n` of the family, or the first failure among them.
pub open spec fn decode_topics_upto(ps: Seq<Param>, dates: Seq<DateLookup>, n: nat) -> Result<Seq<TopicModel>, HaltView>
    decreases n,
{
    if n == 0 {
        Ok(Seq::empty())
    } else {
        match decode_topics_upto(ps, dates, (n - 1) as nat) {
            Err(h) => Err(h),
            Ok(s) => match decode_topic(ps, dates, n) {
                Err(h) => Err(h),
                Ok(x) => Ok(s.push(x)),
            },
        }
    }
}

proof fn lemma_topics_err(ps: Seq<Param>, dates: Seq<DateLookup>, n: nat, m: nat)
    requires
        n <= m,
        decode_topics_upto(ps, dates, n) is Err,
    ensures
        decode_topics_upto(ps, dates, m) == decode_topics_upto(ps, dates, n),
    decreases m - n,
{
    if n < m {
        lemma_topics_err(ps, dates, n, (m - 1) as nat);
    }
}

fn decode_topics(ps: &Vec<Param>, slots: &Vec<Slot>, facts: &Lookups, cnt: usize) -> (r: Result<Vec<FeaturedTopic>, Halt>)
    requires
        cnt < usize::MAX,
        cnt <= ps@.len(),
        slots_agree(ps@, slots@),
    ensures
        match decode_topics_upto(ps@, facts.dates@, cnt as nat) {
            Ok(s) => r is Ok && topic_models(r->Ok_0@) == s,
            Err(h) => r is Err && r->Err_0@ == h,
        },
{
    let mut out: Vec<FeaturedTopic> = Vec::new();
    let mut n: usize = 1;
    assert(topic_models(out@) =~= Seq::<TopicModel>::empty());
    while n <= cnt
        invariant
            1 <= n <= cnt + 1,
            cnt < usize::MAX,
            cnt <= ps@.len(),
            slots_agree(ps@, slots@),
            decode_topics_upto(ps@, facts.dates@, (n - 1) as nat) == Ok::<Seq<TopicModel>, HaltView>(topic_models(out@)),
        decreases cnt + 1 - n,
    {
        match decode_topic_at(ps, slots, facts, n) {
            Err(h) => {
                proof {
                    lemma_topics_err(ps@, facts.dates@, n as nat, cnt as nat);
                }
                return Err(h);
            },
            Ok(x) => {
                let ghost before = out@;
                out.push(x);
                assert(topic_models(out@) =~= topic_models(before).push(x@));
            },
        }
        n = n + 1;
    }
    Ok(out)
}

/// Records 1 to `n` of the family, or the first failure among them.
pub open spec fn decode_dyks_upto(ps: Seq<Param>, dates: Seq<DateLookup>, n: nat) -> Result<Seq<DykModel>, HaltView>
    decreases n,
{
    if n == 0 {
        Ok(Seq::empty())
    } else {
        match decode_dyks_upto(ps, dates, (n - 1) as nat) {
            Err(h) => Err(h),
            Ok(s) => match decode_dyk(ps, dates, n) {
                Err(h) => Err(h),
                Ok(x) => Ok(s.push(x)),
            },
        }
    }
}

proof fn lemma_dyks_err(ps: Seq<Param>, dates: Seq<DateLookup>, n: nat, m: nat)
    requires
        n <= m,
        decode_dyks_upto(ps, dates, n) is Err,
    ensures
        decode_dyks_upto(ps, dates, m) == decode_dyks_upto(ps, dates, n),
    decreases m - n,
{
    if n < m {
        lemma_dyks_err(ps, dates, n, (m - 1) as nat);
    }
}

fn decode_dyks(ps: &Vec<Param>, slots: &Vec<Slot>, facts: &Lookups, cnt: usize) -> (r: Result<Vec<Dyk>, Halt>)
    requires
        cnt < usize::MAX,
        cnt <= ps@.len(),
        slots_agree(ps@, slots@),
    ensures
        match decode_dyks_upto(ps@, facts.dates@, cnt as nat) {
            Ok(s) => r is Ok && dyk_models(r->Ok_0@) == s,
            Err(h) => r is Err && r->Err_0@ == h,
        },
{
    let mut out: Vec<Dyk> = Vec::new();
    let mut n: usize = 1;
    assert(dyk_models(out@) =~= Seq::<DykModel>::empty());
    while n <= cnt
        invariant
            1 <= n <= cnt + 1,
            cnt < usize::MAX,
            cnt <= ps@.len(),
            slots_agree(ps@, slots@),
            decode_dyks_upto(ps@, facts.dates@, (n - 1) as nat) == Ok::<Seq<DykModel>, HaltView>(dyk_models(out@)),
        decreases cnt + 1 - n,
    {
        match decode_dyk_at(ps, slots, facts, n) {
            Err(h) => {
                proof {
                    lemma_dyks_err(ps@, facts.dates@, n as nat, cnt as nat);
                }
                return Err(h);
            },
            Ok(x) => {
                let ghost before = out@;
                out.push(x);
                assert(dyk_models(out@) =~= dyk_models(before).push(x@));
            },
        }
        n = n + 1;
    }
    Ok(out)
}

/// Records 1 to `n` of the family, or the first failure among them.
pub open spec fn decode_otds_upto(ps: Seq<Param>, dates: Seq<DateLookup>, n: nat) -> Result<Seq<OtdModel>, HaltView>
    decreases n,
{
    if n == 0 {
        Ok(Seq::empty())
    } else {
        match decode_otds_upto(ps, dates, (n - 1) as nat) {
            Err(h) => Err(h),
            Ok(s) => match decode_otd(ps, dates, n) {
                Err(h) => Err(h),
                Ok(x) => Ok(s.push(x)),
            },
        }
    }
}

proof fn lemma_otds_err(ps: Seq<Param>, dates: Seq<DateLookup>, n: nat, m: nat)
    requires
        n <= m,
        decode_otds_upto(ps, dates, n) is Err,
    ensures
        decode_otds_upto(ps, dates, m) == decode_otds_upto(ps, dates, n),
    decreases m - n,
{
    if n < m {
        lemma_otds_err(ps, dates, n, (m - 1) as nat);
    }
}

fn decode_otds(ps: &Vec<Param>, slots: &Vec<Slot>, facts: &Lookups, cnt: usize) -> (r: Result<Vec<Otd>, Halt>)
    requires
        cnt < usize::MAX,
        cnt <= ps@.len(),
        slots_agree(ps@, slots@),
    ensures
        match decode_otds_upto(ps@, facts.dates@, cnt as nat) {
            Ok(s) => r is Ok && otd_models(r->Ok_0@) == s,
            Err(h) => r is Err && r->Err_0@ == h,
        },
{
    let mut out: Vec<Otd> = Vec::new();
    let mut n: usize = 1;
    assert(otd_models(out@) =~= Seq::<OtdModel>::empty());
    while n <= cnt
        invariant
            1 <= n <= cnt + 1,
            cnt < usize::MAX,
            cnt <= ps@.len(),
            slots_agree(ps@, slots@),
            decode_otds_upto(ps@, facts.dates@, (n - 1) as nat) == Ok::<Seq<OtdModel>, HaltView>(otd_models(out@)),
        decreases cnt + 1 - n,
    {
        match decode_otd_at(ps, slots, facts, n) {
            Err(h) => {
                proof {
                    lemma_otds_err(ps@, facts.dates@, n as nat, cnt as nat);
                }
                return Err(h);
            },
            Ok(x) => {
                let ghost before = out@;
                out.push(x);
                assert(otd_models(out@) =~= otd_models(before).push(x@));
            },
        }
        n = n + 1;
    }
    Ok(out)
}

/// Records 1 to `n` of the family, or the first failure among them.
pub open spec fn decode_itns_upto(ps: Seq<Param>, dates: Seq<DateLookup>, n: nat) -> Result<Seq<ItnModel>, HaltView>
    decreases n,
{
    if n == 0 {
        Ok(Seq::empty())
    } else {
        match decode_itns_upto(ps, dates, (n - 1) as nat) {
            Err(h) => Err(h),
            Ok(s) => match decode_itn(ps, dates, n) {
                Err(h) => Err(h),
                Ok(x) => Ok(s.push(x)),
            },
        }
    }
}

proof fn lemma_itns_err(ps: Seq<Param>, dates: Seq<DateLookup>, n: nat, m: nat)
    requires
        n <= m,
        decode_itns_upto(ps, dates, n) is Err,
    ensures
        decode_itns_upto(ps, dates, m) == decode_itns_upto(ps, dates, n),
    decreases m - n,
{
    if n < m {
        lemma_itns_err(ps, dates, n, (m - 1) as nat);
    }
}

fn decode_itns(ps: &Vec<Param>, slots: &Vec<Slot>, facts: &Lookups, cnt: usize) -> (r: Result<Vec<Itn>, Halt>)
    requires
        cnt < usize::MAX,
        cnt <= ps@.len(),
        slots_agree(ps@, slots@),
    ensures
        match decode_itns_upto(ps@, facts.dates@, cnt as nat) {
            Ok(s) => r is Ok && itn_models(r->Ok_0@) == s,
            Err(h) => r is Err && r->Err_0@ == h,
        },
{
    let mut out: Vec<Itn> = Vec::new();
    let mut n: usize = 1;
    assert(itn_models(out@) =~= Seq::<ItnModel>::empty());
    while n <= cnt
        invariant
            1 <= n <= cnt + 1,
            cnt < usize::MAX,
            cnt <= ps@.len(),
            slots_agree(ps@, slots@),
            decode_itns_upto(ps@, facts.dates@, (n - 1) as nat) == Ok::<Seq<ItnModel>, HaltView>(itn_models(out@)),
        decreases cnt + 1 - n,
    {
        match decode_itn_at(ps, slots, facts, n) {
            Err(h) => {
                proof {
                    lemma_itns_err(ps@, facts.dates@, n as nat, cnt as nat);
                }
                return Err(h);
            },
            Ok(x) => {
                let ghost before = out@;
                out.push(x);
                assert(itn_models(out@) =~= itn_models(before).push(x@));
            },
        }
        n = n + 1;
    }
    Ok(out)
}

/// The canonical record that the aggregate block's parameters decode to.
///
/// A name outside the schema (numbered records must run 1, 2, ... without
/// gaps), a field given twice for one record (numbers count by value), a missing required field, an unknown action kind
/// and a date the grammar rejects each fail; a date not yet put to the
/// grammar is asked for.
pub open spec fn decode_history(ps: Seq<Param>, dates: Seq<DateLookup>) -> Result<HistoryModel, HaltView> {
    match first_unrecognized_from(ps, 0) {
        Some(j) => Err(fail(ErrorView::UnrecognizedParameter(ps[j].key@))),
        None => match first_refill_from(ps, 0) {
            Some(j) => Err(fail(ErrorView::DuplicateParameter(ps[j].key@))),
            None => match decode_actions_upto(ps, dates, record_count(ps, Family::Action)) {
                Err(h) => Err(h),
                Ok(actions) => match decode_opt_date(ps, dates, "maindate"@) {
                    Err(h) => Err(h),
                    Ok(maindate) => match decode_opt_date(ps, dates, "maindate2"@) {
                        Err(h) => Err(h),
                        Ok(maindate2) => match decode_itns_upto(ps, dates, record_count(ps, Family::Itn)) {
                            Err(h) => Err(h),
                            Ok(itns) => match decode_dyks_upto(ps, dates, record_count(ps, Family::Dyk)) {
                                Err(h) => Err(h),
                                Ok(dyks) => match decode_otds_upto(ps, dates, record_count(ps, Family::Otd)) {
                                    Err(h) => Err(h),
                                    Ok(otds) => match decode_topics_upto(
                                        ps,
                                        dates,
                                        record_count(ps, Family::Topic),
                                    ) {
                                        Err(h) => Err(h),
                                        Ok(featured_topics) => Ok(HistoryModel {
                                            actions,
                                            currentstatus: value_of(ps, "currentstatus"@),
                                            maindate,
                                            maindate2,
                                            itns,
                                            dyks,
                                            otds,
                                            four: flag_of(ps, "four"@),
                                            featured_topics,
                                            topic: value_of(ps, "topic"@),
                                            collapse: flag_of(ps, "collapse"@),
                                            small: flag_of(ps, "small"@),
                                        }),
                                    },
                                },
                            },
                        },
                    },
                },
            },
        },
    }
}

/// Reads the aggregate block.
pub struct ArticleHistoryExtractor;

impl ArticleHistoryExtractor {
    /// Decodes the aggregate block's parameters.
    pub fn extract(&self, ps: &Vec<Param>, facts: &Lookups) -> (r: Result<ArticleHistory, Halt>)
        requires
            ps@.len() < usize::MAX,
        ensures
            rv(r) == decode_history(ps@, facts.dates@),
    {
        let slots = slots_of(ps);
        let c = Counts {
            actions: count(ps, &slots, Family::Action),
            topics: count(ps, &slots, Family::Topic),
            dyks: count(ps, &slots, Family::Dyk),
            otds: count(ps, &slots, Family::Otd),
            itns: count(ps, &slots, Family::Itn),
        };
        assert forall|f: Family| #[trigger] count_of(c, f) == record_count(ps@, f) && count_of(c, f) <= ps@.len() by {
            match f {
                Family::Action => {},
                Family::Topic => {},
                Family::Dyk => {},
                Family::Otd => {},
                Family::Itn => {},
            }
        }
        match find_unrecognized(ps, &slots, &c) {
            Some(j) => {
                return Err(Halt::Fail(HistoryError::UnrecognizedParameter(ps[j].key.clone())));
            },
            None => {},
        }
        match find_refill(ps, &slots) {
            Some(j) => {
                return Err(Halt::Fail(HistoryError::DuplicateParameter(ps[j].key.clone())));
            },
            None => {},
        }
        let actions = match decode_actions(ps, &slots, facts, c.actions) {
            Ok(v) => v,
            Err(h) => {
                return Err(h);
            },
        };
        let maindate = match read_opt_date(ps, facts, "maindate") {
            Ok(v) => v,
            Err(h) => {
                return Err(h);
            },
        };
        let maindate2 = match read_opt_date(ps, facts, "maindate2") {
            Ok(v) => v,
            Err(h) => {
                return Err(h);
            },
        };
        let itns = match decode_itns(ps, &slots, facts, c.itns) {
            Ok(v) => v,
            Err(h) => {
                return Err(h);
            },
        };
        let dyks = match decode_dyks(ps, &slots, facts, c.dyks) {
            Ok(v) => v,
            Err(h) => {
                return Err(h);
            },
        };
        let otds = match decode_otds(ps, &slots, facts, c.otds) {
            Ok(v) => v,
            Err(h) => {
                return Err(h);
            },
        };
        let featured_topics = match decode_topics(ps, &slots, facts, c.topics) {
            Ok(v) => v,
            Err(h) => {
                return Err(h);
            },
        };
        Ok(ArticleHistory {
            actions,
            currentstatus: get(ps, "currentstatus"),
            maindate,
            maindate2,
            itns,
            dyks,
            otds,
            four: flag(ps, "four"),
            featured_topics,
            topic: get(ps, "topic"),
            collapse: flag(ps, "collapse"),
            small: flag(ps, "small"),
        })
    }
}

/// Decodes the aggregate block, giving `None` where it does not decode; a
/// question for the date grammar is still handed back.
pub fn extract_info(ps: &Vec<Param>, facts: &Lookups) -> (r: Result<Option<ArticleHistory>, Halt>)
    requires
        ps@.len() < usize::MAX,
    ensures
        match decode_history(ps@, facts.dates@) {
            Ok(m) => r is Ok && r->Ok_0 is Some && r->Ok_0->Some_0@ == m,
            Err(HaltView::Fail(_)) => r is Ok && r->Ok_0 is None,
            Err(h) => r is Err && r->Err_0@ == h,
        },
{
    match ArticleHistoryExtractor.extract(ps, facts) {
        Ok(h) => Ok(Some(h)),
        Err(Halt::Fail(_)) => Ok(None),
        Err(h) => Err(h),
    }
}

} // verus!
