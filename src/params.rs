//! Lookups in an ordered parameter list.
use vstd::prelude::*;
use crate::builder::Param;
use crate::text::{opt_view, str_eq};

verus! {

/// The value of the first parameter named `k`.
pub open spec fn value_of(ps: Seq<Param>, k: Seq<char>) -> Option<Seq<char>>
    decreases ps.len(),
{
    if ps.len() == 0 {
        None
    } else if ps[0].key@ == k {
        Some(ps[0].value@)
    } else {
        value_of(ps.drop_first(), k)
    }
}

pub open spec fn has_key(ps: Seq<Param>, k: Seq<char>) -> bool {
    value_of(ps, k) is Some
}

/// Parameter `j` repeats the name of an earlier one.
pub open spec fn repeats(ps: Seq<Param>, j: int) -> bool {
    exists|i: int| 0 <= i < j && ps[i].key@ == ps[j].key@
}

/// The first parameter from `j` on that repeats an earlier name, if any.
pub open spec fn first_repeat_from(ps: Seq<Param>, j: int) -> Option<int>
    decreases ps.len() - j,
{
    if j < 0 || j >= ps.len() {
        None
    } else if repeats(ps, j) {
        Some(j)
    } else {
        first_repeat_from(ps, j + 1)
    }
}

/// The first parameter that repeats an earlier name, if any.
pub open spec fn first_repeat(ps: Seq<Param>) -> Option<int> {
    first_repeat_from(ps, 0)
}

/// Whether a character is white space, as Unicode's `White_Space` property says.
pub open spec fn is_space(c: char) -> bool {
    c == '\t' || c == '\n' || c == '\u{0B}' || c == '\u{0C}' || c == '\r' || c == ' ' || c == '\u{85}'
        || c == '\u{A0}' || c == '\u{1680}' || ('\u{2000}' <= c && c <= '\u{200A}') || c == '\u{2028}'
        || c == '\u{2029}' || c == '\u{202F}' || c == '\u{205F}' || c == '\u{3000}'
}

/// A text with nothing but white space in it.
pub open spec fn is_blank(s: Seq<char>) -> bool {
    forall|i: int| 0 <= i < s.len() ==> is_space(#[trigger] s[i])
}

pub fn blank(s: &str) -> (r: bool)
    ensures
        r == is_blank(s@),
{
    let n = s.unicode_len();
    let mut i: usize = 0;
    while i < n
        invariant
            n == s@.len(),
            i <= n,
            forall|j: int| 0 <= j < i ==> is_space(#[trigger] s@[j]),
        decreases n - i,
    {
        let c = s.get_char(i);
        let sp = c == '\t' || c == '\n' || c == '\u{0B}' || c == '\u{0C}' || c == '\r' || c == ' '
            || c == '\u{85}' || c == '\u{A0}' || c == '\u{1680}' || ('\u{2000}' <= c && c <= '\u{200A}')
            || c == '\u{2028}' || c == '\u{2029}' || c == '\u{202F}' || c == '\u{205F}' || c == '\u{3000}';
        if !sp {
            return false;
        }
        i = i + 1;
    }
    true
}

/// The value of the first parameter named `k`.
pub fn get(ps: &Vec<Param>, k: &str) -> (r: Option<String>)
    ensures
        opt_view(r) == value_of(ps@, k@),
{
    let mut i: usize = 0;
    assert(ps@.subrange(0, ps@.len() as int) =~= ps@);
    while i < ps.len()
        invariant
            i <= ps@.len(),
            value_of(ps@, k@) == value_of(ps@.subrange(i as int, ps@.len() as int), k@),
        decreases ps.len() - i,
    {
        assert(ps@.subrange(i as int, ps@.len() as int).drop_first() =~= ps@.subrange(i + 1, ps@.len() as int));
        if str_eq(ps[i].key.as_str(), k) {
            return Some(ps[i].value.clone());
        }
        i = i + 1;
    }
    None
}

/// The index of the first parameter that repeats an earlier name, if any.
pub fn find_repeat(ps: &Vec<Param>) -> (r: Option<usize>)
    ensures
        match first_repeat(ps@) {
            Some(j) => r is Some && r->Some_0 as int == j,
            None => r is None,
        },
        r is Some ==> r->Some_0 < ps@.len(),
{
    let mut j: usize = 0;
    while j < ps.len()
        invariant
            j <= ps@.len(),
            first_repeat(ps@) == first_repeat_from(ps@, j as int),
        decreases ps.len() - j,
    {
        let mut i: usize = 0;
        while i < j
            invariant
                i <= j,
                j < ps@.len(),
                first_repeat(ps@) == first_repeat_from(ps@, j as int),
                forall|l: int| 0 <= l < i ==> ps@[l].key@ != ps@[j as int].key@,
            decreases j - i,
        {
            if str_eq(ps[i].key.as_str(), ps[j].key.as_str()) {
                assert(repeats(ps@, j as int));
                assert(first_repeat_from(ps@, j as int) == Some(j as int));
                return Some(j);
            }
            i = i + 1;
        }
        assert(!repeats(ps@, j as int));
        assert(first_repeat_from(ps@, j as int) == first_repeat_from(ps@, j + 1));
        j = j + 1;
    }
    assert(first_repeat_from(ps@, j as int) is None);
    None
}

} // verus!
