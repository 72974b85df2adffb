//! Template names and the alias sets that recognise them.
use vstd::prelude::*;
use crate::text::{eq_ascii_ci, eq_ignore_ascii_case};

verus! {

/// The namespace prefix that a template's full name may carry.
pub const NAMESPACE: &'static str = "Template:";

/// The name without any leading namespace prefixes.
pub open spec fn strip_ns(s: Seq<char>) -> Seq<char>
    decreases s.len(),
{
    if NAMESPACE@.len() > 0 && s.len() >= NAMESPACE@.len() && s.subrange(0, NAMESPACE@.len() as int)
        == NAMESPACE@ {
        strip_ns(s.subrange(NAMESPACE@.len() as int, s.len() as int))
    } else {
        s
    }
}

/// `p` is a prefix of `s`.
pub fn starts_with(s: &str, p: &str) -> (r: bool)
    ensures
        r == (p@.len() <= s@.len() && s@.subrange(0, p@.len() as int) == p@),
{
    let n = p.unicode_len();
    if n > s.unicode_len() {
        return false;
    }
    let mut i: usize = 0;
    while i < n
        invariant
            n == p@.len(),
            n <= s@.len(),
            i <= n,
            forall|j: int| 0 <= j < i ==> #[trigger] s@[j] == p@[j],
        decreases n - i,
    {
        if s.get_char(i) != p.get_char(i) {
            assert(s@.subrange(0, n as int)[i as int] != p@[i as int]);
            return false;
        }
        i = i + 1;
    }
    assert(s@.subrange(0, n as int) =~= p@);
    true
}

/// The name without its namespace prefixes.
pub fn template_name(name: &str) -> (r: &str)
    ensures
        r@ == strip_ns(name@),
    decreases name@.len(),
{
    proof {
        reveal_strlit("Template:");
    }
    if starts_with(name, NAMESPACE) {
        let rest = name.substring_char(9, name.unicode_len());
        template_name(rest)
    } else {
        name
    }
}

/// The name, stripped of its namespace, is one of the aliases up to ASCII case.
pub open spec fn matches_alias(name: Seq<char>, aliases: Seq<&str>) -> bool {
    exists|i: int| 0 <= i < aliases.len() && eq_ascii_ci(strip_ns(name), #[trigger] aliases[i]@)
}

pub fn matches_any(name: &str, aliases: &[&str]) -> (r: bool)
    ensures
        r == matches_alias(name@, aliases@),
{
    let t = template_name(name);
    let mut i: usize = 0;
    while i < aliases.len()
        invariant
            i <= aliases@.len(),
            t@ == strip_ns(name@),
            forall|j: int| 0 <= j < i ==> !eq_ascii_ci(strip_ns(name@), #[trigger] aliases@[j]@),
        decreases aliases.len() - i,
    {
        if eq_ignore_ascii_case(t, aliases[i]) {
            return true;
        }
        i = i + 1;
    }
    false
}

} // verus!
