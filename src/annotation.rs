//! Reading annotations: which attributes carry a given name, and the text
//! between the parentheses that follow it.
use vstd::prelude::*;
use vstd::string::*;
use crate::model::Annotation;

verus! {

/// The text between an outer pair of parentheses; empty when `t` is not so delimited.
pub open spec fn payload(t: Seq<char>) -> Seq<char> {
    if t.len() >= 2 && t[0] == '(' && t[t.len() - 1] == ')' {
        t.subrange(1, t.len() - 1)
    } else {
        Seq::empty()
    }
}

/// Whether the annotation's path is exactly `name`.
pub open spec fn is_named(a: Annotation, name: Seq<char>) -> bool {
    match a.path {
        Some(p) => p@ == name,
        None => false,
    }
}

/// The payloads of the annotations named `name`, in order.
pub open spec fn named_payloads(anns: Seq<Annotation>, name: Seq<char>) -> Seq<Seq<char>>
    decreases anns.len(),
{
    if anns.len() == 0 {
        Seq::empty()
    } else {
        let prev = named_payloads(anns.drop_last(), name);
        if is_named(anns.last(), name) {
            prev.push(payload(anns.last().tokens@))
        } else {
            prev
        }
    }
}

/// Whether two strings hold the same characters.
pub fn str_eq(a: &str, b: &str) -> (r: bool)
    ensures
        r == (a@ == b@),
{
    let n = a.unicode_len();
    if n != b.unicode_len() {
        return false;
    }
    let mut i: usize = 0;
    while i < n
        invariant
            n == a@.len(),
            n == b@.len(),
            i <= n,
            forall|j: int| 0 <= j < i ==> a@[j] == b@[j],
        decreases n - i,
    {
        if a.get_char(i) != b.get_char(i) {
            return false;
        }
        i = i + 1;
    }
    assert(a@ =~= b@);
    true
}

/// The text between the outer parentheses of `t`; empty when there are none.
pub fn payload_of(t: &str) -> (r: String)
    ensures
        r@ == payload(t@),
{
    let n = t.unicode_len();
    if n >= 2 && t.get_char(0) == '(' && t.get_char(n - 1) == ')' {
        String::from_str(t.substring_char(1, n - 1))
    } else {
        String::new()
    }
}

/// The payloads of the annotations named `name`, in order.
pub fn annotation_payloads(anns: &Vec<Annotation>, name: &str) -> (r: Vec<String>)
    ensures
        r@.map_values(|s: String| s@) == named_payloads(anns@, name@),
{
    let mut r: Vec<String> = Vec::new();
    let mut i: usize = 0;
    while i < anns.len()
        invariant
            i <= anns.len(),
            r@.map_values(|s: String| s@) == named_payloads(anns@.subrange(0, i as int), name@),
        decreases anns.len() - i,
    {
        proof {
            assert(anns@.subrange(0, i + 1).drop_last() =~= anns@.subrange(0, i as int));
        }
        let a = &anns[i];
        let named = match &a.path {
            Some(p) => str_eq(p.as_str(), name),
            None => false,
        };
        if named {
            let pl = payload_of(a.tokens.as_str());
            let ghost before = r@;
            r.push(pl);
            assert(r@.map_values(|s: String| s@) =~= before.map_values(|s: String| s@).push(pl@));
        }
        i = i + 1;
    }
    assert(anns@.subrange(0, i as int) =~= anns@);
    r
}

} // verus!
