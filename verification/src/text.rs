//! Small operations on text, stated over sequences of characters.

use vstd::prelude::*;

verus! {

/// Whether `s` ends with `tail`.
pub open spec fn has_suffix(s: Seq<char>, tail: Seq<char>) -> bool {
    tail.len() <= s.len() && s.subrange(s.len() - tail.len(), s.len() as int) == tail
}

/// Whether two pieces of text hold the same characters.
pub fn same_text(a: &str, b: &str) -> (r: bool)
    ensures
        r == (a@ == b@),
{
    let left = String::from_str(a);
    let right = String::from_str(b);
    left == right
}

/// The three pieces of text, one after the other.
pub fn join3(a: &str, b: &str, c: &str) -> (r: String)
    ensures
        r@ == a@ + b@ + c@,
{
    let mut out = String::from_str(a);
    out.append(b);
    out.append(c);
    out
}

/// `s` without the ending `tail`, or `None` where `s` does not end with it.
pub fn strip_tail(s: &str, tail: &str) -> (r: Option<String>)
    ensures
        r is Some <==> has_suffix(s@, tail@),
        r matches Some(head) ==> head@ + tail@ == s@,
{
    let n: usize = s.unicode_len();
    let k: usize = tail.unicode_len();
    if n < k {
        return None;
    }
    let end = s.substring_char(n - k, n);
    if same_text(end, tail) {
        let head = s.substring_char(0, n - k);
        assert(head@ + tail@ =~= s@);
        Some(String::from_str(head))
    } else {
        None
    }
}

/// Whether `s` is free of line breaks.
pub fn single_line(s: &str) -> (r: bool)
    ensures
        r == !s@.contains('\n'),
{
    let n: usize = s.unicode_len();
    let mut i: usize = 0;
    while i < n
        invariant
            i <= n,
            n == s@.len(),
            forall|k: int| 0 <= k < i ==> s@[k] != '\n',
        decreases n - i,
    {
        if s.get_char(i) == '\n' {
            return false;
        }
        i += 1;
    }
    true
}

/// Whether `names` holds `name`.
pub fn holds_text(names: &Vec<String>, name: &str) -> (r: bool)
    ensures
        r == names.deep_view().contains(name@),
{
    let mut i: usize = 0;
    while i < names.len()
        invariant
            i <= names.len(),
            forall|k: int| 0 <= k < i ==> names.deep_view()[k] != name@,
        decreases names.len() - i,
    {
        if same_text(names[i].as_str(), name) {
            assert(names.deep_view()[i as int] == name@);
            return true;
        }
        i += 1;
    }
    false
}

/// A sequence with one more item holds what it held before, and that item.
pub proof fn lemma_push_holds<A>(s: Seq<A>, last: A, x: A)
    ensures
        s.push(last).contains(x) <==> s.contains(x) || last == x,
{
    let t = s.push(last);
    if t.contains(x) {
        let i = choose|i: int| 0 <= i < t.len() && t[i] == x;
        if i < s.len() {
            assert(s[i] == x);
        }
    }
    if s.contains(x) {
        let i = choose|i: int| 0 <= i < s.len() && s[i] == x;
        assert(t[i] == x);
    }
    if last == x {
        assert(t[s.len() as int] == x);
    }
}

} // verus!
