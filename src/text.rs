//! Small operations on text.
use vstd::prelude::*;

verus! {

/// Whether two strings hold the same characters.
pub fn same_text(a: &str, b: &str) -> (r: bool)
    ensures
        r == (a@ == b@),
{
    let n = a.unicode_len();
    if n != b.unicode_len() {
        return false;
    }
    let mut i: usize = 0;
    while i < n
        invariant
            n == a@.len(),
            n == b@.len(),
            i <= n,
            forall|j: int| 0 <= j < i ==> a@[j] == b@[j],
        decreases n - i,
    {
        if a.get_char(i) != b.get_char(i) {
            return false;
        }
        i += 1;
    }
    assert(a@ == b@);
    true
}

/// `s` without its colons.
pub open spec fn strip_colons(s: Seq<char>) -> Seq<char>
    decreases s.len(),
{
    if s.len() == 0 {
        Seq::empty()
    } else if s.last() == ':' {
        strip_colons(s.drop_last())
    } else {
        strip_colons(s.drop_last()).push(s.last())
    }
}

/// Appends the characters of `s` but its colons.
pub fn append_without_colons(out: &mut String, s: &str)
    ensures
        final(out)@ == old(out)@ + strip_colons(s@),
{
    let n = s.unicode_len();
    let mut i: usize = 0;
    while i < n
        invariant
            n == s@.len(),
            i <= n,
            out@ == old(out)@ + strip_colons(s@.take(i as int)),
        decreases n - i,
    {
        let c = s.get_char(i);
        proof {
            assert(s@.take(i + 1).drop_last() == s@.take(i as int));
            assert(s@.take(i + 1).last() == c);
        }
        if c != ':' {
            let one = s.substring_char(i, i + 1);
            proof {
                assert(one@ == seq![c]);
            }
            out.append(one);
            proof {
                assert(out@ == old(out)@ + strip_colons(s@.take(i as int)).push(c));
            }
        }
        i += 1;
    }
    assert(s@.take(n as int) == s@);
}

} // verus!
