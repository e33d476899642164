//! Small verified string helpers shared by the other modules.

use vstd::prelude::*;

verus! {

/// `s` with every leading `c` removed.
pub open spec fn skip_leading(s: Seq<char>, c: char) -> Seq<char>
    decreases s.len(),
{
    if s.len() > 0 && s[0] == c {
        skip_leading(s.drop_first(), c)
    } else {
        s
    }
}

/// Strip every leading `c` from `s`.
pub fn strip_leading(s: &str, c: char) -> (r: &str)
    ensures
        r@ == skip_leading(s@, c),
{
    let n: usize = s.unicode_len();
    let mut i: usize = 0;
    proof {
        assert(s@.subrange(0, n as int) =~= s@);
    }
    while i < n && s.get_char(i) == c
        invariant
            i <= n,
            n == s@.len(),
            skip_leading(s@, c) == skip_leading(s@.subrange(i as int, n as int), c),
        decreases n - i,
    {
        proof {
            let rest = s@.subrange(i as int, n as int);
            assert(rest.drop_first() =~= s@.subrange(i + 1, n as int));
        }
        i += 1;
    }
    s.substring_char(i, n)
}

} // verus!
