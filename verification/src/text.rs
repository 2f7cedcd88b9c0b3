//! Small helpers for moving between `&str`, `Vec<char>` and `String`.

use vstd::prelude::*;
use vstd::string::StrSliceExecFns;

verus! {

/// The characters of `s`, one vector element per character.
pub fn str_to_chars(s: &str) -> (v: Vec<char>)
    ensures
        v@ == s@,
{
    let n = s.unicode_len();
    let mut v: Vec<char> = Vec::new();
    let mut i: usize = 0;
    while i < n
        invariant
            n == s@.len(),
            i <= n,
            v@ == s@.take(i as int),
        decreases n - i,
    {
        v.push(s.get_char(i));
        i = i + 1;
        proof {
            assert(v@ =~= s@.take(i as int));
        }
    }
    proof {
        assert(v@ =~= s@);
    }
    v
}

/// A clamped count of the elements of a sequence of length `len` that lie at
/// or after position `i`; used as a termination measure by the scanning and
/// parsing functions.
pub open spec fn seq_rem(len: nat, i: nat) -> nat {
    if i <= len {
        (len - i) as nat
    } else {
        0
    }
}

} // verus!
