//! Small verified string utilities: equality of string slices and trimming
//! of the ASCII whitespace that pads subprocess output.

use vstd::prelude::*;
use vstd::string::*;

verus! {

/// Equality of two string slices, pinned to equality of their views.
pub fn str_eq(a: &str, b: &str) -> (r: bool)
    ensures
        r == (a@ == b@),
{
    let alen = a.unicode_len();
    let blen = b.unicode_len();
    if alen != blen {
        return false;
    }
    let mut i: usize = 0;
    while i < alen
        invariant
            0 <= i <= alen,
            alen == a@.len(),
            alen == b@.len(),
            forall|j: int| 0 <= j < i ==> a@[j] == b@[j],
        decreases alen - i,
    {
        if a.get_char(i) != b.get_char(i) {
            return false;
        }
        i = i + 1;
    }
    proof {
        assert(a@ =~= b@);
    }
    true
}

/// The whitespace characters that may pad the version text.
pub open spec fn is_ws(c: char) -> bool {
    c == ' ' || c == '\t' || c == '\n' || c == '\r'
}

/// The string with its leading whitespace removed.
pub open spec fn trim_front_view(s: Seq<char>) -> Seq<char>
    decreases s.len(),
{
    if s.len() > 0 && is_ws(s[0]) {
        trim_front_view(s.skip(1))
    } else {
        s
    }
}

/// The string with its trailing whitespace removed.
pub open spec fn trim_back_view(s: Seq<char>) -> Seq<char>
    decreases s.len(),
{
    if s.len() > 0 && is_ws(s.last()) {
        trim_back_view(s.drop_last())
    } else {
        s
    }
}

/// The string with whitespace removed from both ends.
pub open spec fn trim_view(s: Seq<char>) -> Seq<char> {
    trim_back_view(trim_front_view(s))
}

fn trim_front(s: &str) -> (r: &str)
    ensures
        r@ == trim_front_view(s@),
    decreases s@.len(),
{
    let len = s.unicode_len();
    if len == 0 {
        return s;
    }
    let c = s.get_char(0);
    if c == ' ' || c == '\t' || c == '\n' || c == '\r' {
        let rest = s.substring_char(1, len);
        proof {
            assert(rest@ =~= s@.skip(1));
        }
        trim_front(rest)
    } else {
        s
    }
}

fn trim_back(s: &str) -> (r: &str)
    ensures
        r@ == trim_back_view(s@),
    decreases s@.len(),
{
    let len = s.unicode_len();
    if len == 0 {
        return s;
    }
    let c = s.get_char(len - 1);
    if c == ' ' || c == '\t' || c == '\n' || c == '\r' {
        let rest = s.substring_char(0, len - 1);
        proof {
            assert(rest@ =~= s@.drop_last());
        }
        trim_back(rest)
    } else {
        s
    }
}

/// Removes leading and trailing whitespace, as the synchronizer does to the
/// text the installed binary printed.
pub fn trim(s: &str) -> (r: &str)
    ensures
        r@ == trim_view(s@),
{
    trim_back(trim_front(s))
}

} // verus!
