//! Plain-text scanning of call expressions.

use vstd::prelude::*;

verus! {

/// `pat` stands somewhere in `text` as a contiguous run.
pub open spec fn occurs_in(pat: Seq<char>, text: Seq<char>) -> bool {
    exists|i: int|
        0 <= i && i + pat.len() <= text.len() && #[trigger] text.subrange(i, i + pat.len()) == pat
}

/// The call text holds an output or formatting macro name, or the
/// file-open idiom.
pub open spec fn is_io_text(text: Seq<char>) -> bool {
    ||| occurs_in("println!"@, text)
    ||| occurs_in("print!"@, text)
    ||| occurs_in("write!"@, text)
    ||| occurs_in("File::"@, text)
}

fn chars_of(s: &str) -> (r: Vec<char>)
    ensures
        r@ == s@,
{
    let n = s.unicode_len();
    let mut r: Vec<char> = Vec::new();
    let mut i: usize = 0;
    while i < n
        invariant
            n == s@.len(),
            i <= n,
            r@ == s@.subrange(0, i as int),
        decreases n - i,
    {
        r.push(s.get_char(i));
        i += 1;
        assert(r@ =~= s@.subrange(0, i as int));
    }
    assert(r@ =~= s@);
    r
}

/// Whether `pat` occurs in `text`.
pub fn contains_text(text: &str, pat: &str) -> (r: bool)
    ensures
        r == occurs_in(pat@, text@),
{
    let t = chars_of(text);
    let p = chars_of(pat);
    let n = t.len();
    let m = p.len();
    if m > n {
        return false;
    }
    let mut i: usize = 0;
    while i <= n - m
        invariant
            t@ == text@,
            p@ == pat@,
            n == t@.len(),
            m == p@.len(),
            m <= n,
            forall|k: int| 0 <= k < i ==> #[trigger] t@.subrange(k, k + m) != p@,
        decreases n - m + 1 - i,
    {
        let mut j: usize = 0;
        while j < m && t[i + j] == p[j]
            invariant
                i + m <= n,
                n == t@.len(),
                m == p@.len(),
                j <= m,
                forall|q: int| 0 <= q < j ==> t@[i + q] == p@[q],
            decreases m - j,
        {
            j += 1;
        }
        if j == m {
            assert(t@.subrange(i as int, i + m) =~= p@);
            return true;
        }
        assert(t@.subrange(i as int, i + m)[j as int] != p@[j as int]);
        i += 1;
    }
    assert forall|k: int| 0 <= k && k + pat@.len() <= text@.len() implies #[trigger] text@.subrange(
        k,
        k + pat@.len(),
    ) != pat@ by {
        assert(k < i);
        assert(t@.subrange(k, k + m) != p@);
    }
    false
}

/// Whether a call's text looks like it performs input or output.
pub fn is_io_call(text: &str) -> (r: bool)
    ensures
        r == is_io_text(text@),
{
    contains_text(text, "println!") || contains_text(text, "print!") || contains_text(text, "write!")
        || contains_text(text, "File::")
}

} // verus!
