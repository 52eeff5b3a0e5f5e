//! Identifier derivation: the fixed case rule and the unqualified part of a
//! dotted message name.

use convert_case::{Case, Casing};
use vstd::prelude::*;

verus! {

/// The PascalCase form that `convert_case` gives a string.
pub uninterp spec fn pascal_case(s: Seq<char>) -> Seq<char>;

/// Calls `convert_case::Casing::to_case` with `Case::Pascal`. The conversion
/// depends on the text alone, so its result is named by [`pascal_case`];
/// nothing else is claimed of it.
#[verifier::external_body]
pub(crate) fn to_pascal_case(s: &str) -> (r: String)
    ensures
        r@ == pascal_case(s@),
{
    s.to_case(Case::Pascal)
}

/// Index at which the last dot-separated segment of `s` starts: just behind
/// the last `'.'`, or 0 where there is none.
pub open spec fn segment_start(s: Seq<char>) -> int
    decreases s.len(),
{
    if s.len() == 0 {
        0
    } else if s.last() == '.' {
        s.len() as int
    } else {
        segment_start(s.drop_last())
    }
}

/// The part of `s` behind its last `'.'`; all of `s` where it has none.
pub open spec fn last_segment(s: Seq<char>) -> Seq<char> {
    s.subrange(segment_start(s), s.len() as int)
}

/// The segment start lies inside the string, follows a dot unless it is 0,
/// and no dot comes after it.
pub proof fn lemma_segment_start(s: Seq<char>)
    ensures
        0 <= segment_start(s) <= s.len(),
        segment_start(s) > 0 ==> s[segment_start(s) - 1] == '.',
        forall|i: int| segment_start(s) <= i < s.len() ==> s[i] != '.',
    decreases s.len(),
{
    if s.len() > 0 && s.last() != '.' {
        let t = s.drop_last();
        lemma_segment_start(t);
        assert forall|i: int| segment_start(s) <= i < s.len() implies s[i] != '.' by {
            if i < t.len() {
                assert(t[i] == s[i]);
            }
        }
    }
}

/// The unqualified name of a dotted message name: it holds no dot.
pub fn unqualified(s: &str) -> (r: String)
    ensures
        r@ == last_segment(s@),
        forall|i: int| 0 <= i < r@.len() ==> r@[i] != '.',
{
    let n = s.unicode_len();
    let mut start: usize = 0;
    let mut i: usize = 0;
    while i < n
        invariant
            n == s@.len(),
            i <= n,
            start <= i,
            start == segment_start(s@.subrange(0, i as int)),
        decreases n - i,
    {
        let c = s.get_char(i);
        proof {
            assert(s@.subrange(0, i + 1).drop_last() =~= s@.subrange(0, i as int));
            assert(s@.subrange(0, i + 1).last() == c);
        }
        if c == '.' {
            start = i + 1;
        }
        i += 1;
    }
    proof {
        assert(s@.subrange(0, n as int) =~= s@);
        lemma_segment_start(s@);
    }
    s.substring_char(start, n).to_owned()
}

/// The identifier generated for a schema name: its PascalCase form.
pub fn identifier(name: &str) -> (r: String)
    ensures
        r@ == pascal_case(name@),
{
    to_pascal_case(name)
}

/// The payload type identifier generated for a message name: the PascalCase
/// form of its unqualified part.
pub fn type_identifier(message_name: &str) -> (r: String)
    ensures
        r@ == pascal_case(last_segment(message_name@)),
{
    let short = unqualified(message_name);
    to_pascal_case(short.as_str())
}

} // verus!
