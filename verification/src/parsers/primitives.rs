use vstd::prelude::*;
use vstd::string::StrSliceExecFns;

verus! {

/// Whether a character is skippable whitespace: space, tab, newline or
/// carriage return.
pub open spec fn is_ws_char(c: char) -> bool {
    c == ' ' || c == '\t' || c == '\n' || c == '\r'
}

/// The first position at or after `pos` that does not hold whitespace.
pub open spec fn spec_skip_ws(s: Seq<char>, pos: int) -> int
    decreases s.len() - pos,
{
    if 0 <= pos < s.len() && is_ws_char(s[pos]) {
        spec_skip_ws(s, pos + 1)
    } else {
        pos
    }
}

/// Skipping whitespace stays within the input and never moves backwards.
pub proof fn lemma_skip_ws_bounds(s: Seq<char>, pos: int)
    requires
        0 <= pos <= s.len(),
    ensures
        pos <= spec_skip_ws(s, pos) <= s.len(),
    decreases s.len() - pos,
{
    if pos < s.len() && is_ws_char(s[pos]) {
        lemma_skip_ws_bounds(s, pos + 1);
    }
}

/// Whether the input holds the given tag, character for character, at `pos`.
pub open spec fn spec_match_at(s: Seq<char>, pos: int, tag: Seq<char>) -> bool {
    &&& 0 <= pos
    &&& pos + tag.len() <= s.len()
    &&& s.subrange(pos, pos + tag.len()) == tag
}

/// The exec whitespace test.
pub fn is_ws(c: char) -> (r: bool)
    ensures
        r == is_ws_char(c),
{
    c == ' ' || c == '\t' || c == '\n' || c == '\r'
}

/// Skip whitespace from `pos`, returning the first non-whitespace position.
pub fn skip_ws(input: &[char], pos: usize) -> (p: usize)
    requires
        pos <= input@.len(),
    ensures
        p == spec_skip_ws(input@, pos as int),
        pos <= p <= input@.len(),
{
    let mut i = pos;
    while i < input.len() && is_ws(input[i])
        invariant
            pos <= i <= input@.len(),
            spec_skip_ws(input@, pos as int) == spec_skip_ws(input@, i as int),
        decreases input@.len() - i,
    {
        i = i + 1;
    }
    i
}

/// Whether the input holds the given tag at `pos`.
#[verifier::loop_isolation(false)]
pub fn match_at(input: &[char], pos: usize, tag: &str) -> (r: bool)
    requires
        pos <= input@.len(),
    ensures
        r == spec_match_at(input@, pos as int, tag@),
{
    let tlen = tag.unicode_len();
    if input.len() - pos < tlen {
        return false;
    }
    let mut j: usize = 0;
    while j < tlen
        invariant
            0 <= j <= tlen,
            tlen == tag@.len(),
            pos + tlen <= input@.len(),
            forall|k: int| 0 <= k < j ==> input@[pos + k] == tag@[k],
        decreases tlen - j,
    {
        if input[pos + j] != tag.get_char(j) {
            proof {
                assert(input@.subrange(pos as int, pos + tag@.len())[j as int] == input@[pos + j]);
            }
            return false;
        }
        j = j + 1;
    }
    proof {
        assert(input@.subrange(pos as int, pos + tag@.len()) =~= tag@);
    }
    true
}

} // verus!
