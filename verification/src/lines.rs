//! Line-offset index of a document's text.
//!
//! `line_offsets[i]` is the byte offset of the first byte of line `i`.
//! Lines are separated by `'\n'`; a trailing newline opens one more
//! (empty) line, so the index always has one entry more than the text
//! has newline bytes.

use vstd::prelude::*;
use vstd::string::StringSliceAdditionalSpecFns;

verus! {

/// Newline byte, `'\n'`.
pub open spec fn nl() -> u8 {
    10u8
}

/// Number of newline bytes in `s`.
pub open spec fn newline_count(s: Seq<u8>) -> nat
    decreases s.len(),
{
    if s.len() == 0 {
        0
    } else {
        newline_count(s.drop_last()) + if s.last() == nl() {
            1nat
        } else {
            0nat
        }
    }
}

/// Number of lines of a text: one more than its newline count.
pub open spec fn count_of_lines(s: Seq<u8>) -> nat {
    newline_count(s) + 1
}

/// Offsets of the first byte of each line of `s`, in order: `0`, and
/// `j + 1` for every newline byte at index `j`.
pub open spec fn spec_line_offsets(s: Seq<u8>) -> Seq<u32>
    decreases s.len(),
{
    if s.len() == 0 {
        seq![0u32]
    } else if s.last() == nl() {
        spec_line_offsets(s.drop_last()).push(s.len() as u32)
    } else {
        spec_line_offsets(s.drop_last())
    }
}

/// The line index is well formed: one entry per line, starting at 0,
/// strictly increasing, and every entry at most the text's length.
pub proof fn lemma_line_offsets_wf(s: Seq<u8>)
    requires
        s.len() < u32::MAX,
    ensures
        spec_line_offsets(s).len() == count_of_lines(s),
        spec_line_offsets(s)[0] == 0,
        forall|i: int, j: int|
            0 <= i < j < spec_line_offsets(s).len() ==> spec_line_offsets(s)[i]
                < spec_line_offsets(s)[j],
        forall|i: int|
            0 <= i < spec_line_offsets(s).len() ==> spec_line_offsets(s)[i] <= s.len(),
    decreases s.len(),
{
    if s.len() == 0 {
    } else {
        lemma_line_offsets_wf(s.drop_last());
    }
}

/// Computes the line-offset index of `content`: offset 0 for the first
/// line, and one entry right after every newline byte.
pub fn newline_offsets_from_content(content: &str) -> (r: Vec<u32>)
    requires
        content.spec_bytes().len() < u32::MAX,
    ensures
        r@ == spec_line_offsets(content.spec_bytes()),
{
    let bytes: &[u8] = content.as_bytes();
    let n: usize = bytes.len();
    let mut r: Vec<u32> = Vec::new();
    r.push(0u32);
    assert(bytes@.take(0) =~= Seq::<u8>::empty());
    let mut i: usize = 0;
    while i < n
        invariant
            n == bytes@.len() < u32::MAX,
            i <= n,
            r@ == spec_line_offsets(bytes@.take(i as int)),
        decreases n - i,
    {
        if bytes[i] == 10u8 {
            r.push((i as u32) + 1);
        }
        proof {
            let pre = bytes@.take(i + 1 as int);
            assert(pre.drop_last() =~= bytes@.take(i as int));
            assert(pre.last() == bytes@[i as int]);
        }
        i = i + 1;
    }
    proof {
        assert(bytes@.take(n as int) =~= bytes@);
    }
    r
}

} // verus!
