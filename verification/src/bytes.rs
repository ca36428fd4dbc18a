//! Replacing byte strings in a buffer.
use vstd::prelude::*;

use bstr::ByteSlice;

verus! {

/// `s` with every match of `needle` replaced by `replacement`: matches are
/// found from the start and do not overlap; an empty needle matches before
/// every byte and at the end.
pub open spec fn replace_bytes(s: Seq<u8>, needle: Seq<u8>, replacement: Seq<u8>) -> Seq<u8>
    decreases s.len(),
{
    if needle.len() == 0 {
        if s.len() == 0 {
            replacement
        } else {
            replacement + seq![s[0]] + replace_bytes(s.drop_first(), needle, replacement)
        }
    } else if s.len() < needle.len() {
        s
    } else if s.subrange(0, needle.len() as int) == needle {
        replacement + replace_bytes(
            s.subrange(needle.len() as int, s.len() as int),
            needle,
            replacement,
        )
    } else {
        seq![s[0]] + replace_bytes(s.drop_first(), needle, replacement)
    }
}

/// Replaces the matches of `needle` in `content` with `bstr`'s
/// `ByteSlice::replace`.
///
/// The documentation of `replace` says that it replaces all matches of the
/// needle, and that of `find_iter`, which it uses, that the matches are the
/// non-overlapping occurrences found from the start; its example shows that
/// an empty needle matches before every byte and at the end. The contract
/// states this as `replace_bytes`.
#[verifier::external_body]
fn bstr_replace(content: &[u8], needle: &[u8], replacement: &[u8]) -> (r: Vec<u8>)
    ensures
        r@ == replace_bytes(content@, needle@, replacement@),
{
    content.replace(needle, replacement)
}

/// `s` with the replacements applied one after the other, in order.
pub open spec fn replace_each(s: Seq<u8>, replacements: Seq<(Seq<u8>, Seq<u8>)>) -> Seq<u8>
    decreases replacements.len(),
{
    if replacements.len() == 0 {
        s
    } else {
        let (from, to) = replacements.last();
        replace_bytes(replace_each(s, replacements.drop_last()), from, to)
    }
}

/// The views of a list of replacements.
pub open spec fn replacements_view(v: Seq<(Vec<u8>, Vec<u8>)>) -> Seq<(Seq<u8>, Seq<u8>)> {
    v.map_values(|p: (Vec<u8>, Vec<u8>)| (p.0@, p.1@))
}

/// Replace multiple slices in the byte buffer.
///
/// Replacements are `(search, replacement)` pairs, performed in order: all
/// matches of the first search are replaced before the replacements for the
/// second begin.
pub fn replace_all(content: Vec<u8>, replacements: &[(Vec<u8>, Vec<u8>)]) -> (r: Vec<u8>)
    ensures
        r@ == replace_each(content@, replacements_view(replacements@)),
{
    let ghost rv = replacements_view(replacements@);
    let mut content = content;
    let ghost start = content@;
    let mut i: usize = 0;
    while i < replacements.len()
        invariant
            rv == replacements_view(replacements@),
            i <= replacements@.len(),
            content@ == replace_each(start, rv.take(i as int)),
        decreases replacements.len() - i,
    {
        let (from, to) = &replacements[i];
        content = bstr_replace(content.as_slice(), from.as_slice(), to.as_slice());
        proof {
            assert(rv.take(i + 1).drop_last() =~= rv.take(i as int));
            assert(rv.take(i + 1).last() == (from@, to@));
        }
        i = i + 1;
    }
    assert(rv.take(replacements@.len() as int) =~= rv);
    content
}

/// `needle` occurs in `s` at position `i`.
pub open spec fn occurs_at(s: Seq<u8>, needle: Seq<u8>, i: int) -> bool {
    s.subrange(i, i + needle.len()) == needle
}

/// A non-empty needle that does not occur leaves the bytes unchanged.
pub proof fn lemma_replace_absent(s: Seq<u8>, needle: Seq<u8>, replacement: Seq<u8>)
    requires
        needle.len() > 0,
        forall|i: int| 0 <= i <= s.len() - needle.len() ==> !#[trigger] occurs_at(s, needle, i),
    ensures
        replace_bytes(s, needle, replacement) == s,
    decreases s.len(),
{
    if s.len() >= needle.len() {
        assert(!occurs_at(s, needle, 0));
        let t = s.drop_first();
        assert forall|i: int| 0 <= i <= t.len() - needle.len() implies !#[trigger] occurs_at(t, needle, i) by {
            assert(!occurs_at(s, needle, i + 1));
            assert(t.subrange(i, i + needle.len()) =~= s.subrange(i + 1, i + 1 + needle.len()));
        }
        lemma_replace_absent(t, needle, replacement);
        assert(seq![s[0]] + t =~= s);
    }
}

} // verus!
