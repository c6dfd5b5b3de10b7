//! Filler expansion: the text that overwrites one matched span.
//!
//! An empty filler deletes the span; a non-empty filler is cycled
//! character by character until the span's character length is reached,
//! so that a rewrite never changes the column offsets of what follows.

use vstd::prelude::*;
use vstd::string::*;

verus! {

/// The replacement text for one matched span of `n` characters: empty when
/// the filler is empty, otherwise the filler's characters cycled to length `n`.
pub open spec fn filler_block(filler: Seq<char>, n: nat) -> Seq<char> {
    if filler.len() == 0 {
        Seq::empty()
    } else {
        Seq::new(n, |i: int| filler[i % (filler.len() as int)])
    }
}

/// Length preservation: with a non-empty filler, the replacement built for a
/// matched span of `n` characters has exactly `n` characters.
pub proof fn lemma_filler_preserves_length(filler: Seq<char>, n: nat)
    requires
        filler.len() > 0,
    ensures
        filler_block(filler, n).len() == n,
{
}

/// Deletion: with an empty filler, every matched span is replaced by nothing.
pub proof fn lemma_empty_filler_deletes(filler: Seq<char>, n: nat)
    requires
        filler.len() == 0,
    ensures
        filler_block(filler, n) == Seq::<char>::empty(),
{
}

/// Relies on `String`'s `FromIterator` impl over `char`: collecting yields a
/// string holding exactly the vector's characters, in order.
#[verifier::external_body]
fn chars_to_string(chars: &Vec<char>) -> (r: String)
    ensures
        r@ == chars@,
{
    chars.iter().collect()
}

/// Builds the replacement text for one matched span: `filler_block` of the
/// filler and the span's character count.
pub fn filler_for(filler: &str, matched: &str) -> (r: String)
    ensures
        r@ == filler_block(filler@, matched@.len()),
{
    let flen = filler.unicode_len();
    let n = matched.unicode_len();
    if flen == 0 {
        return String::new();
    }
    let mut out: Vec<char> = Vec::new();
    let mut i: usize = 0;
    while i < n
        invariant
            flen == filler@.len(),
            n == matched@.len(),
            flen > 0,
            i <= n,
            out@ =~= Seq::new(i as nat, |j: int| filler@[j % (flen as int)]),
        decreases n - i,
    {
        out.push(filler.get_char(i % flen));
        i = i + 1;
    }
    chars_to_string(&out)
}

} // verus!

