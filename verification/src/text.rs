use vstd::prelude::*;

verus! {

/// `String::push` puts one character behind those that the string holds.
pub assume_specification[ String::push ](s: &mut String, ch: char)
    ensures
        final(s)@ == old(s)@.push(ch),
;

/// The text that `str::to_lowercase` gives for the text `s`.
pub uninterp spec fn lowercase_of(s: Seq<char>) -> Seq<char>;

/// `str::to_lowercase` gives the lower-case form of a text. It depends on
/// the text alone; what it is for each character fills tables.
pub assume_specification[ str::to_lowercase ](s: &str) -> (r: String)
    ensures
        r@ == lowercase_of(s@),
;

} // verus!
