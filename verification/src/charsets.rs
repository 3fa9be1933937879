//! The fixed character categories that passwords are drawn from.
//!
//! The categories stand in a fixed order: lowercase, uppercase, digits,
//! braces, punctuation, quotes, dashes, math, logograms. The last six are
//! the symbol categories.

use vstd::prelude::*;

verus! {

/// Character sets for password generation, one field per category.
pub struct CharacterSets {
    /// Lowercase letters: a-z
    pub lowercase: &'static str,
    /// Uppercase letters: A-Z
    pub uppercase: &'static str,
    /// Numeric digits: 0-9
    pub digits: &'static str,
    /// Braces: ()[]{}
    pub braces: &'static str,
    /// Punctuation: .,:;
    pub punctuation: &'static str,
    /// Quotes: "'
    pub quotes: &'static str,
    /// Dashes: -/\_|
    pub dashes: &'static str,
    /// Math: !*+<=>?
    pub math: &'static str,
    /// Logograms: #$%&@^`~
    pub logograms: &'static str,
}

/// How many categories there are.
pub open spec fn category_count() -> int {
    9
}

/// The characters of category `k`, in the fixed category order; the empty
/// sequence outside `0 <= k < category_count()`.
pub open spec fn category_chars(k: int) -> Seq<char> {
    if k == 0 {
        "abcdefghijklmnopqrstuvwxyz"@
    } else if k == 1 {
        "ABCDEFGHIJKLMNOPQRSTUVWXYZ"@
    } else if k == 2 {
        "0123456789"@
    } else if k == 3 {
        "()[]{}"@
    } else if k == 4 {
        ".,:;"@
    } else if k == 5 {
        "\"'"@
    } else if k == 6 {
        "-/\\_|"@
    } else if k == 7 {
        "!*+<=>?"@
    } else if k == 8 {
        "#$%&@^`~"@
    } else {
        Seq::<char>::empty()
    }
}

/// A character counts as a symbol when one of the six symbol categories
/// (braces, punctuation, quotes, dashes, math, logograms) holds it.
pub open spec fn is_symbol(ch: char) -> bool {
    ||| category_chars(3).contains(ch)
    ||| category_chars(4).contains(ch)
    ||| category_chars(5).contains(ch)
    ||| category_chars(6).contains(ch)
    ||| category_chars(7).contains(ch)
    ||| category_chars(8).contains(ch)
}

/// The default character sets for password generation.
pub fn default_charsets() -> (r: CharacterSets)
    ensures
        r.lowercase@ == category_chars(0),
        r.uppercase@ == category_chars(1),
        r.digits@ == category_chars(2),
        r.braces@ == category_chars(3),
        r.punctuation@ == category_chars(4),
        r.quotes@ == category_chars(5),
        r.dashes@ == category_chars(6),
        r.math@ == category_chars(7),
        r.logograms@ == category_chars(8),
{
    CharacterSets {
        lowercase: "abcdefghijklmnopqrstuvwxyz",
        uppercase: "ABCDEFGHIJKLMNOPQRSTUVWXYZ",
        digits: "0123456789",
        braces: "()[]{}",
        punctuation: ".,:;",
        quotes: "\"'",
        dashes: "-/\\_|",
        math: "!*+<=>?",
        logograms: "#$%&@^`~",
    }
}

/// No letter and no digit is a symbol: the first three categories are
/// disjoint from the six symbol categories.
pub proof fn lemma_letters_and_digits_are_not_symbols()
    ensures
        forall|ch: char|
            #![auto]
            (category_chars(0).contains(ch) || category_chars(1).contains(ch) || category_chars(
                2,
            ).contains(ch)) ==> !is_symbol(ch),
{
    reveal_strlit("abcdefghijklmnopqrstuvwxyz");
    reveal_strlit("ABCDEFGHIJKLMNOPQRSTUVWXYZ");
    reveal_strlit("0123456789");
    reveal_strlit("()[]{}");
    reveal_strlit(".,:;");
    reveal_strlit("\"'");
    reveal_strlit("-/\\_|");
    reveal_strlit("!*+<=>?");
    reveal_strlit("#$%&@^`~");
}

} // verus!
