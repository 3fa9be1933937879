//! A small front-end facade: a bundle of four category choices that builds
//! the matching configuration and generates a password from it.

use vstd::prelude::*;

use crate::config::PasswordConfig;
use crate::generator::all_sources_represented;
use crate::generator::chars_from_charset;
use crate::generator::generate_password;
use crate::generator::generated_length;
use crate::generator::no_leading_symbol;

verus! {

/// A password generator over the four most common categories.
pub struct ComplexPasswordGenerator {
    pub include_uppercase: bool,
    pub include_lowercase: bool,
    pub include_numbers: bool,
    pub include_logograms: bool,
}

/// The configuration that `g` hands to the generator for the given length:
/// the default configuration of that length with the four flags of `g`
/// written over it.
pub open spec fn spec_config_matches(
    g: ComplexPasswordGenerator,
    length: usize,
    c: PasswordConfig,
) -> bool {
    &&& c.length == length
    &&& c.include_lowercase == g.include_lowercase
    &&& c.include_uppercase == g.include_uppercase
    &&& c.include_digits == g.include_numbers
    &&& !c.include_braces
    &&& !c.include_punctuation
    &&& !c.include_quotes
    &&& !c.include_dashes
    &&& !c.include_math
    &&& c.include_logograms == g.include_logograms
    &&& c.excluded@.len() == 0
    &&& c.included@.len() == 0
}

impl ComplexPasswordGenerator {
    /// Bundles the four category choices.
    pub fn new(
        include_uppercase: bool,
        include_lowercase: bool,
        include_numbers: bool,
        include_logograms: bool,
    ) -> (r: Self)
        ensures
            r.include_uppercase == include_uppercase,
            r.include_lowercase == include_lowercase,
            r.include_numbers == include_numbers,
            r.include_logograms == include_logograms,
    {
        Self { include_uppercase, include_lowercase, include_numbers, include_logograms }
    }

    /// Generates a password of the given positive length from the matching
    /// configuration; the result carries every guarantee of the generator
    /// for that configuration.
    pub fn generate_password(&self, length: usize) -> (r: String)
        requires
            length >= 1,
        ensures
            exists|c: PasswordConfig|
                {
                    &&& #[trigger] spec_config_matches(*self, length, c)
                    &&& r@.len() == generated_length(c)
                    &&& chars_from_charset(c, r@)
                    &&& all_sources_represented(c, r@)
                    &&& no_leading_symbol(r@)
                },
    {
        let config = match PasswordConfig::new(length) {
            Ok(c) => c,
            Err(_) => {
                proof {
                    assert(false);
                }
                return String::new();
            },
        };
        let config = config.with_uppercase(self.include_uppercase).with_lowercase(
            self.include_lowercase,
        ).with_digits(self.include_numbers).with_logograms(self.include_logograms);
        let r = generate_password(&config);
        proof {
            assert(spec_config_matches(*self, length, config));
        }
        r
    }
}

} // verus!
