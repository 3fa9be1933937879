//! Password configuration: which categories are enabled, the target length,
//! and the optional exclude/include character strings, together with the
//! structural validation that runs before generation.

use vstd::prelude::*;

verus! {

/// Error type for password configuration validation.
#[derive(Debug, PartialEq, Eq)]
pub enum PasswordConfigError {
    ZeroLength,
    NoCharacterSetsEnabled,
    LengthTooShortForSets { length: usize, sets_count: usize },
    NotEnoughAvailableCharacters { length: usize, available: usize },
    PinLengthTooShort,
}

/// Configuration for password generation.
#[derive(Debug, Clone)]
pub struct PasswordConfig {
    /// Length of the password to generate
    pub length: usize,
    /// Include lowercase letters (a-z)
    pub include_lowercase: bool,
    /// Include uppercase letters (A-Z)
    pub include_uppercase: bool,
    /// Include numeric digits (0-9)
    pub include_digits: bool,
    /// Include braces: ()[]{}
    pub include_braces: bool,
    /// Include punctuation: .,:;
    pub include_punctuation: bool,
    /// Include quotes: "'
    pub include_quotes: bool,
    /// Include dashes: -/\_|
    pub include_dashes: bool,
    /// Include math: !*+<=>?
    pub include_math: bool,
    /// Include logograms: #$%&@^`~
    pub include_logograms: bool,
    /// Characters removed from every category's pool before sampling
    pub excluded: String,
    /// Characters force-seeded into the output
    pub included: String,
}

impl PasswordConfig {
    /// Whether the category flag at position `k` of the fixed category order
    /// is enabled.
    pub open spec fn category_enabled(self, k: int) -> bool {
        if k == 0 {
            self.include_lowercase
        } else if k == 1 {
            self.include_uppercase
        } else if k == 2 {
            self.include_digits
        } else if k == 3 {
            self.include_braces
        } else if k == 4 {
            self.include_punctuation
        } else if k == 5 {
            self.include_quotes
        } else if k == 6 {
            self.include_dashes
        } else if k == 7 {
            self.include_math
        } else if k == 8 {
            self.include_logograms
        } else {
            false
        }
    }

    /// How many category flags are enabled.
    pub open spec fn spec_sets_count(self) -> int {
        (if self.include_lowercase {
            1int
        } else {
            0
        }) + (if self.include_uppercase {
            1int
        } else {
            0
        }) + (if self.include_digits {
            1int
        } else {
            0
        }) + (if self.include_braces {
            1int
        } else {
            0
        }) + (if self.include_punctuation {
            1int
        } else {
            0
        }) + (if self.include_quotes {
            1int
        } else {
            0
        }) + (if self.include_dashes {
            1int
        } else {
            0
        }) + (if self.include_math {
            1int
        } else {
            0
        }) + (if self.include_logograms {
            1int
        } else {
            0
        })
    }

    /// Structural validity: a positive length, at least one enabled category,
    /// and a length no smaller than the number of enabled categories.
    pub open spec fn is_valid(self) -> bool {
        &&& self.length >= 1
        &&& self.spec_sets_count() >= 1
        &&& self.length as int >= self.spec_sets_count()
    }

    /// The default configuration with the given length: lowercase, uppercase
    /// and digits enabled, symbol groups disabled, empty exclude/include.
    pub open spec fn is_default_with_length(self, length: usize) -> bool {
        &&& self.length == length
        &&& self.include_lowercase
        &&& self.include_uppercase
        &&& self.include_digits
        &&& !self.include_braces
        &&& !self.include_punctuation
        &&& !self.include_quotes
        &&& !self.include_dashes
        &&& !self.include_math
        &&& !self.include_logograms
        &&& self.excluded@.len() == 0
        &&& self.included@.len() == 0
    }

    /// Creates a new password configuration with the specified length
    /// and default settings for other options.
    pub fn new(length: usize) -> (r: Result<Self, PasswordConfigError>)
        ensures
            match r {
                Ok(c) => length >= 1 && c.is_default_with_length(length),
                Err(e) => length == 0 && e == PasswordConfigError::ZeroLength,
            },
    {
        if length == 0 {
            return Err(PasswordConfigError::ZeroLength);
        }
        let mut config = Self::default();
        config.length = length;
        Ok(config)
    }

    /// Builder method to set whether to include lowercase letters.
    pub fn with_lowercase(self, include_flag: bool) -> (r: Self)
        ensures
            r == (Self { include_lowercase: include_flag, ..self }),
    {
        Self { include_lowercase: include_flag, ..self }
    }

    /// Builder method to set whether to include uppercase letters.
    pub fn with_uppercase(self, include_flag: bool) -> (r: Self)
        ensures
            r == (Self { include_uppercase: include_flag, ..self }),
    {
        Self { include_uppercase: include_flag, ..self }
    }

    /// Builder method to set whether to include digits.
    pub fn with_digits(self, include_flag: bool) -> (r: Self)
        ensures
            r == (Self { include_digits: include_flag, ..self }),
    {
        Self { include_digits: include_flag, ..self }
    }

    /// Builder method to set whether to include braces.
    pub fn with_braces(self, include_flag: bool) -> (r: Self)
        ensures
            r == (Self { include_braces: include_flag, ..self }),
    {
        Self { include_braces: include_flag, ..self }
    }

    /// Builder method to set whether to include punctuation.
    pub fn with_punctuation(self, include_flag: bool) -> (r: Self)
        ensures
            r == (Self { include_punctuation: include_flag, ..self }),
    {
        Self { include_punctuation: include_flag, ..self }
    }

    /// Builder method to set whether to include quotes.
    pub fn with_quotes(self, include_flag: bool) -> (r: Self)
        ensures
            r == (Self { include_quotes: include_flag, ..self }),
    {
        Self { include_quotes: include_flag, ..self }
    }

    /// Builder method to set whether to include dashes.
    pub fn with_dashes(self, include_flag: bool) -> (r: Self)
        ensures
            r == (Self { include_dashes: include_flag, ..self }),
    {
        Self { include_dashes: include_flag, ..self }
    }

    /// Builder method to set whether to include math symbols.
    pub fn with_math(self, include_flag: bool) -> (r: Self)
        ensures
            r == (Self { include_math: include_flag, ..self }),
    {
        Self { include_math: include_flag, ..self }
    }

    /// Builder method to set whether to include logograms.
    pub fn with_logograms(self, include_flag: bool) -> (r: Self)
        ensures
            r == (Self { include_logograms: include_flag, ..self }),
    {
        Self { include_logograms: include_flag, ..self }
    }

    /// Builder method to set excluded chars.
    pub fn excluded(self, chars: String) -> (r: Self)
        ensures
            r == (Self { excluded: chars, ..self }),
    {
        Self { excluded: chars, ..self }
    }

    /// Builder method to set included chars.
    pub fn included(self, chars: String) -> (r: Self)
        ensures
            r == (Self { included: chars, ..self }),
    {
        Self { included: chars, ..self }
    }

    /// Validates the configuration: `Ok` exactly on valid configurations, and
    /// each error names the first violated rule, checked in the order zero
    /// length, no enabled category, length shorter than the enabled count.
    pub fn validate(&self) -> (r: Result<(), PasswordConfigError>)
        ensures
            r is Ok <==> self.is_valid(),
            match r {
                Ok(()) => self.is_valid(),
                Err(e) => match e {
                    PasswordConfigError::ZeroLength => self.length == 0,
                    PasswordConfigError::NoCharacterSetsEnabled => self.length >= 1
                        && self.spec_sets_count() == 0,
                    PasswordConfigError::LengthTooShortForSets { length, sets_count } => {
                        &&& length == self.length
                        &&& sets_count as int == self.spec_sets_count()
                        &&& self.length >= 1
                        &&& self.spec_sets_count() >= 1
                        &&& (self.length as int) < self.spec_sets_count()
                    },
                    _ => false,
                },
            },
    {
        if self.length == 0 {
            return Err(PasswordConfigError::ZeroLength);
        }
        let sets_count: usize = (if self.include_lowercase {
            1usize
        } else {
            0
        }) + (if self.include_uppercase {
            1usize
        } else {
            0
        }) + (if self.include_digits {
            1usize
        } else {
            0
        }) + (if self.include_braces {
            1usize
        } else {
            0
        }) + (if self.include_punctuation {
            1usize
        } else {
            0
        }) + (if self.include_quotes {
            1usize
        } else {
            0
        }) + (if self.include_dashes {
            1usize
        } else {
            0
        }) + (if self.include_math {
            1usize
        } else {
            0
        }) + (if self.include_logograms {
            1usize
        } else {
            0
        });

        if sets_count == 0 {
            return Err(PasswordConfigError::NoCharacterSetsEnabled);
        }

        if self.length < sets_count {
            return Err(
                PasswordConfigError::LengthTooShortForSets { length: self.length, sets_count },
            );
        }

        Ok(())
    }
}

impl Default for PasswordConfig {
    /// Creates the default password configuration: 10 characters long, with
    /// lowercase, uppercase and digits enabled, symbol groups disabled and
    /// empty exclude/include strings.
    fn default() -> (r: Self)
        ensures
            r.is_default_with_length(10),
    {
        Self {
            length: 10,
            include_lowercase: true,
            include_uppercase: true,
            include_digits: true,
            include_braces: false,
            include_punctuation: false,
            include_quotes: false,
            include_dashes: false,
            include_math: false,
            include_logograms: false,
            excluded: String::new(),
            included: String::new(),
        }
    }
}

} // verus!
