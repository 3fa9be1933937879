//! Randomized password generation from a configurable mixture of character
//! categories (lowercase, uppercase, digits, and several symbol sub-groups),
//! with support for excluding specific characters, force-including specific
//! characters, and guaranteeing at least one character from every enabled
//! category.

use vstd::prelude::*;

pub mod charsets;
pub mod config;
mod rng;
pub mod cli;
pub mod generator;
pub mod password_generator;

pub use charsets::CharacterSets;
pub use config::PasswordConfig;
pub use generator::generate_password;
pub use config::PasswordConfigError;

verus! {

/// The crate's version string.
pub fn getversion() -> (r: &'static str)
    ensures
        r@ == "0.1.0"@,
{
    "0.1.0"
}

} // verus!
