//! What holds of the library, stated apart from how it is defined: each law relates what goes in to
//! what comes out.

pub mod checks;
pub mod failures;
pub mod hosts;
pub mod outcomes;
pub mod promotions;
pub mod releases;
pub mod requests;
pub mod selections;
pub mod settings;
pub mod stagings;
pub mod startups;
pub mod texts;
pub mod turns;
pub mod views;
