//! Letter-cipher scoring: turns free text into scores under three fixed
//! alphabetic schemes, with a per-letter breakdown where the scheme has one.
pub mod cipher;
pub mod decoder;
pub mod theorems;
