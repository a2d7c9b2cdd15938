//! Random passwords that meet a configurable composition policy: a minimum
//! length and required character classes (uppercase, lowercase, digit,
//! special symbol).
mod distributions;
mod policy;

pub use distributions::{
    any_alphabet, digit_alphabet, lower_alphabet, special_alphabet, upper_alphabet, AnyLetter,
    LowercaseLetter, Number, SpecialCharacter, UppercaseLetter,
};
pub use policy::{
    assembled, chars_of, clamped_length, conforms, default_view, has_class,
    lemma_rearranged_assembly_conforms, valid_draws, PasswordPolicy, PolicyView, MIN_LENGTH,
};
