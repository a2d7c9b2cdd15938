use vstd::prelude::*;

verus! {

/// Uniform sampler over the uppercase letters `A`..=`Z`.
pub struct UppercaseLetter;

/// Uniform sampler over the lowercase letters `a`..=`z`.
pub struct LowercaseLetter;

/// Uniform sampler over the decimal digits `0`..=`9`.
pub struct Number;

/// Uniform sampler over the special symbols of [`special_alphabet`].
pub struct SpecialCharacter;

/// Uniform sampler over all four alphabets, concatenated in the order
/// uppercase, lowercase, digits, specials.
pub struct AnyLetter;

pub open spec fn upper_alphabet() -> Seq<u8> {
    Seq::new(26, |i: int| (('A' as u8) as int + i) as u8)
}

pub open spec fn lower_alphabet() -> Seq<u8> {
    Seq::new(26, |i: int| (('a' as u8) as int + i) as u8)
}

pub open spec fn digit_alphabet() -> Seq<u8> {
    Seq::new(10, |i: int| (('0' as u8) as int + i) as u8)
}

pub open spec fn special_alphabet() -> Seq<u8> {
    seq![
        '^' as u8, '$' as u8, '*' as u8, '.' as u8, '[' as u8, ']' as u8, '{' as u8, '}' as u8,
        '(' as u8, ')' as u8, '?' as u8, '"' as u8, '!' as u8, '@' as u8, '#' as u8, '%' as u8,
        '&' as u8, '/' as u8, '\\' as u8, ',' as u8, '>' as u8, '<' as u8, '\'' as u8, ':' as u8,
        ';' as u8, '|' as u8, '_' as u8, '~' as u8, '`' as u8, '=' as u8, '+' as u8, '-' as u8,
    ]
}

/// The four alphabets as one sequence of 94 symbols.
pub open spec fn any_alphabet() -> Seq<u8> {
    upper_alphabet() + lower_alphabet() + digit_alphabet() + special_alphabet()
}

/// Relies on rand's `Uniform::new(0, n)` and its `Distribution::sample`:
/// one draw, uniformly distributed over `[0, n)`. `Uniform::new` panics
/// unless `0 < n`.
#[verifier::external_body]
fn draw_below<R: rand::Rng + ?Sized>(rng: &mut R, n: u32) -> (r: u32)
    requires
        0 < n,
    ensures
        r < n,
{
    rand::distributions::Distribution::sample(&rand::distributions::Uniform::new(0, n), rng)
}

impl UppercaseLetter {
    /// The symbol at `index` of the uppercase alphabet.
    pub fn pick(&self, index: u32) -> (r: u8)
        requires
            index < 26,
        ensures
            r == upper_alphabet()[index as int],
    {
        'A' as u8 + index as u8
    }

    pub fn sample<R: rand::Rng + ?Sized>(&self, rng: &mut R) -> (r: u8)
        ensures
            upper_alphabet().contains(r),
    {
        let index = draw_below(rng, 26);
        let r = self.pick(index);
        assert(upper_alphabet()[index as int] == r);
        r
    }
}

impl LowercaseLetter {
    /// The symbol at `index` of the lowercase alphabet.
    pub fn pick(&self, index: u32) -> (r: u8)
        requires
            index < 26,
        ensures
            r == lower_alphabet()[index as int],
    {
        'a' as u8 + index as u8
    }

    pub fn sample<R: rand::Rng + ?Sized>(&self, rng: &mut R) -> (r: u8)
        ensures
            lower_alphabet().contains(r),
    {
        let index = draw_below(rng, 26);
        let r = self.pick(index);
        assert(lower_alphabet()[index as int] == r);
        r
    }
}

impl Number {
    /// The symbol at `index` of the digit alphabet.
    pub fn pick(&self, index: u32) -> (r: u8)
        requires
            index < 10,
        ensures
            r == digit_alphabet()[index as int],
    {
        '0' as u8 + index as u8
    }

    pub fn sample<R: rand::Rng + ?Sized>(&self, rng: &mut R) -> (r: u8)
        ensures
            digit_alphabet().contains(r),
    {
        let index = draw_below(rng, 10);
        let r = self.pick(index);
        assert(digit_alphabet()[index as int] == r);
        r
    }
}

impl SpecialCharacter {
    /// The symbol at `index` of the special alphabet.
    pub fn pick(&self, index: u32) -> (r: u8)
        requires
            index < 32,
        ensures
            r == special_alphabet()[index as int],
    {
        let table: [u8; 32] = [
            '^' as u8, '$' as u8, '*' as u8, '.' as u8, '[' as u8, ']' as u8, '{' as u8, '}' as u8,
            '(' as u8, ')' as u8, '?' as u8, '"' as u8, '!' as u8, '@' as u8, '#' as u8, '%' as u8,
            '&' as u8, '/' as u8, '\\' as u8, ',' as u8, '>' as u8, '<' as u8, '\'' as u8, ':' as u8,
            ';' as u8, '|' as u8, '_' as u8, '~' as u8, '`' as u8, '=' as u8, '+' as u8, '-' as u8,
        ];
        table[index as usize]
    }

    pub fn sample<R: rand::Rng + ?Sized>(&self, rng: &mut R) -> (r: u8)
        ensures
            special_alphabet().contains(r),
    {
        let index = draw_below(rng, 32);
        let r = self.pick(index);
        assert(special_alphabet()[index as int] == r);
        r
    }
}

impl AnyLetter {
    /// The symbol at `index` of the concatenated alphabet.
    pub fn pick(&self, index: u32) -> (r: u8)
        requires
            index < 94,
        ensures
            r == any_alphabet()[index as int],
    {
        if index < 26 {
            UppercaseLetter.pick(index)
        } else if index < 52 {
            LowercaseLetter.pick(index - 26)
        } else if index < 62 {
            Number.pick(index - 52)
        } else {
            SpecialCharacter.pick(index - 62)
        }
    }

    pub fn sample<R: rand::Rng + ?Sized>(&self, rng: &mut R) -> (r: u8)
        ensures
            any_alphabet().contains(r),
    {
        let index = draw_below(rng, 94);
        let r = self.pick(index);
        assert(any_alphabet()[index as int] == r);
        r
    }
}

} // verus!
