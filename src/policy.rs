use crate::distributions::{
    any_alphabet, digit_alphabet, lower_alphabet, special_alphabet, upper_alphabet, AnyLetter,
    LowercaseLetter, Number, SpecialCharacter, UppercaseLetter,
};
use vstd::prelude::*;

verus! {

broadcast use vstd::seq_lib::group_to_multiset_ensures;

/// The shortest password a policy allows; shorter requests are raised to it.
pub const MIN_LENGTH: u8 = 6;

/// Composition policy for generated passwords.
#[derive(Debug, Copy, Clone)]
pub struct PasswordPolicy {
    length: u8,
    require_number: bool,
    require_special: bool,
    require_upper: bool,
    require_lower: bool,
}

/// What a policy is: a length and four required character classes.
pub ghost struct PolicyView {
    pub length: nat,
    pub require_number: bool,
    pub require_special: bool,
    pub require_upper: bool,
    pub require_lower: bool,
}

impl View for PasswordPolicy {
    type V = PolicyView;

    closed spec fn view(&self) -> PolicyView {
        PolicyView {
            length: self.length as nat,
            require_number: self.require_number,
            require_special: self.require_special,
            require_upper: self.require_upper,
            require_lower: self.require_lower,
        }
    }
}

/// The policy that `new` and `default` give.
pub open spec fn default_view() -> PolicyView {
    PolicyView {
        length: 8,
        require_number: true,
        require_special: true,
        require_upper: true,
        require_lower: true,
    }
}

/// A requested length, raised to the floor where it is below it.
pub open spec fn clamped_length(n: nat) -> nat {
    if n < MIN_LENGTH as nat {
        MIN_LENGTH as nat
    } else {
        n
    }
}

/// The symbols of an alphabet as characters.
pub open spec fn chars_of(alphabet: Seq<u8>) -> Seq<char> {
    alphabet.map_values(|b: u8| b as char)
}

/// Some character of `s` belongs to `alphabet`.
pub open spec fn has_class(s: Seq<char>, alphabet: Seq<u8>) -> bool {
    exists|i: int| 0 <= i < s.len() && #[trigger] chars_of(alphabet).contains(s[i])
}

/// `s` is a password that meets policy `p`: its length is the policy's, each
/// character is one of the 94 symbols, and each required class occurs.
pub open spec fn conforms(p: PolicyView, s: Seq<char>) -> bool {
    &&& s.len() == p.length
    &&& forall|i: int| 0 <= i < s.len() ==> #[trigger] chars_of(any_alphabet()).contains(s[i])
    &&& p.require_upper ==> has_class(s, upper_alphabet())
    &&& p.require_lower ==> has_class(s, lower_alphabet())
    &&& p.require_number ==> has_class(s, digit_alphabet())
    &&& p.require_special ==> has_class(s, special_alphabet())
}

/// The password before its shuffle: the drawn symbols `base`, with position 0
/// replaced by `upper` where an uppercase letter is required, position 1 by
/// `lower`, position 2 by `digit` and position 3 by `special` likewise.
pub open spec fn assembled(
    p: PolicyView,
    base: Seq<u8>,
    upper: u8,
    lower: u8,
    digit: u8,
    special: u8,
) -> Seq<char> {
    let s0 = chars_of(base);
    let s1 = if p.require_upper { s0.update(0, upper as char) } else { s0 };
    let s2 = if p.require_lower { s1.update(1, lower as char) } else { s1 };
    let s3 = if p.require_number { s2.update(2, digit as char) } else { s2 };
    if p.require_special { s3.update(3, special as char) } else { s3 }
}

/// Draws that the samplers can give for policy `p`: one symbol of all 94 per
/// position, and a symbol of its class for each required class.
pub open spec fn valid_draws(
    p: PolicyView,
    base: Seq<u8>,
    upper: u8,
    lower: u8,
    digit: u8,
    special: u8,
) -> bool {
    &&& base.len() == p.length
    &&& forall|i: int| 0 <= i < base.len() ==> #[trigger] any_alphabet().contains(base[i])
    &&& p.require_upper ==> upper_alphabet().contains(upper)
    &&& p.require_lower ==> lower_alphabet().contains(lower)
    &&& p.require_number ==> digit_alphabet().contains(digit)
    &&& p.require_special ==> special_alphabet().contains(special)
}

/// Any rearrangement of an assembly of valid draws meets the policy, as long as
/// the policy's length is at least the floor: the length is the policy's, each
/// character is one of the 94 symbols, and each required class occurs.
pub proof fn lemma_rearranged_assembly_conforms(
    p: PolicyView,
    base: Seq<u8>,
    upper: u8,
    lower: u8,
    digit: u8,
    special: u8,
    r: Seq<char>,
)
    requires
        p.length >= MIN_LENGTH,
        valid_draws(p, base, upper, lower, digit, special),
        r.to_multiset() == assembled(p, base, upper, lower, digit, special).to_multiset(),
    ensures
        conforms(p, r),
{
    let before = assembled(p, base, upper, lower, digit, special);
    before.to_multiset_ensures();
    r.to_multiset_ensures();
    assert forall|k: int| 0 <= k < before.len() implies #[trigger] chars_of(any_alphabet()).contains(
        before[k],
    ) by {
        if p.require_upper && k == 0 {
            lemma_class_in_any(upper);
            lemma_char_member(any_alphabet(), upper);
        } else if p.require_lower && k == 1 {
            lemma_class_in_any(lower);
            lemma_char_member(any_alphabet(), lower);
        } else if p.require_number && k == 2 {
            lemma_class_in_any(digit);
            lemma_char_member(any_alphabet(), digit);
        } else if p.require_special && k == 3 {
            lemma_class_in_any(special);
            lemma_char_member(any_alphabet(), special);
        } else {
            assert(any_alphabet().contains(base[k]));
            lemma_char_member(any_alphabet(), base[k]);
        }
    }
    assert forall|k: int| 0 <= k < r.len() implies #[trigger] chars_of(any_alphabet()).contains(
        r[k],
    ) by {
        lemma_kept(r, before, k);
    }
    if p.require_upper {
        lemma_char_member(upper_alphabet(), upper);
        lemma_kept(before, r, 0);
    }
    if p.require_lower {
        lemma_char_member(lower_alphabet(), lower);
        lemma_kept(before, r, 1);
    }
    if p.require_number {
        lemma_char_member(digit_alphabet(), digit);
        lemma_kept(before, r, 2);
    }
    if p.require_special {
        lemma_char_member(special_alphabet(), special);
        lemma_kept(before, r, 3);
    }
}

proof fn lemma_char_member(alphabet: Seq<u8>, b: u8)
    requires
        alphabet.contains(b),
    ensures
        chars_of(alphabet).contains(b as char),
{
    let j = choose|j: int| 0 <= j < alphabet.len() && alphabet[j] == b;
    assert(chars_of(alphabet)[j] == b as char);
}

proof fn lemma_class_in_any(b: u8)
    requires
        upper_alphabet().contains(b) || lower_alphabet().contains(b) || digit_alphabet().contains(b)
            || special_alphabet().contains(b),
    ensures
        any_alphabet().contains(b),
{
    let a = any_alphabet();
    if upper_alphabet().contains(b) {
        let j = choose|j: int| 0 <= j < 26 && upper_alphabet()[j] == b;
        assert(a[j] == b);
    } else if lower_alphabet().contains(b) {
        let j = choose|j: int| 0 <= j < 26 && lower_alphabet()[j] == b;
        assert(a[26 + j] == b);
    } else if digit_alphabet().contains(b) {
        let j = choose|j: int| 0 <= j < 10 && digit_alphabet()[j] == b;
        assert(a[52 + j] == b);
    } else {
        let j = choose|j: int| 0 <= j < 32 && special_alphabet()[j] == b;
        assert(a[62 + j] == b);
    }
}

/// A character that occurs in `before` occurs in any rearrangement of it.
proof fn lemma_kept(before: Seq<char>, after: Seq<char>, i: int)
    requires
        after.to_multiset() == before.to_multiset(),
        0 <= i < before.len(),
    ensures
        after.contains(before[i]),
{
    before.to_multiset_ensures();
    after.to_multiset_ensures();
    assert(before.contains(before[i]));
    assert(before.to_multiset().count(before[i]) > 0);
    assert(after.to_multiset().count(before[i]) > 0);
}

impl Default for PasswordPolicy {
    fn default() -> (r: Self)
        ensures
            r@ == default_view(),
    {
        PasswordPolicy {
            length: 8,
            require_number: true,
            require_special: true,
            require_upper: true,
            require_lower: true,
        }
    }
}

/// Relies on rand's `SliceRandom::shuffle`: a sequence of swaps, so the
/// result is a rearrangement of the same characters.
#[verifier::external_body]
fn shuffle<R: rand::Rng + ?Sized>(chars: &mut Vec<char>, rng: &mut R)
    ensures
        final(chars)@.len() == old(chars)@.len(),
        final(chars)@.to_multiset() == old(chars)@.to_multiset(),
{
    rand::seq::SliceRandom::shuffle(chars.as_mut_slice(), rng)
}

/// Relies on std's `String::from_iter` over `char`s: the string holds the
/// characters in order.
#[verifier::external_body]
fn collect_string(chars: Vec<char>) -> (r: String)
    ensures
        r@ == chars@,
{
    String::from_iter(chars)
}

#[verifier::external_type_specification]
#[verifier::external_body]
pub struct ExThreadRng(rand::rngs::ThreadRng);

/// Relies on rand's `thread_rng`: a handle on the generator of the current
/// thread, seeded by the system. Nothing is promised of what it draws.
#[verifier::external_body]
fn thread_rng() -> rand::rngs::ThreadRng {
    rand::thread_rng()
}

impl PasswordPolicy {
    #[verifier::type_invariant]
    closed spec fn inv(&self) -> bool {
        self.length >= MIN_LENGTH
    }

    pub fn length(&self) -> (r: u8)
        ensures
            r as nat == self@.length,
    {
        self.length
    }

    pub fn require_number(&self) -> (r: bool)
        ensures
            r == self@.require_number,
    {
        self.require_number
    }

    pub fn require_special(&self) -> (r: bool)
        ensures
            r == self@.require_special,
    {
        self.require_special
    }

    pub fn require_upper(&self) -> (r: bool)
        ensures
            r == self@.require_upper,
    {
        self.require_upper
    }

    pub fn require_lower(&self) -> (r: bool)
        ensures
            r == self@.require_lower,
    {
        self.require_lower
    }

    /// Length 8, every character class required.
    pub fn new() -> (r: Self)
        ensures
            r@ == default_view(),
    {
        Self::default()
    }

    /// A copy whose length is `length`, raised to the floor where it is below it.
    pub fn set_length(self, length: u8) -> (r: Self)
        ensures
            r@ == (PolicyView { length: clamped_length(length as nat), ..self@ }),
    {
        let value = if length < MIN_LENGTH {
            MIN_LENGTH
        } else {
            length
        };
        Self { length: value, ..self }
    }

    /// A copy that requires a digit exactly when `value` holds.
    pub fn contains_at_least_1_number(self, value: bool) -> (r: Self)
        ensures
            r@ == (PolicyView { require_number: value, ..self@ }),
    {
        proof {
            use_type_invariant(&self);
        }
        Self { require_number: value, ..self }
    }

    /// A copy that requires a special symbol exactly when `value` holds.
    pub fn contains_at_least_1_special_character(self, value: bool) -> (r: Self)
        ensures
            r@ == (PolicyView { require_special: value, ..self@ }),
    {
        proof {
            use_type_invariant(&self);
        }
        Self { require_special: value, ..self }
    }

    /// A copy that requires an uppercase letter exactly when `value` holds.
    pub fn contains_at_least_1_uppercase_letter(self, value: bool) -> (r: Self)
        ensures
            r@ == (PolicyView { require_upper: value, ..self@ }),
    {
        proof {
            use_type_invariant(&self);
        }
        Self { require_upper: value, ..self }
    }

    /// A copy that requires a lowercase letter exactly when `value` holds.
    pub fn contains_at_least_1_lowercase_letter(self, value: bool) -> (r: Self)
        ensures
            r@ == (PolicyView { require_lower: value, ..self@ }),
    {
        proof {
            use_type_invariant(&self);
        }
        Self { require_lower: value, ..self }
    }

    /// A password that meets this policy, drawn from the thread's generator.
    pub fn gen(&self) -> (r: String)
        ensures
            conforms(self@, r@),
            exists|base: Seq<u8>, upper: u8, lower: u8, digit: u8, special: u8|
                valid_draws(self@, base, upper, lower, digit, special) && r@.to_multiset()
                    == #[trigger] assembled(self@, base, upper, lower, digit, special).to_multiset(),
    {
        let mut rng = thread_rng();
        self.gen_with_rng(&mut rng)
    }

    /// A password that meets this policy, drawn from `rng`.
    ///
    /// Every position is first drawn from all 94 symbols; then positions 0 to 3
    /// are redrawn from the uppercase, lowercase, digit and special alphabets,
    /// each only where that class is required; last the whole is shuffled.
    pub fn gen_with_rng<R: rand::Rng + ?Sized>(&self, rng: &mut R) -> (r: String)
        ensures
            conforms(self@, r@),
            exists|base: Seq<u8>, upper: u8, lower: u8, digit: u8, special: u8|
                valid_draws(self@, base, upper, lower, digit, special) && r@.to_multiset()
                    == #[trigger] assembled(self@, base, upper, lower, digit, special).to_multiset(),
    {
        proof {
            use_type_invariant(self);
        }
        let mut chars: Vec<char> = Vec::new();
        let ghost mut base: Seq<u8> = Seq::empty();
        let mut i: u8 = 0;
        while i < self.length
            invariant
                i <= self.length,
                base.len() == i,
                chars@ == chars_of(base),
                forall|k: int| 0 <= k < base.len() ==> #[trigger] any_alphabet().contains(base[k]),
            decreases self.length - i,
        {
            let b = AnyLetter.sample(rng);
            chars.push(b as char);
            proof {
                base = base.push(b);
                assert(chars@ =~= chars_of(base));
            }
            i = i + 1;
        }
        let ghost mut upper: u8 = 0;
        let ghost mut lower: u8 = 0;
        let ghost mut digit: u8 = 0;
        let ghost mut special: u8 = 0;
        if self.require_upper {
            let b = UppercaseLetter.sample(rng);
            chars.set(0, b as char);
            proof {
                upper = b;
            }
        }
        if self.require_lower {
            let b = LowercaseLetter.sample(rng);
            chars.set(1, b as char);
            proof {
                lower = b;
            }
        }
        if self.require_number {
            let b = Number.sample(rng);
            chars.set(2, b as char);
            proof {
                digit = b;
            }
        }
        if self.require_special {
            let b = SpecialCharacter.sample(rng);
            chars.set(3, b as char);
            proof {
                special = b;
            }
        }
        assert(chars@ =~= assembled(self@, base, upper, lower, digit, special));
        shuffle(&mut chars, rng);
        proof {
            lemma_rearranged_assembly_conforms(self@, base, upper, lower, digit, special, chars@);
        }
        collect_string(chars)
    }
}

} // verus!
