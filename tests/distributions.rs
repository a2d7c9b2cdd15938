use aws_cognito_password::{AnyLetter, LowercaseLetter, Number, SpecialCharacter, UppercaseLetter};
use rand_pcg::Pcg32;

const INC: u64 = 11634580027462260723;

#[test]
fn uppercase_pick_ends() {
    assert_eq!(UppercaseLetter.pick(0), b'A');
    assert_eq!(UppercaseLetter.pick(25), b'Z');
}

#[test]
fn lowercase_pick_ends() {
    assert_eq!(LowercaseLetter.pick(0), b'a');
    assert_eq!(LowercaseLetter.pick(25), b'z');
}

#[test]
fn number_pick_ends() {
    assert_eq!(Number.pick(0), b'0');
    assert_eq!(Number.pick(9), b'9');
}

#[test]
fn special_pick_walks_the_table() {
    let table = b"^$*.[]{}()?\"!@#%&/\\,><':;|_~`=+-";
    assert_eq!(table.len(), 32);
    for i in 0u32..32 {
        assert_eq!(SpecialCharacter.pick(i), table[i as usize]);
    }
}

#[test]
fn any_pick_follows_the_concatenation() {
    let all = b"ABCDEFGHIJKLMNOPQRSTUVWXYZabcdefghijklmnopqrstuvwxyz0123456789^$*.[]{}()?\"!@#%&/\\,><':;|_~`=+-";
    assert_eq!(all.len(), 94);
    for i in 0u32..94 {
        assert_eq!(AnyLetter.pick(i), all[i as usize]);
    }
    assert_eq!(AnyLetter.pick(26), b'a');
    assert_eq!(AnyLetter.pick(52), b'0');
    assert_eq!(AnyLetter.pick(62), b'^');
    assert_eq!(AnyLetter.pick(93), b'-');
}

#[test]
fn samplers_stay_in_their_alphabets() {
    let mut rng = Pcg32::new(7, INC);
    for _ in 0..500 {
        assert!(UppercaseLetter.sample(&mut rng).is_ascii_uppercase());
        assert!(LowercaseLetter.sample(&mut rng).is_ascii_lowercase());
        assert!(Number.sample(&mut rng).is_ascii_digit());
        let s = SpecialCharacter.sample(&mut rng);
        assert!(b"^$*.[]{}()?\"!@#%&/\\,><':;|_~`=+-".contains(&s));
        let a = AnyLetter.sample(&mut rng);
        assert!(a.is_ascii_graphic());
    }
}

#[test]
fn sampler_draws_vary() {
    let mut rng = Pcg32::new(99, INC);
    let mut seen = [false; 10];
    for _ in 0..500 {
        seen[(Number.sample(&mut rng) - b'0') as usize] = true;
    }
    assert!(seen.iter().all(|s| *s));
}
