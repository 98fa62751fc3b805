use jwk_auth::jwk::Jwk;
use jwk_auth::jwk_verifier::JwkVerifier;

/// The number that a character stands for in the URL-safe alphabet.
fn value(c: char) -> Option<u32> {
    match c {
        'A'..='Z' => Some(c as u32 - 'A' as u32),
        'a'..='z' => Some(c as u32 - 'a' as u32 + 26),
        '0'..='9' => Some(c as u32 - '0' as u32 + 52),
        '-' => Some(62),
        '_' => Some(63),
        _ => None,
    }
}

/// What the library states of a text that decodes.
fn is_base64url(text: &str) -> bool {
    let chars: Vec<char> = text.chars().collect();
    if !chars.iter().all(|c| value(*c).is_some()) {
        return false;
    }
    match chars.len() % 4 {
        0 => true,
        1 => false,
        2 => value(chars[chars.len() - 1]).unwrap() % 16 == 0,
        _ => value(chars[chars.len() - 1]).unwrap() % 4 == 0,
    }
}

fn decodes_as_modulus(text: &str) -> bool {
    let key = Jwk {
        e: "AQAB".to_string(),
        alg: "RS256".to_string(),
        kty: "RSA".to_string(),
        kid: "kid".to_string(),
        n: text.to_string(),
        key_use: "sig".to_string(),
    };
    JwkVerifier::decoding_key_for(&key).is_ok()
}

fn decodes_as_exponent(text: &str) -> bool {
    let key = Jwk {
        e: text.to_string(),
        alg: "RS256".to_string(),
        kty: "RSA".to_string(),
        kid: "kid".to_string(),
        n: "AQAB".to_string(),
        key_use: "sig".to_string(),
    };
    JwkVerifier::decoding_key_for(&key).is_ok()
}

const SAMPLE: [char; 18] = [
    'A', 'B', 'E', 'Q', 'R', 'Z', 'a', 'g', 'w', 'z', '0', '9', '-', '_', '+', '/', '=', '\u{e9}',
];

/// Every text of up to `longest` characters of the sample.
fn texts(longest: usize) -> Vec<String> {
    let mut all = vec![String::new()];
    let mut last = vec![String::new()];
    for _ in 0..longest {
        let mut next = Vec::new();
        for text in &last {
            for c in SAMPLE {
                let mut longer = text.clone();
                longer.push(c);
                next.push(longer);
            }
        }
        all.extend(next.iter().cloned());
        last = next;
    }
    all
}

#[test]
fn a_short_modulus_decodes_exactly_when_it_is_base64url() {
    for text in texts(4) {
        assert_eq!(decodes_as_modulus(&text), is_base64url(&text), "{:?}", text);
    }
}

#[test]
fn a_short_exponent_decodes_exactly_when_it_is_base64url() {
    for text in texts(3) {
        assert_eq!(decodes_as_exponent(&text), is_base64url(&text), "{:?}", text);
    }
}

#[test]
fn a_long_modulus_decodes_exactly_when_it_is_base64url() {
    for quads in [1usize, 2, 7, 8, 9, 16, 85] {
        let front = "Ab9_".repeat(quads);
        for end in texts(3) {
            let text = format!("{}{}", front, end);
            assert_eq!(decodes_as_modulus(&text), is_base64url(&text), "{:?}", text);
            let text = format!("{}{}", end, front);
            assert_eq!(decodes_as_modulus(&text), is_base64url(&text), "{:?}", text);
        }
    }
}

#[test]
fn every_character_of_the_alphabet_decodes_and_no_other_ascii_does() {
    for code in 0u8..128 {
        let c = code as char;
        let text = format!("AA{}A", c);
        assert_eq!(decodes_as_modulus(&text), value(c).is_some(), "{:?}", text);
        let text = format!("{}AAA", c);
        assert_eq!(decodes_as_modulus(&text), value(c).is_some(), "{:?}", text);
    }
}

#[test]
fn the_last_character_may_hold_no_bits_that_are_not_used() {
    for code in 0u8..128 {
        let c = code as char;
        if let Some(number) = value(c) {
            assert_eq!(decodes_as_modulus(&format!("A{}", c)), number % 16 == 0, "{:?}", c);
            assert_eq!(decodes_as_modulus(&format!("AA{}", c)), number % 4 == 0, "{:?}", c);
            assert!(decodes_as_modulus(&format!("AAA{}", c)), "{:?}", c);
            assert!(!decodes_as_modulus(&format!("{}", c)), "{:?}", c);
            assert!(!decodes_as_modulus(&format!("AAAA{}", c)), "{:?}", c);
        }
    }
}
