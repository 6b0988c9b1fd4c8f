use ldraw::error::ParseError;
use ldraw::lexer::{next_token, next_token_rgb, next_token_u32, Scanner};
use ldraw::scalar::Scalar;

/// A small generator of numbers that gives the same numbers on every run.
struct Numbers(u64);

impl Numbers {
    fn next(&mut self) -> u64 {
        self.0 = self
            .0
            .wrapping_mul(6364136223846793005)
            .wrapping_add(1442695040888963407);
        self.0 >> 33
    }

    fn text(&mut self, alphabet: &[char], longest: u64) -> String {
        let len = self.next() % (longest + 1);
        (0..len)
            .map(|_| alphabet[(self.next() % alphabet.len() as u64) as usize])
            .collect()
    }
}

fn token_with_iterators(it: &mut std::str::Chars, glob: bool) -> Option<String> {
    let mut buffer = String::new();
    for v in it {
        let space = matches!(v, ' ' | '\t' | '\r' | '\n');
        if !space {
            buffer.push(v);
        } else if !buffer.is_empty() {
            if !glob {
                break;
            } else {
                buffer.push(v);
            }
        }
    }
    if buffer.is_empty() {
        None
    } else {
        Some(buffer.trim_end().to_string())
    }
}

#[test]
fn tokens_agree_with_a_walk_over_the_characters() {
    let alphabet = [' ', ' ', '\t', '\r', '\n', 'a', 'b', '0', '!', 'é', '✓'];
    let mut numbers = Numbers(1);
    for _ in 0..20000 {
        let line = numbers.text(&alphabet, 12);
        let mut scanner = Scanner::new(&line);
        let mut it = line.chars();
        for _ in 0..4 {
            let glob = numbers.next() % 4 == 0;
            let mine = next_token(&mut scanner, glob);
            let theirs = token_with_iterators(&mut it, glob);
            match theirs {
                Some(token) => assert_eq!(mine, Ok(token), "{:?}", line),
                None => assert_eq!(mine, Err(ParseError::EndOfLine), "{:?}", line),
            }
            assert_eq!(scanner.remaining(), it.as_str(), "{:?}", line);
        }
    }
}

#[test]
fn unsigned_numbers_agree_with_std() {
    let alphabet = ['0', '1', '4', '9', 'x', 'a', 'F', 'g', '+', '-', '2', '0', '7'];
    let mut numbers = Numbers(2);
    for _ in 0..50000 {
        let token = numbers.text(&alphabet, 11);
        if token.is_empty() {
            continue;
        }
        let expected = if token.starts_with("0x") {
            u32::from_str_radix(&token[2..], 16)
        } else {
            token.parse::<u32>()
        };
        let mine = next_token_u32(&mut Scanner::new(&token));
        match expected {
            Ok(v) => assert_eq!(mine, Ok(v), "{:?}", token),
            Err(_) => assert_eq!(
                mine,
                Err(ParseError::TypeMismatch("u32", token.clone())),
                "{:?}",
                token
            ),
        }
    }
}

#[test]
fn decimal_numbers_agree_with_std() {
    let alphabet = [
        '0', '1', '9', '.', 'e', 'E', '+', '-', 'i', 'n', 'f', 'N', 'a', 't', 'y', 'I', '5', '_',
    ];
    let mut numbers = Numbers(3);
    let mut accepted = 0;
    for _ in 0..200000 {
        let token = numbers.text(&alphabet, 9);
        let expected = token.parse::<f32>().is_ok();
        assert_eq!(Scalar::parse(&token).is_some(), expected, "{:?}", token);
        if expected {
            accepted += 1;
        }
    }
    assert!(accepted > 1000);
    for word in ["inf", "infinity", "nan"] {
        for mask in 0..(1u32 << word.len()) {
            let token: String = word
                .chars()
                .enumerate()
                .map(|(i, c)| if mask >> i & 1 == 1 { c.to_ascii_uppercase() } else { c })
                .collect();
            for sign in ["", "+", "-"] {
                let signed = format!("{}{}", sign, token);
                assert!(signed.parse::<f32>().is_ok());
                assert!(Scalar::parse(&signed).is_some(), "{:?}", signed);
            }
        }
    }
}

#[test]
fn colour_triplets_agree_with_std() {
    let alphabet = ['#', '0', '7', 'f', 'F', 'a', 'g', '+', ' ', '-', '1'];
    let mut numbers = Numbers(4);
    let mut colours = 0;
    for _ in 0..50000 {
        let mut line = numbers.text(&alphabet, 9);
        if numbers.next() % 2 == 0 {
            line.insert(0, '#');
        }
        let chars: Vec<char> = line.chars().collect();
        let (expected, read) = if chars.is_empty() {
            (Err(ParseError::EndOfLine), 0)
        } else if chars[0] != '#' {
            (Err(ParseError::InvalidToken(chars[0].to_string())), 1)
        } else if chars.len() < 7 {
            (Err(ParseError::EndOfLine), chars.len())
        } else {
            let pairs: Vec<String> = (0..3)
                .map(|i| chars[1 + 2 * i..3 + 2 * i].iter().collect())
                .collect();
            let bad = pairs
                .iter()
                .find(|p| !p.chars().all(|c| c.is_ascii_hexdigit()));
            let colour = match bad {
                Some(pair) => Err(ParseError::TypeMismatch("u8", pair.clone())),
                None => Ok((
                    u8::from_str_radix(&pairs[0], 16).unwrap(),
                    u8::from_str_radix(&pairs[1], 16).unwrap(),
                    u8::from_str_radix(&pairs[2], 16).unwrap(),
                )),
            };
            (colour, 7)
        };
        if expected.is_ok() {
            colours += 1;
        }
        let rest: String = chars[read..].iter().collect();
        let mut scanner = Scanner::new(&line);
        assert_eq!(next_token_rgb(&mut scanner), expected, "{:?}", line);
        assert_eq!(scanner.remaining(), rest, "{:?}", line);
    }
    assert!(colours > 100);
}
