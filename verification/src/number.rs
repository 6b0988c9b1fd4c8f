use vstd::prelude::*;

verus! {

/// What the character `c` counts as a digit in base `radix` (2 to 36): the
/// ten digits, then the letters of either case from ten on.
pub open spec fn digit_value(c: char, radix: int) -> Option<int> {
    let d = if '0' <= c <= '9' {
        c as int - '0' as int
    } else if 'a' <= c <= 'z' {
        c as int - 'a' as int + 10
    } else if 'A' <= c <= 'Z' {
        c as int - 'A' as int + 10
    } else {
        radix
    };
    if d < radix {
        Some(d)
    } else {
        None
    }
}

/// The number that the digits `s` spell in base `radix`, the first digit
/// weighing most; `None` where a character is no digit of that base. No
/// digits at all spell zero.
pub open spec fn digits_value(s: Seq<char>, radix: int) -> Option<int>
    decreases s.len(),
{
    if s.len() == 0 {
        Some(0)
    } else {
        match (digits_value(s.drop_last(), radix), digit_value(s.last(), radix)) {
            (Some(high), Some(d)) => Some(high * radix + d),
            _ => None,
        }
    }
}

/// The unsigned number that `s` spells in base `radix`: an optional `+`,
/// then at least one digit and nothing else, the value being at most `max`.
pub open spec fn unsigned_value(s: Seq<char>, radix: int, max: int) -> Option<int> {
    let digits = if s.len() > 0 && s[0] == '+' {
        s.drop_first()
    } else {
        s
    };
    if digits.len() == 0 {
        None
    } else {
        match digits_value(digits, radix) {
            Some(v) => if v <= max {
                Some(v)
            } else {
                None
            },
            None => None,
        }
    }
}

/// What `c` counts as a digit in base `radix`.
fn digit_of(c: char, radix: u32) -> (r: Option<u32>)
    requires
        2 <= radix <= 36,
    ensures
        match r {
            Some(d) => digit_value(c, radix as int) == Some(d as int) && d < radix,
            None => digit_value(c, radix as int) is None,
        },
{
    let d: u32 = if '0' <= c && c <= '9' {
        c as u32 - '0' as u32
    } else if 'a' <= c && c <= 'z' {
        c as u32 - 'a' as u32 + 10
    } else if 'A' <= c && c <= 'Z' {
        c as u32 - 'A' as u32 + 10
    } else {
        radix
    };
    if d < radix {
        Some(d)
    } else {
        None
    }
}

/// Reads the characters of `chars` from `from` up to `to` as an unsigned
/// number in base `radix` that is at most `max`.
pub fn parse_unsigned(chars: &Vec<char>, from: usize, to: usize, radix: u32, max: u32) -> (r:
    Option<u32>)
    requires
        from <= to <= chars@.len(),
        2 <= radix <= 36,
    ensures
        match r {
            Some(v) => unsigned_value(chars@.subrange(from as int, to as int), radix as int, max as int)
                == Some(v as int),
            None => unsigned_value(chars@.subrange(from as int, to as int), radix as int, max as int)
                is None,
        },
{
    let ghost s = chars@.subrange(from as int, to as int);
    let first: usize = if from < to && chars[from] == '+' {
        from + 1
    } else {
        from
    };
    let ghost digits = chars@.subrange(first as int, to as int);
    assert(digits =~= if s.len() > 0 && s[0] == '+' {
        s.drop_first()
    } else {
        s
    });
    if first == to {
        return None;
    }
    let mut value: u64 = 0;
    let mut too_large = false;
    let mut i: usize = first;
    assert(chars@.subrange(first as int, first as int) =~= Seq::<char>::empty());
    while i < to
        invariant
            first <= i <= to <= chars@.len(),
            2 <= radix <= 36,
            value <= max,
            digits == chars@.subrange(first as int, to as int),
            from <= to,
            unsigned_value(chars@.subrange(from as int, to as int), radix as int, max as int)
                == match digits_value(digits, radix as int) {
                Some(v) => if v <= max {
                    Some(v)
                } else {
                    None
                },
                None => None,
            },
            match digits_value(chars@.subrange(first as int, i as int), radix as int) {
                Some(v) => if too_large {
                    v > max
                } else {
                    v == value
                },
                None => false,
            },
        decreases to - i,
    {
        let ghost prefix = chars@.subrange(first as int, i as int);
        let ghost next = chars@.subrange(first as int, i + 1);
        assert(next.drop_last() =~= prefix);
        assert(next.last() == chars@[i as int]);
        match digit_of(chars[i], radix) {
            None => {
                proof {
                    assert(digits.subrange(0, i + 1 - first) =~= next);
                    lemma_digits_prefix(digits, radix as int, i + 1 - first);
                }
                return None;
            },
            Some(d) => {
                let ghost high = digits_value(prefix, radix as int)->Some_0;
                if too_large {
                    assert(high * radix + d > max) by (nonlinear_arith)
                        requires
                            high > max,
                            max >= 0,
                            radix >= 2,
                            d >= 0,
                    ;
                } else {
                    assert(value * radix + d <= u32::MAX * 36 + 36) by (nonlinear_arith)
                        requires
                            value <= u32::MAX,
                            radix <= 36,
                            d <= 36,
                    ;
                    let wide: u64 = value * (radix as u64) + (d as u64);
                    if wide > max as u64 {
                        too_large = true;
                    } else {
                        value = wide;
                    }
                }
            },
        }
        i += 1;
    }
    assert(chars@.subrange(first as int, to as int) =~= digits);
    if too_large {
        None
    } else {
        Some(value as u32)
    }
}

/// Reads the two characters of `chars` from `at` on as a number of two
/// digits in base 16.
pub fn parse_hex_pair(chars: &Vec<char>, at: usize) -> (r: Option<u8>)
    requires
        at + 2 <= chars.len(),
    ensures
        match r {
            Some(v) => digits_value(chars@.subrange(at as int, at + 2), 16) == Some(v as int),
            None => digits_value(chars@.subrange(at as int, at + 2), 16) is None,
        },
{
    let ghost pair = chars@.subrange(at as int, at + 2);
    proof {
        reveal_with_fuel(digits_value, 3);
        assert(pair.last() == chars@[at + 1]);
        assert(pair.drop_last().last() == chars@[at as int]);
        assert(pair.drop_last().drop_last() =~= Seq::<char>::empty());
    }
    match (digit_of(chars[at], 16), digit_of(chars[at + 1], 16)) {
        (Some(high), Some(low)) => Some((high * 16 + low) as u8),
        _ => None,
    }
}

/// Digits that spell a number still spell one when cut short: where a
/// prefix of `s` holds a character that is no digit, `s` spells nothing.
pub proof fn lemma_digits_prefix(s: Seq<char>, radix: int, n: int)
    requires
        0 <= n <= s.len(),
        digits_value(s.subrange(0, n), radix) is None,
    ensures
        digits_value(s, radix) is None,
    decreases s.len(),
{
    if n < s.len() {
        assert(s.drop_last().subrange(0, n) =~= s.subrange(0, n));
        lemma_digits_prefix(s.drop_last(), radix, n);
    } else {
        assert(s.subrange(0, n) =~= s);
    }
}

} // verus!
