use vstd::prelude::*;
use crate::lexer::chars_of;

verus! {

/// Whether `c` is one of the ten digits.
pub open spec fn is_digit(c: char) -> bool {
    '0' <= c <= '9'
}

/// Whether `c` is a sign.
pub open spec fn is_sign(c: char) -> bool {
    c == '+' || c == '-'
}

/// The first index at or after `from` that holds no decimal digit, or the
/// length of `s` where only digits follow.
pub open spec fn skip_digits(s: Seq<char>, from: int) -> int
    decreases s.len() - from,
{
    if 0 <= from < s.len() && is_digit(s[from]) {
        skip_digits(s, from + 1)
    } else {
        from
    }
}

/// Whether `c` is the letter given in its two cases.
pub open spec fn is_letter(c: char, lower: char, upper: char) -> bool {
    c == lower || c == upper
}

/// Whether `s` is one of the words `inf`, `infinity` and `nan`, in any mix
/// of cases.
pub open spec fn is_special_word(s: Seq<char>) -> bool {
    ||| s.len() == 3 && is_letter(s[0], 'n', 'N') && is_letter(s[1], 'a', 'A') && is_letter(
        s[2],
        'n',
        'N',
    )
    ||| (s.len() == 3 || s.len() == 8) && is_letter(s[0], 'i', 'I') && is_letter(s[1], 'n', 'N')
        && is_letter(s[2], 'f', 'F') && (s.len() == 8 ==> is_letter(s[3], 'i', 'I') && is_letter(
        s[4],
        'n',
        'N',
    ) && is_letter(s[5], 'i', 'I') && is_letter(s[6], 't', 'T') && is_letter(s[7], 'y', 'Y'))
}

/// Where the fraction of the number `s` ends: behind the digits that follow
/// its point, or behind its whole digits where it has no point.
pub open spec fn mantissa_end(s: Seq<char>) -> int {
    let whole = skip_digits(s, 0);
    if whole < s.len() && s[whole] == '.' {
        skip_digits(s, whole + 1)
    } else {
        whole
    }
}

/// How many digits the number `s` has before its exponent.
pub open spec fn mantissa_digits(s: Seq<char>) -> int {
    let whole = skip_digits(s, 0);
    if whole < s.len() && s[whole] == '.' {
        mantissa_end(s) - 1
    } else {
        whole
    }
}

/// Whether `s` from `at` on is an exponent: `e` in either case, an optional
/// sign, then at least one digit and nothing else.
pub open spec fn is_exponent(s: Seq<char>, at: int) -> bool {
    let digits = if at + 1 < s.len() && is_sign(s[at + 1]) {
        at + 2
    } else {
        at + 1
    };
    &&& 0 <= at < s.len()
    &&& is_letter(s[at], 'e', 'E')
    &&& digits < s.len()
    &&& skip_digits(s, digits) == s.len()
}

/// Whether `s` is an unsigned decimal number: digits with at most one point
/// among them, at least one digit in all, and an optional exponent.
pub open spec fn is_number(s: Seq<char>) -> bool {
    &&& mantissa_digits(s) > 0
    &&& (mantissa_end(s) == s.len() || is_exponent(s, mantissa_end(s)))
}

/// Whether `s` is written as a decimal number: an optional sign, then a
/// number or one of the words for infinity and for what is no number.
pub open spec fn is_decimal(s: Seq<char>) -> bool {
    let body = if s.len() > 0 && is_sign(s[0]) {
        s.drop_first()
    } else {
        s
    };
    is_special_word(body) || is_number(body)
}

/// Where the digits from `from` on end, the text beginning at `base`.
fn digits_end(chars: &Vec<char>, base: usize, from: usize) -> (r: usize)
    requires
        base <= from <= chars@.len(),
    ensures
        from <= r <= chars@.len(),
        r - base == skip_digits(chars@.subrange(base as int, chars@.len() as int), from - base),
{
    let ghost s = chars@.subrange(base as int, chars@.len() as int);
    let mut i = from;
    while i < chars.len() && '0' <= chars[i] && chars[i] <= '9'
        invariant
            base <= from <= i <= chars@.len(),
            s == chars@.subrange(base as int, chars@.len() as int),
            skip_digits(s, from - base) == skip_digits(s, i - base),
        decreases chars@.len() - i,
    {
        i += 1;
    }
    i
}

/// Tells whether `c` is the letter given in its two cases.
fn letter(c: char, lower: char, upper: char) -> (r: bool)
    ensures
        r == is_letter(c, lower, upper),
{
    c == lower || c == upper
}

/// Tells whether the text from `base` on is `inf`, `infinity` or `nan`.
fn special_word(chars: &Vec<char>, base: usize) -> (r: bool)
    requires
        base <= chars@.len(),
    ensures
        r == is_special_word(chars@.subrange(base as int, chars@.len() as int)),
{
    let n = chars.len() - base;
    if n == 3 && letter(chars[base], 'n', 'N') {
        letter(chars[base + 1], 'a', 'A') && letter(chars[base + 2], 'n', 'N')
    } else if n == 3 || n == 8 {
        let head = letter(chars[base], 'i', 'I') && letter(chars[base + 1], 'n', 'N') && letter(
            chars[base + 2],
            'f',
            'F',
        );
        if n == 3 {
            head
        } else {
            head && letter(chars[base + 3], 'i', 'I') && letter(chars[base + 4], 'n', 'N')
                && letter(chars[base + 5], 'i', 'I') && letter(chars[base + 6], 't', 'T')
                && letter(chars[base + 7], 'y', 'Y')
        }
    } else {
        false
    }
}

/// Tells whether the text from `base` on is an unsigned decimal number.
fn number(chars: &Vec<char>, base: usize) -> (r: bool)
    requires
        base <= chars@.len(),
    ensures
        r == is_number(chars@.subrange(base as int, chars@.len() as int)),
{
    let ghost s = chars@.subrange(base as int, chars@.len() as int);
    let len = chars.len();
    let whole = digits_end(chars, base, base);
    let mut end = whole;
    let mut count = whole - base;
    if whole < len && chars[whole] == '.' {
        end = digits_end(chars, base, whole + 1);
        count = end - base - 1;
    }
    assert(end - base == mantissa_end(s));
    assert(count == mantissa_digits(s));
    if count == 0 {
        return false;
    }
    if end == len {
        return true;
    }
    if !letter(chars[end], 'e', 'E') {
        return false;
    }
    let mut digits = end + 1;
    if digits < len && (chars[digits] == '+' || chars[digits] == '-') {
        digits += 1;
    }
    if digits >= len {
        return false;
    }
    digits_end(chars, base, digits) == len
}

/// A number as the line spelled it. The library keeps the spelling, which
/// is exact, and leaves it to its user to round it to a machine number.
#[derive(Debug, PartialEq, Eq)]
pub struct Scalar {
    text: String,
}

impl View for Scalar {
    type V = Seq<char>;

    /// The characters that spell the number.
    closed spec fn view(&self) -> Seq<char> {
        self.text@
    }
}

impl Clone for Scalar {
    fn clone(&self) -> (r: Self)
        ensures
            r@ == self@,
    {
        proof {
            use_type_invariant(self);
        }
        Scalar { text: self.text.clone() }
    }
}

impl Scalar {
    #[verifier::type_invariant]
    spec fn inv(self) -> bool {
        is_decimal(self.text@)
    }

    /// The number that `token` spells, where it spells one.
    pub fn parse(token: &str) -> (r: Option<Scalar>)
        ensures
            match r {
                Some(scalar) => is_decimal(token@) && scalar@ == token@,
                None => !is_decimal(token@),
            },
    {
        let chars = chars_of(token);
        let base: usize = if chars.len() > 0 && (chars[0] == '+' || chars[0] == '-') {
            1
        } else {
            0
        };
        assert(chars@.subrange(base as int, chars@.len() as int) =~= if token@.len() > 0 && is_sign(
            token@[0],
        ) {
            token@.drop_first()
        } else {
            token@
        });
        if special_word(&chars, base) || number(&chars, base) {
            Some(Scalar { text: token.to_owned() })
        } else {
            None
        }
    }

    /// The spelling of the number.
    pub fn text(&self) -> (r: &str)
        ensures
            r@ == self@,
            is_decimal(self@),
    {
        proof {
            use_type_invariant(self);
        }
        self.text.as_str()
    }

    /// The number zero.
    pub fn zero() -> (r: Scalar)
        ensures
            r@ == "0.0"@,
    {
        proof {
            reveal_strlit("0.0");
            lemma_plain_number("0.0"@);
        }
        Scalar { text: "0.0".to_owned() }
    }

    /// The number one.
    pub fn one() -> (r: Scalar)
        ensures
            r@ == "1.0"@,
    {
        proof {
            reveal_strlit("1.0");
            lemma_plain_number("1.0"@);
        }
        Scalar { text: "1.0".to_owned() }
    }
}

/// One digit, a point and one digit spell a decimal number.
proof fn lemma_plain_number(s: Seq<char>)
    requires
        s.len() == 3,
        is_digit(s[0]),
        s[1] == '.',
        is_digit(s[2]),
    ensures
        is_decimal(s),
{
    reveal_with_fuel(skip_digits, 3);
}

} // verus!
