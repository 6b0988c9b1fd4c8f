use vstd::prelude::*;
use crate::error::{agrees, ParseError, ParseErrorView};
use crate::number::{digits_value, parse_hex_pair, parse_unsigned, unsigned_value};
use crate::scalar::{is_decimal, Scalar};

verus! {

/// Whether `ch` separates tokens on a line: space, tab, carriage return or
/// line feed.
pub open spec fn is_space(ch: char) -> bool {
    ch == ' ' || ch == '\t' || ch == '\r' || ch == '\n'
}

/// Tells whether `ch` separates tokens.
pub fn is_whitespace(ch: char) -> (r: bool)
    ensures
        r == is_space(ch),
{
    ch == ' ' || ch == '\t' || ch == '\r' || ch == '\n'
}

/// The first index at or after `from` that holds no separator, or the
/// length of `s` where only separators follow.
pub open spec fn skip_spaces(s: Seq<char>, from: int) -> int
    decreases s.len() - from,
{
    if 0 <= from < s.len() && is_space(s[from]) {
        skip_spaces(s, from + 1)
    } else {
        from
    }
}

/// The first index at or after `from` that holds a separator, or the length
/// of `s` where none follows.
pub open spec fn skip_word(s: Seq<char>, from: int) -> int
    decreases s.len() - from,
{
    if 0 <= from < s.len() && !is_space(s[from]) {
        skip_word(s, from + 1)
    } else {
        from
    }
}

/// The length of `s` once the separators at its end are cut off, counted
/// back from `to`.
pub open spec fn trim_back(s: Seq<char>, to: int) -> int
    decreases to,
{
    if 0 < to <= s.len() && is_space(s[to - 1]) {
        trim_back(s, to - 1)
    } else {
        to
    }
}

/// Where the next token of `s` begins.
pub open spec fn token_start(s: Seq<char>) -> int {
    skip_spaces(s, 0)
}

/// Where the next token of `s` ends: at the first separator after its
/// start, or with `glob` at the last character of the line that is no
/// separator.
pub open spec fn token_end(s: Seq<char>, glob: bool) -> int {
    if glob {
        trim_back(s, s.len() as int)
    } else {
        skip_word(s, token_start(s))
    }
}

/// The next token of `s`, or the end of the line where `s` holds only
/// separators.
pub open spec fn token_of(s: Seq<char>, glob: bool) -> Result<Seq<char>, ParseErrorView> {
    if token_start(s) >= s.len() {
        Err(ParseErrorView::EndOfLine)
    } else {
        Ok(s.subrange(token_start(s), token_end(s, glob)))
    }
}

/// What is left of `s` once its next token is taken: the token and the one
/// separator behind it are gone; with `glob`, or without a token, nothing
/// is left.
pub open spec fn rest_of(s: Seq<char>, glob: bool) -> Seq<char> {
    if glob || token_end(s, glob) >= s.len() {
        Seq::empty()
    } else {
        s.subrange(token_end(s, glob) + 1, s.len() as int)
    }
}

/// Where the separators from `from` on end: every character up to there is
/// one, and the character there, if there is one, is none.
pub proof fn lemma_skip_spaces(s: Seq<char>, from: int)
    requires
        0 <= from <= s.len(),
    ensures
        from <= skip_spaces(s, from) <= s.len(),
        forall|k: int| from <= k < skip_spaces(s, from) ==> is_space(#[trigger] s[k]),
        skip_spaces(s, from) < s.len() ==> !is_space(s[skip_spaces(s, from)]),
    decreases s.len() - from,
{
    if from < s.len() && is_space(s[from]) {
        lemma_skip_spaces(s, from + 1);
    }
}

/// Where the word from `from` on ends: no character up to there is a
/// separator, and the character there, if there is one, is one.
pub proof fn lemma_skip_word(s: Seq<char>, from: int)
    requires
        0 <= from <= s.len(),
    ensures
        from <= skip_word(s, from) <= s.len(),
        forall|k: int| from <= k < skip_word(s, from) ==> !is_space(#[trigger] s[k]),
        skip_word(s, from) < s.len() ==> is_space(s[skip_word(s, from)]),
    decreases s.len() - from,
{
    if from < s.len() && !is_space(s[from]) {
        lemma_skip_word(s, from + 1);
    }
}

/// Where `s` ends when it is cut back from `to`: every character from
/// there to `to` is a separator, and the character before, if there is
/// one, is none.
pub proof fn lemma_trim_back(s: Seq<char>, to: int)
    requires
        0 <= to <= s.len(),
    ensures
        0 <= trim_back(s, to) <= to,
        forall|k: int| trim_back(s, to) <= k < to ==> is_space(#[trigger] s[k]),
        trim_back(s, to) > 0 ==> !is_space(s[trim_back(s, to) - 1]),
    decreases to,
{
    if 0 < to && is_space(s[to - 1]) {
        lemma_trim_back(s, to - 1);
    }
}

/// The separators from `from` on end at `at` where every character between
/// the two is one and the character at `at`, if there is one, is none.
pub proof fn lemma_skip_spaces_is(s: Seq<char>, from: int, at: int)
    requires
        0 <= from <= at <= s.len(),
        forall|k: int| from <= k < at ==> is_space(#[trigger] s[k]),
        at < s.len() ==> !is_space(s[at]),
    ensures
        skip_spaces(s, from) == at,
    decreases at - from,
{
    if from < at {
        lemma_skip_spaces_is(s, from + 1, at);
    }
}

/// The word from `from` on ends at `at` where no character between the two
/// is a separator and the character at `at`, if there is one, is one.
pub proof fn lemma_skip_word_is(s: Seq<char>, from: int, at: int)
    requires
        0 <= from <= at <= s.len(),
        forall|k: int| from <= k < at ==> !is_space(#[trigger] s[k]),
        at < s.len() ==> is_space(s[at]),
    ensures
        skip_word(s, from) == at,
    decreases at - from,
{
    if from < at {
        lemma_skip_word_is(s, from + 1, at);
    }
}

/// Cut back from `to`, `s` ends at `at` where every character between the
/// two is a separator and the character before `at`, if there is one, is
/// none.
pub proof fn lemma_trim_back_is(s: Seq<char>, to: int, at: int)
    requires
        0 <= at <= to <= s.len(),
        forall|k: int| at <= k < to ==> is_space(#[trigger] s[k]),
        at > 0 ==> !is_space(s[at - 1]),
    ensures
        trim_back(s, to) == at,
    decreases to - at,
{
    if at < to {
        lemma_trim_back_is(s, to - 1, at);
    }
}

/// Taking a token never makes a line longer, and taking one that is there
/// makes it shorter.
pub proof fn lemma_rest_shorter(s: Seq<char>, glob: bool)
    ensures
        rest_of(s, glob).len() <= s.len(),
        token_of(s, glob) is Ok ==> rest_of(s, glob).len() < s.len(),
{
    lemma_skip_spaces(s, 0);
    lemma_skip_word(s, token_start(s));
}

/// The characters of `text`, one by one.
pub fn chars_of(text: &str) -> (r: Vec<char>)
    ensures
        r@ == text@,
{
    let mut chars: Vec<char> = Vec::new();
    for c in it: text.chars()
        invariant
            chars@ == it.history(),
            it.seq() == text@,
    {
        chars.push(c);
    }
    assert(chars@ =~= text@);
    chars
}

/// A line of text and a place in it: what has been read lies before the
/// place, what is still to be read behind it.
pub struct Scanner<'a> {
    text: &'a str,
    chars: Vec<char>,
    pos: usize,
}

impl<'a> View for Scanner<'a> {
    type V = Seq<char>;

    /// The characters that are still to be read.
    closed spec fn view(&self) -> Seq<char> {
        self.chars@.subrange(self.pos as int, self.chars@.len() as int)
    }
}

impl<'a> Scanner<'a> {
    #[verifier::type_invariant]
    spec fn inv(self) -> bool {
        self.chars@ == self.text@ && self.pos <= self.chars@.len()
    }

    /// A scanner at the beginning of `text`.
    pub fn new(text: &'a str) -> (r: Self)
        ensures
            r@ == text@,
    {
        let chars = chars_of(text);
        let r = Scanner { text, chars, pos: 0 };
        assert(r@ =~= text@);
        r
    }

    /// The text that is still to be read.
    pub fn remaining(&self) -> (r: &'a str)
        ensures
            r@ == self@,
    {
        proof {
            use_type_invariant(self);
        }
        self.text.substring_char(self.pos, self.chars.len())
    }
}

/// The next token of the line. It begins at the first character that is no
/// separator and ends before the next separator, which is read too. With
/// `glob_remaining` it runs to the end of the line instead, separators
/// inside it included and those at its end cut off. A line on which only
/// separators are left gives `EndOfLine`.
pub fn next_token(scanner: &mut Scanner, glob_remaining: bool) -> (r: Result<String, ParseError>)
    ensures
        final(scanner)@ == rest_of(old(scanner)@, glob_remaining),
        agrees(r, token_of(old(scanner)@, glob_remaining)),
{
    proof {
        use_type_invariant(&*scanner);
    }
    let ghost s = scanner@;
    let start = scanner.pos;
    let len = scanner.chars.len();
    let mut a = start;
    while a < len && is_whitespace(scanner.chars[a])
        invariant
            start <= a <= len,
            len == scanner.chars@.len(),
            s == scanner.chars@.subrange(start as int, len as int),
            skip_spaces(s, 0) == skip_spaces(s, a - start),
        decreases len - a,
    {
        a += 1;
    }
    if a >= len {
        scanner.pos = len;
        assert(scanner@ =~= rest_of(s, glob_remaining));
        return Err(ParseError::EndOfLine);
    }
    let mut b;
    if glob_remaining {
        b = len;
        while b > a && is_whitespace(scanner.chars[b - 1])
            invariant
                start <= a < b <= len,
                len == scanner.chars@.len(),
                s == scanner.chars@.subrange(start as int, len as int),
                !is_space(s[a - start]),
                trim_back(s, s.len() as int) == trim_back(s, b - start),
            decreases b,
        {
            b -= 1;
        }
        scanner.pos = len;
    } else {
        b = a;
        while b < len && !is_whitespace(scanner.chars[b])
            invariant
                start <= a <= b <= len,
                len == scanner.chars@.len(),
                s == scanner.chars@.subrange(start as int, len as int),
                skip_word(s, a - start) == skip_word(s, b - start),
            decreases len - b,
        {
            b += 1;
        }
        scanner.pos = if b < len { b + 1 } else { len };
    }
    assert(scanner@ =~= rest_of(s, glob_remaining));
    let token = scanner.text.substring_char(a, b).to_owned();
    assert(token@ =~= s.subrange(a - start, b - start));
    Ok(token)
}

/// The number that a token spells as a colour code or a count: in base 16
/// behind the prefix `0x`, else in base 10.
pub open spec fn code_of(token: Seq<char>) -> Option<int> {
    if token.len() >= 2 && token[0] == '0' && token[1] == 'x' {
        unsigned_value(token.skip(2), 16, u32::MAX as int)
    } else {
        unsigned_value(token, 10, u32::MAX as int)
    }
}

/// What reading the next token of `s` as an unsigned number gives.
pub open spec fn token_u32(s: Seq<char>) -> Result<u32, ParseErrorView> {
    match token_of(s, false) {
        Err(e) => Err(e),
        Ok(token) => match code_of(token) {
            Some(v) => Ok(v as u32),
            None => Err(ParseErrorView::TypeMismatch("u32"@, token)),
        },
    }
}

/// What reading the next token of `s` as a decimal number gives.
pub open spec fn token_scalar(s: Seq<char>) -> Result<Seq<char>, ParseErrorView> {
    match token_of(s, false) {
        Err(e) => Err(e),
        Ok(token) => if is_decimal(token) {
            Ok(token)
        } else {
            Err(ParseErrorView::TypeMismatch("f32"@, token))
        },
    }
}

/// What reading a colour triplet at the very beginning of `s` gives: `#`,
/// then exactly two digits of base 16 for each of red, green and blue.
/// Another character in place of `#` is an invalid token. A line that ends
/// before the six digits are through has come to its end. Two characters
/// that are not both digits are no number of eight bits.
pub open spec fn rgb_of(s: Seq<char>) -> Result<(u8, u8, u8), ParseErrorView> {
    if s.len() == 0 {
        Err(ParseErrorView::EndOfLine)
    } else if s[0] != '#' {
        Err(ParseErrorView::InvalidToken(s.subrange(0, 1)))
    } else if s.len() < 7 {
        Err(ParseErrorView::EndOfLine)
    } else {
        match digits_value(s.subrange(1, 3), 16) {
            None => Err(ParseErrorView::TypeMismatch("u8"@, s.subrange(1, 3))),
            Some(red) => match digits_value(s.subrange(3, 5), 16) {
                None => Err(ParseErrorView::TypeMismatch("u8"@, s.subrange(3, 5))),
                Some(green) => match digits_value(s.subrange(5, 7), 16) {
                    None => Err(ParseErrorView::TypeMismatch("u8"@, s.subrange(5, 7))),
                    Some(blue) => Ok((red as u8, green as u8, blue as u8)),
                },
            },
        }
    }
}

/// What is left of `s` once a colour triplet was read, or looked for, at
/// its beginning: the first character is gone, and behind `#` the six that
/// follow it; nothing is left of a line that ends before those six are
/// through.
pub open spec fn rest_of_rgb(s: Seq<char>) -> Seq<char> {
    if s.len() == 0 {
        s
    } else if s[0] != '#' {
        s.drop_first()
    } else {
        s.subrange(
            if s.len() >= 7 {
                7
            } else {
                s.len() as int
            },
            s.len() as int,
        )
    }
}

/// Reads the next token as an unsigned number of 32 bits; see [`code_of`].
pub fn next_token_u32(scanner: &mut Scanner) -> (r: Result<u32, ParseError>)
    ensures
        final(scanner)@ == rest_of(old(scanner)@, false),
        agrees(r, token_u32(old(scanner)@)),
{
    let token = next_token(scanner, false)?;
    let chars = chars_of(token.as_str());
    let n = chars.len();
    let parsed = if n >= 2 && chars[0] == '0' && chars[1] == 'x' {
        assert(chars@.subrange(2, n as int) =~= token@.skip(2));
        parse_unsigned(&chars, 2, n, 16, u32::MAX)
    } else {
        assert(chars@.subrange(0, n as int) =~= token@);
        parse_unsigned(&chars, 0, n, 10, u32::MAX)
    };
    match parsed {
        Some(v) => Ok(v),
        None => Err(ParseError::TypeMismatch("u32", token)),
    }
}

/// Reads the next token as a decimal number.
pub fn next_token_scalar(scanner: &mut Scanner) -> (r: Result<Scalar, ParseError>)
    ensures
        final(scanner)@ == rest_of(old(scanner)@, false),
        agrees(r, token_scalar(old(scanner)@)),
{
    let token = next_token(scanner, false)?;
    match Scalar::parse(token.as_str()) {
        Some(v) => Ok(v),
        None => Err(ParseError::TypeMismatch("f32", token)),
    }
}

/// Reads a colour triplet that begins at the very next character; see
/// [`rgb_of`].
pub fn next_token_rgb(scanner: &mut Scanner) -> (r: Result<(u8, u8, u8), ParseError>)
    ensures
        final(scanner)@ == rest_of_rgb(old(scanner)@),
        agrees(r, rgb_of(old(scanner)@)),
{
    proof {
        use_type_invariant(&*scanner);
    }
    let ghost s = scanner@;
    let start = scanner.pos;
    let len = scanner.chars.len();
    if start >= len {
        return Err(ParseError::EndOfLine);
    }
    if scanner.chars[start] != '#' {
        scanner.pos = start + 1;
        assert(scanner@ =~= s.drop_first());
        let found = scanner.text.substring_char(start, start + 1).to_owned();
        assert(found@ =~= s.subrange(0, 1));
        return Err(ParseError::InvalidToken(found));
    }
    if len - start < 7 {
        scanner.pos = len;
        assert(scanner@ =~= rest_of_rgb(s));
        return Err(ParseError::EndOfLine);
    }
    let red_at = start + 1;
    let green_at = start + 3;
    let blue_at = start + 5;
    scanner.pos = start + 7;
    assert(scanner.chars@.subrange(red_at as int, red_at + 2) =~= s.subrange(1, 3));
    assert(scanner.chars@.subrange(green_at as int, green_at + 2) =~= s.subrange(3, 5));
    assert(scanner.chars@.subrange(blue_at as int, blue_at + 2) =~= s.subrange(5, 7));
    assert(scanner@ =~= rest_of_rgb(s));
    let red = match parse_hex_pair(&scanner.chars, red_at) {
        Some(v) => v,
        None => {
            let found = scanner.text.substring_char(red_at, red_at + 2).to_owned();
            return Err(ParseError::TypeMismatch("u8", found));
        },
    };
    let green = match parse_hex_pair(&scanner.chars, green_at) {
        Some(v) => v,
        None => {
            let found = scanner.text.substring_char(green_at, green_at + 2).to_owned();
            return Err(ParseError::TypeMismatch("u8", found));
        },
    };
    let blue = match parse_hex_pair(&scanner.chars, blue_at) {
        Some(v) => v,
        None => {
            let found = scanner.text.substring_char(blue_at, blue_at + 2).to_owned();
            return Err(ParseError::TypeMismatch("u8", found));
        },
    };
    Ok((red, green, blue))
}

} // verus!
