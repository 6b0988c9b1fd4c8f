use vstd::prelude::*;
use crate::color::{resolve_color, ColorReference, MaterialRegistry, MaterialView};
use crate::document::BfcCertification;
use crate::elements::{
    BfcStatement, Header, HeaderView, Line, LineView, Matrix4, Matrix4View, Meta, MetaView,
    OptionalLine, OptionalLineView, PartAlias, PartReference, PartReferenceView, Quad, QuadView,
    Triangle, TriangleView, Vector4, Vector4View, Winding,
};
use crate::error::{agrees, ParseError, ParseErrorView};
use crate::scalar::Scalar;
use crate::lexer::{
    chars_of, next_token, next_token_scalar, next_token_u32, rest_of, token_of, token_scalar,
    token_u32, Scanner,
};

verus! {

/// What a line of type 0 says.
#[derive(Debug, PartialEq, Eq)]
pub enum Line0 {
    Header(Header),
    Meta(Meta),
    File(String),
    Name(String),
    Author(String),
    BfcCertification(BfcCertification),
}

/// The mathematical value of a [`Line0`].
pub enum Line0View {
    Header(HeaderView),
    Meta(MetaView),
    File(Seq<char>),
    Name(Seq<char>),
    Author(Seq<char>),
    BfcCertification(BfcCertification),
}

impl View for Line0 {
    type V = Line0View;

    open spec fn view(&self) -> Line0View {
        match self {
            Line0::Header(h) => Line0View::Header(h@),
            Line0::Meta(m) => Line0View::Meta(m@),
            Line0::File(name) => Line0View::File(name@),
            Line0::Name(name) => Line0View::Name(name@),
            Line0::Author(name) => Line0View::Author(name@),
            Line0::BfcCertification(c) => Line0View::BfcCertification(*c),
        }
    }
}

/// What the words `phrase` behind `BFC` say, where they are a statement.
pub open spec fn bfc_of(phrase: Seq<char>) -> Option<Line0View> {
    if phrase == "NOCERTIFY"@ {
        Some(Line0View::BfcCertification(BfcCertification::NoCertify))
    } else if phrase == "CERTIFY"@ || phrase == "CERTIFY CCW"@ {
        Some(Line0View::BfcCertification(BfcCertification::Certify(Winding::Ccw)))
    } else if phrase == "CERTIFY CW"@ {
        Some(Line0View::BfcCertification(BfcCertification::Certify(Winding::Cw)))
    } else if phrase == "CW"@ {
        Some(Line0View::Meta(MetaView::Bfc(BfcStatement::Winding(Winding::Cw))))
    } else if phrase == "CCW"@ {
        Some(Line0View::Meta(MetaView::Bfc(BfcStatement::Winding(Winding::Ccw))))
    } else if phrase == "CLIP"@ {
        Some(Line0View::Meta(MetaView::Bfc(BfcStatement::Clip(None))))
    } else if phrase == "CLIP CW"@ || phrase == "CW CLIP"@ {
        Some(Line0View::Meta(MetaView::Bfc(BfcStatement::Clip(Some(Winding::Cw)))))
    } else if phrase == "CLIP CCW"@ || phrase == "CCW CLIP"@ {
        Some(Line0View::Meta(MetaView::Bfc(BfcStatement::Clip(Some(Winding::Ccw)))))
    } else if phrase == "NOCLIP"@ {
        Some(Line0View::Meta(MetaView::Bfc(BfcStatement::NoClip)))
    } else if phrase == "INVERTNEXT"@ {
        Some(Line0View::Meta(MetaView::Bfc(BfcStatement::InvertNext)))
    } else {
        None
    }
}

/// What the rest `s` of a line behind `BFC` says: the statement that its
/// words are, taken as one token to the end of the line.
pub open spec fn bfc_statement_of(s: Seq<char>) -> Result<Line0View, ParseErrorView> {
    match token_of(s, true) {
        Err(e) => Err(e),
        Ok(phrase) => match bfc_of(phrase) {
            Some(v) => Ok(v),
            None => Err(ParseErrorView::InvalidBfcStatement(phrase)),
        },
    }
}

/// Whether `chars` spell `word`.
pub fn spells(chars: &Vec<char>, word: &str) -> (r: bool)
    ensures
        r == (chars@ == word@),
{
    let letters = chars_of(word);
    if letters.len() != chars.len() {
        return false;
    }
    let mut i: usize = 0;
    while i < chars.len()
        invariant
            i <= chars@.len(),
            letters@ == word@,
            letters@.len() == chars@.len(),
            forall|k: int| 0 <= k < i ==> chars@[k] == letters@[k],
        decreases chars@.len() - i,
    {
        if chars[i] != letters[i] {
            return false;
        }
        i += 1;
    }
    assert(chars@ =~= word@);
    true
}

/// Reads the statement behind `BFC`, to the end of the line.
pub fn parse_bfc_statement(scanner: &mut Scanner) -> (r: Result<Line0, ParseError>)
    ensures
        final(scanner)@ == rest_of(old(scanner)@, true),
        agrees(r, bfc_statement_of(old(scanner)@)),
{
    let stmt = next_token(scanner, true)?;
    let words = chars_of(stmt.as_str());
    if spells(&words, "NOCERTIFY") {
        Ok(Line0::BfcCertification(BfcCertification::NoCertify))
    } else if spells(&words, "CERTIFY") || spells(&words, "CERTIFY CCW") {
        Ok(Line0::BfcCertification(BfcCertification::Certify(Winding::Ccw)))
    } else if spells(&words, "CERTIFY CW") {
        Ok(Line0::BfcCertification(BfcCertification::Certify(Winding::Cw)))
    } else if spells(&words, "CW") {
        Ok(Line0::Meta(Meta::Bfc(BfcStatement::Winding(Winding::Cw))))
    } else if spells(&words, "CCW") {
        Ok(Line0::Meta(Meta::Bfc(BfcStatement::Winding(Winding::Ccw))))
    } else if spells(&words, "CLIP") {
        Ok(Line0::Meta(Meta::Bfc(BfcStatement::Clip(None))))
    } else if spells(&words, "CLIP CW") || spells(&words, "CW CLIP") {
        Ok(Line0::Meta(Meta::Bfc(BfcStatement::Clip(Some(Winding::Cw)))))
    } else if spells(&words, "CLIP CCW") || spells(&words, "CCW CLIP") {
        Ok(Line0::Meta(Meta::Bfc(BfcStatement::Clip(Some(Winding::Ccw)))))
    } else if spells(&words, "NOCLIP") {
        Ok(Line0::Meta(Meta::Bfc(BfcStatement::NoClip)))
    } else if spells(&words, "INVERTNEXT") {
        Ok(Line0::Meta(Meta::Bfc(BfcStatement::InvertNext)))
    } else {
        Err(ParseError::InvalidBfcStatement(stmt))
    }
}

/// The rest `s` of a line as one text, or the empty text where nothing is
/// left.
pub open spec fn text_or_empty(s: Seq<char>) -> Seq<char> {
    match token_of(s, true) {
        Ok(text) => text,
        Err(_) => Seq::empty(),
    }
}

/// What the text `text` of a line of type 0 says, by its first word `cmd`;
/// `rest` is what follows that word.
pub open spec fn directive_of(text: Seq<char>, cmd: Seq<char>, rest: Seq<char>) -> Result<
    Line0View,
    ParseErrorView,
> {
    if cmd.len() > 0 && cmd[0] == '!' {
        Ok(Line0View::Header(HeaderView { key: cmd.skip(1), value: text_or_empty(rest) }))
    } else if cmd == "BFC"@ {
        bfc_statement_of(rest)
    } else if cmd == "Name:"@ {
        Ok(Line0View::Name(text_or_empty(rest)))
    } else if cmd == "Author:"@ {
        Ok(Line0View::Author(text_or_empty(rest)))
    } else if cmd == "FILE"@ {
        match token_of(rest, true) {
            Ok(name) => Ok(Line0View::File(name)),
            Err(e) => Err(e),
        }
    } else if cmd == "STEP"@ {
        Ok(Line0View::Meta(MetaView::Step))
    } else if cmd == "WRITE"@ {
        match token_of(rest, true) {
            Ok(message) => Ok(Line0View::Meta(MetaView::Write(message))),
            Err(e) => Err(e),
        }
    } else if cmd == "PRINT"@ {
        match token_of(rest, true) {
            Ok(message) => Ok(Line0View::Meta(MetaView::Print(message))),
            Err(e) => Err(e),
        }
    } else if cmd == "CLEAR"@ {
        Ok(Line0View::Meta(MetaView::Clear))
    } else if cmd == "PAUSE"@ {
        Ok(Line0View::Meta(MetaView::Pause))
    } else if cmd == "SAVE"@ {
        Ok(Line0View::Meta(MetaView::Save))
    } else {
        Ok(Line0View::Meta(MetaView::Comment(text)))
    }
}

/// What a line of type 0 says, `s` being what follows its type: an empty
/// comment where nothing follows, else what its text says by its first
/// word.
pub open spec fn line_0_of(s: Seq<char>) -> Result<Line0View, ParseErrorView> {
    match token_of(s, true) {
        Err(_) => Ok(Line0View::Meta(MetaView::Comment(Seq::empty()))),
        Ok(text) => match token_of(text, false) {
            Err(e) => Err(e),
            Ok(cmd) => directive_of(text, cmd, rest_of(text, false)),
        },
    }
}

/// Reads the rest of the line as one text, which may be empty.
fn text_or_default(scanner: &mut Scanner) -> (r: String)
    ensures
        r@ == text_or_empty(old(scanner)@),
        final(scanner)@ == rest_of(old(scanner)@, true),
{
    match next_token(scanner, true) {
        Ok(text) => text,
        Err(_) => String::new(),
    }
}

/// Reads a line of type 0 behind its type, to the end of the line.
pub fn parse_line_0(scanner: &mut Scanner) -> (r: Result<Line0, ParseError>)
    ensures
        final(scanner)@ == rest_of(old(scanner)@, true),
        agrees(r, line_0_of(old(scanner)@)),
{
    let text = match next_token(scanner, true) {
        Ok(v) => v,
        Err(_) => {
            return Ok(Line0::Meta(Meta::Comment(String::new())));
        },
    };
    let mut inner = Scanner::new(text.as_str());
    let cmd = next_token(&mut inner, false)?;
    let word = chars_of(cmd.as_str());
    if word.len() > 0 && word[0] == '!' {
        let key = cmd.as_str().substring_char(1, word.len()).to_owned();
        assert(key@ =~= cmd@.skip(1));
        let value = text_or_default(&mut inner);
        return Ok(Line0::Header(Header(key, value)));
    }
    if spells(&word, "BFC") {
        parse_bfc_statement(&mut inner)
    } else if spells(&word, "Name:") {
        Ok(Line0::Name(text_or_default(&mut inner)))
    } else if spells(&word, "Author:") {
        Ok(Line0::Author(text_or_default(&mut inner)))
    } else if spells(&word, "FILE") {
        match next_token(&mut inner, true) {
            Ok(name) => Ok(Line0::File(name)),
            Err(e) => Err(e),
        }
    } else if spells(&word, "STEP") {
        Ok(Line0::Meta(Meta::Step))
    } else if spells(&word, "WRITE") {
        match next_token(&mut inner, true) {
            Ok(message) => Ok(Line0::Meta(Meta::Write(message))),
            Err(e) => Err(e),
        }
    } else if spells(&word, "PRINT") {
        match next_token(&mut inner, true) {
            Ok(message) => Ok(Line0::Meta(Meta::Print(message))),
            Err(e) => Err(e),
        }
    } else if spells(&word, "CLEAR") {
        Ok(Line0::Meta(Meta::Clear))
    } else if spells(&word, "PAUSE") {
        Ok(Line0::Meta(Meta::Pause))
    } else if spells(&word, "SAVE") {
        Ok(Line0::Meta(Meta::Save))
    } else {
        Ok(Line0::Meta(Meta::Comment(text)))
    }
}

/// How a read from a line ends: with what was read, or why nothing was, and
/// with what is left of the line.
pub struct Read<T, E> {
    pub value: Result<T, E>,
    pub rest: Seq<char>,
}

/// What reading `n` decimal numbers from `s` gives: their spellings in the
/// order of the line. The first token that is no number, or that is
/// missing, ends the read with its error, and nothing behind it is read.
pub open spec fn scalars_of(s: Seq<char>, n: nat) -> Read<Seq<Seq<char>>, ParseErrorView>
    decreases n,
{
    if n == 0 {
        Read { value: Ok(Seq::empty()), rest: s }
    } else {
        let before = scalars_of(s, (n - 1) as nat);
        match before.value {
            Err(_) => before,
            Ok(numbers) => Read {
                value: match token_scalar(before.rest) {
                    Ok(number) => Ok(numbers.push(number)),
                    Err(e) => Err(e),
                },
                rest: rest_of(before.rest, false),
            },
        }
    }
}

/// The point whose coordinates are the three numbers of `numbers` from `at`
/// on, made homogeneous by a fourth coordinate of one.
pub open spec fn point_at(numbers: Seq<Seq<char>>, at: int) -> Vector4View {
    Vector4View { x: numbers[at], y: numbers[at + 1], z: numbers[at + 2], w: "1.0"@ }
}

/// The column of a placement whose upper three entries are the numbers of
/// `numbers` at `a`, `b` and `c`, above the entry `last` of the bottom row.
pub open spec fn column_at(numbers: Seq<Seq<char>>, a: int, b: int, c: int, last: Seq<char>) -> Vector4View {
    Vector4View { x: numbers[a], y: numbers[b], z: numbers[c], w: last }
}

/// The placement that twelve numbers give. They come row by row, each row
/// of the upper three led by its entry of the fourth column (the offset)
/// and followed by its three entries of the rotation; the bottom row is
/// 0 0 0 1.
pub open spec fn placement_of(numbers: Seq<Seq<char>>) -> Matrix4View {
    Matrix4View {
        x: column_at(numbers, 1, 5, 9, "0.0"@),
        y: column_at(numbers, 2, 6, 10, "0.0"@),
        z: column_at(numbers, 3, 7, 11, "0.0"@),
        w: column_at(numbers, 0, 4, 8, "1.0"@),
    }
}

/// What a line of type 1 says, `s` being what follows its type: a colour
/// code, the twelve numbers of a placement, and the name of the model that
/// is placed, which runs to the end of the line.
pub open spec fn line_1_of(palette: Map<u32, MaterialView>, s: Seq<char>) -> Read<PartReferenceView, ParseErrorView> {
    match token_u32(s) {
        Err(e) => Read { value: Err(e), rest: rest_of(s, false) },
        Ok(code) => {
            let numbers = scalars_of(rest_of(s, false), 12);
            match numbers.value {
                Err(e) => Read { value: Err(e), rest: numbers.rest },
                Ok(v) => Read {
                    value: match token_of(numbers.rest, true) {
                        Err(e) => Err(e),
                        Ok(name) => Ok(
                            PartReferenceView {
                                color: resolve_color(code, palette),
                                matrix: placement_of(v),
                                name,
                            },
                        ),
                    },
                    rest: rest_of(numbers.rest, true),
                },
            }
        },
    }
}

/// What a line of type 2 says: a colour code and the two ends of a line
/// segment.
pub open spec fn line_2_of(palette: Map<u32, MaterialView>, s: Seq<char>) -> Read<LineView, ParseErrorView> {
    match token_u32(s) {
        Err(e) => Read { value: Err(e), rest: rest_of(s, false) },
        Ok(code) => {
            let numbers = scalars_of(rest_of(s, false), 6);
            Read {
                value: match numbers.value {
                    Err(e) => Err(e),
                    Ok(v) => Ok(
                        LineView {
                            color: resolve_color(code, palette),
                            a: point_at(v, 0),
                            b: point_at(v, 3),
                        },
                    ),
                },
                rest: numbers.rest,
            }
        },
    }
}

/// What a line of type 3 says: a colour code and the three corners of a
/// triangle.
pub open spec fn line_3_of(palette: Map<u32, MaterialView>, s: Seq<char>) -> Read<TriangleView, ParseErrorView> {
    match token_u32(s) {
        Err(e) => Read { value: Err(e), rest: rest_of(s, false) },
        Ok(code) => {
            let numbers = scalars_of(rest_of(s, false), 9);
            Read {
                value: match numbers.value {
                    Err(e) => Err(e),
                    Ok(v) => Ok(
                        TriangleView {
                            color: resolve_color(code, palette),
                            a: point_at(v, 0),
                            b: point_at(v, 3),
                            c: point_at(v, 6),
                        },
                    ),
                },
                rest: numbers.rest,
            }
        },
    }
}

/// What a line of type 4 says: a colour code and the four corners of a
/// quadrilateral.
pub open spec fn line_4_of(palette: Map<u32, MaterialView>, s: Seq<char>) -> Read<QuadView, ParseErrorView> {
    match token_u32(s) {
        Err(e) => Read { value: Err(e), rest: rest_of(s, false) },
        Ok(code) => {
            let numbers = scalars_of(rest_of(s, false), 12);
            Read {
                value: match numbers.value {
                    Err(e) => Err(e),
                    Ok(v) => Ok(
                        QuadView {
                            color: resolve_color(code, palette),
                            a: point_at(v, 0),
                            b: point_at(v, 3),
                            c: point_at(v, 6),
                            d: point_at(v, 9),
                        },
                    ),
                },
                rest: numbers.rest,
            }
        },
    }
}

/// What a line of type 5 says: a colour code, the two ends of a line
/// segment and its two control points.
pub open spec fn line_5_of(palette: Map<u32, MaterialView>, s: Seq<char>) -> Read<OptionalLineView, ParseErrorView> {
    match token_u32(s) {
        Err(e) => Read { value: Err(e), rest: rest_of(s, false) },
        Ok(code) => {
            let numbers = scalars_of(rest_of(s, false), 12);
            Read {
                value: match numbers.value {
                    Err(e) => Err(e),
                    Ok(v) => Ok(
                        OptionalLineView {
                            color: resolve_color(code, palette),
                            a: point_at(v, 0),
                            b: point_at(v, 3),
                            c: point_at(v, 6),
                            d: point_at(v, 9),
                        },
                    ),
                },
                rest: numbers.rest,
            }
        },
    }
}

/// The spellings of the numbers `numbers`.
pub open spec fn spellings(numbers: Seq<Scalar>) -> Seq<Seq<char>> {
    numbers.map_values(|n: Scalar| n@)
}

/// Reads `n` decimal numbers, one token each.
pub fn next_scalars(scanner: &mut Scanner, n: usize) -> (r: Result<Vec<Scalar>, ParseError>)
    ensures
        final(scanner)@ == scalars_of(old(scanner)@, n as nat).rest,
        match r {
            Ok(numbers) => numbers@.len() == n && scalars_of(old(scanner)@, n as nat).value == Ok::<
                Seq<Seq<char>>,
                ParseErrorView,
            >(spellings(numbers@)),
            Err(e) => scalars_of(old(scanner)@, n as nat).value == Err::<
                Seq<Seq<char>>,
                ParseErrorView,
            >(e@),
        },
{
    let ghost s = scanner@;
    let mut numbers: Vec<Scalar> = Vec::new();
    let mut i: usize = 0;
    assert(spellings(numbers@) =~= Seq::<Seq<char>>::empty());
    while i < n
        invariant
            i <= n,
            s == old(scanner)@,
            numbers@.len() == i,
            scalars_of(s, i as nat) == (Read {
                value: Ok::<Seq<Seq<char>>, ParseErrorView>(spellings(numbers@)),
                rest: scanner@,
            }),
        decreases n - i,
    {
        let ghost before = numbers@;
        match next_token_scalar(scanner) {
            Ok(number) => {
                numbers.push(number);
                assert(spellings(numbers@) =~= spellings(before).push(number@));
            },
            Err(e) => {
                proof {
                    lemma_scalars_stop(s, (i + 1) as nat, n as nat);
                }
                return Err(e);
            },
        }
        i += 1;
    }
    Ok(numbers)
}

/// A read of numbers that has failed stays as it is, however many more
/// numbers are asked for.
pub proof fn lemma_scalars_stop(s: Seq<char>, failed: nat, n: nat)
    requires
        failed <= n,
        scalars_of(s, failed).value is Err,
    ensures
        scalars_of(s, n) == scalars_of(s, failed),
    decreases n,
{
    if failed < n {
        lemma_scalars_stop(s, failed, (n - 1) as nat);
    }
}

/// The point of the three numbers from `at` on.
fn point(numbers: &Vec<Scalar>, at: usize) -> (r: Vector4)
    requires
        at + 2 < numbers.len(),
    ensures
        r@ == point_at(spellings(numbers@), at as int),
{
    Vector4 {
        x: numbers[at].clone(),
        y: numbers[at + 1].clone(),
        z: numbers[at + 2].clone(),
        w: Scalar::one(),
    }
}

/// The column of the numbers at `a`, `b` and `c` above `last`.
fn column(numbers: &Vec<Scalar>, a: usize, b: usize, c: usize, last: Scalar) -> (r: Vector4)
    requires
        a < numbers.len(),
        b < numbers.len(),
        c < numbers.len(),
    ensures
        r@ == column_at(spellings(numbers@), a as int, b as int, c as int, last@),
{
    Vector4 { x: numbers[a].clone(), y: numbers[b].clone(), z: numbers[c].clone(), w: last }
}

/// Reads a line of type 1 behind its type.
pub fn parse_line_1(materials: &MaterialRegistry, scanner: &mut Scanner) -> (r: Result<
    PartReference,
    ParseError,
>)
    ensures
        final(scanner)@ == line_1_of(materials@, old(scanner)@).rest,
        agrees(r, line_1_of(materials@, old(scanner)@).value),
{
    let color = next_token_u32(scanner)?;
    let numbers = next_scalars(scanner, 12)?;
    let matrix = Matrix4 {
        x: column(&numbers, 1, 5, 9, Scalar::zero()),
        y: column(&numbers, 2, 6, 10, Scalar::zero()),
        z: column(&numbers, 3, 7, 11, Scalar::zero()),
        w: column(&numbers, 0, 4, 8, Scalar::one()),
    };
    let name = next_token(scanner, true)?;
    Ok(PartReference { color: ColorReference::resolve(color, materials), matrix, name: PartAlias::new(name) })
}

/// Reads a line of type 2 behind its type.
pub fn parse_line_2(materials: &MaterialRegistry, scanner: &mut Scanner) -> (r: Result<
    Line,
    ParseError,
>)
    ensures
        final(scanner)@ == line_2_of(materials@, old(scanner)@).rest,
        agrees(r, line_2_of(materials@, old(scanner)@).value),
{
    let color = next_token_u32(scanner)?;
    let numbers = next_scalars(scanner, 6)?;
    Ok(Line { color: ColorReference::resolve(color, materials), a: point(&numbers, 0), b: point(&numbers, 3) })
}

/// Reads a line of type 3 behind its type.
pub fn parse_line_3(materials: &MaterialRegistry, scanner: &mut Scanner) -> (r: Result<
    Triangle,
    ParseError,
>)
    ensures
        final(scanner)@ == line_3_of(materials@, old(scanner)@).rest,
        agrees(r, line_3_of(materials@, old(scanner)@).value),
{
    let color = next_token_u32(scanner)?;
    let numbers = next_scalars(scanner, 9)?;
    Ok(
        Triangle {
            color: ColorReference::resolve(color, materials),
            a: point(&numbers, 0),
            b: point(&numbers, 3),
            c: point(&numbers, 6),
        },
    )
}

/// Reads a line of type 4 behind its type.
pub fn parse_line_4(materials: &MaterialRegistry, scanner: &mut Scanner) -> (r: Result<
    Quad,
    ParseError,
>)
    ensures
        final(scanner)@ == line_4_of(materials@, old(scanner)@).rest,
        agrees(r, line_4_of(materials@, old(scanner)@).value),
{
    let color = next_token_u32(scanner)?;
    let numbers = next_scalars(scanner, 12)?;
    Ok(
        Quad {
            color: ColorReference::resolve(color, materials),
            a: point(&numbers, 0),
            b: point(&numbers, 3),
            c: point(&numbers, 6),
            d: point(&numbers, 9),
        },
    )
}

/// Reads a line of type 5 behind its type.
pub fn parse_line_5(materials: &MaterialRegistry, scanner: &mut Scanner) -> (r: Result<
    OptionalLine,
    ParseError,
>)
    ensures
        final(scanner)@ == line_5_of(materials@, old(scanner)@).rest,
        agrees(r, line_5_of(materials@, old(scanner)@).value),
{
    let color = next_token_u32(scanner)?;
    let numbers = next_scalars(scanner, 12)?;
    Ok(
        OptionalLine {
            color: ColorReference::resolve(color, materials),
            a: point(&numbers, 0),
            b: point(&numbers, 3),
            c: point(&numbers, 6),
            d: point(&numbers, 9),
        },
    )
}

} // verus!
