use vstd::prelude::*;
use crate::color::{
    CustomizedMaterial, CustomizedMaterialView, Finish, FinishView, Material, MaterialGlitter,
    MaterialGlitterView, MaterialRegistry, MaterialSpeckle, MaterialSpeckleView, MaterialView, Rgba,
};
use crate::document::DocumentView;
use crate::elements::HeaderView;
use crate::error::{
    agrees, ColorDefinitionParseError, ColorDefinitionParseErrorView, DocumentParseErrorView,
    ParseError, ParseErrorView,
};
use crate::lexer::{
    chars_of, lemma_rest_shorter, next_token, next_token_rgb, next_token_scalar, next_token_u32,
    rest_of, rest_of_rgb, rgb_of, token_of, token_scalar, token_u32, Scanner,
};
use crate::line::{spells, Read};
use crate::parser::{parse_single_document, single_document_of, texts};
use crate::scalar::Scalar;

verus! {

/// What looking for the word `word` as the next token of `s` finds amiss:
/// nothing where the token is that word.
pub open spec fn expected(s: Seq<char>, word: Seq<char>) -> Option<ParseErrorView> {
    match token_of(s, false) {
        Err(e) => Some(e),
        Ok(found) => if found == word {
            None
        } else {
            Some(ParseErrorView::InvalidToken(found))
        },
    }
}

/// The low eight bits of `v`.
pub open spec fn low_byte(v: u32) -> u8 {
    (v % 256) as u8
}

/// The parameters of a glitter or a speckle, but for its colour.
pub struct GrainView {
    pub alpha: u8,
    pub luminance: u8,
    pub fraction: Seq<char>,
    pub vfraction: Seq<char>,
    pub size: u32,
    pub minsize: Seq<char>,
    pub maxsize: Seq<char>,
}

/// The parameters that hold where a palette names none: opaque, without
/// light of its own, every measure zero.
pub open spec fn plain_grain() -> GrainView {
    GrainView {
        alpha: 255,
        luminance: 0,
        fraction: "0.0"@,
        vfraction: "0.0"@,
        size: 0,
        minsize: "0.0"@,
        maxsize: "0.0"@,
    }
}

/// What the parameters written in `s` make of `grain`. Each is a word and
/// its value; they come in any order, a later one taking the place of an
/// earlier one, up to the end of the line. `VFRACTION` is known only to a
/// glitter. A word that is no parameter is an invalid token.
pub open spec fn grain_of(s: Seq<char>, grain: GrainView, glitter: bool) -> Read<
    GrainView,
    ParseErrorView,
>
    decreases s.len(),
{
    match token_of(s, false) {
        Err(_) => Read { value: Ok(grain), rest: rest_of(s, false) },
        Ok(word) => {
            let rest = rest_of(s, false);
            let after = rest_of(rest, false);
            proof {
                lemma_rest_shorter(s, false);
                lemma_rest_shorter(rest, false);
            }
            if word == "ALPHA"@ {
                match token_u32(rest) {
                    Ok(v) => grain_of(after, GrainView { alpha: low_byte(v), ..grain }, glitter),
                    Err(e) => Read { value: Err(e), rest: after },
                }
            } else if word == "LUMINANCE"@ {
                match token_u32(rest) {
                    Ok(v) => grain_of(after, GrainView { luminance: low_byte(v), ..grain }, glitter),
                    Err(e) => Read { value: Err(e), rest: after },
                }
            } else if word == "FRACTION"@ {
                match token_scalar(rest) {
                    Ok(v) => grain_of(after, GrainView { fraction: v, ..grain }, glitter),
                    Err(e) => Read { value: Err(e), rest: after },
                }
            } else if glitter && word == "VFRACTION"@ {
                match token_scalar(rest) {
                    Ok(v) => grain_of(after, GrainView { vfraction: v, ..grain }, glitter),
                    Err(e) => Read { value: Err(e), rest: after },
                }
            } else if word == "SIZE"@ {
                match token_u32(rest) {
                    Ok(v) => grain_of(after, GrainView { size: v, ..grain }, glitter),
                    Err(e) => Read { value: Err(e), rest: after },
                }
            } else if word == "MINSIZE"@ {
                match token_scalar(rest) {
                    Ok(v) => grain_of(after, GrainView { minsize: v, ..grain }, glitter),
                    Err(e) => Read { value: Err(e), rest: after },
                }
            } else if word == "MAXSIZE"@ {
                match token_scalar(rest) {
                    Ok(v) => grain_of(after, GrainView { maxsize: v, ..grain }, glitter),
                    Err(e) => Read { value: Err(e), rest: after },
                }
            } else {
                Read { value: Err(ParseErrorView::InvalidToken(word)), rest }
            }
        },
    }
}

/// The finish of the kind that `glitter` tells, of the colour `rgb` and the
/// parameters `grain`.
pub open spec fn grained(glitter: bool, rgb: (u8, u8, u8), grain: GrainView) -> CustomizedMaterialView {
    let value = Rgba { red: rgb.0, green: rgb.1, blue: rgb.2, alpha: grain.alpha };
    if glitter {
        CustomizedMaterialView::Glitter(
            MaterialGlitterView {
                value,
                luminance: grain.luminance,
                fraction: grain.fraction,
                vfraction: grain.vfraction,
                size: grain.size,
                minsize: grain.minsize,
                maxsize: grain.maxsize,
            },
        )
    } else {
        CustomizedMaterialView::Speckle(
            MaterialSpeckleView {
                value,
                luminance: grain.luminance,
                fraction: grain.fraction,
                size: grain.size,
                minsize: grain.minsize,
                maxsize: grain.maxsize,
            },
        )
    }
}

/// What stands in `s` behind the word that names a finish of its own,
/// `glitter` telling which: `VALUE`, a colour triplet, and parameters to
/// the end of the line.
pub open spec fn grain_body_of(s: Seq<char>, glitter: bool) -> Read<CustomizedMaterialView, ParseErrorView> {
    let after_word = rest_of(s, false);
    match expected(s, "VALUE"@) {
        Some(e) => Read { value: Err(e), rest: after_word },
        None => match rgb_of(after_word) {
            Err(e) => Read { value: Err(e), rest: rest_of_rgb(after_word) },
            Ok(rgb) => {
                let grain = grain_of(rest_of_rgb(after_word), plain_grain(), glitter);
                Read {
                    value: match grain.value {
                        Ok(g) => Ok(grained(glitter, rgb, g)),
                        Err(e) => Err(e),
                    },
                    rest: grain.rest,
                }
            },
        },
    }
}

/// What stands in `s` behind `MATERIAL`: `GLITTER` or `SPECKLE`, then what
/// [`grain_body_of`] reads. Another word is an unknown material.
pub open spec fn customized_material_of(s: Seq<char>) -> Read<
    CustomizedMaterialView,
    ColorDefinitionParseErrorView,
> {
    let rest = rest_of(s, false);
    match token_of(s, false) {
        Err(e) => Read { value: Err(ColorDefinitionParseErrorView::ParseError(e)), rest },
        Ok(kind) => if kind == "GLITTER"@ || kind == "SPECKLE"@ {
            let body = grain_body_of(rest, kind == "GLITTER"@);
            Read {
                value: match body.value {
                    Ok(v) => Ok(v),
                    Err(e) => Err(ColorDefinitionParseErrorView::ParseError(e)),
                },
                rest: body.rest,
            }
        } else {
            Read { value: Err(ColorDefinitionParseErrorView::UnknownMaterial(kind)), rest }
        },
    }
}

/// The parameters of a glitter or a speckle while they are read.
struct Grain {
    alpha: u8,
    luminance: u8,
    fraction: Scalar,
    vfraction: Scalar,
    size: u32,
    minsize: Scalar,
    maxsize: Scalar,
}

impl View for Grain {
    type V = GrainView;

    closed spec fn view(&self) -> GrainView {
        GrainView {
            alpha: self.alpha,
            luminance: self.luminance,
            fraction: self.fraction@,
            vfraction: self.vfraction@,
            size: self.size,
            minsize: self.minsize@,
            maxsize: self.maxsize@,
        }
    }
}

/// The low eight bits of `v`.
fn low_byte_of(v: u32) -> (r: u8)
    ensures
        r == low_byte(v),
{
    (v % 256) as u8
}

/// Reads the next token, which must be `word`.
fn expect_word(scanner: &mut Scanner, word: &str) -> (r: Result<(), ParseError>)
    ensures
        final(scanner)@ == rest_of(old(scanner)@, false),
        match r {
            Ok(_) => expected(old(scanner)@, word@) is None,
            Err(e) => expected(old(scanner)@, word@) == Some(e@),
        },
{
    let token = next_token(scanner, false)?;
    let found = chars_of(token.as_str());
    if spells(&found, word) {
        Ok(())
    } else {
        Err(ParseError::InvalidToken(token))
    }
}

/// Reads the parameters of a glitter or a speckle, to the end of the line.
fn parse_grain(scanner: &mut Scanner, glitter: bool) -> (r: Result<Grain, ParseError>)
    ensures
        final(scanner)@ == grain_of(old(scanner)@, plain_grain(), glitter).rest,
        agrees(r, grain_of(old(scanner)@, plain_grain(), glitter).value),
{
    let ghost goal = grain_of(scanner@, plain_grain(), glitter);
    let mut grain = Grain {
        alpha: 255,
        luminance: 0,
        fraction: Scalar::zero(),
        vfraction: Scalar::zero(),
        size: 0,
        minsize: Scalar::zero(),
        maxsize: Scalar::zero(),
    };
    loop
        invariant
            goal == grain_of(old(scanner)@, plain_grain(), glitter),
            goal == grain_of(scanner@, grain@, glitter),
        decreases scanner@.len(),
    {
        let ghost s = scanner@;
        proof {
            lemma_rest_shorter(s, false);
            lemma_rest_shorter(rest_of(s, false), false);
        }
        let token = match next_token(scanner, false) {
            Ok(v) => v,
            Err(_) => {
                return Ok(grain);
            },
        };
        let word = chars_of(token.as_str());
        if spells(&word, "ALPHA") {
            grain.alpha = low_byte_of(next_token_u32(scanner)?);
        } else if spells(&word, "LUMINANCE") {
            grain.luminance = low_byte_of(next_token_u32(scanner)?);
        } else if spells(&word, "FRACTION") {
            grain.fraction = next_token_scalar(scanner)?;
        } else if glitter && spells(&word, "VFRACTION") {
            grain.vfraction = next_token_scalar(scanner)?;
        } else if spells(&word, "SIZE") {
            grain.size = next_token_u32(scanner)?;
        } else if spells(&word, "MINSIZE") {
            grain.minsize = next_token_scalar(scanner)?;
        } else if spells(&word, "MAXSIZE") {
            grain.maxsize = next_token_scalar(scanner)?;
        } else {
            return Err(ParseError::InvalidToken(token));
        }
    }
}

/// Reads what follows `GLITTER` or `SPECKLE`, to the end of the line.
fn parse_grain_body(scanner: &mut Scanner, glitter: bool) -> (r: Result<CustomizedMaterial, ParseError>)
    ensures
        final(scanner)@ == grain_body_of(old(scanner)@, glitter).rest,
        agrees(r, grain_body_of(old(scanner)@, glitter).value),
{
    expect_word(scanner, "VALUE")?;
    let (red, green, blue) = next_token_rgb(scanner)?;
    let grain = parse_grain(scanner, glitter)?;
    let value = Rgba::new(red, green, blue, grain.alpha);
    if glitter {
        Ok(
            CustomizedMaterial::Glitter(
                MaterialGlitter {
                    value,
                    luminance: grain.luminance,
                    fraction: grain.fraction,
                    vfraction: grain.vfraction,
                    size: grain.size,
                    minsize: grain.minsize,
                    maxsize: grain.maxsize,
                },
            ),
        )
    } else {
        Ok(
            CustomizedMaterial::Speckle(
                MaterialSpeckle {
                    value,
                    luminance: grain.luminance,
                    fraction: grain.fraction,
                    size: grain.size,
                    minsize: grain.minsize,
                    maxsize: grain.maxsize,
                },
            ),
        )
    }
}

/// Reads what follows `MATERIAL` in a colour definition, to the end of the
/// line.
pub fn parse_customized_material(scanner: &mut Scanner) -> (r: Result<
    CustomizedMaterial,
    ColorDefinitionParseError,
>)
    ensures
        final(scanner)@ == customized_material_of(old(scanner)@).rest,
        agrees(r, customized_material_of(old(scanner)@).value),
{
    let token = match next_token(scanner, false) {
        Ok(v) => v,
        Err(e) => {
            return Err(ColorDefinitionParseError::ParseError(e));
        },
    };
    let kind = chars_of(token.as_str());
    let glitter = spells(&kind, "GLITTER");
    if !glitter && !spells(&kind, "SPECKLE") {
        return Err(ColorDefinitionParseError::UnknownMaterial(token));
    }
    match parse_grain_body(scanner, glitter) {
        Ok(v) => Ok(v),
        Err(e) => Err(ColorDefinitionParseError::ParseError(e)),
    }
}

/// What the attributes behind the colours of a definition decide.
pub struct LookView {
    pub alpha: u8,
    pub luminance: u8,
    pub finish: FinishView,
}

/// The look of a definition without attributes: opaque, without light of
/// its own, of plain finish.
pub open spec fn plain_look() -> LookView {
    LookView { alpha: 255, luminance: 0, finish: FinishView::Plain }
}

/// What the attributes written in `s` make of `look`. They come in any
/// order up to the end of the line, a later one taking the place of an
/// earlier one: `ALPHA` and `LUMINANCE` with a number, of which the low
/// eight bits count; the words that name a finish; and `MATERIAL`, which
/// takes the rest of the line for a finish of its own.
pub open spec fn attributes_of(s: Seq<char>, look: LookView) -> Result<
    LookView,
    ColorDefinitionParseErrorView,
>
    decreases s.len(),
{
    match token_of(s, false) {
        Err(_) => Ok(look),
        Ok(word) => {
            let rest = rest_of(s, false);
            let after = rest_of(rest, false);
            proof {
                lemma_rest_shorter(s, false);
                lemma_rest_shorter(rest, false);
            }
            if word == "ALPHA"@ {
                match token_u32(rest) {
                    Ok(v) => attributes_of(after, LookView { alpha: low_byte(v), ..look }),
                    Err(e) => Err(ColorDefinitionParseErrorView::ParseError(e)),
                }
            } else if word == "LUMINANCE"@ {
                match token_u32(rest) {
                    Ok(v) => attributes_of(after, LookView { luminance: low_byte(v), ..look }),
                    Err(e) => Err(ColorDefinitionParseErrorView::ParseError(e)),
                }
            } else if word == "CHROME"@ {
                attributes_of(rest, LookView { finish: FinishView::Chrome, ..look })
            } else if word == "PEARLESCENT"@ {
                attributes_of(rest, LookView { finish: FinishView::Pearlescent, ..look })
            } else if word == "METAL"@ {
                attributes_of(rest, LookView { finish: FinishView::Metal, ..look })
            } else if word == "RUBBER"@ {
                attributes_of(rest, LookView { finish: FinishView::Rubber, ..look })
            } else if word == "MATTE_METALLIC"@ {
                attributes_of(rest, LookView { finish: FinishView::MatteMetallic, ..look })
            } else if word == "MATERIAL"@ {
                match customized_material_of(rest).value {
                    Ok(custom) => Ok(LookView { finish: FinishView::Custom(custom), ..look }),
                    Err(e) => Err(e),
                }
            } else {
                Err(ColorDefinitionParseErrorView::ParseError(ParseErrorView::InvalidToken(word)))
            }
        },
    }
}

/// The material that the value `s` of a `COLOUR` header defines: its name,
/// `CODE` and its code, `VALUE` and its colour, `EDGE` and the colour of
/// its edges, then its attributes. The colour takes its opacity from the
/// attributes; the edge is opaque.
pub open spec fn material_of(s: Seq<char>) -> Result<MaterialView, ParseErrorView> {
    let at_code_word = rest_of(s, false);
    let at_code = rest_of(at_code_word, false);
    let at_value_word = rest_of(at_code, false);
    let at_value = rest_of(at_value_word, false);
    let at_edge_word = rest_of_rgb(at_value);
    let at_edge = rest_of(at_edge_word, false);
    match token_of(s, false) {
        Err(e) => Err(e),
        Ok(name) => match expected(at_code_word, "CODE"@) {
            Some(e) => Err(e),
            None => match token_u32(at_code) {
                Err(e) => Err(e),
                Ok(code) => match expected(at_value_word, "VALUE"@) {
                    Some(e) => Err(e),
                    None => match rgb_of(at_value) {
                        Err(e) => Err(e),
                        Ok(color) => match expected(at_edge_word, "EDGE"@) {
                            Some(e) => Err(e),
                            None => match rgb_of(at_edge) {
                                Err(e) => Err(e),
                                Ok(edge) => Ok(
                                    MaterialView {
                                        code,
                                        name,
                                        color: Rgba {
                                            red: color.0,
                                            green: color.1,
                                            blue: color.2,
                                            alpha: 255,
                                        },
                                        edge: Rgba {
                                            red: edge.0,
                                            green: edge.1,
                                            blue: edge.2,
                                            alpha: 255,
                                        },
                                        luminance: 0,
                                        finish: FinishView::Plain,
                                    },
                                ),
                            },
                        },
                    },
                },
            },
        },
    }
}

/// Where the attributes begin in the value `s` of a `COLOUR` header.
pub open spec fn attributes_at(s: Seq<char>) -> Seq<char> {
    rest_of_rgb(rest_of(rest_of_rgb(rest_of(rest_of(rest_of(rest_of(s, false), false), false), false)), false))
}

/// The material that the value `s` of a `COLOUR` header defines, with its
/// attributes.
pub open spec fn color_definition_of(s: Seq<char>) -> Result<MaterialView, ColorDefinitionParseErrorView> {
    match material_of(s) {
        Err(e) => Err(ColorDefinitionParseErrorView::ParseError(e)),
        Ok(material) => match attributes_of(attributes_at(s), plain_look()) {
            Err(e) => Err(e),
            Ok(look) => Ok(
                MaterialView {
                    color: Rgba { alpha: look.alpha, ..material.color },
                    luminance: look.luminance,
                    finish: look.finish,
                    ..material
                },
            ),
        },
    }
}

/// What the attributes of a definition decide, while they are read.
struct Look {
    alpha: u8,
    luminance: u8,
    finish: Finish,
}

impl View for Look {
    type V = LookView;

    closed spec fn view(&self) -> LookView {
        LookView { alpha: self.alpha, luminance: self.luminance, finish: self.finish@ }
    }
}

/// Reads the attributes of a definition, to the end of the line.
fn parse_attributes(scanner: &mut Scanner) -> (r: Result<Look, ColorDefinitionParseError>)
    ensures
        agrees(r, attributes_of(old(scanner)@, plain_look())),
{
    let ghost goal = attributes_of(scanner@, plain_look());
    let mut look = Look { alpha: 255, luminance: 0, finish: Finish::Plain };
    loop
        invariant
            goal == attributes_of(old(scanner)@, plain_look()),
            goal == attributes_of(scanner@, look@),
        decreases scanner@.len(),
    {
        let ghost s = scanner@;
        proof {
            lemma_rest_shorter(s, false);
            lemma_rest_shorter(rest_of(s, false), false);
        }
        let token = match next_token(scanner, false) {
            Ok(v) => v,
            Err(_) => {
                return Ok(look);
            },
        };
        let word = chars_of(token.as_str());
        if spells(&word, "ALPHA") {
            match next_token_u32(scanner) {
                Ok(v) => {
                    look.alpha = low_byte_of(v);
                },
                Err(e) => {
                    return Err(ColorDefinitionParseError::ParseError(e));
                },
            }
        } else if spells(&word, "LUMINANCE") {
            match next_token_u32(scanner) {
                Ok(v) => {
                    look.luminance = low_byte_of(v);
                },
                Err(e) => {
                    return Err(ColorDefinitionParseError::ParseError(e));
                },
            }
        } else if spells(&word, "CHROME") {
            look.finish = Finish::Chrome;
        } else if spells(&word, "PEARLESCENT") {
            look.finish = Finish::Pearlescent;
        } else if spells(&word, "METAL") {
            look.finish = Finish::Metal;
        } else if spells(&word, "RUBBER") {
            look.finish = Finish::Rubber;
        } else if spells(&word, "MATTE_METALLIC") {
            look.finish = Finish::MatteMetallic;
        } else if spells(&word, "MATERIAL") {
            let custom = parse_customized_material(scanner)?;
            look.finish = Finish::Custom(custom);
            return Ok(look);
        } else {
            return Err(ColorDefinitionParseError::ParseError(ParseError::InvalidToken(token)));
        }
    }
}

/// Reads a definition up to its attributes.
fn parse_material_head(scanner: &mut Scanner) -> (r: Result<Material, ParseError>)
    ensures
        match r {
            Ok(material) => material_of(old(scanner)@) == Ok::<MaterialView, ParseErrorView>(material@)
                && final(scanner)@ == attributes_at(old(scanner)@),
            Err(e) => material_of(old(scanner)@) == Err::<MaterialView, ParseErrorView>(e@),
        },
{
    let name = next_token(scanner, false)?;
    expect_word(scanner, "CODE")?;
    let code = next_token_u32(scanner)?;
    expect_word(scanner, "VALUE")?;
    let (red, green, blue) = next_token_rgb(scanner)?;
    expect_word(scanner, "EDGE")?;
    let (edge_red, edge_green, edge_blue) = next_token_rgb(scanner)?;
    Ok(
        Material {
            code,
            name,
            color: Rgba::new(red, green, blue, 255),
            edge: Rgba::new(edge_red, edge_green, edge_blue, 255),
            luminance: 0,
            finish: Finish::Plain,
        },
    )
}

/// Reads the value of a `COLOUR` header as the definition of a material.
pub fn parse_material(value: &str) -> (r: Result<Material, ColorDefinitionParseError>)
    ensures
        agrees(r, color_definition_of(value@)),
{
    let mut scanner = Scanner::new(value);
    let mut material = match parse_material_head(&mut scanner) {
        Ok(v) => v,
        Err(e) => {
            return Err(ColorDefinitionParseError::ParseError(e));
        },
    };
    let look = parse_attributes(&mut scanner)?;
    material.color = Rgba::new(material.color.red, material.color.green, material.color.blue, look.alpha);
    material.luminance = look.luminance;
    material.finish = look.finish;
    Ok(material)
}

/// The palette that the first `n` of the headers `headers` define: each
/// `COLOUR` header adds its material under the material's code, in place of
/// what stood there. The first header that defines none ends the reading
/// with its error.
pub open spec fn palette_of(headers: Seq<HeaderView>, n: nat) -> Result<
    Map<u32, MaterialView>,
    ColorDefinitionParseErrorView,
>
    decreases n,
{
    if n == 0 {
        Ok(Map::empty())
    } else {
        match palette_of(headers, (n - 1) as nat) {
            Err(e) => Err(e),
            Ok(palette) => if headers[n - 1].key == "COLOUR"@ {
                match color_definition_of(headers[n - 1].value) {
                    Ok(material) => Ok(palette.insert(material.code, material)),
                    Err(e) => Err(e),
                }
            } else {
                Ok(palette)
            },
        }
    }
}

/// The palette that the lines `lines` define: they are read as one
/// document, with no palette at hand, and its `COLOUR` headers are read as
/// definitions.
pub open spec fn color_definitions_of(lines: Seq<Seq<char>>) -> Result<
    Map<u32, MaterialView>,
    ColorDefinitionParseErrorView,
> {
    match single_document_of(Map::empty(), lines) {
        Err(e) => Err(ColorDefinitionParseErrorView::DocumentParseError(e)),
        Ok(doc) => palette_of(doc.headers, doc.headers.len()),
    }
}

/// A reading of headers that has failed stays as it is, however many more
/// headers are taken in.
pub proof fn lemma_palette_stop(headers: Seq<HeaderView>, failed: nat, n: nat)
    requires
        failed <= n,
        palette_of(headers, failed) is Err,
    ensures
        palette_of(headers, n) == palette_of(headers, failed),
    decreases n,
{
    if failed < n {
        lemma_palette_stop(headers, failed, (n - 1) as nat);
    }
}

/// Reads the lines `lines` as the definition of a palette.
pub fn parse_color_definition(lines: &[String]) -> (r: Result<
    MaterialRegistry,
    ColorDefinitionParseError,
>)
    ensures
        agrees(r, color_definitions_of(texts(lines@))),
{
    let empty = MaterialRegistry::new();
    let document = match parse_single_document(&empty, lines) {
        Ok(v) => v,
        Err(e) => {
            return Err(ColorDefinitionParseError::DocumentParseError(e));
        },
    };
    let ghost headers = document@.headers;
    let mut materials = MaterialRegistry::new();
    let mut i: usize = 0;
    while i < document.headers.len()
        invariant
            i <= document.headers@.len(),
            headers == document@.headers,
            headers.len() == document.headers@.len(),
            single_document_of(Map::empty(), texts(lines@)) == Ok::<
                DocumentView,
                DocumentParseErrorView,
            >(document@),
            palette_of(headers, i as nat) == Ok::<Map<u32, MaterialView>, ColorDefinitionParseErrorView>(
                materials@,
            ),
        decreases document.headers@.len() - i,
    {
        let header = &document.headers[i];
        assert(headers[i as int] == header@);
        let key = chars_of(header.0.as_str());
        if spells(&key, "COLOUR") {
            match parse_material(header.1.as_str()) {
                Ok(material) => {
                    materials.insert(material);
                },
                Err(e) => {
                    proof {
                        lemma_palette_stop(headers, (i + 1) as nat, headers.len());
                    }
                    return Err(e);
                },
            }
        }
        i += 1;
    }
    Ok(materials)
}

} // verus!
