use ldraw::color::{
    CustomizedMaterial, Finish, Material, MaterialGlitter, MaterialSpeckle, Rgba,
};
use ldraw::error::{ColorDefinitionParseError, DocumentParseError, ParseError};
use ldraw::lexer::Scanner;
use ldraw::palette::{parse_color_definition, parse_customized_material, parse_material};
use ldraw::scalar::Scalar;

fn lines(text: &str) -> Vec<String> {
    text.lines().map(String::from).collect()
}

fn scalar(text: &str) -> Scalar {
    Scalar::parse(text).expect(text)
}

fn invalid(token: &str) -> ColorDefinitionParseError {
    ColorDefinitionParseError::ParseError(ParseError::InvalidToken(token.to_string()))
}

#[test]
fn palette_entry() {
    let registry =
        parse_color_definition(&lines("0 !COLOUR Red CODE 4 VALUE #FF0000 EDGE #7F0000\n"))
            .unwrap();
    assert_eq!(registry.len(), 1);
    assert_eq!(
        registry.get(4),
        Some(&Material {
            code: 4,
            name: "Red".to_string(),
            color: Rgba::new(255, 0, 0, 255),
            edge: Rgba::new(127, 0, 0, 255),
            luminance: 0,
            finish: Finish::Plain,
        })
    );
}

#[test]
fn malformed_triplet_is_an_invalid_token() {
    assert_eq!(
        parse_color_definition(&lines("0 !COLOUR Red CODE 4 VALUE FF0000 EDGE #7F0000\n")),
        Err(invalid("F"))
    );
    assert_eq!(
        parse_material("Red CODE 4 VALUE FF0000 EDGE #7F0000"),
        Err(invalid("F"))
    );
    assert_eq!(
        parse_material("Red CODE 4 VALUE  #FF0000 EDGE #7F0000"),
        Err(invalid(" "))
    );
}

#[test]
fn palette_of_several_entries() {
    let text = "0 LDraw colours\n\
                0 Name: LDConfig.ldr\n\
                0 !LDRAW_ORG Configuration UPDATE 2020-01-01\n\
                \n\
                0 // solid\n\
                0 !COLOUR Black CODE 0 VALUE #05131D EDGE #595959\n\
                0 !COLOUR Blue CODE 1 VALUE #0055BF EDGE #333333\n\
                0 !COLOUR Trans_Red CODE 36 VALUE #C91A09 EDGE #880000 ALPHA 128\n\
                0 !COLOUR Chrome_Gold CODE 334 VALUE #BBA53D EDGE #BBA53D CHROME\n\
                0 !COLOUR Glow CODE 21 VALUE #E0FFB0 EDGE #A4C374 ALPHA 250 LUMINANCE 15\n\
                0 !COLOUR Rubber_Blue CODE 0x10 VALUE #0033B2 EDGE #333333 RUBBER\n\
                0 !COLOUR Again CODE 1 VALUE #000001 EDGE #000002 METAL PEARLESCENT\n\
                0 !COLOUR Matte CODE 7 VALUE #000001 EDGE #000002 PEARLESCENT MATTE_METALLIC\n\
                0 !COLOR Ignored CODE 99 VALUE #000000 EDGE #000000\n";
    let registry = parse_color_definition(&lines(text)).unwrap();
    assert_eq!(registry.len(), 7);
    assert_eq!(registry.get(0).unwrap().name, "Black");
    assert_eq!(registry.get(0).unwrap().color, Rgba::new(5, 19, 29, 255));
    assert_eq!(registry.get(0).unwrap().edge, Rgba::new(89, 89, 89, 255));
    let again = registry.get(1).unwrap();
    assert_eq!(again.name, "Again");
    assert_eq!(again.finish, Finish::Pearlescent);
    assert_eq!(again.code, 1);
    let trans = registry.get(36).unwrap();
    assert_eq!(trans.color, Rgba::new(201, 26, 9, 128));
    assert_eq!(trans.edge.alpha, 255);
    assert!(trans.is_translucent());
    assert_eq!(registry.get(334).unwrap().finish, Finish::Chrome);
    let glow = registry.get(21).unwrap();
    assert_eq!(glow.color.alpha, 250);
    assert_eq!(glow.luminance, 15);
    assert_eq!(registry.get(16).unwrap().finish, Finish::Rubber);
    assert_eq!(registry.get(7).unwrap().finish, Finish::MatteMetallic);
    assert!(registry.get(99).is_none());
}

#[test]
fn numbers_of_attributes_keep_their_low_byte() {
    let material = parse_material("X CODE 1 VALUE #000000 EDGE #000000 ALPHA 256 LUMINANCE 511").unwrap();
    assert_eq!(material.color.alpha, 0);
    assert_eq!(material.luminance, 255);
    let material = parse_material("X CODE 1 VALUE #000000 EDGE #000000 ALPHA 0x1FF ALPHA 7").unwrap();
    assert_eq!(material.color.alpha, 7);
}

#[test]
fn empty_palette() {
    assert!(parse_color_definition(&[]).unwrap().is_empty());
    assert!(parse_color_definition(&lines("0 no colours\n0 !HELP none\n"))
        .unwrap()
        .is_empty());
}

#[test]
fn palette_errors() {
    assert_eq!(
        parse_material(""),
        Err(ColorDefinitionParseError::ParseError(ParseError::EndOfLine))
    );
    assert_eq!(
        parse_material("Red"),
        Err(ColorDefinitionParseError::ParseError(ParseError::EndOfLine))
    );
    assert_eq!(parse_material("Red 4"), Err(invalid("4")));
    assert_eq!(parse_material("Red code 4"), Err(invalid("code")));
    assert_eq!(
        parse_material("Red CODE four"),
        Err(ColorDefinitionParseError::ParseError(
            ParseError::TypeMismatch("u32", "four".to_string())
        ))
    );
    assert_eq!(parse_material("Red CODE 4 EDGE #000000"), Err(invalid("EDGE")));
    assert_eq!(
        parse_material("Red CODE 4 VALUE"),
        Err(ColorDefinitionParseError::ParseError(ParseError::EndOfLine))
    );
    assert_eq!(
        parse_material("Red CODE 4 VALUE #FF00"),
        Err(ColorDefinitionParseError::ParseError(ParseError::EndOfLine))
    );
    assert_eq!(
        parse_material("Red CODE 4 VALUE #FF0000 EDGE #7F000"),
        Err(ColorDefinitionParseError::ParseError(ParseError::EndOfLine))
    );
    assert_eq!(
        parse_material("Red CODE 4 VALUE #+F+F+F EDGE #7F0000"),
        Err(ColorDefinitionParseError::ParseError(
            ParseError::TypeMismatch("u8", "+F".to_string())
        ))
    );
    assert_eq!(
        parse_material("Red CODE 4 VALUE #FF00GG EDGE #000000"),
        Err(ColorDefinitionParseError::ParseError(
            ParseError::TypeMismatch("u8", "GG".to_string())
        ))
    );
    assert_eq!(
        parse_material("Red CODE 4 VALUE #FF0000 #000000"),
        Err(invalid("#000000"))
    );
    assert_eq!(
        parse_material("Red CODE 4 VALUE #FF0000 EDGE 000000"),
        Err(invalid("0"))
    );
    assert_eq!(
        parse_material("Red CODE 4 VALUE #FF0000 EDGE #000000 SHINY"),
        Err(invalid("SHINY"))
    );
    assert_eq!(
        parse_material("Red CODE 4 VALUE #FF0000 EDGE #000000 ALPHA"),
        Err(ColorDefinitionParseError::ParseError(ParseError::EndOfLine))
    );
    assert_eq!(
        parse_material("Red CODE 4 VALUE #FF0000 EDGE #000000 ALPHA half"),
        Err(ColorDefinitionParseError::ParseError(
            ParseError::TypeMismatch("u32", "half".to_string())
        ))
    );
    assert_eq!(
        parse_material("Red CODE 4 VALUE #FF0000 EDGE #000000 MATERIAL FABRIC VALUE #000000"),
        Err(ColorDefinitionParseError::UnknownMaterial("FABRIC".to_string()))
    );
    assert_eq!(
        parse_material("Red CODE 4 VALUE #FF0000 EDGE #000000 MATERIAL"),
        Err(ColorDefinitionParseError::ParseError(ParseError::EndOfLine))
    );
}

#[test]
fn palette_passes_on_document_errors() {
    assert_eq!(
        parse_color_definition(&lines("0 colours\n9 what\n")),
        Err(ColorDefinitionParseError::DocumentParseError(
            DocumentParseError {
                line: 2,
                error: ParseError::UnexpectedCommand("9".to_string())
            }
        ))
    );
    assert_eq!(
        parse_color_definition(&lines("0 colours\n0 FILE a.ldr\n")),
        Err(ColorDefinitionParseError::DocumentParseError(
            DocumentParseError {
                line: 2,
                error: ParseError::MultipartDocument
            }
        ))
    );
}

#[test]
fn first_bad_definition_ends_the_reading() {
    let text = "0 !COLOUR A CODE 1 VALUE #000000 EDGE #000000\n\
                0 !COLOUR B CODE 2 VALUE #000000 EDGE #000000 WRONG\n\
                0 !COLOUR C CODE x VALUE #000000 EDGE #000000\n";
    assert_eq!(parse_color_definition(&lines(text)), Err(invalid("WRONG")));
}

#[test]
fn glitter() {
    let material = parse_material(
        "Glitter CODE 114 VALUE #DF6695 EDGE #9A2A66 ALPHA 128 MATERIAL GLITTER VALUE #923978 FRACTION 0.17 VFRACTION 0.2 SIZE 1",
    )
    .unwrap();
    assert_eq!(material.code, 114);
    assert_eq!(material.color, Rgba::new(223, 102, 149, 128));
    assert_eq!(
        material.finish,
        Finish::Custom(CustomizedMaterial::Glitter(MaterialGlitter {
            value: Rgba::new(146, 57, 120, 255),
            luminance: 0,
            fraction: scalar("0.17"),
            vfraction: scalar("0.2"),
            size: 1,
            minsize: Scalar::zero(),
            maxsize: Scalar::zero(),
        }))
    );
}

#[test]
fn speckle() {
    let material = parse_material(
        "Speckle CODE 132 VALUE #000000 EDGE #898788 MATERIAL SPECKLE VALUE #898788 ALPHA 300 LUMINANCE 5 FRACTION 0.4 MINSIZE 1 MAXSIZE 3 SIZE 2 FRACTION .5",
    )
    .unwrap();
    assert_eq!(material.color.alpha, 255);
    assert_eq!(material.luminance, 0);
    assert_eq!(
        material.finish,
        Finish::Custom(CustomizedMaterial::Speckle(MaterialSpeckle {
            value: Rgba::new(137, 135, 136, 44),
            luminance: 5,
            fraction: scalar(".5"),
            size: 2,
            minsize: scalar("1"),
            maxsize: scalar("3"),
        }))
    );
}

#[test]
fn customized_material_takes_the_rest_of_the_line() {
    let mut scanner = Scanner::new("GLITTER VALUE #010203 SIZE 4  ");
    let custom = parse_customized_material(&mut scanner).unwrap();
    assert_eq!(
        custom,
        CustomizedMaterial::Glitter(MaterialGlitter {
            value: Rgba::new(1, 2, 3, 255),
            luminance: 0,
            fraction: Scalar::zero(),
            vfraction: Scalar::zero(),
            size: 4,
            minsize: Scalar::zero(),
            maxsize: Scalar::zero(),
        })
    );
    assert_eq!(scanner.remaining(), "");
    let material =
        parse_material("M CODE 1 VALUE #000000 EDGE #000000 CHROME MATERIAL SPECKLE VALUE #000000 ALPHA 1")
            .unwrap();
    assert_eq!(material.color.alpha, 255);
    assert!(matches!(
        material.finish,
        Finish::Custom(CustomizedMaterial::Speckle(_))
    ));
}

#[test]
fn customized_material_errors() {
    assert_eq!(
        parse_customized_material(&mut Scanner::new("")),
        Err(ColorDefinitionParseError::ParseError(ParseError::EndOfLine))
    );
    assert_eq!(
        parse_customized_material(&mut Scanner::new("glitter VALUE #000000")),
        Err(ColorDefinitionParseError::UnknownMaterial("glitter".to_string()))
    );
    assert_eq!(
        parse_customized_material(&mut Scanner::new("GLITTER")),
        Err(ColorDefinitionParseError::ParseError(ParseError::EndOfLine))
    );
    assert_eq!(
        parse_customized_material(&mut Scanner::new("GLITTER COLOUR #000000")),
        Err(invalid("COLOUR"))
    );
    assert_eq!(
        parse_customized_material(&mut Scanner::new("SPECKLE VALUE 000000")),
        Err(invalid("0"))
    );
    assert_eq!(
        parse_customized_material(&mut Scanner::new("SPECKLE VALUE #000000 VFRACTION 0.5")),
        Err(invalid("VFRACTION"))
    );
    assert_eq!(
        parse_customized_material(&mut Scanner::new("GLITTER VALUE #000000 FRACTION much")),
        Err(ColorDefinitionParseError::ParseError(
            ParseError::TypeMismatch("f32", "much".to_string())
        ))
    );
    assert_eq!(
        parse_customized_material(&mut Scanner::new("GLITTER VALUE #000000 SIZE -1")),
        Err(ColorDefinitionParseError::ParseError(
            ParseError::TypeMismatch("u32", "-1".to_string())
        ))
    );
    assert_eq!(
        parse_customized_material(&mut Scanner::new("GLITTER VALUE #000000 MAXSIZE")),
        Err(ColorDefinitionParseError::ParseError(ParseError::EndOfLine))
    );
}
