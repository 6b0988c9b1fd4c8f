use ldraw::color::{ColorReference, Finish, Material, MaterialRegistry, Rgba};
use ldraw::document::BfcCertification;
use ldraw::elements::{BfcStatement, Command, Header, Meta, PartAlias, Winding};
use ldraw::error::{DocumentParseError, ParseError};
use ldraw::parser::{parse_inner, parse_multipart_document, parse_single_document};

fn lines(text: &str) -> Vec<String> {
    text.lines().map(String::from).collect()
}

fn red() -> Material {
    Material {
        code: 4,
        name: "Red".to_string(),
        color: Rgba::new(255, 0, 0, 255),
        edge: Rgba::new(127, 0, 0, 255),
        luminance: 0,
        finish: Finish::Plain,
    }
}

#[test]
fn single_document() {
    let mut registry = MaterialRegistry::new();
    registry.insert(red());
    let text = "0 A brick\n\
                0 Name: brick.dat\n\
                0 Author: Someone [sb]\n\
                0 !LDRAW_ORG Part UPDATE 2006-01\n\
                0 !LICENSE Free\n\
                0 BFC CERTIFY CW\n\
                \n\
                0 // a comment\n\
                0 STEP\n\
                2 24 0 0 0 1 1 1\n\
                0 BFC INVERTNEXT\n\
                3 4 0 0 0 1 0 0 0 1 0\n\
                0\n";
    let doc = parse_single_document(&registry, &lines(text)).unwrap();
    assert_eq!(doc.description, "A brick");
    assert_eq!(doc.name, "brick.dat");
    assert_eq!(doc.author, "Someone [sb]");
    assert_eq!(doc.bfc, BfcCertification::Certify(Winding::Cw));
    assert_eq!(
        doc.headers,
        vec![
            Header("LDRAW_ORG".into(), "Part UPDATE 2006-01".into()),
            Header("LICENSE".into(), "Free".into()),
        ]
    );
    assert_eq!(doc.commands.len(), 6);
    assert_eq!(
        doc.commands[0],
        Command::Meta(Meta::Comment("// a comment".into()))
    );
    assert_eq!(doc.commands[1], Command::Meta(Meta::Step));
    assert!(matches!(doc.commands[2], Command::Line(_)));
    assert_eq!(
        doc.commands[3],
        Command::Meta(Meta::Bfc(BfcStatement::InvertNext))
    );
    match &doc.commands[4] {
        Command::Triangle(t) => assert_eq!(t.color, ColorReference::Material(red())),
        other => panic!("expected a triangle, got {:?}", other),
    }
    assert_eq!(doc.commands[5], Command::Meta(Meta::Comment("".into())));
}

#[test]
fn empty_input_is_an_empty_document() {
    let registry = MaterialRegistry::new();
    let doc = parse_single_document(&registry, &[]).unwrap();
    assert_eq!(doc.name, "");
    assert_eq!(doc.description, "");
    assert_eq!(doc.author, "");
    assert_eq!(doc.bfc, BfcCertification::NotApplicable);
    assert!(doc.headers.is_empty());
    assert!(doc.commands.is_empty());
    let doc = parse_single_document(&registry, &lines("\n  \n\t\n")).unwrap();
    assert!(doc.commands.is_empty());
}

#[test]
fn later_values_take_the_place_of_earlier_ones() {
    let registry = MaterialRegistry::new();
    let text = "0 Name: one\n0 Name: two\n0 Author: a\n0 Author: b\n0 BFC CERTIFY\n0 BFC NOCERTIFY\n";
    let doc = parse_single_document(&registry, &lines(text)).unwrap();
    assert_eq!(doc.name, "two");
    assert_eq!(doc.author, "b");
    assert_eq!(doc.bfc, BfcCertification::NoCertify);
    assert_eq!(doc.description, "");
    assert!(doc.commands.is_empty());
}

#[test]
fn only_the_first_comment_is_the_description() {
    let registry = MaterialRegistry::new();
    let text = "0 STEP\n0\n0 first\n0 second\n0 WRITE third\n";
    let doc = parse_single_document(&registry, &lines(text)).unwrap();
    assert_eq!(doc.description, "first");
    assert_eq!(
        doc.commands,
        vec![
            Command::Meta(Meta::Step),
            Command::Meta(Meta::Comment("second".into())),
            Command::Meta(Meta::Write("third".into())),
        ]
    );
}

#[test]
fn errors_carry_the_line_number() {
    let registry = MaterialRegistry::new();
    assert_eq!(
        parse_single_document(&registry, &lines("0 desc\n\n6 16 0 0 0\n")),
        Err(DocumentParseError {
            line: 3,
            error: ParseError::UnexpectedCommand("6".into())
        })
    );
    assert_eq!(
        parse_single_document(&registry, &lines("00 desc\n")),
        Err(DocumentParseError {
            line: 1,
            error: ParseError::UnexpectedCommand("00".into())
        })
    );
    assert_eq!(
        parse_single_document(&registry, &lines("0 desc\n2 16 0 0 0 1 1\n3 x\n")),
        Err(DocumentParseError {
            line: 2,
            error: ParseError::EndOfLine
        })
    );
    assert_eq!(
        parse_single_document(&registry, &lines("0 desc\n0 BFC WHAT\n")),
        Err(DocumentParseError {
            line: 2,
            error: ParseError::InvalidBfcStatement("WHAT".into())
        })
    );
    assert_eq!(
        parse_single_document(&registry, &lines("1 16 0 0 0 1 0 0 0 1 0 0 0 1.0.0 a.dat\n")),
        Err(DocumentParseError {
            line: 1,
            error: ParseError::TypeMismatch("f32", "1.0.0".into())
        })
    );
    assert_eq!(
        parse_single_document(&registry, &lines("4 sixteen\n")),
        Err(DocumentParseError {
            line: 1,
            error: ParseError::TypeMismatch("u32", "sixteen".into())
        })
    );
}

#[test]
fn file_line_is_refused_in_a_single_document() {
    let registry = MaterialRegistry::new();
    assert_eq!(
        parse_single_document(&registry, &lines("0 FILE a.ldr\n0 desc\n")),
        Err(DocumentParseError {
            line: 1,
            error: ParseError::MultipartDocument
        })
    );
    assert_eq!(
        parse_single_document(&registry, &lines("0 desc\n0 STEP\n0 FILE a.ldr\n")),
        Err(DocumentParseError {
            line: 3,
            error: ParseError::MultipartDocument
        })
    );
}

#[test]
fn multipart_assembly() {
    let registry = MaterialRegistry::new();
    let text = "0 FILE a.ldr\n0 description\n1 16 0 1 0 0 0 0 1 0 0 0 0 1 sub.ldr\n0 FILE sub.ldr\n0 sub desc\n3 16 0 0 0 1 0 0 0 1 0\n";
    let file = parse_multipart_document(&registry, &lines(text)).unwrap();
    assert_eq!(file.body.description, "description");
    assert_eq!(file.body.commands.len(), 1);
    match &file.body.commands[0] {
        Command::PartReference(r) => {
            assert_eq!(r.name.original(), "sub.ldr");
            assert_eq!(r.name, PartAlias::new("sub.ldr".to_string()));
        }
        other => panic!("expected a part reference, got {:?}", other),
    }
    assert_eq!(file.subparts.len(), 1);
    let sub = file
        .subparts
        .get(&PartAlias::new("sub.ldr".to_string()))
        .unwrap();
    assert_eq!(sub.description, "sub desc");
    assert_eq!(sub.commands.len(), 1);
    assert!(matches!(sub.commands[0], Command::Triangle(_)));
}

#[test]
fn multipart_without_file_lines() {
    let registry = MaterialRegistry::new();
    let file = parse_multipart_document(&registry, &lines("0 just one\n0 STEP\n")).unwrap();
    assert_eq!(file.body.description, "just one");
    assert_eq!(file.body.commands, vec![Command::Meta(Meta::Step)]);
    assert!(file.subparts.is_empty());
    let file = parse_multipart_document(&registry, &[]).unwrap();
    assert_eq!(file.body.description, "");
    assert!(file.subparts.is_empty());
}

#[test]
fn multipart_with_several_submodels() {
    let registry = MaterialRegistry::new();
    let text = "0 FILE main.ldr\n\
                0 main\n\
                0 FILE A.ldr\n\
                0 first a\n\
                0 FILE b.ldr\n\
                0 the b\n\
                0 STEP\n\
                0 FILE a.LDR\n\
                0 second a\n\
                2 16 0 0 0 1 1 1\n\
                0 FILE last.ldr\n";
    let file = parse_multipart_document(&registry, &lines(text)).unwrap();
    assert_eq!(file.body.description, "main");
    assert!(file.body.commands.is_empty());
    assert_eq!(file.subparts.len(), 3);
    let a = file.subparts.get(&PartAlias::new("a.ldr".to_string())).unwrap();
    assert_eq!(a.description, "second a");
    assert_eq!(a.commands.len(), 1);
    let b = file.subparts.get(&PartAlias::new("B.LDR".to_string())).unwrap();
    assert_eq!(b.description, "the b");
    assert_eq!(b.commands, vec![Command::Meta(Meta::Step)]);
    let last = file.subparts.get(&PartAlias::new("last.ldr".to_string())).unwrap();
    assert_eq!(last.description, "");
    assert!(last.commands.is_empty());
}

#[test]
fn file_line_before_the_description_is_passed_over() {
    let registry = MaterialRegistry::new();
    let text = "0 FILE a.ldr\n0 STEP\n0 FILE b.ldr\n0 the description\n0 FILE c.ldr\n0 c\n";
    let file = parse_multipart_document(&registry, &lines(text)).unwrap();
    assert_eq!(file.body.description, "the description");
    assert_eq!(file.body.commands, vec![Command::Meta(Meta::Step)]);
    assert_eq!(file.subparts.len(), 1);
    assert!(file.subparts.contains_key(&PartAlias::new("c.ldr".to_string())));
}

#[test]
fn multipart_errors_count_lines_of_the_whole_input() {
    let registry = MaterialRegistry::new();
    let text = "0 main\n0 FILE a.ldr\n0 a\n7 what\n";
    assert_eq!(
        parse_multipart_document(&registry, &lines(text)),
        Err(DocumentParseError {
            line: 4,
            error: ParseError::UnexpectedCommand("7".into())
        })
    );
    assert_eq!(
        parse_multipart_document(&registry, &lines("0 main\n0 FILE\n")),
        Err(DocumentParseError {
            line: 2,
            error: ParseError::EndOfLine
        })
    );
    assert_eq!(
        parse_multipart_document(&registry, &lines("5 16 0 0\n")),
        Err(DocumentParseError {
            line: 1,
            error: ParseError::EndOfLine
        })
    );
}

#[test]
fn parse_inner_stops_at_a_boundary() {
    let registry = MaterialRegistry::new();
    let input = lines("0 main\n0 STEP\n0 FILE a.ldr\n0 a\n");
    let (doc, next, end) = parse_inner(&registry, &input, 0, true).unwrap();
    assert_eq!(doc.description, "main");
    assert_eq!(next, Some("a.ldr".to_string()));
    assert_eq!(end, 3);
    let (doc, next, end) = parse_inner(&registry, &input, end, true).unwrap();
    assert_eq!(doc.description, "a");
    assert_eq!(next, None);
    assert_eq!(end, 4);
    let (doc, next, end) = parse_inner(&registry, &input, 4, true).unwrap();
    assert_eq!(doc.description, "");
    assert_eq!(next, None);
    assert_eq!(end, 4);
}

#[test]
fn long_file() {
    let registry = MaterialRegistry::new();
    let mut input = vec!["0 a long model".to_string()];
    for i in 0..20000 {
        input.push(format!(
            "1 {} {} 0.5 -0.25 1 0 0 0 1 0 0 0 1 part{}.dat",
            i % 512,
            i,
            i % 7
        ));
        input.push(format!("4 16 {} 0 0 1 0 0 1 1 0 0 1 0", i));
    }
    let doc = parse_single_document(&registry, &input).unwrap();
    assert_eq!(doc.commands.len(), 40000);
    assert_eq!(doc.part_references().len(), 20000);
    match &doc.commands[39998] {
        Command::PartReference(r) => {
            assert_eq!(r.color, ColorReference::Unresolved(19999 % 512));
            assert_eq!(r.matrix.w.x.text(), "19999");
            assert_eq!(r.name.original(), "part0.dat");
        }
        other => panic!("expected a part reference, got {:?}", other),
    }
}
