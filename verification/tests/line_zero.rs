use ldraw::document::BfcCertification;
use ldraw::elements::{BfcStatement, Header, Meta, Winding};
use ldraw::error::ParseError;
use ldraw::lexer::Scanner;
use ldraw::line::{parse_bfc_statement, parse_line_0, Line0};

fn parse_line_0_or_panic(input: &str) -> Line0 {
    match parse_line_0(&mut Scanner::new(input)) {
        Ok(line0) => line0,
        Err(e) => {
            panic!("cannot parse {}: {:?}", input, e);
        }
    }
}

#[test]
fn parse_line_0_parses_comment() {
    let cases = [
        ("// This is a comment", "// This is a comment"),
        ("This is also a comment", "This is also a comment"),
    ];

    for (input, output) in cases {
        let parsed = parse_line_0_or_panic(input);
        match parsed {
            Line0::Meta(Meta::Comment(comment)) => assert_eq!(comment, output),
            _ => panic!("expected Line0::Meta(Meta::Comment(...)), got {:?}", parsed),
        }
    }
}

#[test]
fn parse_line_0_parses_offical_meta_commands_without_bfc() {
    let cases = [
        ("STEP", Meta::Step),
        (
            "WRITE any length of string",
            Meta::Write("any length of string".into()),
        ),
        (
            "PRINT also any length of string",
            Meta::Print("also any length of string".into()),
        ),
        ("CLEAR", Meta::Clear),
        ("PAUSE", Meta::Pause),
        ("SAVE", Meta::Save),
    ];
    for (input, output) in cases {
        let parsed = parse_line_0_or_panic(input);
        match parsed {
            Line0::Meta(meta) => assert_eq!(meta, output),
            _ => panic!("expected Line0::Meta(...), got {:?}", parsed),
        }
    }
}

#[test]
fn parse_line_0_parses_bfc_statements() {
    let cases = [
        ("BFC CW", BfcStatement::Winding(Winding::Cw)),
        ("BFC CCW", BfcStatement::Winding(Winding::Ccw)),
        ("BFC CLIP", BfcStatement::Clip(None)),
        ("BFC CLIP CW", BfcStatement::Clip(Some(Winding::Cw))),
        ("BFC CLIP CCW", BfcStatement::Clip(Some(Winding::Ccw))),
        ("BFC CW CLIP", BfcStatement::Clip(Some(Winding::Cw))),
        ("BFC CCW CLIP", BfcStatement::Clip(Some(Winding::Ccw))),
        ("BFC NOCLIP", BfcStatement::NoClip),
        ("BFC INVERTNEXT", BfcStatement::InvertNext),
    ];
    for (input, output) in cases {
        let parsed = parse_line_0_or_panic(input);
        match parsed {
            Line0::Meta(Meta::Bfc(bfc)) => assert_eq!(bfc, output),
            _ => panic!("expected Line0::Meta(Meta::Bfc(...)) got {:?}", parsed),
        }
    }
}

#[test]
fn parse_line_0_parses_bfc_certificates() {
    let cases = [
        ("BFC NOCERTIFY", BfcCertification::NoCertify),
        ("BFC CERTIFY CW", BfcCertification::Certify(Winding::Cw)),
        ("BFC CERTIFY", BfcCertification::Certify(Winding::Ccw)),
        ("BFC CERTIFY CCW", BfcCertification::Certify(Winding::Ccw)),
    ];
    for (input, output) in cases {
        let parsed = parse_line_0_or_panic(input);
        match parsed {
            Line0::BfcCertification(certification) => assert_eq!(certification, output),
            _ => panic!("expected Line0::BfsCertification(...), got {:?}", parsed),
        }
    }
}

#[test]
fn parse_line_0_parses_headers() {
    let cases = [
        (
            "!LDRAW_ORG Part UPDATE 2006-01",
            Header("LDRAW_ORG".into(), "Part UPDATE 2006-01".into()),
        ),
        (
            "!LICENSE Redistributable under CCAL version 2.: see CAreadme.txt",
            Header(
                "LICENSE".into(),
                "Redistributable under CCAL version 2.: see CAreadme.txt".into(),
            ),
        ),
        (
            "!HELP Obviously there is no need for additional",
            Header(
                "HELP".into(),
                "Obviously there is no need for additional".into(),
            ),
        ),
        ("!HELP", Header("HELP".into(), "".into())),
        (
            "!CATEGORY Animal",
            Header("CATEGORY".into(), "Animal".into()),
        ),
        (
            "!KEYWORDS Sting, Poison, Adventurers, Egypt",
            Header(
                "KEYWORDS".into(),
                "Sting, Poison, Adventurers, Egypt".into(),
            ),
        ),
        ("!CMDLINE -c1", Header("CMDLINE".into(), "-c1".into())),
        (
            "!HISTORY 2000-08-?? {Axel Poque} fixes to resolve L3P error messages",
            Header(
                "HISTORY".into(),
                "2000-08-?? {Axel Poque} fixes to resolve L3P error messages".into(),
            ),
        ),
        (
            "!HISTORY 2002-04-25 [PTadmin] Official update 2002-02",
            Header(
                "HISTORY".into(),
                "2002-04-25 [PTadmin] Official update 2002-02".into(),
            ),
        ),
    ];
    for (input, output) in cases {
        let parsed = parse_line_0_or_panic(input);
        match parsed {
            Line0::Header(header) => assert_eq!(header, output),
            _ => panic!("expected Line0::Header(...), got {:?}", parsed),
        }
    }
}

#[test]
fn parse_line_0_parses_name_author() {
    let name = "Name: 193a.dat";
    let parsed_name = parse_line_0_or_panic(name);
    assert_eq!(parsed_name, Line0::Name("193a.dat".into()));

    let author = "Author: Chris Dee [cwdee]";
    let parsed_author = parse_line_0_or_panic(author);
    assert_eq!(parsed_author, Line0::Author("Chris Dee [cwdee]".into()));
}

#[test]
fn parse_line_0_parses_file() {
    let file = "FILE main.ldr";
    let parsed_file = parse_line_0_or_panic(file);
    assert_eq!(parsed_file, Line0::File("main.ldr".into()));
}

#[test]
fn comment_text_is_kept_as_written() {
    assert_eq!(
        parse_line_0_or_panic("// anything"),
        Line0::Meta(Meta::Comment("// anything".into()))
    );
    assert_eq!(
        parse_line_0_or_panic("anything"),
        Line0::Meta(Meta::Comment("anything".into()))
    );
    assert_eq!(
        parse_line_0_or_panic("  several   words \t kept  as is  \r"),
        Line0::Meta(Meta::Comment("several   words \t kept  as is".into()))
    );
    assert_eq!(
        parse_line_0_or_panic("UNKNOWN directive"),
        Line0::Meta(Meta::Comment("UNKNOWN directive".into()))
    );
}

#[test]
fn empty_line_0_is_an_empty_comment() {
    assert_eq!(
        parse_line_0_or_panic(""),
        Line0::Meta(Meta::Comment(String::new()))
    );
    assert_eq!(
        parse_line_0_or_panic(" \t \r\n"),
        Line0::Meta(Meta::Comment(String::new()))
    );
}

#[test]
fn header_key_and_value() {
    assert_eq!(
        parse_line_0_or_panic("!KEY   some  value  "),
        Line0::Header(Header("KEY".into(), "some  value".into()))
    );
    assert_eq!(
        parse_line_0_or_panic("!"),
        Line0::Header(Header("".into(), "".into()))
    );
    assert_eq!(
        parse_line_0_or_panic("!A!B c"),
        Line0::Header(Header("A!B".into(), "c".into()))
    );
}

#[test]
fn name_and_author_may_be_empty() {
    assert_eq!(parse_line_0_or_panic("Name:"), Line0::Name("".into()));
    assert_eq!(parse_line_0_or_panic("Author:  "), Line0::Author("".into()));
}

#[test]
fn file_write_and_print_need_a_text() {
    assert_eq!(
        parse_line_0(&mut Scanner::new("FILE")),
        Err(ParseError::EndOfLine)
    );
    assert_eq!(
        parse_line_0(&mut Scanner::new("WRITE")),
        Err(ParseError::EndOfLine)
    );
    assert_eq!(
        parse_line_0(&mut Scanner::new("PRINT  ")),
        Err(ParseError::EndOfLine)
    );
}

#[test]
fn words_after_a_plain_directive_are_passed_over() {
    assert_eq!(
        parse_line_0_or_panic("STEP and more"),
        Line0::Meta(Meta::Step)
    );
}

#[test]
fn unknown_bfc_statement_is_refused() {
    assert_eq!(
        parse_line_0(&mut Scanner::new("BFC SOMETHING ELSE")),
        Err(ParseError::InvalidBfcStatement("SOMETHING ELSE".into()))
    );
    assert_eq!(
        parse_line_0(&mut Scanner::new("BFC CLIP  CW")),
        Err(ParseError::InvalidBfcStatement("CLIP  CW".into()))
    );
    assert_eq!(
        parse_line_0(&mut Scanner::new("BFC")),
        Err(ParseError::EndOfLine)
    );
    assert_eq!(
        parse_bfc_statement(&mut Scanner::new("cw")),
        Err(ParseError::InvalidBfcStatement("cw".into()))
    );
}

#[test]
fn bfc_statement_reads_to_the_end_of_the_line() {
    let mut scanner = Scanner::new("  NOCLIP  ");
    assert_eq!(
        parse_bfc_statement(&mut scanner),
        Ok(Line0::Meta(Meta::Bfc(BfcStatement::NoClip)))
    );
    assert_eq!(scanner.remaining(), "");
}
