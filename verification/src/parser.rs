use vstd::prelude::*;
use crate::color::{MaterialRegistry, MaterialView};
use crate::document::{
    BfcCertification, Document, DocumentView, MultipartDocument, MultipartDocumentView, Subparts,
};
use crate::elements::{alias_key, Command, CommandView, Header, Meta, MetaView, PartAlias};
use crate::error::{
    agrees, DocumentParseError, DocumentParseErrorView, ParseError, ParseErrorView,
};
use crate::lexer::{chars_of, next_token, rest_of, token_of, Scanner};
use crate::line::{
    line_0_of, line_1_of, line_2_of, line_3_of, line_4_of, line_5_of, parse_line_0, parse_line_1,
    parse_line_2, parse_line_3, parse_line_4, parse_line_5, spells, Line0, Line0View,
};

verus! {

/// What one line does to the document that is being read.
pub enum Step {
    /// The document goes on, as given.
    Continue(DocumentView),
    /// The document ends before this line, which names the one that
    /// follows.
    Boundary(Seq<char>),
    /// The line cannot be read.
    Fail(ParseErrorView),
}

/// The document `doc` with `command` behind its commands.
pub open spec fn with_command(doc: DocumentView, command: CommandView) -> DocumentView {
    DocumentView { commands: doc.commands.push(command), ..doc }
}

/// What a line of type 0 that says `line` does to `doc`. A certification, a
/// name and an author take the place of what was there. A header joins the
/// headers. The first comment while there is no description becomes the
/// description; every other meta line joins the commands. A `FILE` line is
/// refused where sub-models are not allowed; where they are, it is passed
/// over while there is no description, and ends the document after that.
pub open spec fn meta_step(doc: DocumentView, line: Line0View, multipart: bool) -> Step {
    match line {
        Line0View::BfcCertification(bfc) => Step::Continue(DocumentView { bfc, ..doc }),
        Line0View::File(name) => if !multipart {
            Step::Fail(ParseErrorView::MultipartDocument)
        } else if doc.description.len() > 0 {
            Step::Boundary(name)
        } else {
            Step::Continue(doc)
        },
        Line0View::Name(name) => Step::Continue(DocumentView { name, ..doc }),
        Line0View::Author(author) => Step::Continue(DocumentView { author, ..doc }),
        Line0View::Meta(MetaView::Comment(text)) => if doc.description.len() == 0 {
            Step::Continue(DocumentView { description: text, ..doc })
        } else {
            Step::Continue(with_command(doc, CommandView::Meta(MetaView::Comment(text))))
        },
        Line0View::Meta(meta) => Step::Continue(with_command(doc, CommandView::Meta(meta))),
        Line0View::Header(header) => Step::Continue(
            DocumentView { headers: doc.headers.push(header), ..doc },
        ),
    }
}

/// What an element does to `doc`: it joins the commands, or the line fails
/// with the element's error.
pub open spec fn element_step<T>(
    doc: DocumentView,
    element: Result<T, ParseErrorView>,
    command: spec_fn(T) -> CommandView,
) -> Step {
    match element {
        Ok(v) => Step::Continue(with_command(doc, command(v))),
        Err(e) => Step::Fail(e),
    }
}

/// What the line `line` does to `doc`. A line without a token does nothing.
/// Else the first token is the type of the line, one of 0 to 5, and the
/// rest is read as that type asks.
pub open spec fn line_step(
    palette: Map<u32, MaterialView>,
    doc: DocumentView,
    line: Seq<char>,
    multipart: bool,
) -> Step {
    match token_of(line, false) {
        Err(_) => Step::Continue(doc),
        Ok(kind) => {
            let rest = rest_of(line, false);
            if kind == "0"@ {
                match line_0_of(rest) {
                    Ok(said) => meta_step(doc, said, multipart),
                    Err(e) => Step::Fail(e),
                }
            } else if kind == "1"@ {
                element_step(doc, line_1_of(palette, rest).value, |v| CommandView::PartReference(v))
            } else if kind == "2"@ {
                element_step(doc, line_2_of(palette, rest).value, |v| CommandView::Line(v))
            } else if kind == "3"@ {
                element_step(doc, line_3_of(palette, rest).value, |v| CommandView::Triangle(v))
            } else if kind == "4"@ {
                element_step(doc, line_4_of(palette, rest).value, |v| CommandView::Quad(v))
            } else if kind == "5"@ {
                element_step(doc, line_5_of(palette, rest).value, |v| CommandView::OptionalLine(v))
            } else {
                Step::Fail(ParseErrorView::UnexpectedCommand(kind))
            }
        },
    }
}

/// How the reading of one document ends.
pub struct Assembly {
    /// The document, with the name of the one that follows it where a
    /// `FILE` line ended it; or the first line that could not be read.
    pub value: Result<(DocumentView, Option<Seq<char>>), DocumentParseErrorView>,
    /// How many of the lines are read.
    pub next: int,
}

/// The document that holds nothing yet.
pub open spec fn empty_document() -> DocumentView {
    DocumentView {
        name: Seq::empty(),
        description: Seq::empty(),
        author: Seq::empty(),
        bfc: BfcCertification::NotApplicable,
        headers: Seq::empty(),
        commands: Seq::empty(),
    }
}

/// How reading goes on from the line of index `at` with the document `doc`
/// read so far: line by line, until the lines end, one of them ends the
/// document, or one cannot be read.
pub open spec fn assemble(
    palette: Map<u32, MaterialView>,
    lines: Seq<Seq<char>>,
    at: int,
    doc: DocumentView,
    multipart: bool,
) -> Assembly
    decreases lines.len() - at,
{
    if at < 0 || at >= lines.len() {
        Assembly { value: Ok((doc, None)), next: lines.len() as int }
    } else {
        match line_step(palette, doc, lines[at], multipart) {
            Step::Continue(next) => assemble(palette, lines, at + 1, next, multipart),
            Step::Boundary(name) => Assembly { value: Ok((doc, Some(name))), next: at + 1 },
            Step::Fail(error) => Assembly {
                value: Err(DocumentParseErrorView { line: at + 1, error }),
                next: at + 1,
            },
        }
    }
}

/// The document that is read from the line of index `at` on.
pub open spec fn document_from(
    palette: Map<u32, MaterialView>,
    lines: Seq<Seq<char>>,
    at: int,
    multipart: bool,
) -> Assembly {
    assemble(palette, lines, at, empty_document(), multipart)
}

/// The characters of the text `text`, where there is one.
pub open spec fn text_of(text: Option<String>) -> Option<Seq<char>> {
    match text {
        Some(t) => Some(t@),
        None => None,
    }
}

/// The texts of the lines `lines`.
pub open spec fn texts(lines: Seq<String>) -> Seq<Seq<char>> {
    lines.map_values(|l: String| l@)
}

/// Reading stops behind the line that ended it, and never before the line
/// it began at.
pub proof fn lemma_assemble_next(
    palette: Map<u32, MaterialView>,
    lines: Seq<Seq<char>>,
    at: int,
    doc: DocumentView,
    multipart: bool,
)
    requires
        0 <= at <= lines.len(),
    ensures
        at <= assemble(palette, lines, at, doc, multipart).next <= lines.len(),
        assemble(palette, lines, at, doc, multipart).value matches Ok((_, Some(_))) ==> at
            < assemble(palette, lines, at, doc, multipart).next,
    decreases lines.len() - at,
{
    if at < lines.len() {
        match line_step(palette, doc, lines[at], multipart) {
            Step::Continue(next) => {
                lemma_assemble_next(palette, lines, at + 1, next, multipart);
            },
            _ => {},
        }
    }
}

/// Reads one document from the lines `lines`, beginning with the line of
/// index `start`. Gives the document, the name that a `FILE` line announced
/// for the next one, and the index of the first line behind those read.
/// Lines are counted from one in errors.
pub fn parse_inner(
    materials: &MaterialRegistry,
    lines: &[String],
    start: usize,
    multipart: bool,
) -> (r: Result<(Document, Option<String>, usize), DocumentParseError>)
    ensures
        match r {
            Ok((doc, next, end)) => {
                &&& document_from(materials@, texts(lines@), start as int, multipart).value == Ok::<
                    (DocumentView, Option<Seq<char>>),
                    DocumentParseErrorView,
                >((doc@, text_of(next)))
                &&& document_from(materials@, texts(lines@), start as int, multipart).next == end
                &&& end <= lines@.len()
                &&& start <= lines@.len() ==> start <= end
            },
            Err(e) => document_from(materials@, texts(lines@), start as int, multipart).value == Err::<
                (DocumentView, Option<Seq<char>>),
                DocumentParseErrorView,
            >(e@),
        },
{
    let ghost all = texts(lines@);
    let ghost goal = assemble(materials@, all, start as int, empty_document(), multipart);
    let mut name = String::new();
    let mut author = String::new();
    let mut description = String::new();
    let mut bfc = BfcCertification::NotApplicable;
    let mut commands: Vec<Command> = Vec::new();
    let mut headers: Vec<Header> = Vec::new();
    let mut i = if start < lines.len() {
        start
    } else {
        lines.len()
    };
    proof {
        assert(headers@.map_values(|h: Header| h@) =~= Seq::empty());
        assert(commands@.map_values(|c: Command| c@) =~= Seq::empty());
    }
    while i < lines.len()
        invariant
            i <= lines@.len(),
            start <= lines@.len() ==> start <= i,
            all == texts(lines@),
            goal == assemble(materials@, all, start as int, empty_document(), multipart),
            goal == assemble(
                materials@,
                all,
                i as int,
                DocumentView {
                    name: name@,
                    description: description@,
                    author: author@,
                    bfc,
                    headers: headers@.map_values(|h: Header| h@),
                    commands: commands@.map_values(|c: Command| c@),
                },
                multipart,
            ),
        decreases lines@.len() - i,
    {
        let ghost doc = DocumentView {
            name: name@,
            description: description@,
            author: author@,
            bfc,
            headers: headers@.map_values(|h: Header| h@),
            commands: commands@.map_values(|c: Command| c@),
        };
        let ghost old_commands = commands@;
        let ghost old_headers = headers@;
        assert(all[i as int] == lines@[i as int]@);
        let mut it = Scanner::new(lines[i].as_str());
        let added: Option<Command> = match next_token(&mut it, false) {
            Err(_) => None,
            Ok(token) => {
                let kind = chars_of(token.as_str());
                if spells(&kind, "0") {
                    match parse_line_0(&mut it) {
                        Err(e) => {
                            return Err(DocumentParseError { line: i + 1, error: e });
                        },
                        Ok(Line0::BfcCertification(certification)) => {
                            bfc = certification;
                            None
                        },
                        Ok(Line0::File(file)) => {
                            if !multipart {
                                return Err(
                                    DocumentParseError {
                                        line: i + 1,
                                        error: ParseError::MultipartDocument,
                                    },
                                );
                            }
                            if !description.as_str().is_empty() {
                                return Ok(
                                    (
                                        Document { name, description, author, bfc, headers, commands },
                                        Some(file),
                                        i + 1,
                                    ),
                                );
                            }
                            None
                        },
                        Ok(Line0::Name(text)) => {
                            name = text;
                            None
                        },
                        Ok(Line0::Author(text)) => {
                            author = text;
                            None
                        },
                        Ok(Line0::Meta(Meta::Comment(text))) => {
                            if description.as_str().is_empty() {
                                description = text;
                                None
                            } else {
                                Some(Command::Meta(Meta::Comment(text)))
                            }
                        },
                        Ok(Line0::Meta(meta)) => Some(Command::Meta(meta)),
                        Ok(Line0::Header(header)) => {
                            headers.push(header);
                            assert(headers@.map_values(|h: Header| h@) =~= old_headers.map_values(
                                |h: Header| h@,
                            ).push(header@));
                            None
                        },
                    }
                } else if spells(&kind, "1") {
                    match parse_line_1(materials, &mut it) {
                        Ok(v) => Some(Command::PartReference(v)),
                        Err(e) => {
                            return Err(DocumentParseError { line: i + 1, error: e });
                        },
                    }
                } else if spells(&kind, "2") {
                    match parse_line_2(materials, &mut it) {
                        Ok(v) => Some(Command::Line(v)),
                        Err(e) => {
                            return Err(DocumentParseError { line: i + 1, error: e });
                        },
                    }
                } else if spells(&kind, "3") {
                    match parse_line_3(materials, &mut it) {
                        Ok(v) => Some(Command::Triangle(v)),
                        Err(e) => {
                            return Err(DocumentParseError { line: i + 1, error: e });
                        },
                    }
                } else if spells(&kind, "4") {
                    match parse_line_4(materials, &mut it) {
                        Ok(v) => Some(Command::Quad(v)),
                        Err(e) => {
                            return Err(DocumentParseError { line: i + 1, error: e });
                        },
                    }
                } else if spells(&kind, "5") {
                    match parse_line_5(materials, &mut it) {
                        Ok(v) => Some(Command::OptionalLine(v)),
                        Err(e) => {
                            return Err(DocumentParseError { line: i + 1, error: e });
                        },
                    }
                } else {
                    return Err(
                        DocumentParseError { line: i + 1, error: ParseError::UnexpectedCommand(token) },
                    );
                }
            },
        };
        match added {
            Some(command) => {
                commands.push(command);
                assert(commands@.map_values(|c: Command| c@) =~= old_commands.map_values(
                    |c: Command| c@,
                ).push(command@));
            },
            None => {},
        }
        i += 1;
    }
    Ok((Document { name, description, author, bfc, headers, commands }, None, i))
}

/// The document that the lines `lines` hold where they may hold only one.
pub open spec fn single_document_of(palette: Map<u32, MaterialView>, lines: Seq<Seq<char>>) -> Result<
    DocumentView,
    DocumentParseErrorView,
> {
    match document_from(palette, lines, 0, false).value {
        Ok((doc, _)) => Ok(doc),
        Err(e) => Err(e),
    }
}

/// Reads the lines `lines` as one document. A `FILE` line is an error.
pub fn parse_single_document(materials: &MaterialRegistry, lines: &[String]) -> (r: Result<
    Document,
    DocumentParseError,
>)
    ensures
        agrees(r, single_document_of(materials@, texts(lines@))),
{
    match parse_inner(materials, lines, 0, false) {
        Ok((document, _, _)) => Ok(document),
        Err(e) => Err(e),
    }
}

/// The sub-models that the lines from index `at` on add to `parts`, the
/// first of them under the key of the name `name` that the line before
/// `at` announced, each later one under the key of the name that ended the
/// one before it.
pub open spec fn subparts_from(
    palette: Map<u32, MaterialView>,
    lines: Seq<Seq<char>>,
    at: int,
    name: Seq<char>,
    parts: Map<Seq<char>, DocumentView>,
) -> Result<Map<Seq<char>, DocumentView>, DocumentParseErrorView>
    decreases lines.len() - at,
    when 0 <= at <= lines.len()
{
    let part = document_from(palette, lines, at, true);
    match part.value {
        Err(e) => Err(e),
        Ok((doc, following)) => {
            let parts = parts.insert(alias_key(name), doc);
            match following {
                None => Ok(parts),
                Some(next) => {
                    proof {
                        lemma_assemble_next(palette, lines, at, empty_document(), true);
                    }
                    subparts_from(palette, lines, part.next, next, parts)
                },
            }
        },
    }
}

/// The file that the lines `lines` hold: its first document, and the
/// sub-models that follow it.
pub open spec fn multipart_document_of(palette: Map<u32, MaterialView>, lines: Seq<Seq<char>>) -> Result<
    MultipartDocumentView,
    DocumentParseErrorView,
> {
    let first = document_from(palette, lines, 0, true);
    match first.value {
        Err(e) => Err(e),
        Ok((body, following)) => match following {
            None => Ok(MultipartDocumentView { body, subparts: Map::empty() }),
            Some(name) => match subparts_from(palette, lines, first.next, name, Map::empty()) {
                Ok(subparts) => Ok(MultipartDocumentView { body, subparts }),
                Err(e) => Err(e),
            },
        },
    }
}

/// Reads the lines `lines` as a file of several models. The first document
/// is the body. Each `FILE` line behind its description ends a document and
/// names the next, which is kept under the key of that name; a later one
/// of the same key takes the place of an earlier one.
pub fn parse_multipart_document(materials: &MaterialRegistry, lines: &[String]) -> (r: Result<
    MultipartDocument,
    DocumentParseError,
>)
    ensures
        agrees(r, multipart_document_of(materials@, texts(lines@))),
{
    let ghost all = texts(lines@);
    let (body, mut next, mut at) = parse_inner(materials, lines, 0, true)?;
    let mut subparts = Subparts::new();
    proof {
        lemma_assemble_next(materials@, all, 0, empty_document(), true);
    }
    while next.is_some()
        invariant
            at <= lines@.len(),
            all == texts(lines@),
            match next {
                Some(name) => match subparts_from(materials@, all, at as int, name@, subparts@) {
                    Ok(parts) => multipart_document_of(materials@, all) == Ok::<
                        MultipartDocumentView,
                        DocumentParseErrorView,
                    >(MultipartDocumentView { body: body@, subparts: parts }),
                    Err(e) => multipart_document_of(materials@, all) == Err::<
                        MultipartDocumentView,
                        DocumentParseErrorView,
                    >(e),
                },
                None => multipart_document_of(materials@, all) == Ok::<
                    MultipartDocumentView,
                    DocumentParseErrorView,
                >(MultipartDocumentView { body: body@, subparts: subparts@ }),
            },
        decreases lines@.len() - at + (if next is Some { 1int } else { 0int }),
    {
        let name = next.unwrap();
        proof {
            lemma_assemble_next(materials@, all, at as int, empty_document(), true);
        }
        let (part, following, end) = parse_inner(materials, lines, at, true)?;
        subparts.insert(PartAlias::new(name), part);
        next = following;
        at = end;
    }
    Ok(MultipartDocument { body, subparts })
}

} // verus!
