use vstd::prelude::*;
use crate::color::{ColorReference, ColorReferenceView};
use crate::lexer::chars_of;
use crate::scalar::Scalar;
use crate::text::lowercase_of;

verus! {

/// The sense in which the corners of a face are listed.
#[derive(Debug, Clone, Copy, PartialEq, Eq, Structural)]
pub enum Winding {
    Ccw,
    Cw,
}

/// A back-face culling statement; it holds for the elements that follow it.
#[derive(Debug, Clone, Copy, PartialEq, Eq, Structural)]
pub enum BfcStatement {
    Winding(Winding),
    Clip(Option<Winding>),
    NoClip,
    InvertNext,
}

/// A header line: its key, written behind `!`, and its value.
#[derive(Debug, PartialEq, Eq)]
pub struct Header(pub String, pub String);

/// The mathematical value of a [`Header`].
pub struct HeaderView {
    pub key: Seq<char>,
    pub value: Seq<char>,
}

impl View for Header {
    type V = HeaderView;

    open spec fn view(&self) -> HeaderView {
        HeaderView { key: self.0@, value: self.1@ }
    }
}

/// A meta line that stays in the document as one of its commands.
#[derive(Debug, PartialEq, Eq)]
pub enum Meta {
    Comment(String),
    Step,
    Write(String),
    Print(String),
    Clear,
    Pause,
    Save,
    Bfc(BfcStatement),
}

/// The mathematical value of a [`Meta`].
pub enum MetaView {
    Comment(Seq<char>),
    Step,
    Write(Seq<char>),
    Print(Seq<char>),
    Clear,
    Pause,
    Save,
    Bfc(BfcStatement),
}

impl View for Meta {
    type V = MetaView;

    open spec fn view(&self) -> MetaView {
        match self {
            Meta::Comment(text) => MetaView::Comment(text@),
            Meta::Step => MetaView::Step,
            Meta::Write(text) => MetaView::Write(text@),
            Meta::Print(text) => MetaView::Print(text@),
            Meta::Clear => MetaView::Clear,
            Meta::Pause => MetaView::Pause,
            Meta::Save => MetaView::Save,
            Meta::Bfc(statement) => MetaView::Bfc(*statement),
        }
    }
}

/// A point or a column of a matrix, in homogeneous coordinates.
#[derive(Debug, PartialEq, Eq)]
pub struct Vector4 {
    pub x: Scalar,
    pub y: Scalar,
    pub z: Scalar,
    pub w: Scalar,
}

/// The mathematical value of a [`Vector4`].
pub struct Vector4View {
    pub x: Seq<char>,
    pub y: Seq<char>,
    pub z: Seq<char>,
    pub w: Seq<char>,
}

impl View for Vector4 {
    type V = Vector4View;

    open spec fn view(&self) -> Vector4View {
        Vector4View { x: self.x@, y: self.y@, z: self.z@, w: self.w@ }
    }
}

impl Clone for Vector4 {
    fn clone(&self) -> (r: Self)
        ensures
            r@ == self@,
    {
        Vector4 { x: self.x.clone(), y: self.y.clone(), z: self.z.clone(), w: self.w.clone() }
    }
}

impl Vector4 {
    pub fn new(x: Scalar, y: Scalar, z: Scalar, w: Scalar) -> (r: Vector4)
        ensures
            r == (Vector4 { x, y, z, w }),
    {
        Vector4 { x, y, z, w }
    }
}

/// A matrix of four rows and four columns, held by its columns.
#[derive(Debug, PartialEq, Eq)]
pub struct Matrix4 {
    pub x: Vector4,
    pub y: Vector4,
    pub z: Vector4,
    pub w: Vector4,
}

/// The mathematical value of a [`Matrix4`].
pub struct Matrix4View {
    pub x: Vector4View,
    pub y: Vector4View,
    pub z: Vector4View,
    pub w: Vector4View,
}

impl View for Matrix4 {
    type V = Matrix4View;

    open spec fn view(&self) -> Matrix4View {
        Matrix4View { x: self.x@, y: self.y@, z: self.z@, w: self.w@ }
    }
}

impl Clone for Matrix4 {
    fn clone(&self) -> (r: Self)
        ensures
            r@ == self@,
    {
        Matrix4 { x: self.x.clone(), y: self.y.clone(), z: self.z.clone(), w: self.w.clone() }
    }
}

/// The character that stands for `c` in the key of a model name: a slash
/// for a backslash, else `c` itself.
pub open spec fn slashed(c: char) -> char {
    if c == '\\' {
        '/'
    } else {
        c
    }
}

/// The key under which a model of the name `name` is kept and found: the
/// name in lower case, with slashes for its backslashes.
pub open spec fn alias_key(name: Seq<char>) -> Seq<char> {
    lowercase_of(name).map_values(|c: char| slashed(c))
}

/// The name of a model, as written, together with the key that it is found
/// by. Two names with one key name the same model.
#[derive(Debug)]
pub struct PartAlias {
    normalized: String,
    original: String,
}

impl View for PartAlias {
    type V = Seq<char>;

    /// The name as it was written.
    closed spec fn view(&self) -> Seq<char> {
        self.original@
    }
}

impl Clone for PartAlias {
    fn clone(&self) -> (r: Self)
        ensures
            r@ == self@,
    {
        proof {
            use_type_invariant(self);
        }
        PartAlias { normalized: self.normalized.clone(), original: self.original.clone() }
    }
}

impl PartAlias {
    #[verifier::type_invariant]
    spec fn inv(self) -> bool {
        self.normalized@ == alias_key(self.original@)
    }

    /// The key of the name `name`.
    pub fn normalize(name: &str) -> (r: String)
        ensures
            r@ == alias_key(name@),
    {
        let lower = name.to_lowercase();
        let chars = chars_of(lower.as_str());
        let mut key = String::new();
        let mut i: usize = 0;
        while i < chars.len()
            invariant
                i <= chars@.len(),
                key@ == chars@.subrange(0, i as int).map_values(|c: char| slashed(c)),
            decreases chars@.len() - i,
        {
            let c = chars[i];
            key.push(
                if c == '\\' {
                    '/'
                } else {
                    c
                },
            );
            i += 1;
            assert(key@ =~= chars@.subrange(0, i as int).map_values(|c: char| slashed(c)));
        }
        assert(chars@.subrange(0, i as int) =~= chars@);
        key
    }

    /// The model name `name`.
    pub fn new(name: String) -> (r: PartAlias)
        ensures
            r@ == name@,
    {
        PartAlias { normalized: PartAlias::normalize(name.as_str()), original: name }
    }

    /// The key of the name.
    pub fn normalized(&self) -> (r: &str)
        ensures
            r@ == alias_key(self@),
    {
        proof {
            use_type_invariant(self);
        }
        self.normalized.as_str()
    }

    /// The name as it was written.
    pub fn original(&self) -> (r: &str)
        ensures
            r@ == self@,
    {
        self.original.as_str()
    }

    /// Whether the two names have one key.
    pub fn same_as(&self, other: &PartAlias) -> (r: bool)
        ensures
            r == (alias_key(self@) == alias_key(other@)),
    {
        proof {
            use_type_invariant(self);
            use_type_invariant(other);
        }
        self.normalized == other.normalized
    }
}

/// Whether the two names were given one key.
pub closed spec fn same_key(a: &PartAlias, b: &PartAlias) -> bool {
    a.normalized@ == b.normalized@
}

impl PartialEq for PartAlias {
    fn eq(&self, other: &PartAlias) -> (r: bool) {
        self.normalized == other.normalized
    }
}

impl vstd::std_specs::cmp::PartialEqSpecImpl for PartAlias {
    open spec fn obeys_eq_spec() -> bool {
        true
    }

    open spec fn eq_spec(&self, other: &PartAlias) -> bool {
        same_key(self, other)
    }
}

impl Eq for PartAlias {

}

/// A reference to another model, placed by a matrix.
#[derive(Debug, PartialEq, Eq)]
pub struct PartReference {
    pub color: ColorReference,
    pub matrix: Matrix4,
    pub name: PartAlias,
}

/// The mathematical value of a [`PartReference`].
pub struct PartReferenceView {
    pub color: ColorReferenceView,
    pub matrix: Matrix4View,
    pub name: Seq<char>,
}

impl View for PartReference {
    type V = PartReferenceView;

    open spec fn view(&self) -> PartReferenceView {
        PartReferenceView { color: self.color@, matrix: self.matrix@, name: self.name@ }
    }
}

/// A line segment between two points.
#[derive(Debug, PartialEq, Eq)]
pub struct Line {
    pub color: ColorReference,
    pub a: Vector4,
    pub b: Vector4,
}

/// The mathematical value of a [`Line`].
pub struct LineView {
    pub color: ColorReferenceView,
    pub a: Vector4View,
    pub b: Vector4View,
}

impl View for Line {
    type V = LineView;

    open spec fn view(&self) -> LineView {
        LineView { color: self.color@, a: self.a@, b: self.b@ }
    }
}

/// A triangle.
#[derive(Debug, PartialEq, Eq)]
pub struct Triangle {
    pub color: ColorReference,
    pub a: Vector4,
    pub b: Vector4,
    pub c: Vector4,
}

/// The mathematical value of a [`Triangle`].
pub struct TriangleView {
    pub color: ColorReferenceView,
    pub a: Vector4View,
    pub b: Vector4View,
    pub c: Vector4View,
}

impl View for Triangle {
    type V = TriangleView;

    open spec fn view(&self) -> TriangleView {
        TriangleView { color: self.color@, a: self.a@, b: self.b@, c: self.c@ }
    }
}

/// A quadrilateral.
#[derive(Debug, PartialEq, Eq)]
pub struct Quad {
    pub color: ColorReference,
    pub a: Vector4,
    pub b: Vector4,
    pub c: Vector4,
    pub d: Vector4,
}

/// The mathematical value of a [`Quad`].
pub struct QuadView {
    pub color: ColorReferenceView,
    pub a: Vector4View,
    pub b: Vector4View,
    pub c: Vector4View,
    pub d: Vector4View,
}

impl View for Quad {
    type V = QuadView;

    open spec fn view(&self) -> QuadView {
        QuadView { color: self.color@, a: self.a@, b: self.b@, c: self.c@, d: self.d@ }
    }
}

/// A line that is drawn only where it is an outline: the segment from `a`
/// to `b`, and the two control points `c` and `d` that decide it.
#[derive(Debug, PartialEq, Eq)]
pub struct OptionalLine {
    pub color: ColorReference,
    pub a: Vector4,
    pub b: Vector4,
    pub c: Vector4,
    pub d: Vector4,
}

/// The mathematical value of an [`OptionalLine`].
pub struct OptionalLineView {
    pub color: ColorReferenceView,
    pub a: Vector4View,
    pub b: Vector4View,
    pub c: Vector4View,
    pub d: Vector4View,
}

impl View for OptionalLine {
    type V = OptionalLineView;

    open spec fn view(&self) -> OptionalLineView {
        OptionalLineView { color: self.color@, a: self.a@, b: self.b@, c: self.c@, d: self.d@ }
    }
}

/// One command of a document: a meta line or an element.
#[derive(Debug, PartialEq, Eq)]
pub enum Command {
    Meta(Meta),
    PartReference(PartReference),
    Line(Line),
    Triangle(Triangle),
    Quad(Quad),
    OptionalLine(OptionalLine),
}

/// The mathematical value of a [`Command`].
pub enum CommandView {
    Meta(MetaView),
    PartReference(PartReferenceView),
    Line(LineView),
    Triangle(TriangleView),
    Quad(QuadView),
    OptionalLine(OptionalLineView),
}

impl View for Command {
    type V = CommandView;

    open spec fn view(&self) -> CommandView {
        match self {
            Command::Meta(m) => CommandView::Meta(m@),
            Command::PartReference(p) => CommandView::PartReference(p@),
            Command::Line(l) => CommandView::Line(l@),
            Command::Triangle(t) => CommandView::Triangle(t@),
            Command::Quad(q) => CommandView::Quad(q@),
            Command::OptionalLine(o) => CommandView::OptionalLine(o@),
        }
    }
}

} // verus!
