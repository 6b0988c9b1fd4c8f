use std::collections::HashMap;
use vstd::prelude::*;
use crate::scalar::Scalar;

verus! {

/// A colour of four channels of eight bits.
#[derive(Debug, Clone, Copy, PartialEq, Eq, Structural)]
pub struct Rgba {
    pub red: u8,
    pub green: u8,
    pub blue: u8,
    pub alpha: u8,
}

impl Rgba {
    pub fn new(red: u8, green: u8, blue: u8, alpha: u8) -> (r: Rgba)
        ensures
            r == (Rgba { red, green, blue, alpha }),
    {
        Rgba { red, green, blue, alpha }
    }

    pub fn red(&self) -> (r: u8)
        ensures
            r == self.red,
    {
        self.red
    }

    pub fn green(&self) -> (r: u8)
        ensures
            r == self.green,
    {
        self.green
    }

    pub fn blue(&self) -> (r: u8)
        ensures
            r == self.blue,
    {
        self.blue
    }

    pub fn alpha(&self) -> (r: u8)
        ensures
            r == self.alpha,
    {
        self.alpha
    }
}

/// Glitter in a material: particles of one colour strewn through it.
#[derive(Debug, PartialEq, Eq)]
pub struct MaterialGlitter {
    pub value: Rgba,
    pub luminance: u8,
    pub fraction: Scalar,
    pub vfraction: Scalar,
    pub size: u32,
    pub minsize: Scalar,
    pub maxsize: Scalar,
}

/// The mathematical value of a [`MaterialGlitter`].
pub struct MaterialGlitterView {
    pub value: Rgba,
    pub luminance: u8,
    pub fraction: Seq<char>,
    pub vfraction: Seq<char>,
    pub size: u32,
    pub minsize: Seq<char>,
    pub maxsize: Seq<char>,
}

impl View for MaterialGlitter {
    type V = MaterialGlitterView;

    open spec fn view(&self) -> MaterialGlitterView {
        MaterialGlitterView {
            value: self.value,
            luminance: self.luminance,
            fraction: self.fraction@,
            vfraction: self.vfraction@,
            size: self.size,
            minsize: self.minsize@,
            maxsize: self.maxsize@,
        }
    }
}

impl Clone for MaterialGlitter {
    fn clone(&self) -> (r: Self)
        ensures
            r@ == self@,
    {
        MaterialGlitter {
            value: self.value,
            luminance: self.luminance,
            fraction: self.fraction.clone(),
            vfraction: self.vfraction.clone(),
            size: self.size,
            minsize: self.minsize.clone(),
            maxsize: self.maxsize.clone(),
        }
    }
}

/// Speckle in a material: grains of one colour on its surface.
#[derive(Debug, PartialEq, Eq)]
pub struct MaterialSpeckle {
    pub value: Rgba,
    pub luminance: u8,
    pub fraction: Scalar,
    pub size: u32,
    pub minsize: Scalar,
    pub maxsize: Scalar,
}

/// The mathematical value of a [`MaterialSpeckle`].
pub struct MaterialSpeckleView {
    pub value: Rgba,
    pub luminance: u8,
    pub fraction: Seq<char>,
    pub size: u32,
    pub minsize: Seq<char>,
    pub maxsize: Seq<char>,
}

impl View for MaterialSpeckle {
    type V = MaterialSpeckleView;

    open spec fn view(&self) -> MaterialSpeckleView {
        MaterialSpeckleView {
            value: self.value,
            luminance: self.luminance,
            fraction: self.fraction@,
            size: self.size,
            minsize: self.minsize@,
            maxsize: self.maxsize@,
        }
    }
}

impl Clone for MaterialSpeckle {
    fn clone(&self) -> (r: Self)
        ensures
            r@ == self@,
    {
        MaterialSpeckle {
            value: self.value,
            luminance: self.luminance,
            fraction: self.fraction.clone(),
            size: self.size,
            minsize: self.minsize.clone(),
            maxsize: self.maxsize.clone(),
        }
    }
}

/// A finish that a palette describes by its own parameters.
#[derive(Debug, PartialEq, Eq)]
pub enum CustomizedMaterial {
    Glitter(MaterialGlitter),
    Speckle(MaterialSpeckle),
}

/// The mathematical value of a [`CustomizedMaterial`].
pub enum CustomizedMaterialView {
    Glitter(MaterialGlitterView),
    Speckle(MaterialSpeckleView),
}

impl View for CustomizedMaterial {
    type V = CustomizedMaterialView;

    open spec fn view(&self) -> CustomizedMaterialView {
        match self {
            CustomizedMaterial::Glitter(g) => CustomizedMaterialView::Glitter(g@),
            CustomizedMaterial::Speckle(s) => CustomizedMaterialView::Speckle(s@),
        }
    }
}

impl Clone for CustomizedMaterial {
    fn clone(&self) -> (r: Self)
        ensures
            r@ == self@,
    {
        match self {
            CustomizedMaterial::Glitter(g) => CustomizedMaterial::Glitter(g.clone()),
            CustomizedMaterial::Speckle(s) => CustomizedMaterial::Speckle(s.clone()),
        }
    }
}

/// How the surface of a material is treated.
#[derive(Debug, PartialEq, Eq)]
pub enum Finish {
    Plain,
    Chrome,
    Pearlescent,
    Rubber,
    MatteMetallic,
    Metal,
    Custom(CustomizedMaterial),
}

/// The mathematical value of a [`Finish`].
pub enum FinishView {
    Plain,
    Chrome,
    Pearlescent,
    Rubber,
    MatteMetallic,
    Metal,
    Custom(CustomizedMaterialView),
}

impl View for Finish {
    type V = FinishView;

    open spec fn view(&self) -> FinishView {
        match self {
            Finish::Plain => FinishView::Plain,
            Finish::Chrome => FinishView::Chrome,
            Finish::Pearlescent => FinishView::Pearlescent,
            Finish::Rubber => FinishView::Rubber,
            Finish::MatteMetallic => FinishView::MatteMetallic,
            Finish::Metal => FinishView::Metal,
            Finish::Custom(c) => FinishView::Custom(c@),
        }
    }
}

impl Clone for Finish {
    fn clone(&self) -> (r: Self)
        ensures
            r@ == self@,
    {
        match self {
            Finish::Plain => Finish::Plain,
            Finish::Chrome => Finish::Chrome,
            Finish::Pearlescent => Finish::Pearlescent,
            Finish::Rubber => Finish::Rubber,
            Finish::MatteMetallic => Finish::MatteMetallic,
            Finish::Metal => Finish::Metal,
            Finish::Custom(c) => Finish::Custom(c.clone()),
        }
    }
}

/// One entry of a palette.
#[derive(Debug, PartialEq, Eq)]
pub struct Material {
    pub code: u32,
    pub name: String,
    pub color: Rgba,
    pub edge: Rgba,
    pub luminance: u8,
    pub finish: Finish,
}

/// The mathematical value of a [`Material`].
pub struct MaterialView {
    pub code: u32,
    pub name: Seq<char>,
    pub color: Rgba,
    pub edge: Rgba,
    pub luminance: u8,
    pub finish: FinishView,
}

impl View for Material {
    type V = MaterialView;

    open spec fn view(&self) -> MaterialView {
        MaterialView {
            code: self.code,
            name: self.name@,
            color: self.color,
            edge: self.edge,
            luminance: self.luminance,
            finish: self.finish@,
        }
    }
}

impl Clone for Material {
    fn clone(&self) -> (r: Self)
        ensures
            r@ == self@,
    {
        Material {
            code: self.code,
            name: self.name.clone(),
            color: self.color,
            edge: self.edge,
            luminance: self.luminance,
            finish: self.finish.clone(),
        }
    }
}

impl Material {
    /// Whether light passes through the material: its colour is not fully
    /// opaque.
    pub fn is_translucent(&self) -> (r: bool)
        ensures
            r == (self.color.alpha < 255),
    {
        self.color.alpha < 255
    }
}

/// Whether each material of `palette` stands under its own code.
pub open spec fn keyed_by_code(palette: Map<u32, MaterialView>) -> bool {
    forall|code: u32| #[trigger] palette.contains_key(code) ==> palette[code].code == code
}

/// A palette: the materials that colour codes stand for, each under its
/// own code.
#[derive(Debug, PartialEq, Eq)]
pub struct MaterialRegistry {
    materials: HashMap<u32, Material>,
}

impl View for MaterialRegistry {
    type V = Map<u32, MaterialView>;

    closed spec fn view(&self) -> Map<u32, MaterialView> {
        self.materials@.map_values(|m: Material| m@)
    }
}

impl MaterialRegistry {
    #[verifier::type_invariant]
    spec fn inv(self) -> bool {
        forall|code: u32| #[trigger]
            self.materials@.contains_key(code) ==> self.materials@[code].code == code
    }

    /// The empty palette.
    pub fn new() -> (r: MaterialRegistry)
        ensures
            r@ == Map::<u32, MaterialView>::empty(),
    {
        let r = MaterialRegistry { materials: HashMap::new() };
        assert(r@ =~= Map::<u32, MaterialView>::empty());
        r
    }

    /// Puts `material` under its code, in place of what stood there.
    pub fn insert(&mut self, material: Material)
        ensures
            final(self)@ == old(self)@.insert(material.code, material@),
    {
        proof {
            use_type_invariant(&*self);
        }
        let ghost before = self.materials@;
        let code = material.code;
        let mut materials: HashMap<u32, Material> = HashMap::new();
        std::mem::swap(&mut self.materials, &mut materials);
        materials.insert(code, material);
        std::mem::swap(&mut self.materials, &mut materials);
        assert(self@ =~= before.map_values(|m: Material| m@).insert(code, material@));
    }

    /// The material that stands under `code`.
    pub fn get(&self, code: u32) -> (r: Option<&Material>)
        ensures
            keyed_by_code(self@),
            match r {
                Some(material) => self@.contains_key(code) && self@[code] == material@,
                None => !self@.contains_key(code),
            },
    {
        proof {
            use_type_invariant(self);
        }
        self.materials.get(&code)
    }

    /// Whether a material stands under `code`.
    pub fn contains(&self, code: u32) -> (r: bool)
        ensures
            r == self@.contains_key(code),
    {
        self.materials.contains_key(&code)
    }

    /// How many materials the palette holds.
    pub fn len(&self) -> (r: usize)
        ensures
            r == self@.len(),
            self@.dom().finite(),
    {
        proof {
            assert(self@.dom() =~= self.materials@.dom());
        }
        self.materials.len()
    }

    pub fn is_empty(&self) -> (r: bool)
        ensures
            r == (self@.len() == 0),
            self@.dom().finite(),
    {
        self.len() == 0
    }
}

/// The colour of an element: what its colour code stands for.
#[derive(Debug, PartialEq, Eq)]
pub enum ColorReference {
    /// A code that the palette does not hold, kept as it was written: a
    /// colour given directly, or a placeholder that is left to the reader.
    Unresolved(u32),
    /// The material that the palette holds under the code.
    Material(Material),
}

/// The mathematical value of a [`ColorReference`].
pub enum ColorReferenceView {
    Unresolved(u32),
    Material(MaterialView),
}

impl View for ColorReference {
    type V = ColorReferenceView;

    open spec fn view(&self) -> ColorReferenceView {
        match self {
            ColorReference::Unresolved(code) => ColorReferenceView::Unresolved(*code),
            ColorReference::Material(m) => ColorReferenceView::Material(m@),
        }
    }
}

impl Clone for ColorReference {
    fn clone(&self) -> (r: Self)
        ensures
            r@ == self@,
    {
        match self {
            ColorReference::Unresolved(code) => ColorReference::Unresolved(*code),
            ColorReference::Material(m) => ColorReference::Material(m.clone()),
        }
    }
}

/// What `code` stands for in `palette`.
pub open spec fn resolve_color(code: u32, palette: Map<u32, MaterialView>) -> ColorReferenceView {
    if palette.contains_key(code) {
        ColorReferenceView::Material(palette[code])
    } else {
        ColorReferenceView::Unresolved(code)
    }
}

/// The code that a colour was written with.
pub open spec fn color_code(color: ColorReferenceView) -> u32 {
    match color {
        ColorReferenceView::Unresolved(code) => code,
        ColorReferenceView::Material(m) => m.code,
    }
}

impl ColorReference {
    /// The code that the colour was written with.
    pub fn code(&self) -> (r: u32)
        ensures
            r == color_code(self@),
    {
        match self {
            ColorReference::Unresolved(code) => *code,
            ColorReference::Material(m) => m.code,
        }
    }

    /// The material that an element of this colour is made of: the one that
    /// the colour stands for, or `inherited` where the colour is not
    /// resolved.
    pub fn material_or<'a>(&'a self, inherited: &'a Material) -> (r: &'a Material)
        ensures
            r@ == match self@ {
                ColorReferenceView::Material(m) => m,
                ColorReferenceView::Unresolved(_) => inherited@,
            },
    {
        match self {
            ColorReference::Material(m) => m,
            ColorReference::Unresolved(_) => inherited,
        }
    }

    /// What `code` stands for in `materials`: its material where the
    /// palette holds one, else the code itself. The palette stays as it is,
    /// and the colour found resolves to itself again.
    pub fn resolve(code: u32, materials: &MaterialRegistry) -> (r: ColorReference)
        ensures
            r@ == resolve_color(code, materials@),
            color_code(r@) == code,
            resolve_color(color_code(r@), materials@) == r@,
    {
        match materials.get(code) {
            Some(m) => ColorReference::Material(m.clone()),
            None => ColorReference::Unresolved(code),
        }
    }
}

} // verus!
