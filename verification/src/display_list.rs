use vstd::prelude::*;
use crate::color::{ColorReference, ColorReferenceView, Material, MaterialView, Rgba};
use crate::elements::{alias_key, Matrix4, Matrix4View, PartAlias};

verus! {

/// The placements of one model that are gathered for display: for each of
/// them the matrix that places it and the colour it is drawn in.
#[derive(Debug, PartialEq, Eq)]
pub struct DisplayItemBuilder {
    name: PartAlias,
    matrices: Vec<Matrix4>,
    colors: Vec<ColorReference>,
}

/// The mathematical value of a [`DisplayItemBuilder`].
pub struct DisplayItemBuilderView {
    pub name: Seq<char>,
    pub matrices: Seq<Matrix4View>,
    pub colors: Seq<ColorReferenceView>,
}

impl View for DisplayItemBuilder {
    type V = DisplayItemBuilderView;

    closed spec fn view(&self) -> DisplayItemBuilderView {
        DisplayItemBuilderView {
            name: self.name@,
            matrices: self.matrices@.map_values(|m: Matrix4| m@),
            colors: self.colors@.map_values(|c: ColorReference| c@),
        }
    }
}

impl DisplayItemBuilder {
    /// No placement yet of the model `name`.
    pub fn new(name: PartAlias) -> (r: Self)
        ensures
            r@ == (DisplayItemBuilderView {
                name: name@,
                matrices: Seq::empty(),
                colors: Seq::empty(),
            }),
    {
        let r = DisplayItemBuilder { name, matrices: Vec::new(), colors: Vec::new() };
        assert(r@.matrices =~= Seq::empty());
        assert(r@.colors =~= Seq::empty());
        r
    }

    /// The model that is placed.
    pub fn name(&self) -> (r: &PartAlias)
        ensures
            r@ == self@.name,
    {
        &self.name
    }

    /// How many placements are gathered.
    pub fn len(&self) -> (r: usize)
        ensures
            r == self@.matrices.len(),
    {
        self.matrices.len()
    }
}

/// The instances of one model that are drawn in one pass, side by side in
/// four lists: for each instance the matrix `M` that places it, its
/// material, and the colours of its faces and of its edges. What draws
/// them keeps its own copy and takes the lists anew when `modified` says
/// that they have changed.
#[derive(Debug)]
pub struct InstanceBuffer<M> {
    pub count: usize,
    pub model_view_matrices: Vec<M>,
    pub materials: Vec<Material>,
    pub colors: Vec<Rgba>,
    pub edge_colors: Vec<Rgba>,
    pub modified: bool,
}

/// The mathematical value of an [`InstanceBuffer`].
pub struct InstanceBufferView<M> {
    pub count: usize,
    pub model_view_matrices: Seq<M>,
    pub materials: Seq<MaterialView>,
    pub colors: Seq<Rgba>,
    pub edge_colors: Seq<Rgba>,
    pub modified: bool,
}

impl<M> View for InstanceBuffer<M> {
    type V = InstanceBufferView<M>;

    open spec fn view(&self) -> InstanceBufferView<M> {
        InstanceBufferView {
            count: self.count,
            model_view_matrices: self.model_view_matrices@,
            materials: self.materials@.map_values(|m: Material| m@),
            colors: self.colors@,
            edge_colors: self.edge_colors@,
            modified: self.modified,
        }
    }
}

/// The buffer without an instance, which nothing has changed yet.
pub open spec fn no_instances<M>() -> InstanceBufferView<M> {
    InstanceBufferView {
        count: 0,
        model_view_matrices: Seq::empty(),
        materials: Seq::empty(),
        colors: Seq::empty(),
        edge_colors: Seq::empty(),
        modified: false,
    }
}

/// The buffer `buffer` with one more instance, placed by `matrix` and made
/// of `material`.
pub open spec fn with_instance<M>(
    buffer: InstanceBufferView<M>,
    matrix: M,
    material: MaterialView,
) -> InstanceBufferView<M> {
    InstanceBufferView {
        count: (buffer.count + 1) as usize,
        model_view_matrices: buffer.model_view_matrices.push(matrix),
        materials: buffer.materials.push(material),
        colors: buffer.colors.push(material.color),
        edge_colors: buffer.edge_colors.push(material.edge),
        modified: true,
    }
}

/// The buffer that holds the first `n` of the matrices `matrices`, each
/// with the material of `materials` at its place, and counts `count`
/// instances.
pub open spec fn instances_of<M>(
    matrices: Seq<M>,
    materials: Seq<MaterialView>,
    n: int,
    count: usize,
) -> InstanceBufferView<M> {
    InstanceBufferView {
        count,
        model_view_matrices: matrices.take(n),
        materials: materials.take(n),
        colors: Seq::new(n as nat, |i: int| materials[i].color),
        edge_colors: Seq::new(n as nat, |i: int| materials[i].edge),
        modified: true,
    }
}

impl<M> InstanceBuffer<M> {
    /// A buffer without an instance.
    pub fn new() -> (r: Self)
        ensures
            r@ == no_instances::<M>(),
    {
        let r = InstanceBuffer {
            count: 0,
            model_view_matrices: Vec::new(),
            materials: Vec::new(),
            colors: Vec::new(),
            edge_colors: Vec::new(),
            modified: false,
        };
        assert(r@.materials =~= Seq::empty());
        r
    }

    /// Whether the buffer counts no instance.
    pub fn is_empty(&self) -> (r: bool)
        ensures
            r == (self.count == 0),
    {
        self.count == 0
    }
}

/// The instances of one model, those that light passes through apart from
/// those that are opaque.
#[derive(Debug)]
pub struct DisplayItem<M> {
    pub part: PartAlias,
    pub opaque: InstanceBuffer<M>,
    pub translucent: InstanceBuffer<M>,
}

/// The mathematical value of a [`DisplayItem`].
pub struct DisplayItemView<M> {
    pub part: Seq<char>,
    pub opaque: InstanceBufferView<M>,
    pub translucent: InstanceBufferView<M>,
}

impl<M> View for DisplayItem<M> {
    type V = DisplayItemView<M>;

    open spec fn view(&self) -> DisplayItemView<M> {
        DisplayItemView { part: self.part@, opaque: self.opaque@, translucent: self.translucent@ }
    }
}

/// The item `item` with one more instance, in the buffer that the opacity
/// of `material` asks for.
pub open spec fn item_with_instance<M>(
    item: DisplayItemView<M>,
    matrix: M,
    material: MaterialView,
) -> DisplayItemView<M> {
    if material.color.alpha < 255 {
        DisplayItemView { translucent: with_instance(item.translucent, matrix, material), ..item }
    } else {
        DisplayItemView { opaque: with_instance(item.opaque, matrix, material), ..item }
    }
}

/// Whether `item` can take one more instance of `material`: the count of
/// the buffer that it goes to can still grow.
pub open spec fn has_room<M>(item: DisplayItemView<M>, material: MaterialView) -> bool {
    if material.color.alpha < 255 {
        item.translucent.count < usize::MAX
    } else {
        item.opaque.count < usize::MAX
    }
}

/// The item of the model `part` without an instance.
pub open spec fn no_item<M>(part: Seq<char>) -> DisplayItemView<M> {
    DisplayItemView { part, opaque: no_instances(), translucent: no_instances() }
}

/// The item `item` with new instances in place of those of one buffer, the
/// opaque one where `opaque` says so: the matrices `matrices` and the
/// materials `materials` in pairs, as far as both reach, counted as the
/// matrices are.
pub open spec fn item_with_data<M>(
    item: DisplayItemView<M>,
    opaque: bool,
    matrices: Seq<M>,
    materials: Seq<MaterialView>,
) -> DisplayItemView<M> {
    let buffer = instances_of(
        matrices,
        materials,
        lesser(matrices.len(), materials.len()),
        matrices.len() as usize,
    );
    if opaque {
        DisplayItemView { opaque: buffer, ..item }
    } else {
        DisplayItemView { translucent: buffer, ..item }
    }
}

/// The item `item` with nothing marked as changed.
pub open spec fn item_unmodified<M>(item: DisplayItemView<M>) -> DisplayItemView<M> {
    DisplayItemView {
        opaque: InstanceBufferView { modified: false, ..item.opaque },
        translucent: InstanceBufferView { modified: false, ..item.translucent },
        ..item
    }
}

/// The lesser of two lengths.
pub open spec fn lesser(a: nat, b: nat) -> int {
    if a <= b {
        a as int
    } else {
        b as int
    }
}

impl<M: Copy> DisplayItem<M> {
    /// The item of the model `alias`, without an instance.
    pub fn new(alias: &PartAlias) -> (r: Self)
        ensures
            r@ == no_item::<M>(alias@),
    {
        DisplayItem {
            part: alias.clone(),
            opaque: InstanceBuffer::new(),
            translucent: InstanceBuffer::new(),
        }
    }

    /// Puts new instances in place of those of one buffer, the opaque one
    /// where `opaque` says so. The matrices and the materials are taken in
    /// pairs, as far as both reach; the count is that of the matrices.
    pub fn update_data(&mut self, opaque: bool, model_view_matrices: &[M], materials: &[Material])
        ensures
            final(self)@ == item_with_data(
                old(self)@,
                opaque,
                model_view_matrices@,
                materials@.map_values(|m: Material| m@),
            ),
    {
        let n = if model_view_matrices.len() <= materials.len() {
            model_view_matrices.len()
        } else {
            materials.len()
        };
        let ghost all = materials@.map_values(|m: Material| m@);
        let mut new_model_view_matrices: Vec<M> = Vec::new();
        let mut new_materials: Vec<Material> = Vec::new();
        let mut new_colors: Vec<Rgba> = Vec::new();
        let mut new_edge_colors: Vec<Rgba> = Vec::new();
        let mut i: usize = 0;
        while i < n
            invariant
                i <= n,
                n <= model_view_matrices@.len(),
                n <= materials@.len(),
                all == materials@.map_values(|m: Material| m@),
                new_model_view_matrices@ == model_view_matrices@.take(i as int),
                new_materials@.map_values(|m: Material| m@) == all.take(i as int),
                new_colors@ == Seq::new(i as nat, |k: int| all[k].color),
                new_edge_colors@ == Seq::new(i as nat, |k: int| all[k].edge),
            decreases n - i,
        {
            let ghost before = new_materials@;
            let material = materials[i].clone();
            new_model_view_matrices.push(model_view_matrices[i]);
            new_colors.push(material.color);
            new_edge_colors.push(material.edge);
            new_materials.push(material);
            i += 1;
            assert(new_model_view_matrices@ =~= model_view_matrices@.take(i as int));
            assert(new_materials@.map_values(|m: Material| m@) =~= all.take(i as int)) by {
                assert(new_materials@.map_values(|m: Material| m@) =~= before.map_values(
                    |m: Material| m@,
                ).push(material@));
            }
            assert(new_colors@ =~= Seq::new(i as nat, |k: int| all[k].color));
            assert(new_edge_colors@ =~= Seq::new(i as nat, |k: int| all[k].edge));
        }
        let buffer = InstanceBuffer {
            count: model_view_matrices.len(),
            model_view_matrices: new_model_view_matrices,
            materials: new_materials,
            colors: new_colors,
            edge_colors: new_edge_colors,
            modified: true,
        };
        if opaque {
            self.opaque = buffer;
        } else {
            self.translucent = buffer;
        }
    }

    /// Whether one more instance of `material` can be added.
    pub fn can_take(&self, material: &Material) -> (r: bool)
        ensures
            r == has_room(self@, material@),
    {
        if material.is_translucent() {
            self.translucent.count < usize::MAX
        } else {
            self.opaque.count < usize::MAX
        }
    }

    /// Marks both buffers as taken over by what draws them.
    pub fn mark_unmodified(&mut self)
        ensures
            final(self)@ == item_unmodified(old(self)@),
    {
        self.opaque.modified = false;
        self.translucent.modified = false;
    }

    /// Adds one instance, to the translucent buffer where light passes
    /// through `material`, else to the opaque one.
    pub fn add(&mut self, matrix: &M, material: &Material)
        requires
            has_room(old(self)@, material@),
        ensures
            final(self)@ == item_with_instance(old(self)@, *matrix, material@),
    {
        let copy = material.clone();
        if material.is_translucent() {
            let ghost before = self.translucent.materials@;
            self.translucent.model_view_matrices.push(*matrix);
            self.translucent.colors.push(copy.color);
            self.translucent.edge_colors.push(copy.edge);
            self.translucent.materials.push(copy);
            self.translucent.count += 1;
            self.translucent.modified = true;
            assert(self.translucent.materials@.map_values(|m: Material| m@) =~= before.map_values(
                |m: Material| m@,
            ).push(material@));
        } else {
            let ghost before = self.opaque.materials@;
            self.opaque.model_view_matrices.push(*matrix);
            self.opaque.colors.push(copy.color);
            self.opaque.edge_colors.push(copy.edge);
            self.opaque.materials.push(copy);
            self.opaque.count += 1;
            self.opaque.modified = true;
            assert(self.opaque.materials@.map_values(|m: Material| m@) =~= before.map_values(
                |m: Material| m@,
            ).push(material@));
        }
    }
}

/// Whether no two of the items `items` are of models with one key.
pub open spec fn distinct_items<M>(items: Seq<DisplayItemView<M>>) -> bool {
    forall|i: int, j: int|
        0 <= i < j < items.len() ==> alias_key(#[trigger] items[i].part) != alias_key(
            #[trigger] items[j].part,
        )
}

/// Whether the item of `items` at `at` is of a model with the key `key`.
pub open spec fn is_item_at<M>(items: Seq<DisplayItemView<M>>, key: Seq<char>, at: int) -> bool {
    0 <= at < items.len() && alias_key(items[at].part) == key
}

/// Where in `items` the item of a model with the key `key` stands.
pub open spec fn item_at<M>(items: Seq<DisplayItemView<M>>, key: Seq<char>) -> Option<int> {
    if exists|at: int| is_item_at(items, key, at) {
        Some(choose|at: int| is_item_at(items, key, at))
    } else {
        None
    }
}

/// The items `items` with one more instance of the model `name`: in the
/// item of that model, or in a new item behind the others where the model
/// has none yet.
pub open spec fn list_with_instance<M>(
    items: Seq<DisplayItemView<M>>,
    name: Seq<char>,
    matrix: M,
    material: MaterialView,
) -> Seq<DisplayItemView<M>> {
    match item_at(items, alias_key(name)) {
        Some(at) => items.update(at, item_with_instance(items[at], matrix, material)),
        None => items.push(item_with_instance(no_item(name), matrix, material)),
    }
}

/// Whether `items` can take one more instance of the model `name` made of
/// `material`.
pub open spec fn list_has_room<M>(
    items: Seq<DisplayItemView<M>>,
    name: Seq<char>,
    material: MaterialView,
) -> bool {
    match item_at(items, alias_key(name)) {
        Some(at) => has_room(items[at], material),
        None => true,
    }
}

/// How many instances the items `items` count in all.
pub open spec fn instance_count<M>(items: Seq<DisplayItemView<M>>) -> nat
    decreases items.len(),
{
    if items.len() == 0 {
        0
    } else {
        instance_count(items.drop_last()) + items.last().opaque.count as nat
            + items.last().translucent.count as nat
    }
}

/// What is to be drawn: for each model its instances. The items stand in
/// the order in which their models came first, and no two of them are of
/// models with one key.
#[derive(Debug)]
pub struct DisplayList<M> {
    items: Vec<DisplayItem<M>>,
}

impl<M> View for DisplayList<M> {
    type V = Seq<DisplayItemView<M>>;

    closed spec fn view(&self) -> Seq<DisplayItemView<M>> {
        self.items@.map_values(|item: DisplayItem<M>| item@)
    }
}

impl<M: Copy> Default for DisplayList<M> {
    fn default() -> (r: Self)
        ensures
            r@ == Seq::<DisplayItemView<M>>::empty(),
    {
        DisplayList::new()
    }
}

impl<M> DisplayList<M> {
    #[verifier::type_invariant]
    spec fn inv(self) -> bool {
        distinct_items(self.items@.map_values(|item: DisplayItem<M>| item@))
    }
}

impl<M: Copy> DisplayList<M> {
    /// Nothing to be drawn.
    pub fn new() -> (r: Self)
        ensures
            r@ == Seq::<DisplayItemView<M>>::empty(),
    {
        let r = DisplayList { items: Vec::new() };
        assert(r@ =~= Seq::<DisplayItemView<M>>::empty());
        r
    }

    /// The items, in their order.
    pub fn items(&self) -> (r: &Vec<DisplayItem<M>>)
        ensures
            r@.map_values(|item: DisplayItem<M>| item@) == self@,
            distinct_items(self@),
    {
        proof {
            use_type_invariant(self);
        }
        &self.items
    }

    fn find(items: &Vec<DisplayItem<M>>, name: &PartAlias) -> (r: Option<usize>)
        requires
            distinct_items(items@.map_values(|item: DisplayItem<M>| item@)),
        ensures
            match r {
                Some(at) => item_at(
                    items@.map_values(|item: DisplayItem<M>| item@),
                    alias_key(name@),
                ) == Some(at as int) && at < items@.len(),
                None => item_at(items@.map_values(|item: DisplayItem<M>| item@), alias_key(name@))
                    is None,
            },
    {
        let ghost views = items@.map_values(|item: DisplayItem<M>| item@);
        let ghost key = alias_key(name@);
        let mut i: usize = 0;
        while i < items.len()
            invariant
                i <= items@.len(),
                views == items@.map_values(|item: DisplayItem<M>| item@),
                key == alias_key(name@),
                distinct_items(views),
                forall|k: int| 0 <= k < i ==> !is_item_at(views, key, k),
            decreases items@.len() - i,
        {
            if items[i].part.same_as(name) {
                proof {
                    assert(is_item_at(views, key, i as int));
                    let chosen = choose|at: int| is_item_at(views, key, at);
                    if chosen < i {
                        assert(alias_key(views[chosen].part) != alias_key(views[i as int].part));
                    } else if i < chosen {
                        assert(alias_key(views[i as int].part) != alias_key(views[chosen].part));
                    }
                }
                return Some(i);
            }
            i += 1;
        }
        None
    }

    /// The item of the model whose name has the key of `name`.
    pub fn get(&self, name: &PartAlias) -> (r: Option<&DisplayItem<M>>)
        ensures
            match r {
                Some(item) => item_at(self@, alias_key(name@)) matches Some(at) && self@[at]
                    == item@,
                None => item_at(self@, alias_key(name@)) is None,
            },
    {
        proof {
            use_type_invariant(self);
        }
        match Self::find(&self.items, name) {
            Some(at) => Some(&self.items[at]),
            None => None,
        }
    }

    /// How many models have an item.
    pub fn len(&self) -> (r: usize)
        ensures
            r == self@.len(),
    {
        self.items.len()
    }

    /// How many instances there are in all; the largest number that can be
    /// told where there are more.
    pub fn count(&self) -> (r: usize)
        ensures
            r == if instance_count(self@) <= usize::MAX {
                instance_count(self@) as usize
            } else {
                usize::MAX
            },
    {
        let ghost views = self@;
        let mut count: usize = 0;
        let mut full = false;
        let mut i: usize = 0;
        assert(views.take(0) =~= Seq::<DisplayItemView<M>>::empty());
        while i < self.items.len()
            invariant
                i <= self.items@.len(),
                views == self.items@.map_values(|item: DisplayItem<M>| item@),
                if full {
                    instance_count(views.take(i as int)) > usize::MAX
                } else {
                    instance_count(views.take(i as int)) == count
                },
            decreases self.items@.len() - i,
        {
            let item = &self.items[i];
            proof {
                assert(views.take(i + 1).drop_last() =~= views.take(i as int));
                assert(views.take(i + 1).last() == item@);
            }
            if !full {
                match count.checked_add(item.opaque.count) {
                    Some(sum) => match sum.checked_add(item.translucent.count) {
                        Some(sum) => {
                            count = sum;
                        },
                        None => {
                            full = true;
                        },
                    },
                    None => {
                        full = true;
                    },
                }
            }
            i += 1;
        }
        assert(views.take(i as int) =~= views);
        if full {
            usize::MAX
        } else {
            count
        }
    }

    /// Takes the items out and leaves none.
    fn take_items(&mut self) -> (items: Vec<DisplayItem<M>>)
        ensures
            items@.map_values(|item: DisplayItem<M>| item@) == old(self)@,
            distinct_items(old(self)@),
            final(self)@ == Seq::<DisplayItemView<M>>::empty(),
    {
        proof {
            use_type_invariant(&*self);
        }
        let mut taken = DisplayList { items: Vec::new() };
        assert(taken@ =~= Seq::<DisplayItemView<M>>::empty());
        std::mem::swap(self, &mut taken);
        taken.items
    }

    /// Whether one more instance of the model `name` made of `material`
    /// can be added.
    pub fn can_take(&self, name: &PartAlias, material: &Material) -> (r: bool)
        ensures
            r == list_has_room(self@, name@, material@),
    {
        proof {
            use_type_invariant(self);
        }
        match Self::find(&self.items, name) {
            Some(at) => self.items[at].can_take(material),
            None => true,
        }
    }

    /// Adds one instance of the model `name`, placed by `matrix` and made
    /// of `material`.
    pub fn add(&mut self, name: PartAlias, matrix: M, material: Material)
        requires
            list_has_room(old(self)@, name@, material@),
        ensures
            final(self)@ == list_with_instance(old(self)@, name@, matrix, material@),
    {
        let ghost before = self@;
        let mut items = self.take_items();
        match Self::find(&items, &name) {
            Some(at) => {
                items[at].add(&matrix, &material);
                assert(items@.map_values(|item: DisplayItem<M>| item@) =~= before.update(
                    at as int,
                    item_with_instance(before[at as int], matrix, material@),
                ));
            },
            None => {
                let mut item = DisplayItem::new(&name);
                item.add(&matrix, &material);
                items.push(item);
                assert(items@.map_values(|item: DisplayItem<M>| item@) =~= before.push(
                    item_with_instance(no_item(name@), matrix, material@),
                ));
                assert forall|k: int| 0 <= k < before.len() implies alias_key(
                    #[trigger] before[k].part,
                ) != alias_key(name@) by {
                    if alias_key(before[k].part) == alias_key(name@) {
                        assert(is_item_at(before, alias_key(name@), k));
                    }
                }
            },
        }
        *self = DisplayList { items };
    }

    /// Puts new instances in place of those of one buffer of the model
    /// `name`, as [`DisplayItem::update_data`] does. Tells whether the model
    /// has an item; nothing changes where it has none.
    pub fn update_data(
        &mut self,
        name: &PartAlias,
        opaque: bool,
        model_view_matrices: &[M],
        materials: &[Material],
    ) -> (found: bool)
        ensures
            match item_at(old(self)@, alias_key(name@)) {
                Some(at) => found && final(self)@ == old(self)@.update(
                    at,
                    item_with_data(
                        old(self)@[at],
                        opaque,
                        model_view_matrices@,
                        materials@.map_values(|m: Material| m@),
                    ),
                ),
                None => !found && final(self)@ == old(self)@,
            },
    {
        let ghost before = self@;
        let mut items = self.take_items();
        let found = match Self::find(&items, name) {
            Some(at) => {
                items[at].update_data(opaque, model_view_matrices, materials);
                assert(items@.map_values(|item: DisplayItem<M>| item@) =~= before.update(
                    at as int,
                    item_with_data(
                        before[at as int],
                        opaque,
                        model_view_matrices@,
                        materials@.map_values(|m: Material| m@),
                    ),
                ));
                true
            },
            None => false,
        };
        *self = DisplayList { items };
        found
    }

    /// Marks every buffer as taken over by what draws it.
    pub fn mark_unmodified(&mut self)
        ensures
            final(self)@ == old(self)@.map_values(|item: DisplayItemView<M>| item_unmodified(item)),
    {
        let ghost before = self@;
        let mut items = self.take_items();
        let mut i: usize = 0;
        while i < items.len()
            invariant
                i <= items@.len(),
                items@.len() == before.len(),
                forall|k: int|
                    0 <= k < i ==> (#[trigger] items@[k])@ == item_unmodified(before[k]),
                forall|k: int| i <= k < items@.len() ==> (#[trigger] items@[k])@ == before[k],
            decreases items@.len() - i,
        {
            items[i].mark_unmodified();
            i += 1;
        }
        assert(items@.map_values(|item: DisplayItem<M>| item@) =~= before.map_values(
            |item: DisplayItemView<M>| item_unmodified(item),
        ));
        *self = DisplayList { items };
    }

    /// Takes everything away.
    pub fn clear(&mut self)
        ensures
            final(self)@ == Seq::<DisplayItemView<M>>::empty(),
    {
        let empty = DisplayList::new();
        *self = empty;
    }
}

} // verus!
