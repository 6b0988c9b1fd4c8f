use vstd::prelude::*;
use crate::color::{ColorReferenceView, Material, MaterialView};
use crate::document::{references_of, Document, DocumentView, MultipartDocument};
use crate::elements::{
    alias_key, Matrix4, Matrix4View, PartAlias, PartReference, PartReferenceView,
};

verus! {

/// One model that is to be drawn, as the walk through a file finds it: its
/// name, the matrices that place it, from the one in the body of the file
/// down to its own, and the material it is made of. The product of the
/// matrices, in their order, places the instance.
#[derive(Debug, PartialEq, Eq)]
pub struct Instance<'a> {
    pub name: &'a PartAlias,
    pub chain: Vec<&'a Matrix4>,
    pub material: Material,
}

/// The mathematical value of an [`Instance`].
pub struct InstanceView {
    pub name: Seq<char>,
    pub chain: Seq<Matrix4View>,
    pub material: MaterialView,
}

impl<'a> View for Instance<'a> {
    type V = InstanceView;

    open spec fn view(&self) -> InstanceView {
        InstanceView {
            name: self.name@,
            chain: self.chain@.map_values(|m: &Matrix4| m@),
            material: self.material@,
        }
    }
}

/// The material of an element of the colour `color` where `inherited` is
/// the material of what holds it.
pub open spec fn material_of_color(color: ColorReferenceView, inherited: MaterialView) -> MaterialView {
    match color {
        ColorReferenceView::Material(m) => m,
        ColorReferenceView::Unresolved(_) => inherited,
    }
}

/// The instances that the reference `reference` stands for, where `chain`
/// places the model that holds it and `inherited` is that model's
/// material. A reference to a sub-model of the file stands for what the
/// sub-model holds, placed behind the reference and made of its material
/// where the sub-model names none. Any other reference is one instance.
/// Sub-models are entered `depth` deep; a reference to one beyond that
/// gives nothing at all.
pub open spec fn instances_of_reference(
    parts: Map<Seq<char>, DocumentView>,
    reference: PartReferenceView,
    chain: Seq<Matrix4View>,
    inherited: MaterialView,
    depth: nat,
) -> Option<Seq<InstanceView>>
    decreases depth, 0nat,
{
    let material = material_of_color(reference.color, inherited);
    let placed = chain.push(reference.matrix);
    if !parts.contains_key(alias_key(reference.name)) {
        Some(seq![InstanceView { name: reference.name, chain: placed, material }])
    } else if depth == 0 {
        None
    } else {
        instances_of_references(
            parts,
            references_of(parts[alias_key(reference.name)].commands),
            placed,
            material,
            (depth - 1) as nat,
        )
    }
}

/// The instances that the references `references` stand for, one after the
/// other; nothing at all where one of them gives nothing. See
/// [`instances_of_reference`].
pub open spec fn instances_of_references(
    parts: Map<Seq<char>, DocumentView>,
    references: Seq<PartReferenceView>,
    chain: Seq<Matrix4View>,
    inherited: MaterialView,
    depth: nat,
) -> Option<Seq<InstanceView>>
    decreases depth, 1 + references.len(),
{
    if references.len() == 0 {
        Some(Seq::empty())
    } else {
        match (
            instances_of_references(parts, references.drop_last(), chain, inherited, depth),
            instances_of_reference(parts, references.last(), chain, inherited, depth),
        ) {
            (Some(before), Some(last)) => Some(before + last),
            _ => None,
        }
    }
}

/// The instances of a file: those that the references of its body stand
/// for, with nothing placing the body and `material` as its material.
/// Sub-models are entered as deep as there are sub-models, which is as
/// deep as they can lie in each other unless one of them holds itself.
pub open spec fn instances_of_file(
    body: DocumentView,
    parts: Map<Seq<char>, DocumentView>,
    material: MaterialView,
) -> Option<Seq<InstanceView>> {
    instances_of_references(
        parts,
        references_of(body.commands),
        Seq::empty(),
        material,
        parts.len(),
    )
}

/// Where the first references give nothing, all of them give nothing.
pub proof fn lemma_instances_stop(
    parts: Map<Seq<char>, DocumentView>,
    references: Seq<PartReferenceView>,
    chain: Seq<Matrix4View>,
    inherited: MaterialView,
    depth: nat,
    failed: int,
)
    requires
        0 <= failed <= references.len(),
        instances_of_references(parts, references.take(failed), chain, inherited, depth) is None,
    ensures
        instances_of_references(parts, references, chain, inherited, depth) is None,
    decreases references.len(),
{
    if failed < references.len() {
        assert(references.drop_last().take(failed) =~= references.take(failed));
        lemma_instances_stop(parts, references.drop_last(), chain, inherited, depth, failed);
    } else {
        assert(references.take(failed) =~= references);
    }
}

/// The views of the instances `instances`.
pub open spec fn instance_views(instances: Seq<Instance>) -> Seq<InstanceView> {
    instances.map_values(|i: Instance| i@)
}

/// Adds to `out` the instances that the references of `document` stand
/// for; tells whether they gave any.
fn gather<'a>(
    file: &'a MultipartDocument,
    document: &'a Document,
    chain: &Vec<&'a Matrix4>,
    inherited: &Material,
    depth: usize,
    out: &mut Vec<Instance<'a>>,
) -> (found: bool)
    ensures
        match instances_of_references(
            file.subparts@,
            references_of(document@.commands),
            chain@.map_values(|m: &Matrix4| m@),
            inherited@,
            depth as nat,
        ) {
            Some(instances) => found && instance_views(final(out)@) == instance_views(old(out)@)
                + instances,
            None => !found,
        },
    decreases depth,
{
    let ghost parts = file.subparts@;
    let ghost path = chain@.map_values(|m: &Matrix4| m@);
    let ghost before = instance_views(out@);
    let references = document.part_references();
    let ghost all = references_of(document@.commands);
    let mut i: usize = 0;
    proof {
        assert(all.take(0) =~= Seq::<PartReferenceView>::empty());
        assert(before + Seq::<InstanceView>::empty() =~= before);
    }
    while i < references.len()
        invariant
            i <= references@.len(),
            parts == file.subparts@,
            path == chain@.map_values(|m: &Matrix4| m@),
            all == references@.map_values(|p: &PartReference| p@),
            all == references_of(document@.commands),
            before == instance_views(old(out)@),
            match instances_of_references(parts, all.take(i as int), path, inherited@, depth as nat) {
                Some(instances) => instance_views(out@) == before + instances,
                None => false,
            },
        decreases references@.len() - i,
    {
        let reference = references[i];
        let ghost so_far = instances_of_references(
            parts,
            all.take(i as int),
            path,
            inherited@,
            depth as nat,
        )->Some_0;
        let ghost gathered = out@;
        proof {
            assert(all.take(i + 1).drop_last() =~= all.take(i as int));
            assert(all.take(i + 1).last() == reference@);
        }
        let material = reference.color.material_or(inherited).clone();
        let mut placed: Vec<&'a Matrix4> = Vec::new();
        let mut k: usize = 0;
        while k < chain.len()
            invariant
                k <= chain@.len(),
                placed@ == chain@.take(k as int),
            decreases chain@.len() - k,
        {
            placed.push(chain[k]);
            k += 1;
            assert(placed@ =~= chain@.take(k as int));
        }
        placed.push(&reference.matrix);
        proof {
            assert(chain@.take(k as int) =~= chain@);
            assert(placed@.map_values(|m: &Matrix4| m@) =~= path.push(reference@.matrix));
        }
        let found = match file.subparts.get(&reference.name) {
            Some(part) => {
                if depth == 0 {
                    false
                } else {
                    gather(file, part, &placed, &material, depth - 1, out)
                }
            },
            None => {
                let instance = Instance { name: &reference.name, chain: placed, material };
                out.push(instance);
                assert(instance_views(out@) =~= instance_views(gathered).push(instance@));
                assert(instance_views(gathered).push(instance@) =~= instance_views(gathered)
                    + seq![instance@]);
                true
            },
        };
        if !found {
            proof {
                assert(instances_of_reference(parts, reference@, path, inherited@, depth as nat)
                    is None);
                assert(instances_of_references(
                    parts,
                    all.take(i + 1),
                    path,
                    inherited@,
                    depth as nat,
                ) is None);
                lemma_instances_stop(parts, all, path, inherited@, depth as nat, i + 1);
            }
            return false;
        }
        proof {
            let last = instances_of_reference(parts, reference@, path, inherited@, depth as nat)->Some_0;
            assert((before + so_far) + last =~= before + (so_far + last));
        }
        i += 1;
    }
    proof {
        assert(all.take(i as int) =~= all);
    }
    true
}

/// Walks through the file `file` and gathers what is to be drawn: one
/// instance for each reference to a model that the file does not hold,
/// with the matrices of the references that lead to it and the material
/// that it has or takes from them, `material` at the outset. The instances
/// come in the order of the lines. Gives nothing where a sub-model holds
/// itself, directly or by way of others.
pub fn instances<'a>(file: &'a MultipartDocument, material: &Material) -> (r: Option<Vec<Instance<'a>>>)
    ensures
        match r {
            Some(found) => instances_of_file(file@.body, file@.subparts, material@) == Some(
                instance_views(found@),
            ),
            None => instances_of_file(file@.body, file@.subparts, material@) is None,
        },
{
    let mut found: Vec<Instance<'a>> = Vec::new();
    let chain: Vec<&'a Matrix4> = Vec::new();
    let ghost empty = instance_views(found@);
    proof {
        assert(chain@.map_values(|m: &Matrix4| m@) =~= Seq::empty());
        assert(empty =~= Seq::empty());
    }
    let depth = file.subparts.len();
    if gather(file, &file.body, &chain, material, depth, &mut found) {
        proof {
            let gathered = instances_of_file(file@.body, file@.subparts, material@)->Some_0;
            assert(empty + gathered =~= gathered);
        }
        Some(found)
    } else {
        None
    }
}

} // verus!
