use ldraw::color::{ColorReference, Finish, Material, MaterialRegistry, Rgba};
use ldraw::display_list::{DisplayItem, DisplayList, InstanceBuffer};
use ldraw::instances::instances;
use ldraw::elements::PartAlias;
use ldraw::parser::{parse_multipart_document, parse_single_document};
use ldraw::picture::picture_of_rows;
use ldraw::pixels::flip_rows;

fn material(code: u32, alpha: u8) -> Material {
    Material {
        code,
        name: format!("m{}", code),
        color: Rgba::new(code as u8, 2, 3, alpha),
        edge: Rgba::new(9, 8, 7, 255),
        luminance: 0,
        finish: Finish::Plain,
    }
}

fn alias(name: &str) -> PartAlias {
    PartAlias::new(name.to_string())
}

#[test]
fn instance_buffer_starts_empty() {
    let buffer: InstanceBuffer<u32> = InstanceBuffer::new();
    assert!(buffer.is_empty());
    assert_eq!(buffer.count, 0);
    assert!(buffer.model_view_matrices.is_empty());
    assert!(buffer.materials.is_empty());
    assert!(buffer.colors.is_empty());
    assert!(buffer.edge_colors.is_empty());
    assert!(!buffer.modified);
}

#[test]
fn display_item_sorts_instances_by_opacity() {
    let mut item: DisplayItem<u32> = DisplayItem::new(&alias("3001.dat"));
    assert_eq!(item.part.original(), "3001.dat");
    assert!(item.opaque.is_empty());
    assert!(item.translucent.is_empty());
    item.add(&10, &material(1, 255));
    item.add(&20, &material(2, 128));
    item.add(&30, &material(3, 255));
    item.add(&40, &material(4, 254));
    assert_eq!(item.opaque.count, 2);
    assert_eq!(item.opaque.model_view_matrices, vec![10, 30]);
    assert_eq!(item.opaque.materials, vec![material(1, 255), material(3, 255)]);
    assert_eq!(
        item.opaque.colors,
        vec![Rgba::new(1, 2, 3, 255), Rgba::new(3, 2, 3, 255)]
    );
    assert_eq!(item.opaque.edge_colors, vec![Rgba::new(9, 8, 7, 255); 2]);
    assert!(item.opaque.modified);
    assert_eq!(item.translucent.count, 2);
    assert_eq!(item.translucent.model_view_matrices, vec![20, 40]);
    assert_eq!(
        item.translucent.colors,
        vec![Rgba::new(2, 2, 3, 128), Rgba::new(4, 2, 3, 254)]
    );
    assert!(!item.translucent.is_empty());
}

#[test]
fn display_item_at_its_limit() {
    let mut item: DisplayItem<u32> = DisplayItem::new(&alias("a"));
    assert!(item.can_take(&material(1, 255)));
    item.opaque.count = usize::MAX;
    assert!(!item.can_take(&material(1, 255)));
    assert!(item.can_take(&material(1, 0)));
}

#[test]
fn update_data_pairs_matrices_and_materials() {
    let mut item: DisplayItem<u32> = DisplayItem::new(&alias("a"));
    item.add(&1, &material(1, 255));
    item.add(&2, &material(2, 100));
    item.update_data(true, &[7, 8, 9], &[material(5, 255), material(6, 10)]);
    assert_eq!(item.opaque.count, 3);
    assert_eq!(item.opaque.model_view_matrices, vec![7, 8]);
    assert_eq!(item.opaque.materials, vec![material(5, 255), material(6, 10)]);
    assert_eq!(
        item.opaque.colors,
        vec![Rgba::new(5, 2, 3, 255), Rgba::new(6, 2, 3, 10)]
    );
    assert_eq!(item.opaque.edge_colors.len(), 2);
    assert!(item.opaque.modified);
    assert_eq!(item.translucent.count, 1);
    assert_eq!(item.translucent.model_view_matrices, vec![2]);
    item.update_data(false, &[4], &[material(1, 255), material(2, 255)]);
    assert_eq!(item.translucent.count, 1);
    assert_eq!(item.translucent.model_view_matrices, vec![4]);
    assert_eq!(item.translucent.materials, vec![material(1, 255)]);
    assert_eq!(item.opaque.count, 3);
    item.update_data(true, &[], &[]);
    assert!(item.opaque.is_empty());
    assert!(item.opaque.modified);
}

#[test]
fn display_list_keeps_one_item_per_model() {
    let mut list: DisplayList<u32> = DisplayList::new();
    assert_eq!(list.count(), 0);
    assert_eq!(list.len(), 0);
    list.add(alias("3001.dat"), 1, material(1, 255));
    list.add(alias("3002.dat"), 2, material(1, 255));
    list.add(alias("3001.DAT"), 3, material(2, 100));
    list.add(alias("3001.dat"), 4, material(3, 255));
    assert_eq!(list.len(), 2);
    assert_eq!(list.count(), 4);
    let first = list.get(&alias("3001.dat")).unwrap();
    assert_eq!(first.part.original(), "3001.dat");
    assert_eq!(first.opaque.model_view_matrices, vec![1, 4]);
    assert_eq!(first.translucent.model_view_matrices, vec![3]);
    let second = list.get(&alias("3002.DAT")).unwrap();
    assert_eq!(second.opaque.count, 1);
    assert!(list.get(&alias("3003.dat")).is_none());
    assert_eq!(list.items().len(), 2);
    assert_eq!(list.items()[0].part.original(), "3001.dat");
    assert_eq!(list.items()[1].part.original(), "3002.dat");
    assert!(list.can_take(&alias("3003.dat"), &material(1, 255)));
    assert!(list.can_take(&alias("3001.dat"), &material(1, 255)));
    list.clear();
    assert_eq!(list.len(), 0);
    assert_eq!(list.count(), 0);
    let list: DisplayList<u32> = DisplayList::default();
    assert_eq!(list.len(), 0);
}

#[test]
fn count_follows_the_matrices() {
    let mut item: DisplayItem<()> = DisplayItem::new(&alias("c"));
    let many = vec![(); usize::MAX];
    item.update_data(true, &many, &[]);
    assert_eq!(item.opaque.count, usize::MAX);
    assert!(item.opaque.model_view_matrices.is_empty());
    assert!(!item.can_take(&material(1, 255)));
    assert!(item.can_take(&material(1, 254)));
}

#[test]
fn inherited_material() {
    let inherited = material(7, 255);
    let own = material(4, 255);
    assert_eq!(
        ColorReference::Material(own.clone()).material_or(&inherited),
        &own
    );
    assert_eq!(
        ColorReference::Unresolved(16).material_or(&inherited),
        &inherited
    );
}

#[test]
fn part_references_of_a_document() {
    let registry = MaterialRegistry::new();
    let lines: Vec<String> = [
        "0 model",
        "1 16 0 1 0 0 0 0 1 0 0 0 0 1 a.dat",
        "0 STEP",
        "2 16 0 0 0 1 1 1",
        "1 4 0 1 0 0 0 0 1 0 0 0 0 1 b.dat",
    ]
    .iter()
    .map(|l| l.to_string())
    .collect();
    let doc = parse_single_document(&registry, &lines).unwrap();
    let references = doc.part_references();
    assert_eq!(references.len(), 2);
    assert_eq!(references[0].name.original(), "a.dat");
    assert_eq!(references[1].name.original(), "b.dat");
    assert_eq!(references[1].color, ColorReference::Unresolved(4));
    let empty = parse_single_document(&registry, &[]).unwrap();
    assert!(empty.part_references().is_empty());
}

#[test]
fn rows_are_flipped() {
    // three rows of two pixels
    let pixels: Vec<u8> = (0..24).collect();
    assert_eq!(
        flip_rows(&pixels, 2, 0, 3, 2),
        vec![16, 17, 18, 19, 20, 21, 22, 23, 8, 9, 10, 11, 12, 13, 14, 15, 0, 1, 2, 3, 4, 5, 6, 7]
    );
    assert_eq!(
        flip_rows(&pixels, 2, 1, 3, 1),
        vec![16, 17, 18, 19, 8, 9, 10, 11]
    );
    assert_eq!(flip_rows(&pixels, 2, 1, 2, 2), vec![8, 9, 10, 11, 12, 13, 14, 15]);
    assert_eq!(flip_rows(&pixels, 2, 2, 2, 2), Vec::<u8>::new());
    assert_eq!(flip_rows(&pixels, 2, 0, 3, 0), Vec::<u8>::new());
    assert_eq!(flip_rows(&[], 0, 0, 0, 0), Vec::<u8>::new());
}

#[test]
fn picture_is_cut_and_flipped() {
    // four rows of three pixels
    let pixels: Vec<u8> = (0..48).collect();
    let picture = picture_of_rows(&pixels, 3, 1, 3, 2);
    assert_eq!(picture.image.width(), 2);
    assert_eq!(picture.image.height(), 2);
    assert_eq!(
        picture.image.as_raw(),
        &vec![24, 25, 26, 27, 28, 29, 30, 31, 12, 13, 14, 15, 16, 17, 18, 19]
    );
    assert_eq!(picture.image.get_pixel(1, 0).0, [28, 29, 30, 31]);
    assert_eq!(picture.image.get_pixel(0, 1).0, [12, 13, 14, 15]);
    let empty = picture_of_rows(&pixels, 3, 2, 2, 3);
    assert_eq!(empty.image.width(), 3);
    assert_eq!(empty.image.height(), 0);
    assert!(empty.image.as_raw().is_empty());
}

fn multipart(text: &str) -> ldraw::document::MultipartDocument {
    let lines: Vec<String> = text.lines().map(String::from).collect();
    parse_multipart_document(&MaterialRegistry::new(), &lines).unwrap()
}

#[test]
fn instances_of_a_nested_file() {
    let mut registry = MaterialRegistry::new();
    registry.insert(material(4, 255));
    let text = "0 main\n\
                1 16 1 0 0 0 0 0 0 0 0 0 0 0 brick.dat\n\
                1 4 2 0 0 0 0 0 0 0 0 0 0 0 sub.ldr\n\
                1 16 3 0 0 0 0 0 0 0 0 0 0 0 SUB.LDR\n\
                0 FILE sub.ldr\n\
                0 sub\n\
                1 16 4 0 0 0 0 0 0 0 0 0 0 0 plate.dat\n\
                1 4 5 0 0 0 0 0 0 0 0 0 0 0 inner.ldr\n\
                0 FILE inner.ldr\n\
                0 inner\n\
                1 16 6 0 0 0 0 0 0 0 0 0 0 0 tile.dat\n";
    let lines: Vec<String> = text.lines().map(String::from).collect();
    let file = parse_multipart_document(&registry, &lines).unwrap();
    let inherited = material(7, 255);
    let found = instances(&file, &inherited).unwrap();
    let summary: Vec<(String, Vec<String>, u32)> = found
        .iter()
        .map(|i| {
            (
                i.name.original().to_string(),
                i.chain.iter().map(|m| m.w.x.text().to_string()).collect(),
                i.material.code,
            )
        })
        .collect();
    let chain = |xs: &[&str]| xs.iter().map(|x| x.to_string()).collect::<Vec<String>>();
    assert_eq!(
        summary,
        vec![
            ("brick.dat".to_string(), chain(&["1"]), 7),
            ("plate.dat".to_string(), chain(&["2", "4"]), 4),
            ("tile.dat".to_string(), chain(&["2", "5", "6"]), 4),
            ("plate.dat".to_string(), chain(&["3", "4"]), 7),
            ("tile.dat".to_string(), chain(&["3", "5", "6"]), 4),
        ]
    );
}

#[test]
fn instances_of_a_file_without_references() {
    let file = multipart("0 main\n0 STEP\n2 16 0 0 0 1 1 1\n");
    assert_eq!(instances(&file, &material(1, 255)), Some(vec![]));
}

#[test]
fn a_model_that_holds_itself_has_no_instances() {
    let file = multipart(
        "0 main\n1 16 0 0 0 0 0 0 0 0 0 0 0 0 a.ldr\n0 FILE a.ldr\n0 a\n1 16 0 0 0 0 0 0 0 0 0 0 0 0 b.ldr\n0 FILE b.ldr\n0 b\n1 16 0 0 0 0 0 0 0 0 0 0 0 0 A.LDR\n",
    );
    assert_eq!(instances(&file, &material(1, 255)), None);
    let file = multipart(
        "0 main\n1 16 0 0 0 0 0 0 0 0 0 0 0 0 part.dat\n0 FILE a.ldr\n0 a\n1 16 0 0 0 0 0 0 0 0 0 0 0 0 a.ldr\n",
    );
    assert_eq!(instances(&file, &material(1, 255)).map(|v| v.len()), Some(1));
}
