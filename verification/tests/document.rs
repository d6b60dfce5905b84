use pdf_writer::Chunk;
use pdf_writer::Name;
use pdf_writer::Rect;
use pdf_writer::Ref;
use pdf_writer::TextStr;
use svg2pdf::usvg::Options;
use svg2pdf::usvg::Tree;
use svg2pdf::ConversionOptions;
use svg_page::document::assemble;
use svg_page::document::can_merge;
use svg_page::document::drawing_name;
use svg_page::document::merge;
use svg_page::document::write_document;
use svg_page::document::Merged;
use svg_page::error::ConvertError;
use svg_page::ids::DocumentIds;

fn contains(haystack: &[u8], needle: &str) -> bool {
    haystack.windows(needle.len()).any(|window| window == needle.as_bytes())
}

fn object_numbers(chunk: &Chunk) -> Vec<i32> {
    chunk.refs().map(|id| id.get()).collect()
}

fn sample_chunk() -> Chunk {
    let mut chunk = Chunk::new();
    chunk.indirect(Ref::new(10)).primitive(true);
    chunk
        .indirect(Ref::new(17))
        .dict()
        .pair(Name(b"Self"), Ref::new(17))
        .pair(Name(b"Ref"), Ref::new(10))
        .pair(Name(b"NoRef"), TextStr("Text with 10 0 R"));
    chunk
}

fn first_five() -> DocumentIds {
    DocumentIds { catalog: 1, page_tree: 2, page: 3, content: 4, info: 5 }
}

#[test]
fn merge_gives_the_graph_fresh_numbers() {
    let merged = merge(&sample_chunk(), 17).ok().unwrap();
    assert_eq!(merged.ids, first_five());
    assert_eq!(merged.drawable, 7);
    assert_eq!(object_numbers(&merged.objects), vec![6, 7]);
    let bytes = merged.objects.as_bytes();
    assert!(contains(bytes, "6 0 obj"));
    assert!(contains(bytes, "7 0 obj"));
    assert!(contains(bytes, "/Self 7 0 R"));
    assert!(contains(bytes, "/Ref 6 0 R"));
    assert!(contains(bytes, "(Text with 10 0 R)"));
    assert!(!contains(bytes, "17 0 obj"));
}

#[test]
fn merge_numbers_in_the_order_of_first_sight() {
    // Object 17 mentions 10 and 30 before either is written; 30 never is.
    let mut chunk = Chunk::new();
    chunk
        .indirect(Ref::new(17))
        .dict()
        .pair(Name(b"A"), Ref::new(10))
        .pair(Name(b"B"), Ref::new(30))
        .pair(Name(b"C"), Ref::new(10));
    chunk.indirect(Ref::new(10)).dict().pair(Name(b"Up"), Ref::new(17));
    let merged = merge(&chunk, 10).ok().unwrap();
    assert_eq!(merged.drawable, 7);
    assert_eq!(object_numbers(&merged.objects), vec![6, 7]);
    let bytes = merged.objects.as_bytes();
    assert!(contains(bytes, "/A 7 0 R"));
    assert!(contains(bytes, "/B 8 0 R"));
    assert!(contains(bytes, "/C 7 0 R"));
    assert!(contains(bytes, "/Up 6 0 R"));
    // A number that is only mentioned can be the root as well.
    assert_eq!(merge(&chunk, 30).ok().unwrap().drawable, 8);
}

#[test]
fn merge_fails_without_the_root() {
    assert_eq!(merge(&sample_chunk(), 99).err(), Some(ConvertError::InternalInvariant));
    assert_eq!(merge(&sample_chunk(), 6).err(), Some(ConvertError::InternalInvariant));
    assert_eq!(merge(&Chunk::new(), 1).err(), Some(ConvertError::InternalInvariant));
    assert_eq!(merge(&sample_chunk(), 0).err(), Some(ConvertError::InternalInvariant));
    assert_eq!(merge(&sample_chunk(), -17).err(), Some(ConvertError::InternalInvariant));
}

#[test]
fn numbers_that_can_join_a_document() {
    let ids = first_five();
    assert!(can_merge(&vec![], &ids));
    assert!(can_merge(&vec![6, 7, 8], &ids));
    assert!(can_merge(&vec![900, 6, i32::MAX - 1], &ids));
    assert!(!can_merge(&vec![6, 7, 6], &ids));
    assert!(!can_merge(&vec![6, 5], &ids));
    assert!(!can_merge(&vec![1], &ids));
    assert!(!can_merge(&vec![3, 6], &ids));
    assert!(!can_merge(&vec![0], &ids));
    assert!(!can_merge(&vec![-6], &ids));
    assert!(!can_merge(&vec![6, i32::MAX], &ids));
    let other = DocumentIds { catalog: 10, page_tree: 20, page: 30, content: 40, info: 50 };
    assert!(can_merge(&vec![1, 2, 3, 4, 5], &other));
    assert!(!can_merge(&vec![1, 2, 40], &other));
}

#[test]
fn assemble_writes_one_page_around_the_graph() {
    let content = b"q\n720 0 0 360 36 126 cm\n/S1 Do\nQ".to_vec();
    let media_box = Rect::new(0.0, 0.0, 792.0, 612.0);
    let pdf = assemble(&sample_chunk(), 17, media_box, &content).unwrap();
    assert!(pdf.starts_with(b"%PDF-1.7"));
    assert!(pdf.ends_with(b"%%EOF"));
    assert!(contains(&pdf, "1 0 obj"));
    assert!(contains(&pdf, "/Type /Catalog"));
    assert!(contains(&pdf, "/Pages 2 0 R"));
    assert!(contains(&pdf, "/Type /Pages"));
    assert!(contains(&pdf, "/Count 1"));
    assert!(contains(&pdf, "/Kids [3 0 R]"));
    assert!(contains(&pdf, "/Type /Page\n"));
    assert!(contains(&pdf, "/Parent 2 0 R"));
    assert!(contains(&pdf, "/MediaBox [0 0 792 612]"));
    assert!(contains(&pdf, "/Contents 4 0 R"));
    assert!(contains(&pdf, "/S1 7 0 R"));
    assert!(contains(&pdf, "720 0 0 360 36 126 cm"));
    assert!(contains(&pdf, "/Self 7 0 R"));
    assert!(contains(&pdf, "/Ref 6 0 R"));
    assert!(contains(&pdf, "/Producer (Mermaid Studio)"));
    assert!(contains(&pdf, "/Root 1 0 R"));
    assert!(contains(&pdf, "/Info 5 0 R"));
    // Seven objects and the free head of the table.
    assert!(contains(&pdf, "xref\n0 8\n"));
    assert!(contains(&pdf, "/Size 8"));
    assert_eq!(pdf.windows(5).filter(|w| w == b" obj\n").count(), 7);
}

#[test]
fn assemble_writes_the_objects_in_order() {
    let content = b"q Q".to_vec();
    let pdf = assemble(&sample_chunk(), 17, Rect::new(0.0, 0.0, 100.0, 100.0), &content).unwrap();
    let position = |needle: &str| {
        pdf.windows(needle.len()).position(|w| w == needle.as_bytes()).unwrap()
    };
    let order = [
        position("1 0 obj"),
        position("2 0 obj"),
        position("3 0 obj"),
        position("4 0 obj"),
        position("6 0 obj"),
        position("7 0 obj"),
        position("5 0 obj"),
    ];
    for pair in order.windows(2) {
        assert!(pair[0] < pair[1]);
    }
}

#[test]
fn assemble_fails_without_the_root() {
    let content = b"q Q".to_vec();
    let media_box = Rect::new(0.0, 0.0, 100.0, 100.0);
    assert_eq!(
        assemble(&sample_chunk(), 99, media_box, &content).unwrap_err(),
        ConvertError::InternalInvariant
    );
}

#[test]
fn assemble_refuses_two_objects_with_one_number() {
    let mut chunk = Chunk::new();
    chunk.indirect(Ref::new(10)).primitive(true);
    chunk.indirect(Ref::new(10)).primitive(false);
    let content = b"q Q".to_vec();
    let media_box = Rect::new(0.0, 0.0, 100.0, 100.0);
    assert_eq!(
        assemble(&chunk, 10, media_box, &content).unwrap_err(),
        ConvertError::InternalInvariant
    );
}

#[test]
fn write_document_checks_the_numbers_of_the_graph() {
    let content = b"q Q".to_vec();
    let media_box = Rect::new(0.0, 0.0, 100.0, 100.0);
    // A graph that still carries its old numbers, one of which is the page's.
    let mut chunk = Chunk::new();
    chunk.indirect(Ref::new(3)).primitive(true);
    let clash = Merged { ids: first_five(), objects: chunk, drawable: 3 };
    assert_eq!(
        write_document(&clash, media_box, &content).unwrap_err(),
        ConvertError::InternalInvariant
    );
    let fine = Merged { ids: first_five(), objects: sample_chunk(), drawable: 17 };
    let pdf = write_document(&fine, media_box, &content).unwrap();
    assert!(contains(&pdf, "/S1 17 0 R"));
    assert!(contains(&pdf, "17 0 obj"));
    assert!(contains(&pdf, "/Size 18"));
}

#[test]
fn assemble_takes_what_the_converter_makes() {
    let svg = "<svg xmlns=\"http://www.w3.org/2000/svg\" width=\"200\" height=\"100\">\
               <rect x=\"10\" y=\"10\" width=\"50\" height=\"30\" fill=\"#00ff00\"/></svg>";
    let tree = Tree::from_str(svg, &Options::default()).unwrap();
    let (chunk, root) = svg2pdf::to_chunk(&tree, ConversionOptions::default()).unwrap();
    let distinct: std::collections::BTreeSet<i32> = chunk.refs().map(|id| id.get()).collect();
    let content = b"q\n720 0 0 360 36 126 cm\n/S1 Do\nQ".to_vec();
    let media_box = Rect::new(0.0, 0.0, 792.0, 612.0);
    let pdf = assemble(&chunk, root.get(), media_box, &content).unwrap();
    assert!(pdf.starts_with(b"%PDF-1.7"));
    assert!(pdf.ends_with(b"%%EOF"));
    assert!(contains(&pdf, "/MediaBox [0 0 792 612]"));
    assert!(contains(&pdf, "/Producer (Mermaid Studio)"));
    assert!(contains(&pdf, "/Subtype /Form"));
    assert!(contains(&pdf, "/Root 1 0 R"));
    // Five own objects and the graph's, numbered from 1 without a gap.
    let objects = distinct.len() + 5;
    assert_eq!(pdf.windows(5).filter(|w| w == b" obj\n").count(), objects);
    assert!(contains(&pdf, &format!("/Size {}", objects + 1)));
}

#[test]
fn drawing_is_named_s1() {
    assert_eq!(drawing_name(), b"S1".to_vec());
}

#[test]
fn assemble_succeeds_exactly_when_the_root_is_met() {
    let content = b"q Q".to_vec();
    let media_box = Rect::new(0.0, 0.0, 100.0, 100.0);
    let mut chunk = Chunk::new();
    chunk
        .indirect(Ref::new(2))
        .dict()
        .pair(Name(b"Next"), Ref::new(4))
        .pair(Name(b"Far"), Ref::new(1000));
    chunk.indirect(Ref::new(4)).dict().pair(Name(b"Prev"), Ref::new(2));
    for root in [2, 4, 1000] {
        assert!(assemble(&chunk, root, media_box, &content).is_ok());
    }
    for root in [1, 3, 5, 6, 7, 8, 999, i32::MAX] {
        assert_eq!(
            assemble(&chunk, root, media_box, &content).unwrap_err(),
            ConvertError::InternalInvariant
        );
    }
}
