//! Assembles the page document: merges an object graph that was rendered
//! elsewhere into a fresh document of one page, and writes the whole as one
//! sequence of bytes.
//!
//! The objects themselves are written by `pdf_writer`. What this module
//! decides is which numbers they carry, in which order they are written, and
//! when a graph must be refused.

use std::collections::HashSet;
use pdf_writer::Chunk;
use pdf_writer::Finish;
use pdf_writer::Name;
use pdf_writer::Pdf;
use pdf_writer::Rect;
use pdf_writer::Ref;
use pdf_writer::TextStr;
use vstd::prelude::*;
use crate::error::ConvertError;
use crate::ids::DocumentIds;
use crate::ids::IdAllocator;
use crate::ids::Numbering;
use crate::ids::Renumbering;

verus! {

broadcast use vstd::std_specs::hash::group_hash_axioms;

/// `pdf_writer::Chunk`, a run of finished indirect objects. Opaque here.
#[verifier::external_type_specification]
#[verifier::external_body]
pub struct ExChunk(pdf_writer::Chunk);

/// `pdf_writer::Pdf`, a document under construction. Opaque here.
#[verifier::external_type_specification]
#[verifier::external_body]
pub struct ExPdf(pdf_writer::Pdf);

/// `pdf_writer::Rect`, a rectangle given by two corners. Opaque here.
#[verifier::external_type_specification]
#[verifier::external_body]
pub struct ExRect(pdf_writer::Rect);

/// One step in the construction of a document: what was written, with the
/// values it was written from.
pub ghost enum Written {
    /// The catalog `id`, pointing at the page tree `pages`.
    Catalog { id: i32, pages: i32 },
    /// The page tree `id` with `count` pages and the single kid `kid`.
    PageTree { id: i32, count: i32, kid: i32 },
    /// The page `id` under `parent`, of size `media_box`, drawn by the
    /// stream `contents`, with `drawable` in its resources under `name`.
    Page { id: i32, parent: i32, media_box: Rect, contents: i32, name: Seq<u8>, drawable: i32 },
    /// The stream `id` holding `data`.
    Stream { id: i32, data: Seq<u8> },
    /// All objects of `chunk`, as they are.
    Objects { chunk: Chunk },
    /// The document information `id` naming `producer`.
    Info { id: i32, producer: Seq<char> },
}

/// The numbers of the objects that a chunk holds, in the order in which they
/// were written to it: what `Chunk::refs` yields.
pub uninterp spec fn chunk_objects(chunk: Chunk) -> Seq<i32>;

/// The numbers that `Chunk::renumber` hands to its mapping, in the order of
/// the calls: the number of each object, followed by each reference in the
/// object's body.
pub uninterp spec fn chunk_visits(chunk: Chunk) -> Seq<i32>;

/// The chunk that `Chunk::renumber` returns when its mapping is
/// `Renumbering::assign` on a table that stands at `table`.
pub uninterp spec fn renumbered_chunk(chunk: Chunk, table: Numbering) -> Chunk;

/// The steps by which a document under construction came to be, first to
/// last.
pub uninterp spec fn written(pdf: Pdf) -> Seq<Written>;

/// The file that `Pdf::finish` returns for a document built by the steps of
/// `log`.
pub uninterp spec fn file_bytes(log: Seq<Written>) -> Seq<u8>;

/// The object numbers that one step adds to a document.
pub open spec fn step_objects(step: Written) -> Seq<i32> {
    match step {
        Written::Catalog { id, .. } => seq![id],
        Written::PageTree { id, .. } => seq![id],
        Written::Page { id, .. } => seq![id],
        Written::Stream { id, .. } => seq![id],
        Written::Objects { chunk } => chunk_objects(chunk),
        Written::Info { id, .. } => seq![id],
    }
}

/// The numbers of all objects of a document built by the steps of `log`.
pub open spec fn log_objects(log: Seq<Written>) -> Seq<i32>
    decreases log.len(),
{
    if log.len() == 0 {
        Seq::empty()
    } else {
        log_objects(log.drop_last()) + step_objects(log.last())
    }
}

/// A document can be finished when no two of its objects share a number and
/// every number is positive and below the largest.
pub open spec fn finishable(log: Seq<Written>) -> bool {
    &&& log_objects(log).no_duplicates()
    &&& forall|i: int|
        0 <= i < log_objects(log).len() ==> 0 < #[trigger] log_objects(log)[i] < i32::MAX
}

/// The name under which the page's resources hold the drawing: `S1`.
pub open spec fn drawable_name() -> Seq<u8> {
    seq![83u8, 49u8]
}

/// The producer that every document names.
pub open spec fn producer_text() -> Seq<char> {
    "Mermaid Studio"@
}

/// The steps that build a page document: catalog, page tree, the one page,
/// its content stream, the merged objects, the document information.
pub open spec fn document_log(
    ids: DocumentIds,
    media_box: Rect,
    content: Seq<u8>,
    objects: Chunk,
    drawable: i32,
) -> Seq<Written> {
    seq![
        Written::Catalog { id: ids.catalog, pages: ids.page_tree },
        Written::PageTree { id: ids.page_tree, count: 1, kid: ids.page },
        Written::Page {
            id: ids.page,
            parent: ids.page_tree,
            media_box,
            contents: ids.content,
            name: drawable_name(),
            drawable,
        },
        Written::Stream { id: ids.content, data: content },
        Written::Objects { chunk: objects },
        Written::Info { id: ids.info, producer: producer_text() },
    ]
}

/// Whether the five numbers can head a document: positive, below the
/// largest, no two alike.
pub open spec fn usable_ids(ids: DocumentIds) -> bool {
    &&& 0 < ids.catalog < i32::MAX
    &&& 0 < ids.page_tree < i32::MAX
    &&& 0 < ids.page < i32::MAX
    &&& 0 < ids.content < i32::MAX
    &&& 0 < ids.info < i32::MAX
    &&& ids.catalog != ids.page_tree
    &&& ids.catalog != ids.page
    &&& ids.catalog != ids.content
    &&& ids.catalog != ids.info
    &&& ids.page_tree != ids.page
    &&& ids.page_tree != ids.content
    &&& ids.page_tree != ids.info
    &&& ids.page != ids.content
    &&& ids.page != ids.info
    &&& ids.content != ids.info
}

/// Whether `id` is one of the five numbers.
pub open spec fn is_document_id(ids: DocumentIds, id: i32) -> bool {
    id == ids.catalog || id == ids.page_tree || id == ids.page || id == ids.content || id
        == ids.info
}

/// Whether objects with the numbers `objects` can join a document headed by
/// `ids`: each number positive and below the largest, none of them one of the
/// five, no two alike.
pub open spec fn mergeable(objects: Seq<i32>, ids: DocumentIds) -> bool {
    &&& objects.no_duplicates()
    &&& forall|i: int|
        0 <= i < objects.len() ==> 0 < #[trigger] objects[i] < i32::MAX && !is_document_id(
            ids,
            objects[i],
        )
}

/// Whether `pick` chooses, in ascending order, objects of `source` whose new
/// numbers under `map` are the numbers `out`, one for one.
pub open spec fn picks_relabeled(
    pick: Seq<int>,
    out: Seq<i32>,
    source: Seq<i32>,
    map: Map<i32, i32>,
) -> bool {
    &&& pick.len() == out.len()
    &&& forall|k: int|
        0 <= k < pick.len() ==> 0 <= #[trigger] pick[k] < source.len() && map.contains_key(
            source[pick[k]],
        ) && out[k] == map[source[pick[k]]]
    &&& forall|j: int, k: int| 0 <= j < k < pick.len() ==> #[trigger] pick[j] < #[trigger] pick[k]
}

/// Whether `out` lists, in their order, the new numbers of some of the
/// objects `source`.
pub open spec fn relabels_part(out: Seq<i32>, source: Seq<i32>, map: Map<i32, i32>) -> bool {
    exists|pick: Seq<int>| picks_relabeled(pick, out, source, map)
}

/// Reads the numbers of a chunk's objects through `Chunk::refs`, in order.
#[verifier::external_body]
fn chunk_object_ids(chunk: &Chunk) -> (ids: Vec<i32>)
    ensures
        ids@ == chunk_objects(*chunk),
{
    chunk.refs().map(|id| id.get()).collect()
}

/// Calls `Chunk::renumber` with `Renumbering::assign` as the mapping. The
/// crate calls the mapping once for each number in `chunk_visits`, in order,
/// so the table ends where seeing that run leaves it. The chunk that comes
/// back is named; of its contents only this is said: the crate copies each
/// object that it can read under the number that the mapping gave for it and
/// drops the others, so unless the fresh numbers ran out the objects of the
/// result are some of the source's objects, in order, under their new
/// numbers.
#[verifier::external_body]
fn renumber_chunk(chunk: &Chunk, table: &mut Renumbering) -> (renumbered: Chunk)
    requires
        old(table)@.wf(),
    ensures
        final(table)@ == old(table)@.assign_all(chunk_visits(*chunk)),
        renumbered == renumbered_chunk(*chunk, old(table)@),
        !final(table)@.exhausted ==> relabels_part(
            chunk_objects(renumbered),
            chunk_objects(*chunk),
            final(table)@.map,
        ),
{
    chunk.renumber(|old_id| Ref::new(table.assign(old_id.get())))
}

/// Calls `Pdf::new`: a document with no object yet.
#[verifier::external_body]
fn start_pdf() -> (pdf: Pdf)
    ensures
        written(pdf) == Seq::<Written>::empty(),
{
    Pdf::new()
}

/// Writes the catalog through `Pdf::catalog` and `Catalog::pages`; the step
/// is added to the document's log.
#[verifier::external_body]
fn write_catalog(pdf: &mut Pdf, id: i32, pages: i32)
    requires
        id > 0,
        pages > 0,
    ensures
        written(*final(pdf)) == written(*old(pdf)).push((Written::Catalog { id, pages })),
{
    pdf.catalog(Ref::new(id)).pages(Ref::new(pages));
}

/// Writes a page tree with one kid through `Chunk::pages`, `Pages::count`
/// and `Pages::kids`; the step is added to the document's log.
#[verifier::external_body]
fn write_page_tree(pdf: &mut Pdf, id: i32, count: i32, kid: i32)
    requires
        id > 0,
        kid > 0,
    ensures
        written(*final(pdf)) == written(*old(pdf)).push((Written::PageTree { id, count, kid })),
{
    pdf.pages(Ref::new(id)).count(count).kids([Ref::new(kid)]);
}

/// Writes a page through `Chunk::page` and the setters of `Page`, with one
/// entry in the external objects of its resources; the step is added to the
/// document's log.
#[verifier::external_body]
fn write_page(
    pdf: &mut Pdf,
    id: i32,
    parent: i32,
    media_box: Rect,
    contents: i32,
    name: &[u8],
    drawable: i32,
)
    requires
        id > 0,
        parent > 0,
        contents > 0,
        drawable > 0,
    ensures
        written(*final(pdf)) == written(*old(pdf)).push(
            (Written::Page { id, parent, media_box, contents, name: name@, drawable }),
        ),
{
    let mut page = pdf.page(Ref::new(id));
    page.parent(Ref::new(parent));
    page.media_box(media_box);
    page.contents(Ref::new(contents));
    let mut resources = page.resources();
    resources.x_objects().pair(Name(name), Ref::new(drawable));
    resources.finish();
    page.finish();
}

/// Writes a stream through `Chunk::stream`, which refuses data longer than
/// `i32::MAX`; the step is added to the document's log.
#[verifier::external_body]
fn write_stream(pdf: &mut Pdf, id: i32, data: &[u8])
    requires
        id > 0,
        data@.len() <= i32::MAX,
    ensures
        written(*final(pdf)) == written(*old(pdf)).push((Written::Stream { id, data: data@ })),
{
    pdf.stream(Ref::new(id), data);
}

/// Adds all objects of a chunk through `Chunk::extend`; the step is added to
/// the document's log.
#[verifier::external_body]
fn append_objects(pdf: &mut Pdf, chunk: &Chunk)
    ensures
        written(*final(pdf)) == written(*old(pdf)).push((Written::Objects { chunk: *chunk })),
{
    pdf.extend(chunk);
}

/// Writes the document information through `Pdf::document_info` and
/// `DocumentInfo::producer`; the step is added to the document's log.
#[verifier::external_body]
fn write_info(pdf: &mut Pdf, id: i32, producer: &str)
    requires
        id > 0,
    ensures
        written(*final(pdf)) == written(*old(pdf)).push((Written::Info { id, producer: producer@ })),
{
    pdf.document_info(Ref::new(id)).producer(TextStr(producer));
}

/// Calls `Pdf::finish`, which refuses a document in which two objects share
/// a number and cannot count past the largest number. The file that comes
/// back is named after the steps that built the document; it ends with a
/// table and a trailer and so is never empty.
#[verifier::external_body]
fn finish_pdf(pdf: Pdf) -> (bytes: Vec<u8>)
    requires
        finishable(written(pdf)),
    ensures
        bytes@ == file_bytes(written(pdf)),
        bytes@.len() > 0,
{
    pdf.finish()
}

/// Adding a step to a log adds that step's objects after the others.
pub proof fn lemma_log_objects_push(log: Seq<Written>, step: Written)
    ensures
        log_objects(log.push(step)) == log_objects(log) + step_objects(step),
{
    assert(log.push(step).drop_last() =~= log);
    assert(log.push(step).last() == step);
}

/// The objects of a page document, in the order written: catalog, page tree,
/// page, content stream, the merged objects, document information.
pub proof fn lemma_document_objects(
    ids: DocumentIds,
    media_box: Rect,
    content: Seq<u8>,
    objects: Chunk,
    drawable: i32,
)
    ensures
        log_objects(document_log(ids, media_box, content, objects, drawable)) == seq![
            ids.catalog,
            ids.page_tree,
            ids.page,
            ids.content,
        ] + chunk_objects(objects) + seq![ids.info],
{
    let log = document_log(ids, media_box, content, objects, drawable);
    let l0 = Seq::<Written>::empty();
    let l1 = l0.push(log[0]);
    let l2 = l1.push(log[1]);
    let l3 = l2.push(log[2]);
    let l4 = l3.push(log[3]);
    let l5 = l4.push(log[4]);
    let l6 = l5.push(log[5]);
    assert(l6 =~= log);
    lemma_log_objects_push(l0, log[0]);
    lemma_log_objects_push(l1, log[1]);
    lemma_log_objects_push(l2, log[2]);
    lemma_log_objects_push(l3, log[3]);
    lemma_log_objects_push(l4, log[4]);
    lemma_log_objects_push(l5, log[5]);
    assert(log_objects(l0) =~= Seq::<i32>::empty());
    assert(log_objects(l6) =~= seq![ids.catalog, ids.page_tree, ids.page, ids.content]
        + chunk_objects(objects) + seq![ids.info]);
}

/// The five own objects of a page document are objects of the document, so
/// the references among them resolve: from the catalog to the page tree, from
/// the page tree to the page, from the page to the page tree and to the
/// content stream. The page's reference to the drawing resolves where the
/// merged objects hold one of that number.
pub proof fn lemma_own_references_resolve(
    ids: DocumentIds,
    media_box: Rect,
    content: Seq<u8>,
    objects: Chunk,
    drawable: i32,
)
    ensures
        ({
            let all = log_objects(document_log(ids, media_box, content, objects, drawable));
            &&& all.contains(ids.catalog)
            &&& all.contains(ids.page_tree)
            &&& all.contains(ids.page)
            &&& all.contains(ids.content)
            &&& all.contains(ids.info)
            &&& chunk_objects(objects).contains(drawable) ==> all.contains(drawable)
        }),
{
    let all = log_objects(document_log(ids, media_box, content, objects, drawable));
    let inner = chunk_objects(objects);
    lemma_document_objects(ids, media_box, content, objects, drawable);
    assert(all[0] == ids.catalog && all[1] == ids.page_tree && all[2] == ids.page && all[3]
        == ids.content);
    assert(all[all.len() - 1] == ids.info);
    if inner.contains(drawable) {
        let i = choose|i: int| 0 <= i < inner.len() && inner[i] == drawable;
        assert(all[i + 4] == drawable);
    }
}

/// A page document can be finished exactly when its merged objects can join
/// its five own.
pub proof fn lemma_document_finishable(
    ids: DocumentIds,
    media_box: Rect,
    content: Seq<u8>,
    objects: Chunk,
    drawable: i32,
)
    requires
        usable_ids(ids),
    ensures
        finishable(document_log(ids, media_box, content, objects, drawable)) <==> mergeable(
            chunk_objects(objects),
            ids,
        ),
{
    let log = document_log(ids, media_box, content, objects, drawable);
    let inner = chunk_objects(objects);
    let all = log_objects(log);
    lemma_document_objects(ids, media_box, content, objects, drawable);
    assert(all.len() == inner.len() + 5);
    assert(all[0] == ids.catalog && all[1] == ids.page_tree && all[2] == ids.page && all[3]
        == ids.content);
    assert(all[all.len() - 1] == ids.info);
    assert forall|i: int| 0 <= i < inner.len() implies all[i + 4] == #[trigger] inner[i] by {}
    if mergeable(inner, ids) {
        assert forall|i: int, j: int| 0 <= i < all.len() && 0 <= j < all.len() && i != j implies all[i]
            != all[j] by {
            if 4 <= i < all.len() - 1 {
                assert(all[i] == inner[i - 4]);
            }
            if 4 <= j < all.len() - 1 {
                assert(all[j] == inner[j - 4]);
            }
        }
        assert forall|i: int| 0 <= i < all.len() implies 0 < #[trigger] all[i] < i32::MAX by {
            if 4 <= i < all.len() - 1 {
                assert(all[i] == inner[i - 4]);
            }
        }
    }
    if finishable(log) {
        assert forall|i: int, j: int| 0 <= i < inner.len() && 0 <= j < inner.len() && i != j implies inner[i]
            != inner[j] by {
            assert(all[i + 4] == inner[i]);
            assert(all[j + 4] == inner[j]);
        }
        assert forall|i: int| 0 <= i < inner.len() implies 0 < #[trigger] inner[i] < i32::MAX
            && !is_document_id(ids, inner[i]) by {
            assert(all[i + 4] == inner[i]);
            assert(all[i + 4] != all[0]);
            assert(all[i + 4] != all[1]);
            assert(all[i + 4] != all[2]);
            assert(all[i + 4] != all[3]);
            assert(all[i + 4] != all[all.len() - 1]);
        }
    }
}

/// Objects with distinct numbers keep distinct numbers under a renumbering,
/// and their new numbers are none of a document's five own where those lie
/// below the first fresh number: what is left of the objects can join the
/// document.
pub proof fn lemma_relabeled_objects_are_mergeable(
    out: Seq<i32>,
    source: Seq<i32>,
    table: Numbering,
    ids: DocumentIds,
)
    requires
        table.wf(),
        relabels_part(out, source, table.map),
        source.no_duplicates(),
        ids.catalog < table.first,
        ids.page_tree < table.first,
        ids.page < table.first,
        ids.content < table.first,
        ids.info < table.first,
    ensures
        mergeable(out, ids),
{
    let pick = choose|pick: Seq<int>| picks_relabeled(pick, out, source, table.map);
    assert forall|j: int, k: int| 0 <= j < out.len() && 0 <= k < out.len() && j != k implies out[j]
        != out[k] by {
        assert(pick[j] != pick[k]) by {
            if j < k {
                assert(pick[j] < pick[k]);
            } else {
                assert(pick[k] < pick[j]);
            }
        }
        assert(source[pick[j]] != source[pick[k]]);
        assert(table.map.contains_key(source[pick[j]]));
        assert(table.map.contains_key(source[pick[k]]));
    }
    assert forall|i: int| 0 <= i < out.len() implies 0 < #[trigger] out[i] < i32::MAX
        && !is_document_id(ids, out[i]) by {
        assert(0 <= pick[i] < source.len());
        assert(table.map.contains_key(source[pick[i]]));
    }
}

/// Decides whether objects with the given numbers can join a document
/// headed by `ids`.
pub fn can_merge(objects: &Vec<i32>, ids: &DocumentIds) -> (ok: bool)
    ensures
        ok == mergeable(objects@, *ids),
{
    let mut seen: HashSet<i32> = HashSet::new();
    let mut i: usize = 0;
    while i < objects.len()
        invariant
            0 <= i <= objects.len(),
            forall|x: i32| seen@.contains(x) <==> exists|j: int| 0 <= j < i && objects@[j] == x,
            forall|j: int, k: int| 0 <= j < i && 0 <= k < i && j != k ==> objects@[j] != objects@[k],
            forall|j: int|
                0 <= j < i ==> 0 < #[trigger] objects@[j] < i32::MAX && !is_document_id(
                    *ids,
                    objects@[j],
                ),
        decreases objects.len() - i,
    {
        let id: i32 = objects[i];
        if id <= 0 || id == i32::MAX || id == ids.catalog || id == ids.page_tree || id == ids.page
            || id == ids.content || id == ids.info {
            return false;
        }
        if seen.contains(&id) {
            proof {
                let j = choose|j: int| 0 <= j < i && objects@[j] == id;
                assert(objects@[j] == objects@[i as int] && j != i);
            }
            return false;
        }
        seen.insert(id);
        i += 1;
    }
    true
}

/// The name under which the page's resources hold the drawing, for whoever
/// writes the page's content.
pub fn drawing_name() -> (name: Vec<u8>)
    ensures
        name@ == drawable_name(),
{
    let mut name: Vec<u8> = Vec::new();
    name.push(83u8);
    name.push(49u8);
    assert(name@ =~= drawable_name());
    name
}

/// An object graph made ready for a document: the five numbers of the
/// document's own objects, the graph under its new numbers, and the new
/// number of its root.
pub struct Merged {
    pub ids: DocumentIds,
    pub objects: Chunk,
    pub drawable: i32,
}

/// Gives the five own objects of a document the numbers 1 to 5 and every
/// number of the graph a fresh number from 6 on, in the order in which the
/// graph is walked. Fails where the fresh numbers run out or the root is not
/// among the numbers of the graph.
pub fn merge(chunk: &Chunk, root: i32) -> (r: Result<Merged, ConvertError>)
    ensures
        ({
            let table = Numbering::fresh(6).assign_all(chunk_visits(*chunk));
            match r {
                Ok(m) => {
                    &&& !table.exhausted
                    &&& table.map.contains_key(root)
                    &&& m.ids.consecutive_from(1)
                    &&& m.drawable == table.map[root]
                    &&& m.drawable >= 6
                    &&& m.objects == renumbered_chunk(*chunk, Numbering::fresh(6))
                    &&& relabels_part(chunk_objects(m.objects), chunk_objects(*chunk), table.map)
                },
                Err(e) => e == ConvertError::InternalInvariant && (table.exhausted
                    || !table.map.contains_key(root)),
            }
        }),
{
    let mut alloc = IdAllocator::new();
    let ids = match DocumentIds::reserve(&mut alloc) {
        Some(ids) => ids,
        None => {
            return Err(ConvertError::InternalInvariant);
        },
    };
    let mut table = Renumbering::new(alloc);
    proof {
        Numbering::fresh(6).lemma_assign_all(chunk_visits(*chunk));
    }
    let objects = renumber_chunk(chunk, &mut table);
    if table.is_exhausted() {
        return Err(ConvertError::InternalInvariant);
    }
    match table.resolve(root) {
        Some(drawable) => Ok(Merged { ids, objects, drawable }),
        None => Err(ConvertError::InternalInvariant),
    }
}

/// Writes the page document around a merged graph: catalog, page tree, one
/// page of the given size that shows the root of the graph, the page's
/// content stream, the graph, and the document information. Fails, writing
/// nothing, where the graph's objects cannot join the five own.
pub fn write_document(merged: &Merged, media_box: Rect, content: &Vec<u8>) -> (r: Result<
    Vec<u8>,
    ConvertError,
>)
    requires
        usable_ids(merged.ids),
        merged.drawable > 0,
        content.len() <= i32::MAX,
    ensures
        match r {
            Ok(bytes) => mergeable(chunk_objects(merged.objects), merged.ids) && bytes@
                == file_bytes(
                document_log(merged.ids, media_box, content@, merged.objects, merged.drawable),
            ) && bytes@.len() > 0,
            Err(e) => e == ConvertError::InternalInvariant && !mergeable(
                chunk_objects(merged.objects),
                merged.ids,
            ),
        },
{
    let numbers = chunk_object_ids(&merged.objects);
    if !can_merge(&numbers, &merged.ids) {
        return Err(ConvertError::InternalInvariant);
    }
    let ids = merged.ids;
    let name = drawing_name();
    let mut pdf = start_pdf();
    write_catalog(&mut pdf, ids.catalog, ids.page_tree);
    write_page_tree(&mut pdf, ids.page_tree, 1, ids.page);
    write_page(
        &mut pdf,
        ids.page,
        ids.page_tree,
        media_box,
        ids.content,
        name.as_slice(),
        merged.drawable,
    );
    write_stream(&mut pdf, ids.content, content.as_slice());
    append_objects(&mut pdf, &merged.objects);
    write_info(&mut pdf, ids.info, "Mermaid Studio");
    proof {
        assert(written(pdf) =~= document_log(
            merged.ids,
            media_box,
            content@,
            merged.objects,
            merged.drawable,
        ));
        lemma_document_finishable(
            merged.ids,
            media_box,
            content@,
            merged.objects,
            merged.drawable,
        );
    }
    Ok(finish_pdf(pdf))
}

/// Whether a graph that is walked in the order `visits` gives `root` a new
/// number: the fresh numbers last for the walk and `root` is met on it.
pub open spec fn resolves_root(visits: Seq<i32>, root: i32) -> bool {
    let table = Numbering::fresh(6).assign_all(visits);
    !table.exhausted && table.map.contains_key(root)
}

/// What `assemble` returns, given the file that the finished document makes.
pub open spec fn assembled(
    chunk: Chunk,
    root: i32,
    media_box: Rect,
    content: Seq<u8>,
) -> Result<Seq<u8>, ConvertError> {
    let table = Numbering::fresh(6).assign_all(chunk_visits(chunk));
    let objects = renumbered_chunk(chunk, Numbering::fresh(6));
    let ids = DocumentIds { catalog: 1, page_tree: 2, page: 3, content: 4, info: 5 };
    if table.exhausted || !table.map.contains_key(root) || !mergeable(chunk_objects(objects), ids) {
        Err(ConvertError::InternalInvariant)
    } else {
        Ok(file_bytes(document_log(ids, media_box, content, objects, table.map[root])))
    }
}

/// Embeds an object graph in a new document of one page and returns the
/// finished file: `merge` followed by `write_document`. For a graph in which
/// no two objects share a number this succeeds exactly when the root gets a
/// new number.
pub fn assemble(chunk: &Chunk, root: i32, media_box: Rect, content: &Vec<u8>) -> (r: Result<
    Vec<u8>,
    ConvertError,
>)
    requires
        content.len() <= i32::MAX,
    ensures
        match r {
            Ok(bytes) => bytes@.len() > 0 && assembled(*chunk, root, media_box, content@) == Ok::<
                Seq<u8>,
                ConvertError,
            >(bytes@),
            Err(e) => assembled(*chunk, root, media_box, content@) == Err::<Seq<u8>, ConvertError>(e),
        },
        chunk_objects(*chunk).no_duplicates() ==> (r is Ok <==> resolves_root(
            chunk_visits(*chunk),
            root,
        )),
{
    let merged = match merge(chunk, root) {
        Ok(merged) => merged,
        Err(e) => {
            return Err(e);
        },
    };
    proof {
        let table = Numbering::fresh(6).assign_all(chunk_visits(*chunk));
        Numbering::fresh(6).lemma_assign_all(chunk_visits(*chunk));
        if chunk_objects(*chunk).no_duplicates() {
            lemma_relabeled_objects_are_mergeable(
                chunk_objects(merged.objects),
                chunk_objects(*chunk),
                table,
                merged.ids,
            );
        }
    }
    write_document(&merged, media_box, content)
}

} // verus!
