use vstd::prelude::*;

use crate::dto::{AddAnchorOut, AnchorImageDTO, DataUrlOut, RemoveAnchorOut};
use crate::error::{msg_of, AppError};
use crate::json::strs;
use crate::provider::data_url;
use crate::repo::{ImageRow, StyleRow};
use crate::storage::{data_url_parts, invalid_data_url_message, parse_data_url};
use crate::styles::style_not_found_message;
use crate::text::text_eq;

verus! {

/// An image's id.
pub struct ImageIdInput {
    pub id: String,
}

/// A style's id, under the name the front end uses for it.
pub struct StyleIdInput {
    pub style_id: String,
}

/// A new anchor image for a style, as a data URL.
pub struct AddAnchorInput {
    pub style_id: String,
    pub data_url: String,
}

/// The anchor image to take off a style.
pub struct RemoveAnchorInput {
    pub style_id: String,
    pub image_id: String,
}

/// The data URL of a stored image, from its MIME type and base64 contents.
pub fn image_data_url(mime: &str, b64: &str) -> (res: DataUrlOut)
    ensures
        res.data_url@ == "data:"@ + mime@ + ";base64,"@ + b64@,
{
    DataUrlOut { data_url: data_url(mime, b64) }
}

/// An anchor image of a style, as a data URL.
pub fn anchor_image(id: String, mime: &str, b64: &str) -> (res: AnchorImageDTO)
    ensures
        res.id == id,
        res.data_url@ == "data:"@ + mime@ + ";base64,"@ + b64@,
{
    AnchorImageDTO { id, data_url: data_url(mime, b64) }
}

/// The position of the first row with the id, if any.
pub open spec fn row_index(rows: Seq<ImageRow>, id: Seq<char>) -> Option<int> {
    if exists|i: int| 0 <= i < rows.len() && (#[trigger] rows[i]).id@ == id {
        Some(
            choose|i: int|
                0 <= i < rows.len() && (#[trigger] rows[i]).id@ == id && forall|j: int|
                    0 <= j < i ==> rows[j].id@ != id,
        )
    } else {
        None
    }
}

/// The anchors to show, in the style's order: for each anchor id that has a
/// stored image, the id and the path of its first image row.
pub open spec fn anchor_files(ids: Seq<Seq<char>>, rows: Seq<ImageRow>) -> Seq<(Seq<char>, Seq<char>)>
    decreases ids.len(),
{
    if ids.len() == 0 {
        Seq::empty()
    } else {
        let rest = anchor_files(ids.drop_last(), rows);
        match row_index(rows, ids.last()) {
            Some(i) => rest.push((ids.last(), rows[i].path@)),
            None => rest,
        }
    }
}

fn find_row(rows: &Vec<ImageRow>, id: &str) -> (res: Option<usize>)
    ensures
        match res {
            Some(i) => i < rows@.len() && row_index(rows@, id@) == Some(i as int),
            None => row_index(rows@, id@) is None,
        },
{
    let mut i: usize = 0;
    while i < rows.len()
        invariant
            i <= rows@.len(),
            forall|j: int| 0 <= j < i ==> (#[trigger] rows@[j]).id@ != id@,
        decreases rows@.len() - i,
    {
        if text_eq(rows[i].id.as_str(), id) {
            proof {
                let w = i as int;
                assert(0 <= w < rows@.len() && rows@[w].id@ == id@);
                let c = choose|k: int|
                    0 <= k < rows@.len() && (#[trigger] rows@[k]).id@ == id@ && forall|j: int|
                        0 <= j < k ==> rows@[j].id@ != id@;
                if c < w {
                    assert(rows@[c].id@ != id@);
                }
                if w < c {
                    assert(rows@[w].id@ != id@);
                }
            }
            return Some(i);
        }
        i = i + 1;
    }
    None
}

/// The files of a style's anchor images, in the order of its anchor list;
/// ids without a stored image are skipped.
pub fn anchor_files_in_order(ids: &Vec<String>, rows: &Vec<ImageRow>) -> (res: Vec<(String, String)>)
    ensures
        res@.map_values(|p: (String, String)| (p.0@, p.1@)) == anchor_files(strs(ids@), rows@),
{
    let mut out: Vec<(String, String)> = Vec::new();
    let mut k: usize = 0;
    while k < ids.len()
        invariant
            k <= ids@.len(),
            out@.map_values(|p: (String, String)| (p.0@, p.1@)) == anchor_files(
                strs(ids@).take(k as int),
                rows@,
            ),
        decreases ids@.len() - k,
    {
        proof {
            let t = strs(ids@).take(k + 1);
            assert(t.drop_last() =~= strs(ids@).take(k as int));
            assert(t.last() == ids@[k as int]@);
        }
        let ghost before = out@;
        match find_row(rows, ids[k].as_str()) {
            Some(i) => {
                out.push((ids[k].clone(), rows[i].path.clone()));
                proof {
                    assert(out@.map_values(|p: (String, String)| (p.0@, p.1@)) =~= before.map_values(
                        |p: (String, String)| (p.0@, p.1@),
                    ).push((ids@[k as int]@, rows@[i as int].path@)));
                }
            },
            None => {},
        }
        k = k + 1;
    }
    proof {
        assert(strs(ids@).take(ids@.len() as int) =~= strs(ids@));
    }
    out
}

pub open spec fn style_id_required_message() -> Seq<char> {
    "styleId erforderlich."@
}

pub open spec fn data_url_required_message() -> Seq<char> {
    "dataUrl erforderlich."@
}

/// The most anchor images a style can pin.
pub const MAX_ANCHORS: usize = 11;

pub open spec fn too_many_anchors_message() -> Seq<char> {
    "Ein Stil kann höchstens 11 Anker-Bilder haben."@
}

/// The number of anchor images a style pins (none for no style).
pub open spec fn pinned(style: Option<&StyleRow>) -> nat {
    match style {
        Some(st) => st.dto.anchor_image_ids@.len(),
        None => 0,
    }
}

/// Checks a new anchor image: style id and data URL must be given, the style
/// must exist and pin fewer than [`MAX_ANCHORS`] images, and the data URL
/// must parse. Gives its MIME type and base64 data.
pub fn add_anchor_plan(input: &AddAnchorInput, style: Option<&StyleRow>) -> (res: Result<
    (String, String),
    AppError,
>)
    ensures
        input.style_id@.len() == 0 ==> (res matches Err(e) && msg_of(e) == Some(
            style_id_required_message(),
        )),
        input.style_id@.len() > 0 && input.data_url@.len() == 0 ==> (res matches Err(e) && msg_of(e)
            == Some(data_url_required_message())),
        input.style_id@.len() > 0 && input.data_url@.len() > 0 && style is None ==> (res matches Err(
            e,
        ) && msg_of(e) == Some(style_not_found_message())),
        input.style_id@.len() > 0 && input.data_url@.len() > 0 && style is Some && pinned(style)
            >= MAX_ANCHORS ==> (res matches Err(e) && msg_of(e)
            == Some(too_many_anchors_message())),
        input.style_id@.len() > 0 && input.data_url@.len() > 0 && style is Some && pinned(style)
            < MAX_ANCHORS ==> match data_url_parts(
            input.data_url@,
        ) {
            Some(parts) => res matches Ok(p) && p.0@ == parts.0 && p.1@ == parts.1,
            None => res matches Err(e) && msg_of(e) == Some(invalid_data_url_message()),
        },
{
    if input.style_id.as_str().is_empty() {
        return Err(AppError::msg_str("styleId erforderlich."));
    }
    if input.data_url.as_str().is_empty() {
        return Err(AppError::msg_str("dataUrl erforderlich."));
    }
    match style {
        None => {
            return Err(AppError::msg_str("Stil nicht gefunden."));
        },
        Some(st) => {
            if st.dto.anchor_image_ids.len() >= MAX_ANCHORS {
                return Err(AppError::msg_str("Ein Stil kann höchstens 11 Anker-Bilder haben."));
            }
        },
    }
    parse_data_url(input.data_url.as_str())
}

/// The anchor list after adding an image: the new id at the end. (Callers
/// add only after [`add_anchor_plan`] accepted, so the list stays within
/// [`MAX_ANCHORS`].)
pub fn with_anchor(ids: Vec<String>, image_id: String) -> (res: AddAnchorOut)
    ensures
        res.image_id == image_id,
        res.anchor_image_ids@ == ids@.push(image_id),
{
    let mut next = ids;
    let id_copy = image_id.clone();
    next.push(id_copy);
    AddAnchorOut { image_id, anchor_image_ids: next }
}

/// The anchor list without the given id (every occurrence is taken out).
pub open spec fn without_id(ids: Seq<String>, id: Seq<char>) -> Seq<String>
    decreases ids.len(),
{
    if ids.len() == 0 {
        Seq::empty()
    } else if ids.last()@ == id {
        without_id(ids.drop_last(), id)
    } else {
        without_id(ids.drop_last(), id).push(ids.last())
    }
}

/// The anchor list after taking an image off: every occurrence of its id
/// removed, the rest in order.
pub fn without_anchor(ids: Vec<String>, image_id: &str) -> (res: RemoveAnchorOut)
    ensures
        res.anchor_image_ids@ == without_id(ids@, image_id@),
{
    let mut out: Vec<String> = Vec::new();
    let mut k: usize = 0;
    while k < ids.len()
        invariant
            k <= ids@.len(),
            out@ == without_id(ids@.take(k as int), image_id@),
        decreases ids@.len() - k,
    {
        proof {
            let t = ids@.take(k + 1);
            assert(t.drop_last() =~= ids@.take(k as int));
        }
        if !text_eq(ids[k].as_str(), image_id) {
            out.push(ids[k].clone());
        }
        k = k + 1;
    }
    proof {
        assert(ids@.take(ids@.len() as int) =~= ids@);
    }
    RemoveAnchorOut { anchor_image_ids: out }
}

/// No element of the list has the id.
pub open spec fn lacks_id(ids: Seq<String>, id: Seq<char>) -> bool {
    forall|i: int| 0 <= i < ids.len() ==> (#[trigger] ids[i])@ != id
}

proof fn lemma_without_absent(ids: Seq<String>, id: Seq<char>)
    requires
        lacks_id(ids, id),
    ensures
        without_id(ids, id) == ids,
    decreases ids.len(),
{
    if ids.len() > 0 {
        assert(lacks_id(ids.drop_last(), id)) by {
            assert forall|i: int| 0 <= i < ids.drop_last().len() implies (
            #[trigger] ids.drop_last()[i])@ != id by {
                assert(ids.drop_last()[i] == ids[i]);
            }
        }
        lemma_without_absent(ids.drop_last(), id);
        assert(ids.last() == ids[ids.len() - 1]);
        assert(ids.drop_last().push(ids.last()) =~= ids);
    }
}

/// Law: taking off an anchor image that was just added, under an id the
/// style did not have yet, gives back the list as it was.
pub proof fn law_remove_undoes_add(ids: Seq<String>, image_id: String)
    requires
        lacks_id(ids, image_id@),
    ensures
        without_id(ids.push(image_id), image_id@) == ids,
{
    assert(ids.push(image_id).drop_last() =~= ids);
    lemma_without_absent(ids, image_id@);
}

/// Law: after taking an image off, the list no longer holds its id, and
/// every other id keeps its place relative to the others.
pub proof fn law_removed_id_absent(ids: Seq<String>, image_id: Seq<char>)
    ensures
        lacks_id(without_id(ids, image_id), image_id),
        without_id(ids, image_id).len() <= ids.len(),
    decreases ids.len(),
{
    if ids.len() > 0 {
        law_removed_id_absent(ids.drop_last(), image_id);
    }
}

/// Law: the anchors are read id by id: the anchors of two id lists one
/// after the other are those of the first followed by those of the second.
pub proof fn law_anchor_files_concat(a: Seq<Seq<char>>, b: Seq<Seq<char>>, rows: Seq<ImageRow>)
    ensures
        anchor_files(a + b, rows) == anchor_files(a, rows) + anchor_files(b, rows),
    decreases b.len(),
{
    if b.len() == 0 {
        assert(a + b =~= a);
        assert(anchor_files(a, rows) + anchor_files(b, rows) =~= anchor_files(a, rows));
    } else {
        assert((a + b).drop_last() =~= a + b.drop_last());
        assert((a + b).last() == b.last());
        law_anchor_files_concat(a, b.drop_last(), rows);
        match row_index(rows, b.last()) {
            Some(i) => {
                let x = (b.last(), rows[i].path@);
                assert(anchor_files(a, rows) + anchor_files(b.drop_last(), rows).push(x) =~= (
                anchor_files(a, rows) + anchor_files(b.drop_last(), rows)).push(x));
            },
            None => {},
        }
    }
}

/// A row with the id gives a first row with the id.
proof fn lemma_first_row(rows: Seq<ImageRow>, id: Seq<char>, w: int)
    requires
        0 <= w < rows.len(),
        rows[w].id@ == id,
    ensures
        exists|i: int|
            0 <= i < rows.len() && (#[trigger] rows[i]).id@ == id && forall|j: int|
                0 <= j < i ==> rows[j].id@ != id,
    decreases w,
{
    if exists|j: int| 0 <= j < w && (#[trigger] rows[j]).id@ == id {
        let j = choose|j: int| 0 <= j < w && (#[trigger] rows[j]).id@ == id;
        lemma_first_row(rows, id, j);
    } else {
        assert(forall|j: int| 0 <= j < w ==> rows[j].id@ != id);
    }
}

/// Law: one anchor id gives its file when an image row has that id (the
/// path of the first such row), and nothing when none has.
pub proof fn law_anchor_file_of_one_id(id: Seq<char>, rows: Seq<ImageRow>)
    ensures
        (exists|i: int| 0 <= i < rows.len() && (#[trigger] rows[i]).id@ == id) ==> ({
            let i = row_index(rows, id).unwrap();
            &&& row_index(rows, id) is Some
            &&& 0 <= i < rows.len()
            &&& rows[i].id@ == id
            &&& forall|j: int| 0 <= j < i ==> (#[trigger] rows[j]).id@ != id
            &&& anchor_files(seq![id], rows) == seq![(id, rows[i].path@)]
        }),
        !(exists|i: int| 0 <= i < rows.len() && (#[trigger] rows[i]).id@ == id) ==> anchor_files(
            seq![id],
            rows,
        ) == Seq::<(Seq<char>, Seq<char>)>::empty(),
{
    let e = Seq::<Seq<char>>::empty();
    assert(seq![id].drop_last() =~= e);
    assert(seq![id].last() == id);
    assert(anchor_files(e, rows) == Seq::<(Seq<char>, Seq<char>)>::empty());
    if exists|i: int| 0 <= i < rows.len() && (#[trigger] rows[i]).id@ == id {
        let w = choose|i: int| 0 <= i < rows.len() && (#[trigger] rows[i]).id@ == id;
        lemma_first_row(rows, id, w);
        let i = row_index(rows, id).unwrap();
        assert(Seq::<(Seq<char>, Seq<char>)>::empty().push((id, rows[i].path@)) =~= seq![
            (id, rows[i].path@),
        ]);
    }
}

} // verus!
