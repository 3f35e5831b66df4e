//! The image table and the on-demand derivative pipeline.
//!
//! A derivative moves from absent, to a placeholder row with `processing`
//! set, to ready; or, when its background job fails, back to absent. The
//! placeholder insert is checked against the uniqueness of (emote, width,
//! height) among derivatives, so at most one job per size is ever in flight.
use vstd::prelude::*;
use crate::image_type::{image_type_of, out_type_of, text_is};
use crate::store::{last_index, lemma_last_index_bounds, lemma_last_index_step};

verus! {

/// One image: the original upload of an emote, or a resized derivative.
#[derive(Debug)]
pub struct ImageRow {
    pub uuid: u128,
    pub emote: u128,
    pub width: i32,
    pub height: i32,
    pub original: bool,
    /// Set while the image's bytes are not yet durably written.
    pub processing: bool,
    pub content_type: String,
}

impl Clone for ImageRow {
    fn clone(&self) -> (r: Self)
        ensures
            r == *self,
    {
        ImageRow {
            uuid: self.uuid,
            emote: self.emote,
            width: self.width,
            height: self.height,
            original: self.original,
            processing: self.processing,
            content_type: self.content_type.clone(),
        }
    }
}

/// The height of a placeholder, unknown until its resize completes.
pub const PENDING_HEIGHT: i32 = -1;

/// The widths that every upload is resized to in the background.
pub const STANDARD_WIDTHS: [i32; 5] = [24, 48, 64, 128, 256];

pub open spec fn standard_widths() -> Seq<i32> {
    seq![24i32, 48, 64, 128, 256]
}

/// The image rows of the store.
#[derive(Clone, Debug)]
pub struct ImageTable {
    pub rows: Vec<ImageRow>,
}

/// The resize work behind a new placeholder.
#[derive(Clone, Copy, Debug, PartialEq, Eq, Structural)]
pub struct ResizeJob {
    pub emote: u128,
    /// The original image to resize.
    pub original: u128,
    /// The placeholder row that receives the result.
    pub target: u128,
    pub width: i32,
}

/// What a request for a derivative gets.
#[derive(Debug)]
pub enum Fetch {
    /// The image exists and its bytes are written.
    Ready(ImageRow),
    /// A job for this size is in flight; try again later.
    Pending,
    /// A placeholder was inserted; the job is to be run in the background.
    Dispatched(ResizeJob),
    /// The emote has no original image.
    NoOriginal,
    /// The original's format cannot be resized.
    NoResizer,
    /// Resizing to a given height is not supported.
    HeightUnsupported,
    /// The id offered for the new placeholder already names an image.
    IdInUse,
}

pub open spec fn size_matches(r: ImageRow, emote: u128, width: i32, height: Option<i32>) -> bool {
    r.emote == emote && r.width == width && (height matches Some(h) ==> r.height == h)
}

/// The row that a lookup by size finds.
pub open spec fn sized_row(rows: Seq<ImageRow>, emote: u128, width: i32, height: Option<i32>) -> Option<
    ImageRow,
> {
    match last_index(rows, |r: ImageRow| size_matches(r, emote, width, height)) {
        Some(i) => Some(rows[i]),
        None => None,
    }
}

/// The original image of an emote.
pub open spec fn original_row(rows: Seq<ImageRow>, emote: u128) -> Option<ImageRow> {
    match last_index(rows, |r: ImageRow| r.emote == emote && r.original) {
        Some(i) => Some(rows[i]),
        None => None,
    }
}

/// Whether `r` holds the derivative key (emote, width, height).
pub open spec fn holds_key(r: ImageRow, emote: u128, width: i32, height: i32) -> bool {
    !r.original && r.emote == emote && r.width == width && r.height == height
}

/// Whether a new derivative row with this id and key violates no uniqueness.
/// Whether no derivative holds the key (emote, width, height).
pub open spec fn key_free(rows: Seq<ImageRow>, emote: u128, width: i32, height: i32) -> bool {
    forall|i: int| 0 <= i < rows.len() ==> !#[trigger] holds_key(rows[i], emote, width, height)
}

pub open spec fn insertable(rows: Seq<ImageRow>, id: u128, emote: u128, width: i32, height: i32) -> bool {
    forall|i: int| 0 <= i < rows.len() ==> #[trigger] clear_of(rows[i], id, emote, width, height)
}

pub open spec fn clear_of(r: ImageRow, id: u128, emote: u128, width: i32, height: i32) -> bool {
    r.uuid != id && !holds_key(r, emote, width, height)
}

/// The content type that derivatives of an original are written in.
pub open spec fn derivative_type(original: Seq<char>) -> Option<Seq<char>> {
    if original == "image/gif"@ || original == "image/webp"@ {
        Some("image/gif"@)
    } else if original == "image/png"@ || original == "image/jpeg"@ {
        Some("image/png"@)
    } else {
        None
    }
}

/// A fresh placeholder for a derivative.
pub open spec fn is_placeholder(r: ImageRow, id: u128, emote: u128, width: i32, content_type: Seq<char>) -> bool {
    &&& r.uuid == id
    &&& r.emote == emote
    &&& r.width == width
    &&& r.height == PENDING_HEIGHT
    &&& !r.original
    &&& r.processing
    &&& r.content_type@ == content_type
}

/// How a request for the derivative (emote, width, height) changes the rows
/// `before` into `after` and what it returns, with `fresh` as the id of a new
/// placeholder.
pub open spec fn scheduled(
    before: Seq<ImageRow>,
    after: Seq<ImageRow>,
    emote: u128,
    width: i32,
    height: Option<i32>,
    fresh: u128,
    r: Fetch,
) -> bool {
    match sized_row(before, emote, width, height) {
        Some(row) => after == before && if row.processing {
            r is Pending
        } else {
            r == Fetch::Ready(row)
        },
        None => if height is Some {
            after == before && r is HeightUnsupported
        } else {
            match original_row(before, emote) {
                None => after == before && r is NoOriginal,
                Some(orig) => match derivative_type(orig.content_type@) {
                    None => after == before && r is NoResizer,
                    Some(ct) => if insertable(before, fresh, emote, width, PENDING_HEIGHT) {
                        &&& after.len() == before.len() + 1
                        &&& after.drop_last() == before
                        &&& is_placeholder(after.last(), fresh, emote, width, ct)
                        &&& r == Fetch::Dispatched(
                            ResizeJob { emote, original: orig.uuid, target: fresh, width },
                        )
                    } else if key_free(before, emote, width, PENDING_HEIGHT) {
                        after == before && r is IdInUse
                    } else {
                        after == before && r is Pending
                    },
                },
            }
        },
    }
}


/// Why a job's result could not be recorded.
#[derive(Clone, Copy, Debug, PartialEq, Eq, Structural)]
pub enum FinishError {
    /// The row is gone.
    Missing,
    /// Another derivative already holds the resulting size.
    Conflict,
}

/// How a background job ended.
#[derive(Clone, Copy, Debug, PartialEq, Eq, Structural)]
pub enum JobEnd {
    /// The derivative is ready.
    Ready,
    /// The placeholder was removed; its blob, if any was written, is to be
    /// deleted.
    Abandoned,
}

/// Index of the row with id `id`.
pub open spec fn row_index(rows: Seq<ImageRow>, id: u128) -> Option<int> {
    last_index(rows, |r: ImageRow| r.uuid == id)
}

/// Whether some row other than the `i`-th holds the derivative key.
pub open spec fn key_held_elsewhere(rows: Seq<ImageRow>, i: int, emote: u128, width: i32, height: i32) -> bool {
    exists|j: int| 0 <= j < rows.len() && j != i && #[trigger] holds_key(rows[j], emote, width, height)
}

/// How recording a finished image (its size and content type) changes the
/// rows.
pub open spec fn finished(
    before: Seq<ImageRow>,
    after: Seq<ImageRow>,
    id: u128,
    width: i32,
    height: i32,
    content_type: Seq<char>,
    r: Result<(), FinishError>,
) -> bool {
    match row_index(before, id) {
        None => after == before && r == Err::<(), FinishError>(FinishError::Missing),
        Some(i) => if !before[i].original && key_held_elsewhere(before, i, before[i].emote, width, height) {
            after == before && r == Err::<(), FinishError>(FinishError::Conflict)
        } else {
            &&& r is Ok
            &&& after.len() == before.len()
            &&& forall|j: int| 0 <= j < before.len() && j != i ==> after[j] == before[j]
            &&& after[i].uuid == id
            &&& after[i].emote == before[i].emote
            &&& after[i].original == before[i].original
            &&& after[i].width == width
            &&& after[i].height == height
            &&& !after[i].processing
            &&& after[i].content_type@ == content_type
        },
    }
}

/// How removing the row with id `id` changes the rows.
pub open spec fn removed(before: Seq<ImageRow>, after: Seq<ImageRow>, id: u128, r: bool) -> bool {
    match row_index(before, id) {
        None => after == before && !r,
        Some(i) => after == before.remove(i) && r,
    }
}

/// How many images of an emote have a given width.
pub open spec fn count_at_width(rows: Seq<ImageRow>, emote: u128, width: i32) -> nat
    decreases rows.len(),
{
    if rows.len() == 0 {
        0
    } else {
        count_at_width(rows.drop_last(), emote, width) + if rows.last().emote == emote
            && rows.last().width == width {
            1nat
        } else {
            0nat
        }
    }
}

proof fn lemma_none_at_width(rows: Seq<ImageRow>, emote: u128, width: i32)
    requires
        count_at_width(rows, emote, width) == 0,
    ensures
        sized_row(rows, emote, width, None) is None,
    decreases rows.len(),
{
    if rows.len() > 0 {
        lemma_none_at_width(rows.drop_last(), emote, width);
    }
}

/// The job that an outcome hands back, if any.
pub open spec fn job_of(f: Fetch) -> Option<ResizeJob> {
    match f {
        Fetch::Dispatched(j) => Some(j),
        _ => None,
    }
}

/// Whether some image of an emote has a given width.
pub open spec fn has_width(rows: Seq<ImageRow>, emote: u128, width: i32) -> bool {
    exists|i: int| 0 <= i < rows.len() && #[trigger] size_matches(rows[i], emote, width, None)
}

proof fn lemma_count_positive(rows: Seq<ImageRow>, emote: u128, width: i32)
    ensures
        count_at_width(rows, emote, width) > 0 <==> has_width(rows, emote, width),
    decreases rows.len(),
{
    if rows.len() > 0 {
        let d = rows.drop_last();
        lemma_count_positive(d, emote, width);
        if has_width(d, emote, width) {
            let i = choose|i: int| 0 <= i < d.len() && #[trigger] size_matches(d[i], emote, width, None);
            assert(size_matches(rows[i], emote, width, None));
        }
        if has_width(rows, emote, width) && !size_matches(rows.last(), emote, width, None) {
            let i = choose|i: int| 0 <= i < rows.len() && #[trigger] size_matches(rows[i], emote, width, None);
            assert(size_matches(d[i], emote, width, None));
        }
        if size_matches(rows.last(), emote, width, None) {
            assert(size_matches(rows[rows.len() - 1], emote, width, None));
        }
    }
}

proof fn lemma_sized_row_found(rows: Seq<ImageRow>, emote: u128, width: i32)
    ensures
        sized_row(rows, emote, width, None) is Some <==> has_width(rows, emote, width),
{
    let p = |r: ImageRow| size_matches(r, emote, width, None);
    lemma_last_index_bounds(rows, p);
    if has_width(rows, emote, width) {
        let i = choose|i: int| 0 <= i < rows.len() && #[trigger] size_matches(rows[i], emote, width, None);
        assert(p(rows[i]));
    }
    match last_index(rows, p) {
        Some(i) => {
            assert(size_matches(rows[i], emote, width, None));
        },
        None => {},
    }
}

/// With no image of the width yet, a request for it with an unused id can
/// insert its placeholder.
proof fn lemma_free_key(rows: Seq<ImageRow>, emote: u128, width: i32, fresh: u128)
    requires
        !has_width(rows, emote, width),
        row_index(rows, fresh) is None,
    ensures
        insertable(rows, fresh, emote, width, PENDING_HEIGHT),
{
    lemma_last_index_bounds(rows, |r: ImageRow| r.uuid == fresh);
    assert forall|i: int| 0 <= i < rows.len() implies #[trigger] clear_of(
        rows[i],
        fresh,
        emote,
        width,
        PENDING_HEIGHT,
    ) by {
        assert(!size_matches(rows[i], emote, width, None));
    }
}

/// Two requests for the same width of an emote that has a resizable
/// original, one after the other (the store's uniqueness check orders
/// concurrent ones): each gets the ready image or a scheduled job, and at
/// most one job is dispatched. Afterwards exactly one image of that width
/// exists when none did before, and otherwise their number is unchanged.
pub proof fn lemma_requests_share_one_job(
    rows0: Seq<ImageRow>,
    rows1: Seq<ImageRow>,
    rows2: Seq<ImageRow>,
    emote: u128,
    width: i32,
    fresh1: u128,
    fresh2: u128,
    r1: Fetch,
    r2: Fetch,
)
    requires
        original_row(rows0, emote) matches Some(o) && derivative_type(o.content_type@) is Some,
        row_index(rows0, fresh1) is None,
        scheduled(rows0, rows1, emote, width, None, fresh1, r1),
        scheduled(rows1, rows2, emote, width, None, fresh2, r2),
    ensures
        r1 is Dispatched || r1 is Pending || r1 is Ready,
        r2 is Pending || r2 is Ready,
        count_at_width(rows0, emote, width) == 0 ==> r1 is Dispatched && r2 is Pending && count_at_width(
            rows2,
            emote,
            width,
        ) == 1,
        count_at_width(rows0, emote, width) > 0 ==> count_at_width(rows2, emote, width)
            == count_at_width(rows0, emote, width),
{
    lemma_count_positive(rows0, emote, width);
    lemma_sized_row_found(rows0, emote, width);
    if count_at_width(rows0, emote, width) == 0 {
        lemma_free_key(rows0, emote, width, fresh1);
        assert(rows1.drop_last() == rows0);
        let p = |r: ImageRow| size_matches(r, emote, width, None);
        assert(p(rows1.last()));
    } else {
        lemma_sized_row_found(rows1, emote, width);
    }
}

/// When the first request's job completes at the requested width before the
/// second request, the second gets the ready image; still exactly one image
/// of that width exists.
pub proof fn lemma_request_after_completion(
    rows0: Seq<ImageRow>,
    rows1: Seq<ImageRow>,
    done: Seq<ImageRow>,
    rows2: Seq<ImageRow>,
    emote: u128,
    width: i32,
    height: i32,
    content_type: Seq<char>,
    fresh1: u128,
    fresh2: u128,
    r1: Fetch,
    f: Result<(), FinishError>,
    r2: Fetch,
)
    requires
        count_at_width(rows0, emote, width) == 0,
        original_row(rows0, emote) matches Some(o) && derivative_type(o.content_type@) is Some,
        row_index(rows0, fresh1) is None,
        scheduled(rows0, rows1, emote, width, None, fresh1, r1),
        finished(rows1, done, fresh1, width, height, content_type, f),
        f is Ok,
        scheduled(done, rows2, emote, width, None, fresh2, r2),
    ensures
        r1 is Dispatched,
        r2 matches Fetch::Ready(row) && row.uuid == fresh1 && !row.processing,
        count_at_width(rows2, emote, width) == 1,
{
    lemma_count_positive(rows0, emote, width);
    lemma_free_key(rows0, emote, width, fresh1);
    lemma_none_at_width(rows0, emote, width);
    assert(rows1.drop_last() == rows0);
    let q = |r: ImageRow| r.uuid == fresh1;
    assert(q(rows1.last()));
    let i = rows1.len() - 1;
    assert(row_index(rows1, fresh1) == Some(i));
    assert(done.drop_last() =~= rows0);
    let p = |r: ImageRow| size_matches(r, emote, width, None);
    assert(p(done.last()));
}

/// A job that fails removes its placeholder, which restores the rows as they
/// were before the request; a later request with an unused id dispatches a
/// new job.
pub proof fn lemma_failed_job_restores(
    rows0: Seq<ImageRow>,
    rows1: Seq<ImageRow>,
    rows2: Seq<ImageRow>,
    rows3: Seq<ImageRow>,
    emote: u128,
    width: i32,
    fresh1: u128,
    fresh2: u128,
    job: ResizeJob,
    gone: bool,
    r3: Fetch,
)
    requires
        scheduled(rows0, rows1, emote, width, None, fresh1, Fetch::Dispatched(job)),
        removed(rows1, rows2, fresh1, gone),
        row_index(rows0, fresh2) is None,
        scheduled(rows2, rows3, emote, width, None, fresh2, r3),
    ensures
        rows2 == rows0,
        row_index(rows2, fresh1) is None,
        r3 is Dispatched,
{
    assert(rows1.drop_last() == rows0);
    let q = |r: ImageRow| r.uuid == fresh1;
    assert(q(rows1.last()));
    assert(rows1.remove(rows1.len() - 1) =~= rows0);
    lemma_last_index_bounds(rows0, q);
    match row_index(rows0, fresh1) {
        Some(k) => {
            assert(clear_of(rows0[k], fresh1, emote, width, PENDING_HEIGHT));
        },
        None => {},
    }
    lemma_last_index_bounds(rows0, |r: ImageRow| r.uuid == fresh2);
    assert forall|i: int| 0 <= i < rows0.len() implies #[trigger] clear_of(
        rows0[i],
        fresh2,
        emote,
        width,
        PENDING_HEIGHT,
    ) by {
        assert(clear_of(rows0[i], fresh1, emote, width, PENDING_HEIGHT));
    }
}

/// The rows that remain once an emote's images are deleted.
pub open spec fn without_emote(rows: Seq<ImageRow>, emote: u128) -> Seq<ImageRow>
    decreases rows.len(),
{
    if rows.len() == 0 {
        Seq::empty()
    } else if rows.last().emote == emote {
        without_emote(rows.drop_last(), emote)
    } else {
        without_emote(rows.drop_last(), emote).push(rows.last())
    }
}

/// The ids of an emote's images, in row order.
pub open spec fn image_ids_of(rows: Seq<ImageRow>, emote: u128) -> Seq<u128>
    decreases rows.len(),
{
    if rows.len() == 0 {
        Seq::empty()
    } else if rows.last().emote == emote {
        image_ids_of(rows.drop_last(), emote).push(rows.last().uuid)
    } else {
        image_ids_of(rows.drop_last(), emote)
    }
}

/// Two distinct rows may stand together: their ids differ, two derivatives
/// do not share a key, and an emote has at most one original.
pub open spec fn compatible(a: ImageRow, b: ImageRow) -> bool {
    &&& a.uuid != b.uuid
    &&& (!a.original && !b.original) ==> !(a.emote == b.emote && a.width == b.width && a.height
        == b.height)
    &&& (a.original && b.original) ==> a.emote != b.emote
}

/// The image table's invariant.
pub open spec fn images_wf(rows: Seq<ImageRow>) -> bool {
    forall|i: int, j: int|
        0 <= i < rows.len() && 0 <= j < rows.len() && i != j ==> compatible(
            #[trigger] rows[i],
            #[trigger] rows[j],
        )
}

proof fn lemma_wf_push(rows: Seq<ImageRow>, p: ImageRow)
    requires
        images_wf(rows),
        forall|i: int| 0 <= i < rows.len() ==> compatible(#[trigger] rows[i], p) && compatible(p, rows[i]),
    ensures
        images_wf(rows.push(p)),
{
    let r = rows.push(p);
    assert forall|i: int, j: int| 0 <= i < r.len() && 0 <= j < r.len() && i != j implies compatible(
        #[trigger] r[i],
        #[trigger] r[j],
    ) by {
        if i < rows.len() && j < rows.len() {
            assert(r[i] == rows[i] && r[j] == rows[j]);
        } else if i < rows.len() {
            assert(r[i] == rows[i]);
        } else {
            assert(r[j] == rows[j]);
        }
    }
}

proof fn lemma_wf_remove(rows: Seq<ImageRow>, k: int)
    requires
        images_wf(rows),
        0 <= k < rows.len(),
    ensures
        images_wf(rows.remove(k)),
{
    let r = rows.remove(k);
    assert forall|i: int, j: int| 0 <= i < r.len() && 0 <= j < r.len() && i != j implies compatible(
        #[trigger] r[i],
        #[trigger] r[j],
    ) by {
        let a = if i < k { i } else { i + 1 };
        let b = if j < k { j } else { j + 1 };
        assert(r[i] == rows[a] && r[j] == rows[b]);
    }
}

proof fn lemma_without_emote_from(rows: Seq<ImageRow>, emote: u128)
    ensures
        forall|k: int|
            0 <= k < without_emote(rows, emote).len() ==> exists|m: int|
                0 <= m < rows.len() && rows[m] == #[trigger] without_emote(rows, emote)[k],
    decreases rows.len(),
{
    if rows.len() > 0 {
        let d = rows.drop_last();
        lemma_without_emote_from(d, emote);
        let w = without_emote(rows, emote);
        assert forall|k: int| 0 <= k < w.len() implies exists|m: int|
            0 <= m < rows.len() && rows[m] == #[trigger] w[k] by {
            if k < without_emote(d, emote).len() {
                let m = choose|m: int| 0 <= m < d.len() && d[m] == without_emote(d, emote)[k];
                assert(rows[m] == w[k]);
            } else {
                assert(rows[rows.len() - 1] == w[k]);
            }
        }
    }
}

proof fn lemma_wf_without_emote(rows: Seq<ImageRow>, emote: u128)
    requires
        images_wf(rows),
    ensures
        images_wf(without_emote(rows, emote)),
    decreases rows.len(),
{
    if rows.len() > 0 {
        let d = rows.drop_last();
        assert forall|i: int, j: int| 0 <= i < d.len() && 0 <= j < d.len() && i != j implies compatible(
            #[trigger] d[i],
            #[trigger] d[j],
        ) by {
            assert(d[i] == rows[i] && d[j] == rows[j]);
        }
        lemma_wf_without_emote(d, emote);
        if rows.last().emote != emote {
            let w = without_emote(d, emote);
            lemma_without_emote_from(d, emote);
            assert forall|i: int| 0 <= i < w.len() implies compatible(#[trigger] w[i], rows.last())
                && compatible(rows.last(), w[i]) by {
                let m = choose|m: int| 0 <= m < d.len() && d[m] == w[i];
                assert(rows[m] == d[m]);
                assert(compatible(rows[m], rows[rows.len() - 1]));
                assert(compatible(rows[rows.len() - 1], rows[m]));
            }
            lemma_wf_push(w, rows.last());
        }
    }
}

/// The images of an emote whose bytes are written, in row order.
pub open spec fn ready_images(rows: Seq<ImageRow>, emote: u128) -> Seq<ImageRow>
    decreases rows.len(),
{
    if rows.len() == 0 {
        Seq::empty()
    } else if rows.last().emote == emote && !rows.last().processing {
        ready_images(rows.drop_last(), emote).push(rows.last())
    } else {
        ready_images(rows.drop_last(), emote)
    }
}

/// A placeholder records the content type that its finished image gets: the
/// one the resizer writes for the original's format.
pub proof fn lemma_placeholder_type_is_final(original: Seq<char>, frames: u32)
    requires
        image_type_of(original, frames) matches Some(t) && out_type_of(t) is Some,
    ensures
        derivative_type(original) == out_type_of(image_type_of(original, frames)->Some_0),
{
    reveal_strlit("image/gif");
    reveal_strlit("image/webp");
    reveal_strlit("image/png");
    reveal_strlit("image/jpeg");
    reveal_strlit("image/svg+xml");
    reveal_strlit("image/apng");
    reveal_strlit("application/json");
}

/// The content type that derivatives of an original are written in.
pub fn derivative_content_type(original: &str) -> (r: Option<&'static str>)
    ensures
        match derivative_type(original@) {
            Some(t) => r matches Some(s) && s@ == t,
            None => r is None,
        },
{
    if text_is(original, "image/gif") || text_is(original, "image/webp") {
        Some("image/gif")
    } else if text_is(original, "image/png") || text_is(original, "image/jpeg") {
        Some("image/png")
    } else {
        None
    }
}

impl ImageTable {
    /// The image of an emote at a width and, if given, a height.
    pub fn by_emote_and_size(&self, emote: u128, width: i32, height: Option<i32>) -> (r: Option<
        ImageRow,
    >)
        ensures
            r == sized_row(self.rows@, emote, width, height),
    {
        let ghost p = |r: ImageRow| size_matches(r, emote, width, height);
        let mut i: usize = self.rows.len();
        proof {
            assert(self.rows@.subrange(0, i as int) =~= self.rows@);
        }
        while i > 0
            invariant
                i <= self.rows@.len(),
                p == (|r: ImageRow| size_matches(r, emote, width, height)),
                last_index(self.rows@, p) == last_index(self.rows@.subrange(0, i as int), p),
            decreases i,
        {
            i = i - 1;
            proof {
                lemma_last_index_step(self.rows@, p, i as int);
            }
            let row = &self.rows[i];
            let hit = match height {
                Some(h) => row.height == h,
                None => true,
            };
            if row.emote == emote && row.width == width && hit {
                return Some(row.clone());
            }
        }
        None
    }

    /// The original image of an emote.
    pub fn original_of(&self, emote: u128) -> (r: Option<ImageRow>)
        ensures
            r == original_row(self.rows@, emote),
    {
        let ghost p = |r: ImageRow| r.emote == emote && r.original;
        let mut i: usize = self.rows.len();
        proof {
            assert(self.rows@.subrange(0, i as int) =~= self.rows@);
        }
        while i > 0
            invariant
                i <= self.rows@.len(),
                p == (|r: ImageRow| r.emote == emote && r.original),
                last_index(self.rows@, p) == last_index(self.rows@.subrange(0, i as int), p),
            decreases i,
        {
            i = i - 1;
            proof {
                lemma_last_index_step(self.rows@, p, i as int);
            }
            if self.rows[i].emote == emote && self.rows[i].original {
                return Some(self.rows[i].clone());
            }
        }
        None
    }

    /// The index of the row with id `id`.
    fn index_of(&self, id: u128) -> (r: Option<usize>)
        ensures
            r matches Some(i) ==> row_index(self.rows@, id) == Some(i as int),
            r is None ==> row_index(self.rows@, id) is None,
            r matches Some(i) ==> i < self.rows@.len() && self.rows@[i as int].uuid == id,
    {
        proof {
            lemma_last_index_bounds(self.rows@, |r: ImageRow| r.uuid == id);
        }
        let ghost p = |r: ImageRow| r.uuid == id;
        let mut i: usize = self.rows.len();
        proof {
            assert(self.rows@.subrange(0, i as int) =~= self.rows@);
        }
        while i > 0
            invariant
                i <= self.rows@.len(),
                p == (|r: ImageRow| r.uuid == id),
                last_index(self.rows@, p) == last_index(self.rows@.subrange(0, i as int), p),
            decreases i,
        {
            i = i - 1;
            proof {
                lemma_last_index_step(self.rows@, p, i as int);
            }
            if self.rows[i].uuid == id {
                return Some(i);
            }
        }
        None
    }

    /// Records the size and content type of a written image and clears its
    /// `processing` flag.
    pub fn finish(&mut self, id: u128, width: i32, height: i32, content_type: String) -> (r: Result<
        (),
        FinishError,
    >)
        ensures
            finished(old(self).rows@, final(self).rows@, id, width, height, content_type@, r),
            images_wf(old(self).rows@) ==> images_wf(final(self).rows@),
    {
        let i = match self.index_of(id) {
            Some(i) => i,
            None => {
                return Err(FinishError::Missing);
            },
        };
        let emote = self.rows[i].emote;
        if !self.rows[i].original {
            let mut j: usize = 0;
            while j < self.rows.len()
                invariant
                    i < self.rows@.len(),
                    j <= self.rows@.len(),
                    self.rows@ == old(self).rows@,
                    emote == self.rows@[i as int].emote,
                    !self.rows@[i as int].original,
                    row_index(self.rows@, id) == Some(i as int),
                    forall|k: int|
                        0 <= k < j && k != i ==> !#[trigger] holds_key(
                            self.rows@[k],
                            emote,
                            width,
                            height,
                        ),
                decreases self.rows@.len() - j,
            {
                let row = &self.rows[j];
                if j != i && !row.original && row.emote == emote && row.width == width
                    && row.height == height {
                    assert(holds_key(self.rows@[j as int], emote, width, height));
                    assert(key_held_elsewhere(self.rows@, i as int, emote, width, height));
                    return Err(FinishError::Conflict);
                }
                j = j + 1;
            }
        }
        let old_row = self.rows[i].clone();
        self.rows[i] = ImageRow {
            uuid: old_row.uuid,
            emote: old_row.emote,
            width,
            height,
            original: old_row.original,
            processing: false,
            content_type,
        };
        proof {
            lemma_last_index_bounds(old(self).rows@, |r: ImageRow| r.uuid == id);
            let b = old(self).rows@;
            let a = self.rows@;
            if images_wf(b) {
                assert forall|x: int, y: int| 0 <= x < a.len() && 0 <= y < a.len() && x != y implies compatible(
                    #[trigger] a[x],
                    #[trigger] a[y],
                ) by {
                    assert(compatible(b[x], b[y]));
                    if x == i || y == i {
                        let o = if x == i { y } else { x };
                        assert(a[o] == b[o]);
                        if !b[i as int].original {
                            assert(!holds_key(b[o], emote, width, height));
                        }
                    }
                }
            }
        }
        Ok(())
    }

    /// Removes the row with id `id`; returns whether there was one.
    pub fn remove(&mut self, id: u128) -> (r: bool)
        ensures
            removed(old(self).rows@, final(self).rows@, id, r),
            images_wf(old(self).rows@) ==> images_wf(final(self).rows@),
    {
        match self.index_of(id) {
            Some(i) => {
                proof {
                    if images_wf(self.rows@) {
                        lemma_wf_remove(self.rows@, i as int);
                    }
                }
                self.rows.remove(i);
                true
            },
            None => false,
        }
    }

    /// Records how a background job ended: its result (size and content
    /// type) when the resize and the blob write succeeded, `None` when any
    /// step failed. A failed job, or one whose result cannot be recorded,
    /// removes its placeholder so a later request can retry. A job whose
    /// placeholder is gone (its emote was deleted meanwhile) ends abandoned
    /// too, so its blob is deleted rather than left behind.
    pub fn complete_job(&mut self, job: &ResizeJob, outcome: Option<(i32, i32, String)>) -> (r: JobEnd)
        ensures
            images_wf(old(self).rows@) ==> images_wf(final(self).rows@),
            match outcome {
                Some((w, h, ct)) => exists|mid: Seq<ImageRow>, f: Result<(), FinishError>|
                    finished(old(self).rows@, mid, job.target, w, h, ct@, f) && if f is Ok {
                        final(self).rows@ == mid && r == JobEnd::Ready
                    } else {
                        exists|gone: bool|
                            removed(mid, final(self).rows@, job.target, gone) && r == JobEnd::Abandoned
                    },
                None => exists|gone: bool|
                    removed(old(self).rows@, final(self).rows@, job.target, gone) && r
                        == JobEnd::Abandoned,
            },
    {
        match outcome {
            Some((w, h, ct)) => {
                let f = self.finish(job.target, w, h, ct);
                match f {
                    Ok(()) => JobEnd::Ready,
                    Err(e) => {
                        self.remove(job.target);
                        JobEnd::Abandoned
                    },
                }
            },
            None => {
                self.remove(job.target);
                JobEnd::Abandoned
            },
        }
    }

    /// Inserts the row of a new upload: its original, not yet written.
    pub fn begin_original(&mut self, id: u128, emote: u128, content_type: String) -> (r: bool)
        ensures
            r == (row_index(old(self).rows@, id) is None && original_row(old(self).rows@, emote) is None),
            images_wf(old(self).rows@) ==> images_wf(final(self).rows@),
            r ==> final(self).rows@.len() == old(self).rows@.len() + 1 && final(self).rows@.drop_last()
                == old(self).rows@ && final(self).rows@.last() == (ImageRow {
                uuid: id,
                emote,
                width: PENDING_HEIGHT,
                height: PENDING_HEIGHT,
                original: true,
                processing: true,
                content_type,
            }),
            !r ==> final(self).rows@ == old(self).rows@,
    {
        if self.index_of(id).is_some() || self.original_of(emote).is_some() {
            return false;
        }
        proof {
            lemma_last_index_bounds(self.rows@, |r: ImageRow| r.uuid == id);
            lemma_last_index_bounds(self.rows@, |r: ImageRow| r.emote == emote && r.original);
        }
        let ghost before = self.rows@;
        self.rows.push(
            ImageRow {
                uuid: id,
                emote,
                width: PENDING_HEIGHT,
                height: PENDING_HEIGHT,
                original: true,
                processing: true,
                content_type,
            },
        );
        proof {
            assert(self.rows@.drop_last() =~= old(self).rows@);
            let p = self.rows@.last();
            assert forall|i: int| 0 <= i < before.len() implies compatible(#[trigger] before[i], p)
                && compatible(p, before[i]) by {
                assert(before[i].uuid != id);
                assert(!(before[i].emote == emote && before[i].original));
            }
            if images_wf(before) {
                lemma_wf_push(before, p);
                assert(self.rows@ =~= before.push(p));
            }
        }
        true
    }

    /// Requests every standard width of an emote, in order; `fresh[k]` is the
    /// id for the placeholder of the `k`-th width.
    pub fn schedule_standard_sizes(&mut self, emote: u128, fresh: &Vec<u128>) -> (r: Vec<Fetch>)
        requires
            fresh@.len() == standard_widths().len(),
        ensures
            r@.len() == standard_widths().len(),
            images_wf(old(self).rows@) ==> images_wf(final(self).rows@),
            exists|states: Seq<Seq<ImageRow>>|
                {
                    &&& states.len() == standard_widths().len() + 1
                    &&& states[0] == old(self).rows@
                    &&& states.last() == final(self).rows@
                    &&& forall|k: int|
                        0 <= k < standard_widths().len() ==> scheduled(
                            #[trigger] states[k],
                            states[k + 1],
                            emote,
                            standard_widths()[k],
                            None,
                            fresh@[k],
                            r@[k],
                        )
                },
    {
        let widths = STANDARD_WIDTHS;
        assert(widths@ =~= standard_widths());
        let mut r: Vec<Fetch> = Vec::new();
        let ghost mut states: Seq<Seq<ImageRow>> = seq![self.rows@];
        let mut k: usize = 0;
        while k < 5
            invariant
                k <= 5,
                widths@ == standard_widths(),
                fresh@.len() == 5,
                r@.len() == k,
                states.len() == k + 1,
                states[0] == old(self).rows@,
                states.last() == self.rows@,
                images_wf(old(self).rows@) ==> images_wf(self.rows@),
                forall|j: int|
                    0 <= j < k ==> scheduled(
                        #[trigger] states[j],
                        states[j + 1],
                        emote,
                        standard_widths()[j],
                        None,
                        fresh@[j],
                        r@[j],
                    ),
            decreases 5 - k,
        {
            let ghost before = self.rows@;
            let f = self.get_or_schedule(emote, widths[k], None, fresh[k]);
            r.push(f);
            proof {
                let old_states = states;
                states = states.push(self.rows@);
                assert forall|j: int|
                    0 <= j < k + 1 implies scheduled(
                    #[trigger] states[j],
                    states[j + 1],
                    emote,
                    standard_widths()[j],
                    None,
                    fresh@[j],
                    r@[j],
                ) by {
                    if j < k {
                        assert(states[j] == old_states[j]);
                        assert(states[j + 1] == old_states[j + 1]);
                    }
                }
            }
            k = k + 1;
        }
        r
    }

    /// Deletes every image of an emote, as the emote's deletion must before
    /// its own row goes; returns the ids whose blobs are to be deleted.
    pub fn delete_emote_images(&mut self, emote: u128) -> (r: Vec<u128>)
        ensures
            final(self).rows@ == without_emote(old(self).rows@, emote),
            r@ == image_ids_of(old(self).rows@, emote),
            images_wf(old(self).rows@) ==> images_wf(final(self).rows@),
    {
        let mut kept: Vec<ImageRow> = Vec::new();
        let mut ids: Vec<u128> = Vec::new();
        let mut i: usize = 0;
        while i < self.rows.len()
            invariant
                self.rows@ == old(self).rows@,
                i <= self.rows@.len(),
                kept@ == without_emote(self.rows@.subrange(0, i as int), emote),
                ids@ == image_ids_of(self.rows@.subrange(0, i as int), emote),
            decreases self.rows@.len() - i,
        {
            proof {
                assert(self.rows@.subrange(0, i + 1).drop_last() =~= self.rows@.subrange(0, i as int));
            }
            if self.rows[i].emote == emote {
                ids.push(self.rows[i].uuid);
            } else {
                kept.push(self.rows[i].clone());
            }
            i = i + 1;
        }
        proof {
            assert(self.rows@.subrange(0, i as int) =~= self.rows@);
            if images_wf(self.rows@) {
                lemma_wf_without_emote(self.rows@, emote);
            }
        }
        self.rows = kept;
        ids
    }

    /// The images of an emote that are ready to serve: the original and the
    /// derivatives whose jobs completed, not those in flight.
    pub fn ready_of(&self, emote: u128) -> (r: Vec<ImageRow>)
        ensures
            r@ == ready_images(self.rows@, emote),
    {
        let mut r: Vec<ImageRow> = Vec::new();
        let mut i: usize = 0;
        while i < self.rows.len()
            invariant
                i <= self.rows@.len(),
                r@ == ready_images(self.rows@.subrange(0, i as int), emote),
            decreases self.rows@.len() - i,
        {
            proof {
                assert(self.rows@.subrange(0, i + 1).drop_last() =~= self.rows@.subrange(0, i as int));
            }
            if self.rows[i].emote == emote && !self.rows[i].processing {
                r.push(self.rows[i].clone());
            }
            i = i + 1;
        }
        proof {
            assert(self.rows@.subrange(0, i as int) =~= self.rows@);
        }
        r
    }

    /// Whether no derivative holds the key (emote, width, height).
    fn holds_no_key(&self, emote: u128, width: i32, height: i32) -> (r: bool)
        ensures
            r == key_free(self.rows@, emote, width, height),
    {
        let mut i: usize = 0;
        while i < self.rows.len()
            invariant
                i <= self.rows@.len(),
                forall|j: int| 0 <= j < i ==> !#[trigger] holds_key(self.rows@[j], emote, width, height),
            decreases self.rows@.len() - i,
        {
            let row = &self.rows[i];
            if !row.original && row.emote == emote && row.width == width && row.height == height {
                assert(holds_key(self.rows@[i as int], emote, width, height));
                return false;
            }
            i = i + 1;
        }
        true
    }

    /// Whether a derivative row with this id and key may be inserted.
    pub fn can_insert(&self, id: u128, emote: u128, width: i32, height: i32) -> (r: bool)
        ensures
            r == insertable(self.rows@, id, emote, width, height),
    {
        let mut i: usize = 0;
        while i < self.rows.len()
            invariant
                i <= self.rows@.len(),
                forall|j: int|
                    0 <= j < i ==> #[trigger] clear_of(self.rows@[j], id, emote, width, height),
            decreases self.rows@.len() - i,
        {
            let row = &self.rows[i];
            if row.uuid == id || (!row.original && row.emote == emote && row.width == width
                && row.height == height) {
                assert(!clear_of(self.rows@[i as int], id, emote, width, height));
                return false;
            }
            i = i + 1;
        }
        true
    }

    /// Returns a ready derivative, reports one in flight, or inserts a
    /// placeholder and hands back the job that fills it.
    pub fn get_or_schedule(&mut self, emote: u128, width: i32, height: Option<i32>, fresh: u128) -> (r:
        Fetch)
        ensures
            scheduled(old(self).rows@, final(self).rows@, emote, width, height, fresh, r),
            images_wf(old(self).rows@) ==> images_wf(final(self).rows@),
    {
        match self.by_emote_and_size(emote, width, height) {
            Some(row) => {
                if row.processing {
                    return Fetch::Pending;
                } else {
                    return Fetch::Ready(row);
                }
            },
            None => {},
        }
        if height.is_some() {
            return Fetch::HeightUnsupported;
        }
        let orig = match self.original_of(emote) {
            Some(o) => o,
            None => {
                return Fetch::NoOriginal;
            },
        };
        let ct = match derivative_content_type(orig.content_type.as_str()) {
            Some(t) => t,
            None => {
                return Fetch::NoResizer;
            },
        };
        if !self.can_insert(fresh, emote, width, PENDING_HEIGHT) {
            if self.holds_no_key(emote, width, PENDING_HEIGHT) {
                return Fetch::IdInUse;
            }
            return Fetch::Pending;
        }
        self.rows.push(
            ImageRow {
                uuid: fresh,
                emote,
                width,
                height: PENDING_HEIGHT,
                original: false,
                processing: true,
                content_type: ct.to_owned(),
            },
        );
        proof {
            assert(self.rows@.drop_last() =~= old(self).rows@);
            let p = self.rows@.last();
            assert forall|i: int| 0 <= i < old(self).rows@.len() implies compatible(
                #[trigger] old(self).rows@[i],
                p,
            ) && compatible(p, old(self).rows@[i]) by {
                assert(clear_of(old(self).rows@[i], fresh, emote, width, PENDING_HEIGHT));
            }
            if images_wf(old(self).rows@) {
                lemma_wf_push(old(self).rows@, p);
                assert(self.rows@ =~= old(self).rows@.push(p));
            }
        }
        Fetch::Dispatched(ResizeJob { emote, original: orig.uuid, target: fresh, width })
    }
}

} // verus!
