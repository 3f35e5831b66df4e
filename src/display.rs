//! Serving an emote by path: `/{dir}/{emote}[.gif][/{options}]`.
//!
//! The options segment is `W`, `WxH`, `xM` or `WxHxM` (width, height,
//! multiplier; an empty height is no height). Resizing to a height is not
//! supported and is refused; the multiplier is read and not used.
use vstd::prelude::*;
use crate::derivative::{
    count_at_width, derivative_type, finished, job_of, lemma_request_after_completion, original_row, row_index, scheduled, Fetch, FinishError, ImageRow,
    ImageTable, ResizeJob,
};
use crate::image_type::text_is;

verus! {

/// An emote's kind, which fixes its default width.
#[derive(Clone, Copy, Debug, PartialEq, Eq, Structural)]
pub enum EmoteType {
    Standard,
    Sticker,
}

/// The default width of an emote kind.
pub open spec fn default_width(t: EmoteType) -> i32 {
    match t {
        EmoteType::Standard => 64,
        EmoteType::Sticker => 256,
    }
}

/// The message body of a response that carries no image.
#[derive(Clone, Debug)]
pub struct EmoteMsg {
    pub msg: String,
}

impl EmoteMsg {
    pub fn new(msg: &str) -> (r: Self)
        ensures
            r.msg@ == msg@,
    {
        EmoteMsg { msg: msg.to_owned() }
    }
}

pub open spec fn strip_gif(s: Seq<char>) -> Seq<char> {
    if s.len() >= 4 && s.subrange(s.len() - 4, s.len() as int) == ".gif"@ {
        s.subrange(0, s.len() - 4)
    } else {
        s
    }
}

/// Drops one trailing `.gif`, which some clients need to see in a URL.
pub fn strip_gif_suffix(s: &str) -> (r: String)
    ensures
        r@ == strip_gif(s@),
{
    let n = s.unicode_len();
    if n >= 4 && text_is(s.substring_char(n - 4, n), ".gif") {
        s.substring_char(0, n - 4).to_owned()
    } else {
        s.to_owned()
    }
}

/// The emote slug and options of a request path, with the `.gif` dropped:
/// from the options when there are options, else from the emote slug.
pub fn normalize_request(emote_slug: &str, options: Option<&str>) -> (r: (String, Option<String>))
    ensures
        match options {
            None => r.0@ == strip_gif(emote_slug@) && r.1 is None,
            Some(o) => r.0@ == emote_slug@ && (r.1 matches Some(t) && t@ == strip_gif(o@)),
        },
{
    match options {
        None => (strip_gif_suffix(emote_slug), None),
        Some(o) => (emote_slug.to_owned(), Some(strip_gif_suffix(o))),
    }
}

pub open spec fn is_digit(c: char) -> bool {
    '0' <= c <= '9'
}

pub open spec fn digits_value(s: Seq<char>) -> int
    decreases s.len(),
{
    if s.len() == 0 {
        0
    } else {
        digits_value(s.drop_last()) * 10 + (s.last() as int - '0' as int)
    }
}

/// The value of a non-empty run of decimal digits that fits an `i32`.
pub open spec fn decimal_of(s: Seq<char>) -> Option<i32> {
    if s.len() > 0 && (forall|i: int| 0 <= i < s.len() ==> is_digit(#[trigger] s[i])) && digits_value(s)
        <= i32::MAX {
        Some(digits_value(s) as i32)
    } else {
        None
    }
}

proof fn lemma_digits_monotone(s: Seq<char>, i: int)
    requires
        0 <= i <= s.len(),
        forall|j: int| 0 <= j < s.len() ==> is_digit(#[trigger] s[j]),
    ensures
        0 <= digits_value(s.subrange(0, i)) <= digits_value(s),
    decreases s.len(),
{
    if i == s.len() {
        assert(s.subrange(0, i) =~= s);
        lemma_digits_nonneg(s);
    } else {
        let t = s.drop_last();
        assert forall|j: int| 0 <= j < t.len() implies is_digit(#[trigger] t[j]) by {
            assert(t[j] == s[j]);
        }
        lemma_digits_monotone(t, i);
        assert(t.subrange(0, i) =~= s.subrange(0, i));
        assert(is_digit(s[s.len() - 1]));
    }
}

proof fn lemma_digits_nonneg(s: Seq<char>)
    requires
        forall|j: int| 0 <= j < s.len() ==> is_digit(#[trigger] s[j]),
    ensures
        digits_value(s) >= 0,
    decreases s.len(),
{
    if s.len() > 0 {
        let t = s.drop_last();
        assert forall|j: int| 0 <= j < t.len() implies is_digit(#[trigger] t[j]) by {
            assert(t[j] == s[j]);
        }
        lemma_digits_nonneg(t);
        assert(is_digit(s[s.len() - 1]));
    }
}

/// Reads a non-empty run of decimal digits that fits an `i32`.
pub fn parse_decimal(s: &str) -> (r: Option<i32>)
    ensures
        r == decimal_of(s@),
{
    let n = s.unicode_len();
    if n == 0 {
        return None;
    }
    let mut i: usize = 0;
    while i < n
        invariant
            n == s@.len(),
            i <= n,
            forall|j: int| 0 <= j < i ==> is_digit(#[trigger] s@[j]),
        decreases n - i,
    {
        let c = s.get_char(i);
        if !('0' <= c && c <= '9') {
            return None;
        }
        i = i + 1;
    }
    let mut acc: u64 = 0;
    let mut i: usize = 0;
    while i < n
        invariant
            n == s@.len(),
            i <= n,
            forall|j: int| 0 <= j < n ==> is_digit(#[trigger] s@[j]),
            acc as int == digits_value(s@.subrange(0, i as int)),
            acc <= i32::MAX,
        decreases n - i,
    {
        let c = s.get_char(i);
        assert(is_digit(s@[i as int]));
        let d = (c as u32 - '0' as u32) as u64;
        assert(s@.subrange(0, i + 1).drop_last() =~= s@.subrange(0, i as int));
        let next = acc * 10 + d;
        if next > i32::MAX as u64 {
            proof {
                lemma_digits_monotone(s@, i + 1);
            }
            return None;
        }
        acc = next;
        i = i + 1;
    }
    assert(s@.subrange(0, n as int) =~= s@);
    Some(acc as i32)
}

/// What a request's options ask for.
#[derive(Clone, Copy, Debug, PartialEq, Eq, Structural)]
pub struct DisplayOptions {
    pub width: Option<i32>,
    pub height: Option<i32>,
    pub multiplier: Option<i32>,
}

/// Why an options segment was refused.
#[derive(Clone, Copy, Debug, PartialEq, Eq, Structural)]
pub enum OptionsError {
    Malformed,
}

/// The positions of the `x` separators in `s`.
pub open spec fn x_positions(s: Seq<char>) -> Seq<int>
    decreases s.len(),
{
    if s.len() == 0 {
        Seq::empty()
    } else if s.last() == 'x' {
        x_positions(s.drop_last()).push(s.len() - 1)
    } else {
        x_positions(s.drop_last())
    }
}

/// An optional height: empty text is no height.
pub open spec fn height_of(p: Seq<char>) -> Option<Option<i32>> {
    if p.len() == 0 {
        Some(None)
    } else {
        match decimal_of(p) {
            Some(h) => Some(Some(h)),
            None => None,
        }
    }
}

pub open spec fn options_of(s: Seq<char>) -> Result<DisplayOptions, OptionsError> {
    let xs = x_positions(s);
    if xs.len() == 0 {
        match decimal_of(s) {
            Some(w) => Ok(DisplayOptions { width: Some(w), height: None, multiplier: None }),
            None => Err(OptionsError::Malformed),
        }
    } else if xs.len() == 1 {
        let p0 = s.subrange(0, xs[0]);
        let p1 = s.subrange(xs[0] + 1, s.len() as int);
        if p0.len() == 0 {
            match decimal_of(p1) {
                Some(m) => Ok(DisplayOptions { width: None, height: None, multiplier: Some(m) }),
                None => Err(OptionsError::Malformed),
            }
        } else {
            match (decimal_of(p0), height_of(p1)) {
                (Some(w), Some(h)) => Ok(DisplayOptions { width: Some(w), height: h, multiplier: None }),
                _ => Err(OptionsError::Malformed),
            }
        }
    } else if xs.len() == 2 {
        let p0 = s.subrange(0, xs[0]);
        let p1 = s.subrange(xs[0] + 1, xs[1]);
        let p2 = s.subrange(xs[1] + 1, s.len() as int);
        match (decimal_of(p0), height_of(p1), decimal_of(p2)) {
            (Some(w), Some(h), Some(m)) => Ok(
                DisplayOptions { width: Some(w), height: h, multiplier: Some(m) },
            ),
            _ => Err(OptionsError::Malformed),
        }
    } else {
        Err(OptionsError::Malformed)
    }
}

proof fn lemma_x_positions_bounds(s: Seq<char>)
    ensures
        forall|k: int| 0 <= k < x_positions(s).len() ==> 0 <= #[trigger] x_positions(s)[k] < s.len(),
        forall|k: int, l: int| 0 <= k < l < x_positions(s).len() ==> x_positions(s)[k] < x_positions(s)[l],
    decreases s.len(),
{
    if s.len() > 0 {
        let t = s.drop_last();
        lemma_x_positions_bounds(t);
        let xt = x_positions(t);
        if s.last() == 'x' {
            let xs = xt.push(s.len() - 1);
            assert(x_positions(s) == xs);
            assert forall|k: int| 0 <= k < xs.len() implies 0 <= #[trigger] xs[k] < s.len() by {
                if k < xt.len() {
                    assert(xs[k] == xt[k]);
                }
            }
            assert forall|k: int, l: int| 0 <= k < l < xs.len() implies xs[k] < xs[l] by {
                assert(xs[k] == xt[k]);
                if l < xt.len() {
                    assert(xs[l] == xt[l]);
                }
            }
        }
    }
}

/// The positions of the first three `x` separators, and how many there are
/// in all, capped at three.
fn find_separators(s: &str) -> (r: Vec<usize>)
    ensures
        r@.len() == if x_positions(s@).len() <= 2 {
            x_positions(s@).len()
        } else {
            3
        },
        forall|k: int| 0 <= k < r@.len() ==> r@[k] as int == #[trigger] x_positions(s@)[k],
{
    let n = s.unicode_len();
    let mut r: Vec<usize> = Vec::new();
    let mut i: usize = 0;
    while i < n
        invariant
            n == s@.len(),
            i <= n,
            r@.len() == x_positions(s@.subrange(0, i as int)).len(),
            r@.len() <= 2,
            forall|k: int| 0 <= k < r@.len() ==> r@[k] as int == #[trigger] x_positions(s@.subrange(0, i as int))[k],
        decreases n - i,
    {
        assert(s@.subrange(0, i + 1).drop_last() =~= s@.subrange(0, i as int));
        let ghost b = s@.subrange(0, i + 1);
        let ghost a = s@.subrange(0, i as int);
        if s.get_char(i) == 'x' {
            r.push(i);
            assert(x_positions(b) == x_positions(a).push(i as int));
            assert forall|k: int| 0 <= k < r@.len() implies r@[k] as int == #[trigger] x_positions(b)[k] by {
                if k < r@.len() - 1 {
                    assert(x_positions(b)[k] == x_positions(a)[k]);
                }
            }
            if r.len() == 3 {
                proof {
                    lemma_x_prefix(s@, i + 1);
                    assert forall|k: int| 0 <= k < r@.len() implies r@[k] as int
                        == #[trigger] x_positions(s@)[k] by {
                        assert(r@[k] as int == x_positions(b)[k]);
                    }
                }
                return r;
            }
        }
        i = i + 1;
    }
    assert(s@.subrange(0, n as int) =~= s@);
    r
}

/// The separators of a prefix are the first separators of the whole.
proof fn lemma_x_prefix(s: Seq<char>, i: int)
    requires
        0 <= i <= s.len(),
    ensures
        x_positions(s.subrange(0, i)).len() <= x_positions(s).len(),
        forall|k: int|
            0 <= k < x_positions(s.subrange(0, i)).len() ==> #[trigger] x_positions(s.subrange(0, i))[k]
                == x_positions(s)[k],
    decreases s.len() - i,
{
    if i < s.len() {
        lemma_x_prefix(s, i + 1);
        let a = s.subrange(0, i);
        let b = s.subrange(0, i + 1);
        assert(b.drop_last() =~= a);
        assert forall|k: int| 0 <= k < x_positions(a).len() implies #[trigger] x_positions(a)[k]
            == x_positions(s)[k] by {
            assert(x_positions(b)[k] == x_positions(a)[k]);
        }
    } else {
        assert(s.subrange(0, i) =~= s);
    }
}

fn height_text(p: &str) -> (r: Option<Option<i32>>)
    ensures
        r == height_of(p@),
{
    if p.unicode_len() == 0 {
        Some(None)
    } else {
        match parse_decimal(p) {
            Some(h) => Some(Some(h)),
            None => None,
        }
    }
}

/// Parses an options segment.
pub fn parse_options(s: &str) -> (r: Result<DisplayOptions, OptionsError>)
    ensures
        r == options_of(s@),
{
    let xs = find_separators(s);
    let n = s.unicode_len();
    proof {
        lemma_x_positions_bounds(s@);
    }
    if xs.len() == 0 {
        match parse_decimal(s) {
            Some(w) => Ok(DisplayOptions { width: Some(w), height: None, multiplier: None }),
            None => Err(OptionsError::Malformed),
        }
    } else if xs.len() == 1 {
        let p0 = s.substring_char(0, xs[0]);
        let p1 = s.substring_char(xs[0] + 1, n);
        if xs[0] == 0 {
            match parse_decimal(p1) {
                Some(m) => Ok(DisplayOptions { width: None, height: None, multiplier: Some(m) }),
                None => Err(OptionsError::Malformed),
            }
        } else {
            match (parse_decimal(p0), height_text(p1)) {
                (Some(w), Some(h)) => Ok(DisplayOptions { width: Some(w), height: h, multiplier: None }),
                _ => Err(OptionsError::Malformed),
            }
        }
    } else if xs.len() == 2 {
        let p0 = s.substring_char(0, xs[0]);
        let p1 = s.substring_char(xs[0] + 1, xs[1]);
        let p2 = s.substring_char(xs[1] + 1, n);
        match (parse_decimal(p0), height_text(p1), parse_decimal(p2)) {
            (Some(w), Some(h), Some(m)) => Ok(
                DisplayOptions { width: Some(w), height: h, multiplier: Some(m) },
            ),
            _ => Err(OptionsError::Malformed),
        }
    } else {
        Err(OptionsError::Malformed)
    }
}

/// Why an emote cannot be shown at the asked size.
#[derive(Clone, Copy, Debug, PartialEq, Eq, Structural)]
pub enum SizeError {
    HeightUnsupported,
}

/// The width to serve: the options' width, else the kind's default.
pub open spec fn width_for(t: EmoteType, options: Option<DisplayOptions>) -> Result<i32, SizeError> {
    match options {
        None => Ok(default_width(t)),
        Some(o) => if o.height is Some {
            Err(SizeError::HeightUnsupported)
        } else {
            match o.width {
                Some(w) => Ok(w),
                None => Ok(default_width(t)),
            }
        },
    }
}

/// The width to serve an emote at.
pub fn display_width(t: EmoteType, options: Option<DisplayOptions>) -> (r: Result<i32, SizeError>)
    ensures
        r == width_for(t, options),
{
    let default: i32 = match t {
        EmoteType::Standard => 64,
        EmoteType::Sticker => 256,
    };
    match options {
        None => Ok(default),
        Some(o) => if o.height.is_some() {
            Err(SizeError::HeightUnsupported)
        } else {
            match o.width {
                Some(w) => Ok(w),
                None => Ok(default),
            }
        },
    }
}

/// The answer to a request for an emote image.
#[derive(Clone, Debug)]
pub enum DisplayReply {
    /// The bytes of this image, stored under its id, with its content type.
    Image { image: u128, content_type: String },
    /// A status and a message instead of an image.
    Message { status: u16, msg: EmoteMsg },
}

pub open spec fn is_message(r: DisplayReply, status: u16, text: Seq<char>) -> bool {
    r matches DisplayReply::Message { status: s, msg } && s == status && msg.msg@ == text
}

pub open spec fn not_found_text() -> Seq<char> {
    "Emote not found"@
}

pub open spec fn dispatched_text() -> Seq<char> {
    "Emote was not created in that size. Emote resizer dispatched."@
}

pub open spec fn processing_text() -> Seq<char> {
    "Emote resizer is processing this emote."@
}

pub open spec fn height_refused_text() -> Seq<char> {
    "Emotes cannot be resized by height yet. Please try again without the height, or wait for this feature to be implemented."@
}

pub open spec fn malformed_text() -> Seq<char> {
    "Malformed options; expected WIDTH, WIDTHxHEIGHT, xMULTIPLIER or WIDTHxHEIGHTxMULTIPLIER."@
}

pub open spec fn id_in_use_text() -> Seq<char> {
    "Could not allocate an id for the resized emote; please try again."@
}

pub open spec fn no_resizer_text() -> Seq<char> {
    "This emote's format cannot be resized."@
}

/// The reply that a derivative request's outcome gives.
pub open spec fn reply_fits(f: Fetch, r: DisplayReply) -> bool {
    match f {
        Fetch::Ready(row) => r matches DisplayReply::Image { image, content_type } && image == row.uuid
            && content_type@ == row.content_type@,
        Fetch::Pending => is_message(r, 404, processing_text()),
        Fetch::Dispatched(_) => is_message(r, 404, dispatched_text()),
        Fetch::NoOriginal => is_message(r, 404, not_found_text()),
        Fetch::NoResizer => is_message(r, 500, no_resizer_text()),
        Fetch::HeightUnsupported => is_message(r, 500, height_refused_text()),
        Fetch::IdInUse => is_message(r, 500, id_in_use_text()),
    }
}

fn message(status: u16, text: &str) -> (r: DisplayReply)
    ensures
        is_message(r, status, text@),
{
    DisplayReply::Message { status, msg: EmoteMsg::new(text) }
}

/// The reply for a derivative request's outcome.
pub fn reply_for_fetch(f: Fetch) -> (r: DisplayReply)
    ensures
        reply_fits(f, r),
{
    match f {
        Fetch::Ready(row) => DisplayReply::Image { image: row.uuid, content_type: row.content_type },
        Fetch::Pending => message(404, "Emote resizer is processing this emote."),
        Fetch::Dispatched(_) => message(
            404,
            "Emote was not created in that size. Emote resizer dispatched.",
        ),
        Fetch::NoOriginal => message(404, "Emote not found"),
        Fetch::NoResizer => message(500, "This emote's format cannot be resized."),
        Fetch::IdInUse => message(500, "Could not allocate an id for the resized emote; please try again."),
        Fetch::HeightUnsupported => message(
            500,
            "Emotes cannot be resized by height yet. Please try again without the height, or wait for this feature to be implemented.",
        ),
    }
}

/// Serves an emote found by its slugs (`emote` is its id and kind, `None`
/// when there is no such emote) with its normalized options: the image when
/// a ready one exists at the width asked, else a message, after inserting a
/// placeholder with `fresh` as its id when no job is in flight. The job to
/// run for that placeholder is handed back beside the reply.
pub fn serve(table: &mut ImageTable, emote: Option<(u128, EmoteType)>, options: Option<&str>, fresh: u128) -> (out:
    (DisplayReply, Option<ResizeJob>))
    ensures
        ({
            let r = out.0;
            match emote {
            None => final(table).rows@ == old(table).rows@ && is_message(r, 404, not_found_text())
                && out.1 is None,
            Some((id, t)) => match options {
                Some(o) if options_of(o@) is Err => final(table).rows@ == old(table).rows@
                    && is_message(r, 400, malformed_text()) && out.1 is None,
                _ => {
                    let parsed = match options {
                        Some(o) => Some(options_of(o@)->Ok_0),
                        None => None,
                    };
                    match width_for(t, parsed) {
                        Err(_) => final(table).rows@ == old(table).rows@ && is_message(
                            r,
                            500,
                            height_refused_text(),
                        ) && out.1 is None,
                        Ok(w) => exists|f: Fetch|
                            scheduled(old(table).rows@, final(table).rows@, id, w, None, fresh, f)
                                && reply_fits(f, r) && out.1 == job_of(f),
                    }
                },
            },
        }
        }),
{
    let (id, t) = match emote {
        Some(e) => e,
        None => {
            return (message(404, "Emote not found"), None);
        },
    };
    let parsed = match options {
        Some(o) => match parse_options(o) {
            Ok(p) => Some(p),
            Err(_) => {
                return (
                    message(
                        400,
                        "Malformed options; expected WIDTH, WIDTHxHEIGHT, xMULTIPLIER or WIDTHxHEIGHTxMULTIPLIER.",
                    ),
                    None,
                );
            },
        },
        None => None,
    };
    let width = match display_width(t, parsed) {
        Ok(w) => w,
        Err(_) => {
            return (
                message(
                    500,
                    "Emotes cannot be resized by height yet. Please try again without the height, or wait for this feature to be implemented.",
                ),
                None,
            );
        },
    };
    let f = table.get_or_schedule(id, width, None, fresh);
    let ghost fg = f;
    let job = match &f {
        Fetch::Dispatched(j) => Some(*j),
        _ => None,
    };
    let r = reply_for_fetch(f);
    assert(scheduled(old(table).rows@, table.rows@, id, width, None, fresh, fg) && reply_fits(fg, r)
        && job == job_of(fg));
    (r, job)
}

/// A request for a width that no image of the emote has yet is answered 404
/// with the dispatched message and leaves a processing placeholder of that
/// width; once its job has completed at that width, the same request is
/// answered with the new image.
pub proof fn lemma_serving_before_and_after_resize(
    rows0: Seq<ImageRow>,
    rows1: Seq<ImageRow>,
    done: Seq<ImageRow>,
    rows2: Seq<ImageRow>,
    emote: u128,
    width: i32,
    height: i32,
    content_type: Seq<char>,
    fresh1: u128,
    fresh2: u128,
    f1: Fetch,
    r1: DisplayReply,
    fin: Result<(), FinishError>,
    f2: Fetch,
    r2: DisplayReply,
)
    requires
        count_at_width(rows0, emote, width) == 0,
        original_row(rows0, emote) matches Some(o) && derivative_type(o.content_type@) is Some,
        row_index(rows0, fresh1) is None,
        scheduled(rows0, rows1, emote, width, None, fresh1, f1),
        reply_fits(f1, r1),
        finished(rows1, done, fresh1, width, height, content_type, fin),
        fin is Ok,
        scheduled(done, rows2, emote, width, None, fresh2, f2),
        reply_fits(f2, r2),
    ensures
        is_message(r1, 404, dispatched_text()),
        rows1.len() == rows0.len() + 1 && rows1.last().width == width && rows1.last().processing
            && !rows1.last().original && rows1.last().emote == emote,
        r2 matches DisplayReply::Image { image, .. } && image == fresh1,
{
    lemma_request_after_completion(
        rows0,
        rows1,
        done,
        rows2,
        emote,
        width,
        height,
        content_type,
        fresh1,
        fresh2,
        f1,
        fin,
        f2,
    );
}

} // verus!
