use emotes::derivative::{
    derivative_content_type, Fetch, FinishError, ImageRow, ImageTable, JobEnd, PENDING_HEIGHT, STANDARD_WIDTHS,
};
use emotes::display::{
    display_width, normalize_request, parse_decimal, parse_options, reply_for_fetch, serve, strip_gif_suffix,
    DisplayOptions, DisplayReply, EmoteMsg, EmoteType, OptionsError, SizeError,
};
use emotes::image_type::{ImageType, ImageTypeError, ImageTypeHandler};
use emotes::config::{default_bind, LocalStorageProvider, LocalStorageProviderConfig};
use emotes::slug::split_compound_slug;

const EMOTE: u128 = 0xe;
const ORIG: u128 = 0x1;

fn table_with_original(content_type: &str) -> ImageTable {
    ImageTable {
        rows: vec![ImageRow {
            uuid: ORIG,
            emote: EMOTE,
            width: 512,
            height: 512,
            original: true,
            processing: false,
            content_type: content_type.to_string(),
        }],
    }
}

fn rows_at_width(t: &ImageTable, width: i32) -> usize {
    t.rows.iter().filter(|r| r.emote == EMOTE && r.width == width).count()
}

#[test]
fn two_requests_one_job() {
    let mut t = table_with_original("image/png");
    let first = t.get_or_schedule(EMOTE, 64, None, 0x10);
    let job = match first {
        Fetch::Dispatched(job) => job,
        other => panic!("expected a dispatch, got {:?}", other),
    };
    assert_eq!(job.target, 0x10);
    assert_eq!(job.original, ORIG);
    assert_eq!(job.width, 64);
    let second = t.get_or_schedule(EMOTE, 64, None, 0x11);
    assert!(matches!(second, Fetch::Pending));
    assert_eq!(rows_at_width(&t, 64), 1);
    let placeholder = t.rows.iter().find(|r| r.uuid == 0x10).unwrap();
    assert!(placeholder.processing);
    assert!(!placeholder.original);
    assert_eq!(placeholder.height, PENDING_HEIGHT);
    assert_eq!(placeholder.content_type, "image/png");
}

#[test]
fn request_after_completion_is_ready() {
    let mut t = table_with_original("image/gif");
    let job = match t.get_or_schedule(EMOTE, 64, None, 0x10) {
        Fetch::Dispatched(job) => job,
        other => panic!("expected a dispatch, got {:?}", other),
    };
    assert_eq!(t.complete_job(&job, Some((64, 40, "image/gif".to_string()))), JobEnd::Ready);
    match t.get_or_schedule(EMOTE, 64, None, 0x11) {
        Fetch::Ready(row) => {
            assert_eq!(row.uuid, 0x10);
            assert_eq!(row.height, 40);
            assert!(!row.processing);
        }
        other => panic!("expected ready, got {:?}", other),
    }
    assert_eq!(rows_at_width(&t, 64), 1);
}

#[test]
fn failed_job_cleans_up_and_retries() {
    let mut t = table_with_original("image/jpeg");
    let before = t.rows.len();
    let job = match t.get_or_schedule(EMOTE, 128, None, 0x20) {
        Fetch::Dispatched(job) => job,
        other => panic!("expected a dispatch, got {:?}", other),
    };
    assert_eq!(t.complete_job(&job, None), JobEnd::Abandoned);
    assert_eq!(t.rows.len(), before);
    assert!(t.rows.iter().all(|r| r.uuid != 0x20));
    assert!(matches!(t.get_or_schedule(EMOTE, 128, None, 0x21), Fetch::Dispatched(_)));
}

#[test]
fn conflicting_result_is_abandoned() {
    let mut t = table_with_original("image/png");
    let j1 = match t.get_or_schedule(EMOTE, 64, None, 0x10) {
        Fetch::Dispatched(job) => job,
        other => panic!("{:?}", other),
    };
    assert_eq!(t.complete_job(&j1, Some((64, 64, "image/png".to_string()))), JobEnd::Ready);
    let j2 = match t.get_or_schedule(EMOTE, 65, None, 0x11) {
        Fetch::Dispatched(job) => job,
        other => panic!("{:?}", other),
    };
    // The resizer came back with a size that another derivative holds.
    assert_eq!(t.finish(0x11, 64, 64, "image/png".to_string()), Err(FinishError::Conflict));
    assert_eq!(t.complete_job(&j2, Some((64, 64, "image/png".to_string()))), JobEnd::Abandoned);
    assert!(t.rows.iter().all(|r| r.uuid != 0x11));
    assert_eq!(t.finish(0x99, 1, 1, "image/png".to_string()), Err(FinishError::Missing));
}

#[test]
fn taken_id_is_not_a_job_in_flight() {
    let mut t = table_with_original("image/png");
    assert!(matches!(t.get_or_schedule(EMOTE, 64, None, ORIG), Fetch::IdInUse));
    assert_eq!(t.rows.len(), 1);
    assert!(matches!(t.get_or_schedule(EMOTE, 64, None, 0x10), Fetch::Dispatched(_)));
    // With the size in flight, the job is reported whatever the id.
    assert!(matches!(t.get_or_schedule(EMOTE, 64, None, ORIG), Fetch::Pending));
}

#[test]
fn no_original_or_no_resizer_or_height() {
    let mut empty = ImageTable { rows: vec![] };
    assert!(matches!(empty.get_or_schedule(EMOTE, 64, None, 1), Fetch::NoOriginal));
    let mut lottie = table_with_original("application/json");
    assert!(matches!(lottie.get_or_schedule(EMOTE, 64, None, 1), Fetch::NoResizer));
    let mut t = table_with_original("image/png");
    assert!(matches!(t.get_or_schedule(EMOTE, 64, Some(64), 1), Fetch::HeightUnsupported));
    // The original itself is found by its size.
    assert!(matches!(t.get_or_schedule(EMOTE, 512, None, 1), Fetch::Ready(_)));
    assert!(matches!(t.get_or_schedule(EMOTE, 512, Some(512), 1), Fetch::Ready(_)));
    assert_eq!(t.rows.len(), 1);
}

#[test]
fn upload_schedules_standard_sizes() {
    let mut t = ImageTable { rows: vec![] };
    assert!(t.begin_original(ORIG, EMOTE, "image/png".to_string()));
    assert!(!t.begin_original(ORIG, EMOTE, "image/png".to_string()));
    // An emote has one original.
    assert!(!t.begin_original(0x77, EMOTE, "image/png".to_string()));
    assert!(t.begin_original(0x78, 0xf0, "image/png".to_string()));
    t.rows.pop();
    assert!(t.rows[0].original && t.rows[0].processing);
    assert_eq!(t.finish(ORIG, 300, 200, "image/png".to_string()), Ok(()));
    assert!(!t.rows[0].processing);
    assert_eq!((t.rows[0].width, t.rows[0].height), (300, 200));
    let fresh = vec![0x21, 0x22, 0x23, 0x24, 0x25];
    let results = t.schedule_standard_sizes(EMOTE, &fresh);
    assert_eq!(results.len(), 5);
    assert!(results.iter().all(|f| matches!(f, Fetch::Dispatched(_))));
    assert_eq!(t.rows.len(), 6);
    let widths: Vec<i32> = t.rows[1..].iter().map(|r| r.width).collect();
    assert_eq!(widths, STANDARD_WIDTHS.to_vec());
    assert!(t.rows[1..].iter().all(|r| r.processing && !r.original));
    // One completes; ready images are the original and that one.
    let j = match &results[2] {
        Fetch::Dispatched(j) => *j,
        _ => unreachable!(),
    };
    assert_eq!(t.complete_job(&j, Some((64, 43, "image/png".to_string()))), JobEnd::Ready);
    let ready: Vec<u128> = t.ready_of(EMOTE).iter().map(|r| r.uuid).collect();
    assert_eq!(ready, vec![ORIG, 0x23]);
    assert!(t.ready_of(0xf0).is_empty());
    assert_eq!(t.rows.iter().filter(|r| r.processing).count(), 4);
}

#[test]
fn serving_before_and_after_resize() {
    let mut t = table_with_original("image/png");
    let (first, job) = serve(&mut t, Some((EMOTE, EmoteType::Standard)), Some("128"), 0x30);
    let job = job.unwrap();
    assert_eq!((job.target, job.width, job.original), (0x30, 128, ORIG));
    match first {
        DisplayReply::Message { status, msg } => {
            assert_eq!(status, 404);
            assert_eq!(msg.msg, "Emote was not created in that size. Emote resizer dispatched.");
        }
        other => panic!("{:?}", other),
    }
    let (second, none) = serve(&mut t, Some((EMOTE, EmoteType::Standard)), Some("128"), 0x31);
    assert!(none.is_none());
    match second {
        DisplayReply::Message { status, msg } => {
            assert_eq!(status, 404);
            assert_eq!(msg.msg, "Emote resizer is processing this emote.");
        }
        other => panic!("{:?}", other),
    }
    assert_eq!(t.complete_job(&job, Some((128, 128, "image/png".to_string()))), JobEnd::Ready);
    match serve(&mut t, Some((EMOTE, EmoteType::Standard)), Some("128"), 0x32).0 {
        DisplayReply::Image { image, content_type } => {
            assert_eq!(image, 0x30);
            assert_eq!(content_type, "image/png");
        }
        other => panic!("{:?}", other),
    }
}

#[test]
fn serving_errors() {
    let mut t = table_with_original("image/png");
    match serve(&mut t, None, None, 1).0 {
        DisplayReply::Message { status, msg } => {
            assert_eq!(status, 404);
            assert_eq!(msg.msg, "Emote not found");
        }
        other => panic!("{:?}", other),
    }
    match serve(&mut t, Some((EMOTE, EmoteType::Sticker)), Some("64x64"), 1).0 {
        DisplayReply::Message { status, .. } => assert_eq!(status, 500),
        other => panic!("{:?}", other),
    }
    match serve(&mut t, Some((EMOTE, EmoteType::Sticker)), Some("abc"), 1).0 {
        DisplayReply::Message { status, .. } => assert_eq!(status, 400),
        other => panic!("{:?}", other),
    }
    // A sticker defaults to 256.
    match serve(&mut t, Some((EMOTE, EmoteType::Sticker)), None, 0x40).0 {
        DisplayReply::Message { status, .. } => assert_eq!(status, 404),
        other => panic!("{:?}", other),
    }
    assert!(t.rows.iter().any(|r| r.uuid == 0x40 && r.width == 256));
    assert_eq!(t.rows.len(), 2);
}

#[test]
fn options_parsing() {
    let o = |w, h, m| Ok(DisplayOptions { width: w, height: h, multiplier: m });
    assert_eq!(parse_options("128"), o(Some(128), None, None));
    assert_eq!(parse_options("64x32"), o(Some(64), Some(32), None));
    assert_eq!(parse_options("64x"), o(Some(64), None, None));
    assert_eq!(parse_options("x10"), o(None, None, Some(10)));
    assert_eq!(parse_options("64x32x2"), o(Some(64), Some(32), Some(2)));
    assert_eq!(parse_options("64xx2"), o(Some(64), None, Some(2)));
    assert_eq!(parse_options(""), Err(OptionsError::Malformed));
    assert_eq!(parse_options("x"), Err(OptionsError::Malformed));
    assert_eq!(parse_options("ax1"), Err(OptionsError::Malformed));
    assert_eq!(parse_options("1x2x3x4"), Err(OptionsError::Malformed));
    assert_eq!(parse_options("-5"), Err(OptionsError::Malformed));
    assert_eq!(parse_options("2147483648"), Err(OptionsError::Malformed));
    assert_eq!(parse_options("2147483647"), o(Some(2147483647), None, None));
}

#[test]
fn decimals() {
    assert_eq!(parse_decimal("0"), Some(0));
    assert_eq!(parse_decimal("007"), Some(7));
    assert_eq!(parse_decimal("12345"), Some(12345));
    assert_eq!(parse_decimal(""), None);
    assert_eq!(parse_decimal("1 "), None);
    assert_eq!(parse_decimal("99999999999999999999"), None);
}

#[test]
fn widths() {
    assert_eq!(display_width(EmoteType::Standard, None), Ok(64));
    assert_eq!(display_width(EmoteType::Sticker, None), Ok(256));
    let multiplier_only = DisplayOptions { width: None, height: None, multiplier: Some(2) };
    assert_eq!(display_width(EmoteType::Sticker, Some(multiplier_only)), Ok(256));
    let w = DisplayOptions { width: Some(32), height: None, multiplier: None };
    assert_eq!(display_width(EmoteType::Standard, Some(w)), Ok(32));
    let h = DisplayOptions { width: Some(32), height: Some(3), multiplier: None };
    assert_eq!(display_width(EmoteType::Standard, Some(h)), Err(SizeError::HeightUnsupported));
}

#[test]
fn gif_suffix() {
    assert_eq!(strip_gif_suffix("wave.gif"), "wave");
    assert_eq!(strip_gif_suffix("wave.gif.gif"), "wave.gif");
    assert_eq!(strip_gif_suffix("wave"), "wave");
    assert_eq!(strip_gif_suffix(".gif"), "");
    assert_eq!(normalize_request("wave.gif", None), ("wave".to_string(), None));
    assert_eq!(
        normalize_request("wave.gif", Some("128.gif")),
        ("wave.gif".to_string(), Some("128".to_string()))
    );
}

#[test]
fn compound_slugs() {
    assert_eq!(split_compound_slug("memes/wave"), Some(("memes".to_string(), "wave".to_string())));
    assert_eq!(split_compound_slug("memes/"), Some(("memes".to_string(), "".to_string())));
    assert_eq!(split_compound_slug("memes"), None);
    assert_eq!(split_compound_slug("a/b/c"), None);
}

#[test]
fn replies_for_outcomes() {
    match reply_for_fetch(Fetch::NoOriginal) {
        DisplayReply::Message { status, msg } => {
            assert_eq!(status, 404);
            assert_eq!(msg.msg, "Emote not found");
        }
        other => panic!("{:?}", other),
    }
    match reply_for_fetch(Fetch::NoResizer) {
        DisplayReply::Message { status, .. } => assert_eq!(status, 500),
        other => panic!("{:?}", other),
    }
    assert_eq!(EmoteMsg::new("hi").msg, "hi");
}

#[test]
fn content_types() {
    assert_eq!(derivative_content_type("image/gif"), Some("image/gif"));
    assert_eq!(derivative_content_type("image/webp"), Some("image/gif"));
    assert_eq!(derivative_content_type("image/jpeg"), Some("image/png"));
    assert_eq!(derivative_content_type("image/svg+xml"), None);
    assert_eq!(derivative_content_type("text/plain"), None);
    let h = ImageTypeHandler::from_content_type("image/webp", vec![1, 2], 3).unwrap().unwrap();
    assert_eq!(h.image_type, ImageType::WEBPAnimated);
    assert_eq!(h.image_buffer, vec![1, 2]);
    let h = ImageTypeHandler::from_content_type("image/webp", vec![], 1).unwrap().unwrap();
    assert_eq!(h.image_type, ImageType::WEBPStill);
    let h = ImageTypeHandler::from_content_type("image/jpeg", vec![], 1).unwrap().unwrap();
    assert_eq!(h.image_type, ImageType::JPEG);
    assert!(ImageTypeHandler::from_content_type("text/plain", vec![], 1).unwrap().is_none());
    assert!(matches!(
        ImageTypeHandler::from_content_type("image/apng", vec![], 1),
        Err(ImageTypeError::NoResizer(ImageType::APNG))
    ));
    assert_eq!(ImageType::GIF.out_content_type(), Some("image/gif"));
    assert_eq!(ImageType::WEBPStill.out_content_type(), Some("image/gif"));
    assert_eq!(ImageType::SVG.out_content_type(), None);
    assert!(matches!(
        ImageTypeHandler::from_content_type("image/svg+xml", vec![], 1),
        Err(ImageTypeError::NoResizer(ImageType::SVG))
    ));
    assert_eq!(ImageType::Lottie.out_content_type(), None);
}

#[test]
fn config_defaults() {
    assert_eq!(default_bind(), "127.0.0.1:8080");
    let p = LocalStorageProvider::new(&LocalStorageProviderConfig { data_dir: "/data".to_string() });
    assert_eq!(p.base_path, "/data");
}

#[test]
fn deleting_an_emote_lists_its_blobs() {
    let mut t = table_with_original("image/png");
    t.rows.push(ImageRow {
        uuid: 0x50,
        emote: 0xf,
        width: 10,
        height: 10,
        original: true,
        processing: false,
        content_type: "image/png".to_string(),
    });
    let _ = t.get_or_schedule(EMOTE, 64, None, 0x51);
    let ids = t.delete_emote_images(EMOTE);
    assert_eq!(ids, vec![ORIG, 0x51]);
    assert_eq!(t.rows.len(), 1);
    assert_eq!(t.rows[0].uuid, 0x50);
    assert!(t.delete_emote_images(EMOTE).is_empty());
}
