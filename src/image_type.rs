//! Image formats, by content type.
use vstd::prelude::*;

verus! {

/// The formats that uploads may have.
#[derive(Clone, Copy, Debug, PartialEq, Eq, Structural)]
pub enum ImageType {
    WEBPAnimated,
    WEBPStill,
    PNG,
    JPEG,
    GIF,
    APNG,
    Lottie,
    SVG,
}

/// Why an upload's content type cannot be handled.
#[derive(Clone, Copy, Debug, PartialEq, Eq, Structural)]
pub enum ImageTypeError {
    /// A known format that no resizer handles.
    NoResizer(ImageType),
}

/// The format of a content type; a WebP with more than one frame is animated.
pub open spec fn image_type_of(content_type: Seq<char>, frames: u32) -> Option<ImageType> {
    if content_type == "image/webp"@ {
        Some(if frames > 1 { ImageType::WEBPAnimated } else { ImageType::WEBPStill })
    } else if content_type == "image/png"@ {
        Some(ImageType::PNG)
    } else if content_type == "image/jpeg"@ {
        Some(ImageType::JPEG)
    } else if content_type == "image/gif"@ {
        Some(ImageType::GIF)
    } else if content_type == "image/apng"@ {
        Some(ImageType::APNG)
    } else if content_type == "application/json"@ {
        Some(ImageType::Lottie)
    } else if content_type == "image/svg+xml"@ {
        Some(ImageType::SVG)
    } else {
        None
    }
}

/// The content type that resized images of a format are written in; `None`
/// for the formats that no resizer handles. Every WebP gives GIF, so the
/// type is known from the content type alone, before any decoding.
pub open spec fn out_type_of(t: ImageType) -> Option<Seq<char>> {
    match t {
        ImageType::WEBPAnimated | ImageType::WEBPStill | ImageType::GIF => Some("image/gif"@),
        ImageType::PNG | ImageType::JPEG => Some("image/png"@),
        ImageType::APNG | ImageType::Lottie | ImageType::SVG => None,
    }
}

/// Whether `s` is the text `lit`.
pub fn text_is(s: &str, lit: &str) -> (r: bool)
    ensures
        r == (s@ == lit@),
{
    let a = s.to_owned();
    let b = lit.to_owned();
    a == b
}

impl ImageType {
    /// The content type that resized images of this format are written in.
    pub fn out_content_type(&self) -> (r: Option<&'static str>)
        ensures
            match out_type_of(*self) {
                Some(t) => r matches Some(s) && s@ == t,
                None => r is None,
            },
    {
        match self {
            ImageType::WEBPAnimated | ImageType::WEBPStill | ImageType::GIF => Some("image/gif"),
            ImageType::PNG | ImageType::JPEG => Some("image/png"),
            ImageType::APNG | ImageType::Lottie | ImageType::SVG => None,
        }
    }
}

/// An upload's bytes with their format.
pub struct ImageTypeHandler {
    pub image_type: ImageType,
    pub image_buffer: Vec<u8>,
}

impl ImageTypeHandler {
    /// Pairs an upload with its format. `frames` is how many frames the
    /// image decodes to. An unknown content type gives `Ok(None)`; a known
    /// format that cannot be resized gives an error.
    pub fn from_content_type(content_type: &str, image_buffer: Vec<u8>, frames: u32) -> (r: Result<
        Option<Self>,
        ImageTypeError,
    >)
        ensures
            match image_type_of(content_type@, frames) {
                None => r == Ok::<Option<Self>, ImageTypeError>(None),
                Some(t) => if out_type_of(t) is Some {
                    r matches Ok(Some(h)) && h.image_type == t && h.image_buffer@
                        == image_buffer@
                } else {
                    r == Err::<Option<Self>, ImageTypeError>(ImageTypeError::NoResizer(t))
                },
            },
    {
        let image_type = if text_is(content_type, "image/webp") {
            if frames > 1 {
                ImageType::WEBPAnimated
            } else {
                ImageType::WEBPStill
            }
        } else if text_is(content_type, "image/png") {
            ImageType::PNG
        } else if text_is(content_type, "image/jpeg") {
            ImageType::JPEG
        } else if text_is(content_type, "image/gif") {
            ImageType::GIF
        } else if text_is(content_type, "image/apng") {
            return Err(ImageTypeError::NoResizer(ImageType::APNG));
        } else if text_is(content_type, "application/json") {
            return Err(ImageTypeError::NoResizer(ImageType::Lottie));
        } else if text_is(content_type, "image/svg+xml") {
            return Err(ImageTypeError::NoResizer(ImageType::SVG));
        } else {
            return Ok(None);
        };
        Ok(Some(ImageTypeHandler { image_type, image_buffer }))
    }
}

} // verus!
