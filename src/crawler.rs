use vstd::prelude::*;

verus! {

/// Largest image, in bytes, that the optimizer fetches.
pub const MAX_IMAGE_FILE_SIZE_BYTES: u32 = 5000000;

/// Why a metadata or image fetch is skipped before any download.
#[derive(Clone, Copy, PartialEq, Eq, Structural, Debug)]
pub enum CrawlSkip {
    /// The JSON parser was handed a URI whose content is an image.
    ImageUri,
    /// The advertised content is larger than allowed.
    TooLarge,
}

/// Decisions taken before an image is downloaded and resized.
pub struct ImageOptimizer;

impl ImageOptimizer {
    /// An image is fetched only when its advertised size is within the limit.
    pub fn check_size(size: u32) -> (r: Result<(), CrawlSkip>)
        ensures
            r is Ok <==> size <= MAX_IMAGE_FILE_SIZE_BYTES,
            r is Err ==> r == Err::<(), CrawlSkip>(CrawlSkip::TooLarge),
    {
        if size > MAX_IMAGE_FILE_SIZE_BYTES {
            Err(CrawlSkip::TooLarge)
        } else {
            Ok(())
        }
    }
}

/// The MIME types that name an image format: those that
/// `image::ImageFormat::from_mime_type` recognises.
pub open spec fn is_image_mime(m: Seq<char>) -> bool {
    ||| m == "image/avif"@
    ||| m == "image/jpeg"@
    ||| m == "image/png"@
    ||| m == "image/gif"@
    ||| m == "image/webp"@
    ||| m == "image/tiff"@
    ||| m == "image/x-targa"@
    ||| m == "image/x-tga"@
    ||| m == "image/vnd-ms.dds"@
    ||| m == "image/bmp"@
    ||| m == "image/x-icon"@
    ||| m == "image/vnd.radiance"@
    ||| m == "image/x-exr"@
    ||| m == "image/x-portable-bitmap"@
    ||| m == "image/x-portable-graymap"@
    ||| m == "image/x-portable-pixmap"@
    ||| m == "image/x-portable-anymap"@
    ||| m == "image/x-qoi"@
}

/// Relies on image::ImageFormat::from_mime_type, which returns `Some` for
/// exactly the MIME types that `is_image_mime` lists.
#[verifier::external_body]
fn names_image_format(mime: &str) -> (r: bool)
    ensures
        r == is_image_mime(mime@),
{
    image::ImageFormat::from_mime_type(mime).is_some()
}

/// The outcome of the checks made on a metadata URI before it is fetched.
pub open spec fn precheck_spec(is_image: bool, size: u32, max_size: u32) -> Result<(), CrawlSkip> {
    if is_image {
        Err(CrawlSkip::ImageUri)
    } else if size > max_size {
        Err(CrawlSkip::TooLarge)
    } else {
        Ok(())
    }
}

/// Decisions taken before a metadata document is downloaded and parsed.
pub struct JSONParser;

impl JSONParser {
    /// A metadata URI is refused when its content is an image, and otherwise
    /// when its advertised size exceeds `max_size`.
    pub fn precheck(is_image: bool, size: u32, max_size: u32) -> (r: Result<(), CrawlSkip>)
        ensures
            r == precheck_spec(is_image, size, max_size),
    {
        if is_image {
            Err(CrawlSkip::ImageUri)
        } else if size > max_size {
            Err(CrawlSkip::TooLarge)
        } else {
            Ok(())
        }
    }

    /// Checks a metadata URI's advertised MIME type and size before it is
    /// fetched.
    pub fn check_uri_metadata(mime: &str, size: u32, max_size: u32) -> (r: Result<(), CrawlSkip>)
        ensures
            r == precheck_spec(is_image_mime(mime@), size, max_size),
    {
        let is_image = names_image_format(mime);
        Self::precheck(is_image, size, max_size)
    }
}

} // verus!
