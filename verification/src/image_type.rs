//! Classification of a file's content type from its leading (and, for JPEG,
//! trailing) bytes. The classifier is a pure function of the bytes it is
//! given; reading those bytes from disk is the caller's business.

use vstd::prelude::*;

verus! {

/// The closed set of content types the scanner knows, plus a value for
/// everything else.
#[derive(Copy, Clone, Debug, PartialEq, Eq, Structural)]
pub enum ImageType {
    JPEG,
    GIF,
    PNG,
    /// Either an image type that we don't know, or not an image.
    UNKNOWN,
}

impl ImageType {
    /// The extension the scanner gives a file of this type; empty when the
    /// type is unrecognized.
    pub fn preferred_extension(self) -> (r: &'static str)
        ensures
            r@ == spec_preferred_extension(self),
    {
        proof {
            reveal_strlit("jpg");
            reveal_strlit("gif");
            reveal_strlit("png");
            reveal_strlit("");
        }
        match self {
            ImageType::JPEG => "jpg",
            ImageType::GIF => "gif",
            ImageType::PNG => "png",
            ImageType::UNKNOWN => "",
        }
    }
}

pub open spec fn spec_preferred_extension(t: ImageType) -> Seq<char> {
    match t {
        ImageType::JPEG => "jpg"@,
        ImageType::GIF => "gif"@,
        ImageType::PNG => "png"@,
        ImageType::UNKNOWN => ""@,
    }
}

/// A JPEG file starts with ff d8 and ends with ff d9.
pub open spec fn spec_is_jpeg(head: Seq<u8>, tail: Seq<u8>) -> bool {
    &&& head.len() >= 2
    &&& tail.len() >= 2
    &&& head[0] == 0xffu8
    &&& head[1] == 0xd8u8
    &&& tail[tail.len() - 2] == 0xffu8
    &&& tail[tail.len() - 1] == 0xd9u8
}

/// A PNG file starts with the fixed eight-byte signature.
pub open spec fn spec_is_png(head: Seq<u8>) -> bool {
    &&& head.len() >= 8
    &&& head[0] == 0x89u8
    &&& head[1] == 0x50u8
    &&& head[2] == 0x4eu8
    &&& head[3] == 0x47u8
    &&& head[4] == 0x0du8
    &&& head[5] == 0x0au8
    &&& head[6] == 0x1au8
    &&& head[7] == 0x0au8
}

/// A GIF file starts with 'GIF8' followed by '7a' or '9a'.
pub open spec fn spec_is_gif(head: Seq<u8>) -> bool {
    &&& head.len() >= 6
    &&& head[0] == 0x47u8
    &&& head[1] == 0x49u8
    &&& head[2] == 0x46u8
    &&& head[3] == 0x38u8
    &&& (
        (head[4] == 0x37u8 && head[5] == 0x61u8)
        || (head[4] == 0x39u8 && head[5] == 0x6au8)
    )
}

/// What the classifier answers for a ten-byte head and a two-byte tail.
pub open spec fn spec_classify(head: Seq<u8>, tail: Seq<u8>) -> ImageType {
    if spec_is_jpeg(head, tail) {
        ImageType::JPEG
    } else if spec_is_png(head) {
        ImageType::PNG
    } else if spec_is_gif(head) {
        ImageType::GIF
    } else {
        ImageType::UNKNOWN
    }
}

/// JPEG check on the first and last two bytes of a file.
pub fn is_jpeg(head: &[u8], tail: &[u8]) -> (r: bool)
    requires
        head@.len() >= 2,
        tail@.len() >= 2,
    ensures
        r == spec_is_jpeg(head@, tail@),
{
    if head[0] != 0xff || head[1] != 0xd8 {
        return false;
    }
    let n = tail.len();
    tail[n - 2] == 0xff && tail[n - 1] == 0xd9
}

/// PNG signature check on the first eight bytes of a file.
pub fn is_png(head: &[u8]) -> (r: bool)
    requires
        head@.len() >= 8,
    ensures
        r == spec_is_png(head@),
{
    head[0] == 0x89 && head[1] == 0x50 && head[2] == 0x4e && head[3] == 0x47
        && head[4] == 0x0d && head[5] == 0x0a && head[6] == 0x1a && head[7] == 0x0a
}

/// GIF signature check on the first six bytes of a file.
pub fn is_gif(head: &[u8]) -> (r: bool)
    requires
        head@.len() >= 6,
    ensures
        r == spec_is_gif(head@),
{
    head[0] == 0x47 && head[1] == 0x49 && head[2] == 0x46 && head[3] == 0x38
        && ((head[4] == 0x37 && head[5] == 0x61) || (head[4] == 0x39 && head[5] == 0x6a))
}

impl ImageType {
    /// Classifies a file from its first ten and last two bytes.
    pub fn classify(head: &[u8], tail: &[u8]) -> (r: ImageType)
        requires
            head@.len() == 10,
            tail@.len() == 2,
        ensures
            r == spec_classify(head@, tail@),
    {
        if is_jpeg(head, tail) {
            ImageType::JPEG
        } else if is_png(head) {
            ImageType::PNG
        } else if is_gif(head) {
            ImageType::GIF
        } else {
            ImageType::UNKNOWN
        }
    }
}

} // verus!
