//! What the clipboard holds.

use vstd::prelude::*;

verus! {

/// A picture of `width` by `height` pixels, four bytes for each pixel.
#[derive(Debug, Clone, PartialEq, Eq)]
pub struct ImageData {
    pub width: usize,
    pub height: usize,
    pub bytes: Vec<u8>,
}

/// What the clipboard held at one time.
#[derive(Debug, Clone, PartialEq, Eq)]
pub enum ClipBoardContentType {
    Text(String),
    Image(ImageData),
    Url(String),
}

/// The value of a `ClipBoardContentType`.
#[verifier::ext_equal]
pub enum Content {
    Text(Seq<char>),
    Image { width: int, height: int, bytes: Seq<u8> },
    Url(Seq<char>),
}

impl View for ClipBoardContentType {
    type V = Content;

    open spec fn view(&self) -> Content {
        match self {
            ClipBoardContentType::Text(text) => Content::Text(text@),
            ClipBoardContentType::Image(image) => Content::Image {
                width: image.width as int,
                height: image.height as int,
                bytes: image.bytes@,
            },
            ClipBoardContentType::Url(url) => Content::Url(url@),
        }
    }
}

} // verus!
