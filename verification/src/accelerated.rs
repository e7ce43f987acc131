//! Where the visible content sits inside a shared texture from the browser's
//! accelerated paint, and the size it is copied out at.
use vstd::prelude::*;

verus! {

/// Why an accelerated frame could not be used.
#[derive(Debug, PartialEq, Eq)]
pub enum AcceleratedFrameError {
    InvalidMapping,
    Import(String),
    UnexpectedTextureSize { expected: (u32, u32), actual: (u32, u32) },
    Copy(String),
}

/// The placement of the content inside a coded texture and the output size.
#[derive(Clone, Copy, Debug, PartialEq, Eq, Structural)]
pub struct FrameMapping {
    pub coded_width: u32,
    pub coded_height: u32,
    pub content_x: u32,
    pub content_y: u32,
    pub content_width: u32,
    pub content_height: u32,
    pub output_width: u32,
    pub output_height: u32,
}

/// The texture metadata describes content that lies inside the coded texture.
pub open spec fn mapping_valid(coded: (i32, i32), content: (i32, i32, i32, i32)) -> bool {
    &&& coded.0 > 0 && coded.1 > 0
    &&& content.0 >= 0 && content.1 >= 0
    &&& content.2 > 0 && content.3 > 0
    &&& content.0 + content.2 <= coded.0
    &&& content.1 + content.3 <= coded.1
}

/// The mapping the metadata describes: the output takes the source size when
/// one with positive sides is given, the content size otherwise.
pub open spec fn spec_mapping(
    coded: (i32, i32),
    content: (i32, i32, i32, i32),
    source: Option<(i32, i32)>,
) -> FrameMapping {
    let (ow, oh) = match source {
        Some((w, h)) => if w > 0 && h > 0 {
            (w as u32, h as u32)
        } else {
            (content.2 as u32, content.3 as u32)
        },
        None => (content.2 as u32, content.3 as u32),
    };
    FrameMapping {
        coded_width: coded.0 as u32,
        coded_height: coded.1 as u32,
        content_x: content.0 as u32,
        content_y: content.1 as u32,
        content_width: content.2 as u32,
        content_height: content.3 as u32,
        output_width: ow,
        output_height: oh,
    }
}

impl FrameMapping {
    /// Checks the metadata of an accelerated paint: a positive coded size, and a
    /// non-empty content rectangle inside it.
    pub fn new(coded: (i32, i32), content: (i32, i32, i32, i32), source: Option<(i32, i32)>) -> (r:
        Result<Self, AcceleratedFrameError>)
        ensures
            mapping_valid(coded, content) ==> r == Ok::<Self, AcceleratedFrameError>(
                spec_mapping(coded, content, source),
            ),
            !mapping_valid(coded, content) ==> r == Err::<Self, AcceleratedFrameError>(
                AcceleratedFrameError::InvalidMapping,
            ),
    {
        if coded.0 <= 0 || coded.1 <= 0 {
            return Err(AcceleratedFrameError::InvalidMapping);
        }
        if content.0 < 0 || content.1 < 0 || content.2 <= 0 || content.3 <= 0 {
            return Err(AcceleratedFrameError::InvalidMapping);
        }
        let coded_width = coded.0 as u32;
        let coded_height = coded.1 as u32;
        let content_x = content.0 as u32;
        let content_y = content.1 as u32;
        let content_width = content.2 as u32;
        let content_height = content.3 as u32;
        if content_x + content_width > coded_width || content_y + content_height > coded_height {
            return Err(AcceleratedFrameError::InvalidMapping);
        }
        let (output_width, output_height) = match source {
            Some((w, h)) => if w > 0 && h > 0 {
                (w as u32, h as u32)
            } else {
                (content_width, content_height)
            },
            None => (content_width, content_height),
        };
        Ok(
            FrameMapping {
                coded_width,
                coded_height,
                content_x,
                content_y,
                content_width,
                content_height,
                output_width,
                output_height,
            },
        )
    }
    /// Checks that the imported shared texture has the coded size the metadata
    /// describes.
    pub fn check_texture(&self, width: u32, height: u32) -> (r: Result<(), AcceleratedFrameError>)
        ensures
            (width == self.coded_width && height == self.coded_height) ==> r is Ok,
            !(width == self.coded_width && height == self.coded_height) ==> r == Err::<
                (),
                AcceleratedFrameError,
            >(
                AcceleratedFrameError::UnexpectedTextureSize {
                    expected: (self.coded_width, self.coded_height),
                    actual: (width, height),
                },
            ),
    {
        if width != self.coded_width || height != self.coded_height {
            return Err(
                AcceleratedFrameError::UnexpectedTextureSize {
                    expected: (self.coded_width, self.coded_height),
                    actual: (width, height),
                },
            );
        }
        Ok(())
    }
}

} // verus!
