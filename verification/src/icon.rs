use vstd::prelude::*;

verus! {

/// What decoding an image byte buffer yields: `None` where the bytes are not
/// a decodable image, else the RGBA pixel bytes with the image's width and
/// height. The decode is a function of the bytes alone.
pub uninterp spec fn decoded_rgba(bytes: Seq<u8>) -> Option<(Seq<u8>, u32, u32)>;

/// A decoded window icon: tightly packed 8-bit RGBA pixels, row-major.
#[derive(Debug, Clone, PartialEq, Eq)]
pub struct IconData {
    pub rgba: Vec<u8>,
    pub width: u32,
    pub height: u32,
}

impl IconData {
    /// The pixel buffer holds exactly its dimensions' worth of RGBA bytes.
    pub open spec fn wf(&self) -> bool {
        self.rgba@.len() == 4 * self.width as int * self.height as int
    }
}

/// Relies on image::load_from_memory (the format is guessed from the bytes)
/// together with DynamicImage::into_rgba8, ImageBuffer::dimensions and
/// ImageBuffer::into_raw: a decode either fails, or yields an RGBA8 buffer of
/// exactly four bytes per pixel of the decoded dimensions.
#[verifier::external_body]
fn decode_rgba(bytes: &Vec<u8>) -> (r: Option<(Vec<u8>, u32, u32)>)
    ensures
        match r {
            Some(t) => decoded_rgba(bytes@) == Some((t.0@, t.1, t.2)) && t.0@.len() == 4 * t.1
                as int * t.2 as int,
            None => decoded_rgba(bytes@) is None,
        },
{
    match image::load_from_memory(bytes) {
        Ok(img) => {
            let rgba = img.into_rgba8();
            let (width, height) = rgba.dimensions();
            Some((rgba.into_raw(), width, height))
        },
        Err(_) => None,
    }
}

/// Decode the bytes of an icon file into RGBA pixel data, `None` where they
/// are not a decodable image.
pub fn prepare_icon(bytes: &Vec<u8>) -> (r: Option<IconData>)
    ensures
        match r {
            Some(d) => d.wf() && decoded_rgba(bytes@) == Some((d.rgba@, d.width, d.height)),
            None => decoded_rgba(bytes@) is None,
        },
{
    match decode_rgba(bytes) {
        Some((rgba, width, height)) => Some(IconData { rgba, width, height }),
        None => None,
    }
}

} // verus!
