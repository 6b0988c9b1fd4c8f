use vstd::prelude::*;
use crate::pixels::{flip_rows, flipped_rows, row_start};

verus! {

/// A picture of four bytes to the pixel, as the `image` crate keeps it.
#[verifier::external_body]
pub struct Picture {
    pub image: image::RgbaImage,
}

/// How many pixels a row of the picture `picture` has.
pub uninterp spec fn picture_width(picture: Picture) -> u32;

/// How many rows the picture `picture` has.
pub uninterp spec fn picture_height(picture: Picture) -> u32;

/// The bytes that the picture `picture` holds: the whole of what it was
/// made of, of which the first four times its width times its height are
/// its pixels, row by row from the top.
pub uninterp spec fn picture_bytes(picture: Picture) -> Seq<u8>;

/// `ImageBuffer::from_raw` makes a picture of the bytes handed to it where
/// they are enough for the width and the height, four to the pixel, and
/// none else. The picture has that width and height and holds those bytes.
#[verifier::external_body]
fn picture_from_raw(width: u32, height: u32, bytes: Vec<u8>) -> (r: Option<Picture>)
    ensures
        r is Some <==> 4 * width * height <= bytes@.len(),
        r matches Some(picture) ==> picture_width(picture) == width && picture_height(picture)
            == height && picture_bytes(picture) == bytes@,
{
    match image::RgbaImage::from_raw(width, height, bytes) {
        Some(image) => Some(Picture { image }),
        None => None,
    }
}

/// The low 32 bits of `n`.
pub open spec fn low_word(n: usize) -> u32 {
    (n as int % 0x1_0000_0000) as u32
}

/// The low 32 bits of `n`.
fn low_word_of(n: usize) -> (r: u32)
    ensures
        r == low_word(n),
{
    (n as u64 % 0x1_0000_0000) as u32
}

/// The picture that is cut out of what was read back from the frame: the
/// rows from `first` up to `end` of an image of `width` pixels to the row,
/// turned top row first, and of each row the first `columns` pixels. Its
/// sides are told in 32 bits.
pub fn picture_of_rows(pixels: &[u8], width: usize, first: usize, end: usize, columns: usize) -> (r:
    Picture)
    requires
        first <= end,
        first < end ==> row_start(width as int, end - 1) + 4 * columns <= pixels@.len(),
    ensures
        picture_width(r) == low_word(columns),
        picture_height(r) == low_word((end - first) as usize),
        picture_bytes(r) == flipped_rows(
            pixels@,
            width as int,
            first as int,
            end as int,
            columns as int,
        ),
{
    let rows = flip_rows(pixels, width, first, end, columns);
    let wide = low_word_of(columns);
    let high = low_word_of(end - first);
    assert(4 * wide * high <= 4 * columns * (end - first)) by (nonlinear_arith)
        requires
            0 <= wide <= columns,
            0 <= high <= end - first,
    ;
    picture_from_raw(wide, high, rows).unwrap()
}

} // verus!
