//! Splitting a pixel upload into X11 PutImage requests that respect the server's
//! maximum request length.

use vstd::prelude::*;

verus! {

/// Bytes of a PutImage request that are not pixel data.
pub const PUT_IMAGE_OVERHEAD: usize = 28;

/// A band of rows sent in one PutImage request.
#[derive(Debug, Clone, Copy, PartialEq, Eq, Structural)]
pub struct ImageChunk {
    /// First row of the band
    pub y_offset: u16,
    /// Number of rows in the band
    pub rows: u16,
}

/// How many rows of a `width`-pixel, 4-byte-per-pixel image fit in one request of at most
/// `max_request_length` 4-byte units (at least one row).
pub open spec fn max_rows_per_request(max_request_length: int, width: int) -> int {
    let r = (max_request_length * 4 - 28) / (width * 4);
    if r < 1 {
        1
    } else {
        r
    }
}

/// The bands cover rows `0..height` in order, each as tall as allowed but for the last.
pub open spec fn tiles_rows(chunks: Seq<ImageChunk>, height: int, max_rows: int) -> bool {
    &&& (chunks.len() == 0 <==> height == 0)
    &&& chunks.len() > 0 ==> chunks[0].y_offset == 0
    &&& forall|k: int|
        0 <= k < chunks.len() ==> #[trigger] chunks[k].rows == if height - chunks[k].y_offset
            < max_rows {
            height - chunks[k].y_offset
        } else {
            max_rows
        }
    &&& forall|k: int| 0 <= k < chunks.len() ==> 0 < #[trigger] chunks[k].rows
    &&& forall|k: int|
        0 <= k < chunks.len() - 1 ==> #[trigger] chunks[k + 1].y_offset == chunks[k].y_offset
            + chunks[k].rows
    &&& chunks.len() > 0 ==> chunks.last().y_offset + chunks.last().rows == height
}

/// Plans the PutImage requests for an image `width` x `height` given the server's maximum
/// request length (in 4-byte units).
pub fn put_image_chunks(max_request_length: u16, width: u16, height: u16) -> (r: Vec<ImageChunk>)
    requires
        width > 0,
        max_request_length * 4 >= 28,
    ensures
        tiles_rows(r@, height as int, max_rows_per_request(max_request_length as int, width as int)),
{
    let max_request_bytes = max_request_length as usize * 4;
    let bytes_per_row = width as usize * 4;
    let per = (max_request_bytes - PUT_IMAGE_OVERHEAD) / bytes_per_row;
    let per = if per < 1 {
        1
    } else {
        per
    };
    assert(per <= 0xffff) by (nonlinear_arith)
        requires
            per == 1 || per as int == (max_request_bytes as int - 28) / (bytes_per_row as int),
            bytes_per_row >= 4,
            max_request_bytes <= 0xffff * 4;
    let max_rows = per as u16;
    let mut chunks: Vec<ImageChunk> = Vec::new();
    let mut y_offset: u16 = 0;
    while y_offset < height
        invariant
            max_rows as int == max_rows_per_request(max_request_length as int, width as int),
            max_rows >= 1,
            y_offset <= height,
            chunks@.len() == 0 <==> y_offset == 0,
            chunks@.len() > 0 ==> chunks@[0].y_offset == 0,
            chunks@.len() > 0 ==> chunks@.last().y_offset + chunks@.last().rows == y_offset,
            forall|k: int|
                0 <= k < chunks@.len() ==> #[trigger] chunks@[k].rows == if height
                    - chunks@[k].y_offset < max_rows {
                    height - chunks@[k].y_offset
                } else {
                    max_rows as int
                },
            forall|k: int| 0 <= k < chunks@.len() ==> 0 < #[trigger] chunks@[k].rows,
            forall|k: int|
                0 <= k < chunks@.len() - 1 ==> #[trigger] chunks@[k + 1].y_offset
                    == chunks@[k].y_offset + chunks@[k].rows,
        decreases height - y_offset,
    {
        let remaining = height - y_offset;
        let rows = if remaining < max_rows {
            remaining
        } else {
            max_rows
        };
        chunks.push(ImageChunk { y_offset, rows });
        y_offset = y_offset + rows;
    }
    chunks
}

} // verus!
