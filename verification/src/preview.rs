use vstd::prelude::*;

use crate::error::FfError;
use crate::frame::{byte_at, rgba_overlay_result, RgbaFrame};

verus! {

/// The place of one frame in a preview grid: column `x`, row `y`, and its
/// index in row-major order.
#[derive(Clone, Copy, Debug, PartialEq, Eq)]
pub struct FramePos {
    pub x: u32,
    pub y: u32,
    pub index: u32,
}

/// `layout` places the frames of a `rows` by `cols` grid row by row: frame `i`
/// stands in column `x < cols` and row `y < rows` with `y * cols + x == i`.
pub open spec fn is_preview_layout(layout: Seq<FramePos>, rows: int, cols: int) -> bool {
    &&& layout.len() == rows * cols
    &&& forall|i: int|
        0 <= i < layout.len() ==> {
            &&& (#[trigger] layout[i]).index == i
            &&& layout[i].x < cols
            &&& layout[i].y < rows
            &&& layout[i].y * cols + layout[i].x == i
        }
}

/// The positions of the frames of a `rows` by `cols` preview grid, row by row:
/// frame `i` stands in column `i % cols` of row `i / cols`.
pub fn preview_layout(rows: u32, cols: u32) -> (r: Vec<FramePos>)
    requires
        rows * cols <= u32::MAX,
    ensures
        is_preview_layout(r@, rows as int, cols as int),
{
    let mut frames: Vec<FramePos> = Vec::new();
    let mut index: u32 = 0;
    let mut y: u32 = 0;
    while y < rows
        invariant
            y <= rows,
            rows * cols <= u32::MAX,
            index == y * cols,
            frames@.len() == index,
            forall|i: int|
                0 <= i < frames@.len() ==> {
                    &&& (#[trigger] frames@[i]).index == i
                    &&& frames@[i].x < cols
                    &&& frames@[i].y < rows
                    &&& frames@[i].y * cols + frames@[i].x == i
                },
        decreases rows - y,
    {
        let mut x: u32 = 0;
        while x < cols
            invariant
                y < rows,
                x <= cols,
                rows * cols <= u32::MAX,
                index == y * cols + x,
                frames@.len() == index,
                forall|i: int|
                    0 <= i < frames@.len() ==> {
                        &&& (#[trigger] frames@[i]).index == i
                        &&& frames@[i].x < cols
                        &&& frames@[i].y < rows
                        &&& frames@[i].y * cols + frames@[i].x == i
                    },
            decreases cols - x,
        {
            assert(y * cols + x < rows * cols) by (nonlinear_arith)
                requires
                    y < rows,
                    x < cols,
            ;
            frames.push(FramePos { x, y, index });
            index = index + 1;
            x = x + 1;
        }
        assert(y * cols + cols == (y + 1) * cols) by (nonlinear_arith);
        y = y + 1;
    }
    frames
}


/// Why the frame result `r` cannot stand in a `frame_width` by `frame_height`
/// tile of the preview: its own error, or a buffer that is not such an image
/// (`4 * frame_width` does not fit in a `usize`, or the buffer is too short);
/// `None` when it can.
pub open spec fn frame_failure(r: Result<Vec<u8>, FfError>, frame_width: u32, frame_height: u32) -> Option<FfError> {
    match r {
        Err(e) => Some(e),
        Ok(buf) => if !(4 * frame_width <= usize::MAX && 4 * frame_width * frame_height <= buf@.len()) {
            Some(FfError::CannotCreateImage)
        } else {
            None
        },
    }
}

/// Turns the screenshot results of the preview frames, in grid order, into
/// `frame_width` by `frame_height` images; the first result (in grid order)
/// that cannot be one gives the error.
pub fn collect_frames(results: Vec<Result<Vec<u8>, FfError>>, frame_width: u32, frame_height: u32) -> (r:
    Result<Vec<RgbaFrame>, FfError>)
    ensures
        r is Ok <==> forall|i: int|
            0 <= i < results@.len() ==> #[trigger] frame_failure(results@[i], frame_width, frame_height) is None,
        r matches Ok(frames) ==> {
            &&& frames@.len() == results@.len()
            &&& forall|i: int|
                0 <= i < frames@.len() ==> {
                    &&& (#[trigger] frames@[i]).frame_width() == frame_width
                    &&& frames@[i].frame_height() == frame_height
                    &&& results@[i] matches Ok(buf) && frames@[i].bytes() == buf@
                }
        },
        r matches Err(e) ==> exists|k: int|
            0 <= k < results@.len() && (forall|i: int|
                0 <= i < k ==> #[trigger] frame_failure(results@[i], frame_width, frame_height) is None)
                && frame_failure(results@[k], frame_width, frame_height) == Some(e),
{
    let ghost all = results@;
    let mut rest = results;
    let mut frames: Vec<RgbaFrame> = Vec::new();
    let n = rest.len();
    let mut k: usize = 0;
    while k < n
        invariant
            all == results@,
            n == all.len(),
            k <= n,
            rest@ == all.skip(k as int),
            frames@.len() == k,
            forall|i: int| 0 <= i < k ==> #[trigger] frame_failure(all[i], frame_width, frame_height) is None,
            forall|i: int|
                0 <= i < k ==> {
                    &&& (#[trigger] frames@[i]).frame_width() == frame_width
                    &&& frames@[i].frame_height() == frame_height
                    &&& all[i] matches Ok(buf) && frames@[i].bytes() == buf@
                },
        decreases n - k,
    {
        assert(rest@[0] == all[k as int]);
        let item = rest.remove(0);
        assert(rest@ =~= all.skip(k + 1));
        match item {
            Err(e) => {
                assert(frame_failure(all[k as int], frame_width, frame_height) == Some(e));
                return Err(e);
            },
            Ok(buf) => {
                match RgbaFrame::from_raw(frame_width, frame_height, buf) {
                    Some(frame) => {
                        frames.push(frame);
                    },
                    None => {
                        assert(frame_failure(all[k as int], frame_width, frame_height) == Some(
                            FfError::CannotCreateImage,
                        ));
                        return Err(FfError::CannotCreateImage);
                    },
                }
            },
        }
        k = k + 1;
    }
    Ok(frames)
}


/// Byte `c` of pixel `(dx, dy)` of the tile in column `tx` and row `ty` of a
/// preview canvas with `cols` tiles of `frame_width` by `frame_height` pixels
/// in each row.
pub open spec fn tile_byte(
    canvas: Seq<u8>,
    cols: int,
    frame_width: int,
    frame_height: int,
    tx: int,
    ty: int,
    dx: int,
    dy: int,
    c: int,
) -> u8 {
    byte_at(canvas, frame_width * cols, tx * frame_width + dx, ty * frame_height + dy, c)
}

/// The tiles of the first `k` frames (in row-major order) show their frames
/// wherever a frame pixel is opaque and are transparent black wherever it is
/// transparent; the other tiles are transparent black.
pub open spec fn tiles_hold(
    canvas: Seq<u8>,
    frames: Seq<Seq<u8>>,
    rows: int,
    cols: int,
    frame_width: int,
    frame_height: int,
    k: int,
) -> bool {
    forall|tx: int, ty: int, dx: int, dy: int, c: int|
        #![trigger tile_byte(canvas, cols, frame_width, frame_height, tx, ty, dx, dy, c)]
        0 <= tx < cols && 0 <= ty < rows && 0 <= dx < frame_width && 0 <= dy < frame_height && 0
            <= c < 4 ==> {
            let i = ty * cols + tx;
            let b = tile_byte(canvas, cols, frame_width, frame_height, tx, ty, dx, dy, c);
            let alpha = byte_at(frames[i], frame_width, dx, dy, 3);
            &&& i >= k ==> b == 0
            &&& i < k && alpha == 255 ==> b == byte_at(frames[i], frame_width, dx, dy, c)
            &&& i < k && alpha == 0 ==> b == 0
        }
}

/// The canvas of a preview after the first `k` frames have been laid over the
/// empty canvas, frame `i` at the top left corner of its tile.
pub open spec fn composed_canvas(
    frames: Seq<Seq<u8>>,
    cols: u32,
    frame_width: u32,
    frame_height: u32,
    width: u32,
    height: u32,
    k: nat,
) -> Seq<u8>
    decreases k,
{
    if k == 0 {
        Seq::new((4 * width * height) as nat, |i: int| 0u8)
    } else {
        let i = k - 1;
        rgba_overlay_result(
            composed_canvas(frames, cols, frame_width, frame_height, width, height, (k - 1) as nat),
            width,
            height,
            frames[i],
            frame_width,
            frame_height,
            ((i % (cols as int)) * frame_width) as u32,
            ((i / (cols as int)) * frame_height) as u32,
        )
    }
}

/// The buffers of a sequence of images.
pub open spec fn frame_bytes(frames: Seq<RgbaFrame>) -> Seq<Seq<u8>> {
    frames.map_values(|f: RgbaFrame| f.bytes())
}

/// Within a row of cells `n` wide, the offset `b * n + d` (with `d < n`) lies in
/// cell `a` exactly when `a == b`.
proof fn lemma_cell(a: int, b: int, d: int, n: int)
    requires
        n > 0,
        0 <= d < n,
        a >= 0,
        b >= 0,
    ensures
        (a * n <= b * n + d < a * n + n) <==> a == b,
{
    if a < b {
        assert(a * n + n <= b * n) by (nonlinear_arith)
            requires
                a < b,
                n > 0,
        ;
    } else if a > b {
        assert(b * n + n <= a * n) by (nonlinear_arith)
            requires
                a > b,
                n > 0,
        ;
    }
}

/// A pixel `t * n + d` of cell `t < count` lies inside `count` cells of width `n`.
proof fn lemma_cell_inside(t: int, d: int, n: int, count: int)
    requires
        0 <= t < count,
        0 <= d < n,
    ensures
        0 <= t * n + d < n * count,
{
    assert(0 <= t * n + d < n * count) by (nonlinear_arith)
        requires
            0 <= t < count,
            0 <= d < n,
    ;
}

/// A byte of a pixel inside a `width` by `height` image lies inside its buffer.
proof fn lemma_byte_inside(width: int, height: int, x: int, y: int, c: int)
    requires
        0 <= x < width,
        0 <= y < height,
        0 <= c < 4,
    ensures
        0 <= 4 * (y * width + x) + c < 4 * width * height,
{
    assert(0 <= 4 * (y * width + x) + c < 4 * width * height) by (nonlinear_arith)
        requires
            0 <= x < width,
            0 <= y < height,
            0 <= c < 4,
    ;
}

/// Lays the frames of a `rows` by `cols` preview over a transparent black
/// canvas of `frame_width * cols` by `frame_height * rows` pixels, frame
/// `y * cols + x` with its top left corner at `(x * frame_width, y *
/// frame_height)`, and gives the canvas.
pub fn compose_preview(
    rows: u32,
    cols: u32,
    frame_width: u32,
    frame_height: u32,
    frames: &Vec<RgbaFrame>,
) -> (r: Vec<u8>)
    requires
        frames@.len() == rows * cols,
        forall|i: int|
            0 <= i < frames@.len() ==> (#[trigger] frames@[i]).frame_width() == frame_width
                && frames@[i].frame_height() == frame_height,
        frame_width * cols <= u32::MAX,
        frame_height * rows <= u32::MAX,
        4 * (frame_width * cols) <= usize::MAX,
        4 * (frame_width * cols) * (frame_height * rows) <= usize::MAX,
    ensures
        r@.len() == 4 * (frame_width * cols) * (frame_height * rows),
        r@ == composed_canvas(
            frame_bytes(frames@),
            cols,
            frame_width,
            frame_height,
            (frame_width * cols) as u32,
            (frame_height * rows) as u32,
            (rows * cols) as nat,
        ),
        tiles_hold(
            r@,
            frame_bytes(frames@),
            rows as int,
            cols as int,
            frame_width as int,
            frame_height as int,
            rows * cols,
        ),
{
    let width: u32 = frame_width * cols;
    let height: u32 = frame_height * rows;
    let mut canvas = RgbaFrame::new(width, height);
    let count = frames.len();
    proof {
        assert(canvas.bytes() =~= Seq::new((4 * width * height) as nat, |i: int| 0u8));
        assert forall|tx: int, ty: int, dx: int, dy: int, c: int|
            0 <= tx < cols && 0 <= ty < rows && 0 <= dx < frame_width && 0 <= dy < frame_height
                && 0 <= c < 4 implies #[trigger] tile_byte(
            canvas.bytes(),
            cols as int,
            frame_width as int,
            frame_height as int,
            tx,
            ty,
            dx,
            dy,
            c,
        ) == 0 by {
            lemma_cell_inside(tx, dx, frame_width as int, cols as int);
            lemma_cell_inside(ty, dy, frame_height as int, rows as int);
            lemma_byte_inside(
                width as int,
                height as int,
                tx * frame_width + dx,
                ty * frame_height + dy,
                c,
            );
        }
    }
    let mut y: u32 = 0;
    while y < rows
        invariant
            y <= rows,
            frames@.len() == rows * cols,
            count == frames@.len(),
            forall|i: int|
                0 <= i < frames@.len() ==> (#[trigger] frames@[i]).frame_width() == frame_width
                    && frames@[i].frame_height() == frame_height,
            width == frame_width * cols,
            height == frame_height * rows,
            canvas.frame_width() == width,
            canvas.frame_height() == height,
            canvas.bytes().len() == 4 * width * height,
            canvas.bytes() == composed_canvas(
                frame_bytes(frames@),
                cols,
                frame_width,
                frame_height,
                width,
                height,
                (y * cols) as nat,
            ),
            tiles_hold(
                canvas.bytes(),
                frame_bytes(frames@),
                rows as int,
                cols as int,
                frame_width as int,
                frame_height as int,
                y * cols,
            ),
        decreases rows - y,
    {
        let mut x: u32 = 0;
        while x < cols
            invariant
                y < rows,
                x <= cols,
                frames@.len() == rows * cols,
                count == frames@.len(),
                forall|i: int|
                    0 <= i < frames@.len() ==> (#[trigger] frames@[i]).frame_width() == frame_width
                        && frames@[i].frame_height() == frame_height,
                width == frame_width * cols,
                height == frame_height * rows,
                canvas.frame_width() == width,
                canvas.frame_height() == height,
                canvas.bytes().len() == 4 * width * height,
                canvas.bytes() == composed_canvas(
                    frame_bytes(frames@),
                    cols,
                    frame_width,
                    frame_height,
                    width,
                    height,
                    (y * cols + x) as nat,
                ),
                tiles_hold(
                    canvas.bytes(),
                    frame_bytes(frames@),
                    rows as int,
                    cols as int,
                    frame_width as int,
                    frame_height as int,
                    y * cols + x,
                ),
            decreases cols - x,
        {
            let ghost k: int = y * cols + x;
            assert(k < rows * cols) by (nonlinear_arith)
                requires
                    y < rows,
                    x < cols,
                    k == y * cols + x,
            ;
            assert(x * frame_width + frame_width <= frame_width * cols) by (nonlinear_arith)
                requires
                    x < cols,
            ;
            assert(y * frame_height + frame_height <= frame_height * rows) by (nonlinear_arith)
                requires
                    y < rows,
            ;
            let index: usize = y as usize * cols as usize + x as usize;
            let left: u32 = x * frame_width;
            let top: u32 = y * frame_height;
            let ghost before = canvas.bytes();
            canvas.overlay(&frames[index], left, top);
            proof {
                vstd::arithmetic::div_mod::lemma_fundamental_div_mod_converse(
                    k,
                    cols as int,
                    y as int,
                    x as int,
                );
                assert(k % (cols as int) == x);
                assert(k / (cols as int) == y);
                assert(canvas.bytes() == composed_canvas(
                    frame_bytes(frames@),
                    cols,
                    frame_width,
                    frame_height,
                    width,
                    height,
                    (k + 1) as nat,
                ));
                let f = frames@[k];
                assert forall|tx: int, ty: int, dx: int, dy: int, c: int|
                    #![trigger tile_byte(canvas.bytes(), cols as int, frame_width as int, frame_height as int, tx, ty, dx, dy, c)]
                    0 <= tx < cols && 0 <= ty < rows && 0 <= dx < frame_width && 0 <= dy
                        < frame_height && 0 <= c < 4 implies {
                    let i = ty * cols + tx;
                    let b = tile_byte(
                        canvas.bytes(),
                        cols as int,
                        frame_width as int,
                        frame_height as int,
                        tx,
                        ty,
                        dx,
                        dy,
                        c,
                    );
                    let alpha = byte_at(frame_bytes(frames@)[i], frame_width as int, dx, dy, 3);
                    &&& i >= k + 1 ==> b == 0
                    &&& i < k + 1 && alpha == 255 ==> b == byte_at(
                        frame_bytes(frames@)[i],
                        frame_width as int,
                        dx,
                        dy,
                        c,
                    )
                    &&& i < k + 1 && alpha == 0 ==> b == 0
                } by {
                    let px = tx * frame_width + dx;
                    let py = ty * frame_height + dy;
                    lemma_cell_inside(tx, dx, frame_width as int, cols as int);
                    lemma_cell_inside(ty, dy, frame_height as int, rows as int);
                    lemma_cell(x as int, tx, dx, frame_width as int);
                    lemma_cell(y as int, ty, dy, frame_height as int);
                    lemma_cell(ty, y as int, x as int, cols as int);
                    lemma_cell(ty, y as int, tx, cols as int);
                    let i = ty * cols + tx;
                    let old_b = tile_byte(
                        before,
                        cols as int,
                        frame_width as int,
                        frame_height as int,
                        tx,
                        ty,
                        dx,
                        dy,
                        c,
                    );
                    assert(byte_at(canvas.bytes(), width as int, px, py, c) == tile_byte(
                        canvas.bytes(),
                        cols as int,
                        frame_width as int,
                        frame_height as int,
                        tx,
                        ty,
                        dx,
                        dy,
                        c,
                    ));
                    assert(byte_at(before, width as int, px, py, c) == old_b);
                    if tx == x && ty == y {
                        assert(i == k);
                        assert(px - left == dx);
                        assert(py - top == dy);
                    } else {
                        assert(i != k);
                        assert(!(left <= px < left + frame_width && top <= py < top + frame_height));
                    }
                }
            }
            x = x + 1;
        }
        assert(y * cols + cols == (y + 1) * cols) by (nonlinear_arith);
        y = y + 1;
    }
    canvas.into_raw()
}


/// The buffers of frame results; an empty buffer stands for a failure.
pub open spec fn result_bytes(results: Seq<Result<Vec<u8>, FfError>>) -> Seq<Seq<u8>> {
    results.map_values(
        |r: Result<Vec<u8>, FfError>|
            match r {
                Ok(buf) => buf@,
                Err(_) => Seq::empty(),
            },
    )
}

/// Builds the picture of a `rows` by `cols` preview from the screenshot results
/// of its frames, in grid order, each `frame_width` by `frame_height` pixels:
/// the first result that is an error or no image of that size gives the error;
/// otherwise the frames are laid over a transparent black canvas of
/// `frame_width * cols` by `frame_height * rows` pixels, each at its tile.
pub fn assemble_preview(
    rows: u32,
    cols: u32,
    frame_width: u32,
    frame_height: u32,
    results: Vec<Result<Vec<u8>, FfError>>,
) -> (r: Result<Vec<u8>, FfError>)
    requires
        results@.len() == rows * cols,
        frame_width * cols <= u32::MAX,
        frame_height * rows <= u32::MAX,
        4 * (frame_width * cols) <= usize::MAX,
        4 * (frame_width * cols) * (frame_height * rows) <= usize::MAX,
    ensures
        r is Ok <==> forall|i: int|
            0 <= i < results@.len() ==> #[trigger] frame_failure(results@[i], frame_width, frame_height) is None,
        r matches Err(e) ==> exists|k: int|
            0 <= k < results@.len() && (forall|i: int|
                0 <= i < k ==> #[trigger] frame_failure(results@[i], frame_width, frame_height) is None)
                && frame_failure(results@[k], frame_width, frame_height) == Some(e),
        r matches Ok(buf) ==> {
            &&& buf@.len() == 4 * (frame_width * cols) * (frame_height * rows)
            &&& buf@ == composed_canvas(
                result_bytes(results@),
                cols,
                frame_width,
                frame_height,
                (frame_width * cols) as u32,
                (frame_height * rows) as u32,
                (rows * cols) as nat,
            )
            &&& tiles_hold(
                buf@,
                result_bytes(results@),
                rows as int,
                cols as int,
                frame_width as int,
                frame_height as int,
                rows * cols,
            )
        },
{
    let ghost all = results@;
    let frames = collect_frames(results, frame_width, frame_height)?;
    proof {
        assert(frame_bytes(frames@) =~= result_bytes(all));
    }
    Ok(compose_preview(rows, cols, frame_width, frame_height, &frames))
}


/// Law: the layout puts exactly one frame in each cell of the grid: the cell in
/// column `x` and row `y` holds frame `y * cols + x`.
pub proof fn lemma_layout_cell(layout: Seq<FramePos>, rows: int, cols: int, x: int, y: int)
    requires
        is_preview_layout(layout, rows, cols),
        0 <= x < cols,
        0 <= y < rows,
    ensures
        0 <= y * cols + x < layout.len(),
        layout[y * cols + x] == (FramePos { x: x as u32, y: y as u32, index: (y * cols + x) as u32 }),
        forall|i: int| 0 <= i < layout.len() && layout[i].x == x && layout[i].y == y ==> i == y * cols + x,
{
    let i = y * cols + x;
    lemma_cell_inside(y, x, cols, rows);
    assert(cols * rows == rows * cols) by (nonlinear_arith);
    let p = layout[i];
    lemma_cell(p.y as int, y, x, cols);
    assert(p.y == y);
    assert(p.x == x);
}

/// Law: the tiles of a preview cover its canvas without overlapping: each
/// pixel `(px, py)` of a `frame_width * cols` by `frame_height * rows` canvas
/// lies in exactly one tile, the tile `(px / frame_width, py / frame_height)`,
/// at offset `(px % frame_width, py % frame_height)` in it.
pub proof fn lemma_tiles_cover_canvas(
    px: int,
    py: int,
    rows: int,
    cols: int,
    frame_width: int,
    frame_height: int,
)
    requires
        0 <= rows,
        0 <= cols,
        0 <= px < frame_width * cols,
        0 <= py < frame_height * rows,
    ensures
        frame_width > 0 && frame_height > 0,
        0 <= px / frame_width < cols,
        0 <= py / frame_height < rows,
        px == (px / frame_width) * frame_width + px % frame_width,
        py == (py / frame_height) * frame_height + py % frame_height,
        0 <= px % frame_width < frame_width,
        0 <= py % frame_height < frame_height,
        forall|tx: int, dx: int|
            0 <= tx && 0 <= dx < frame_width && px == #[trigger] cell_offset(tx, frame_width, dx)
                ==> tx == px / frame_width && dx == px % frame_width,
        forall|ty: int, dy: int|
            0 <= ty && 0 <= dy < frame_height && py == #[trigger] cell_offset(ty, frame_height, dy)
                ==> ty == py / frame_height && dy == py % frame_height,
{
    lemma_axis_cell(px, cols, frame_width);
    lemma_axis_cell(py, rows, frame_height);
}

/// The offset of position `d` of cell `t`, for cells `n` wide.
pub open spec fn cell_offset(t: int, n: int, d: int) -> int {
    t * n + d
}

/// Along one axis: offset `p` of `count` cells of width `n` lies in exactly
/// one cell, `p / n`, at `p % n`.
proof fn lemma_axis_cell(p: int, count: int, n: int)
    requires
        0 <= count,
        0 <= p < n * count,
    ensures
        n > 0,
        0 <= p / n < count,
        p == (p / n) * n + p % n,
        0 <= p % n < n,
        forall|t: int, d: int|
            0 <= t && 0 <= d < n && p == #[trigger] cell_offset(t, n, d) ==> t == p / n && d == p % n,
{
    assert(n > 0) by (nonlinear_arith)
        requires
            0 <= count,
            0 <= p < n * count,
    ;
    vstd::arithmetic::div_mod::lemma_fundamental_div_mod(p, n);
    assert(n * (p / n) == (p / n) * n) by (nonlinear_arith);
    vstd::arithmetic::div_mod::lemma_div_pos_is_pos(p, n);
    assert(p / n < count) by {
        if p / n >= count {
            assert((p / n) * n >= count * n) by (nonlinear_arith)
                requires
                    p / n >= count,
                    n > 0,
            ;
            assert(count * n == n * count) by (nonlinear_arith);
        }
    }
    assert forall|t: int, d: int| 0 <= t && 0 <= d < n && p == #[trigger] cell_offset(t, n, d) implies t
        == p / n && d == p % n by {
        vstd::arithmetic::div_mod::lemma_fundamental_div_mod_converse(p, n, t, d);
    }
}

/// Law: when every pixel of every frame is opaque, the composed preview shows
/// each frame, unblended, in its tile: canvas pixel `(px, py)` is pixel
/// `(px % frame_width, py % frame_height)` of frame
/// `(py / frame_height) * cols + px / frame_width`.
pub proof fn lemma_opaque_preview(
    canvas: Seq<u8>,
    frames: Seq<Seq<u8>>,
    rows: int,
    cols: int,
    frame_width: int,
    frame_height: int,
)
    requires
        0 <= rows,
        0 <= cols,
        frames.len() == rows * cols,
        tiles_hold(canvas, frames, rows, cols, frame_width, frame_height, rows * cols),
        forall|i: int, dx: int, dy: int|
            0 <= i < frames.len() && 0 <= dx < frame_width && 0 <= dy < frame_height ==> #[trigger] byte_at(
                frames[i],
                frame_width,
                dx,
                dy,
                3,
            ) == 255,
    ensures
        forall|px: int, py: int, c: int|
            0 <= px < frame_width * cols && 0 <= py < frame_height * rows && 0 <= c < 4
                ==> #[trigger] byte_at(canvas, frame_width * cols, px, py, c) == byte_at(
                frames[(py / frame_height) * cols + px / frame_width],
                frame_width,
                px % frame_width,
                py % frame_height,
                c,
            ),
{
    assert forall|px: int, py: int, c: int|
        0 <= px < frame_width * cols && 0 <= py < frame_height * rows && 0 <= c < 4
            implies #[trigger] byte_at(canvas, frame_width * cols, px, py, c) == byte_at(
            frames[(py / frame_height) * cols + px / frame_width],
            frame_width,
            px % frame_width,
            py % frame_height,
            c,
        ) by {
        lemma_tiles_cover_canvas(px, py, rows, cols, frame_width, frame_height);
        let tx = px / frame_width;
        let ty = py / frame_height;
        let dx = px % frame_width;
        let dy = py % frame_height;
        lemma_cell_inside(ty, tx, cols, rows);
        assert(cols * rows == rows * cols) by (nonlinear_arith);
        assert(byte_at(frames[ty * cols + tx], frame_width, dx, dy, 3) == 255);
        assert(tile_byte(canvas, cols, frame_width, frame_height, tx, ty, dx, dy, c) == byte_at(
            canvas,
            frame_width * cols,
            px,
            py,
            c,
        ));
    }
}

} // verus!
