use vstd::prelude::*;
use vstd::arithmetic::div_mod::{
    lemma_div_by_multiple, lemma_div_by_multiple_is_strongly_ordered, lemma_div_is_ordered,
    lemma_div_pos_is_pos, lemma_fundamental_div_mod, lemma_fundamental_div_mod_converse,
};
use vstd::arithmetic::mul::{lemma_mul_inequality, lemma_mul_strict_inequality};

verus! {

/// The destination rectangle of a blit in whole canvas pixels.
#[derive(Clone, Copy, Debug, PartialEq, Eq, Structural)]
pub struct PixelRect {
    pub x: i32,
    pub y: i32,
    pub w: i32,
    pub h: i32,
}

/// `s` drawn with alpha `a` over `d`: `(s·a + d·(255 − a)) / 255`.
pub open spec fn blend(s: u8, d: u8, a: u8) -> u8 {
    ((s as int * a as int + d as int * (255 - a as int)) / 255) as u8
}

/// Byte offset of the source pixel that cell (`row`, `col`) of the
/// destination samples (nearest neighbour).
pub open spec fn sample_offset(row: int, col: int, sw: int, sh: int, r: PixelRect) -> int {
    ((row * sh / r.h as int) * sw + col * sw / r.w as int) * 4
}

/// Whether cell (`row`, `col`) of the destination rectangle is drawn: it lies
/// in the rectangle and on the canvas, and both its source and its target
/// pixel lie inside their buffers.
pub open spec fn cell_drawn(
    row: int,
    col: int,
    cw: int,
    ch: int,
    sw: int,
    sh: int,
    r: PixelRect,
    src_len: int,
    dst_len: int,
) -> bool {
    &&& 0 <= row < r.h
    &&& 0 <= col < r.w
    &&& 0 <= r.y + row < ch
    &&& 0 <= r.x + col < cw
    &&& sample_offset(row, col, sw, sh, r) + 3 < src_len
    &&& ((r.y + row) * cw + r.x + col) * 4 + 3 < dst_len
}

/// Whether cell (`row`, `col`) of `r` falls on the `cw` × `ch` canvas.
pub open spec fn cell_on_canvas(row: int, col: int, cw: int, ch: int, r: PixelRect) -> bool {
    &&& 0 <= row < r.h
    &&& 0 <= col < r.w
    &&& 0 <= r.y + row < ch
    &&& 0 <= r.x + col < cw
}

/// Index of the canvas pixel under cell (`row`, `col`) of `r`.
pub open spec fn canvas_pixel(row: int, col: int, cw: int, r: PixelRect) -> int {
    (r.y + row) * cw + r.x + col
}

/// Index of the source pixel that cell (`row`, `col`) of `r` samples.
pub open spec fn source_pixel(row: int, col: int, sw: int, sh: int, r: PixelRect) -> int {
    (row * sh / r.h as int) * sw + col * sw / r.w as int
}

/// Every cell on the canvas has a canvas pixel index that fits `i32` and a
/// source pixel index that fits `u32`.
pub open spec fn indices_fit(cw: int, ch: int, sw: int, sh: int, r: PixelRect) -> bool {
    forall|row: int, col: int|
        cell_on_canvas(row, col, cw, ch, r) ==> #[trigger] canvas_pixel(row, col, cw, r) <= i32::MAX
            && source_pixel(row, col, sw, sh, r) <= u32::MAX
}

/// Byte `k` of canvas `d` once the cell that covers it has been drawn from
/// `src`, if `chosen` admits that cell; otherwise the byte as it was.
pub open spec fn blit_byte(
    d: Seq<u8>,
    src: Seq<u8>,
    k: int,
    cw: int,
    ch: int,
    sw: int,
    sh: int,
    r: PixelRect,
    chosen: spec_fn(int, int) -> bool,
) -> u8 {
    let p = k / 4;
    let row = p / cw - r.y;
    let col = p % cw - r.x;
    if cw > 0 && cell_drawn(row, col, cw, ch, sw, sh, r, src.len() as int, d.len() as int) && chosen(row, col) {
        let si = sample_offset(row, col, sw, sh, r);
        if k % 4 == 3 {
            255u8
        } else {
            blend(src[si + k % 4], d[k], src[si + 3])
        }
    } else {
        d[k]
    }
}

/// Canvas `d` after the cells that `chosen` admits have been drawn.
pub open spec fn blit_cells(
    d: Seq<u8>,
    src: Seq<u8>,
    cw: int,
    ch: int,
    sw: int,
    sh: int,
    r: PixelRect,
    chosen: spec_fn(int, int) -> bool,
) -> Seq<u8> {
    Seq::new(d.len(), |k: int| blit_byte(d, src, k, cw, ch, sw, sh, r, chosen))
}

/// Canvas `d` (`cw` × `ch` RGBA pixels) after the `sw` × `sh` RGBA image
/// `src` has been scaled into `r` and blended over it: every drawn cell gets
/// the blend of its sampled source pixel over the old colour, with alpha 255.
pub open spec fn blitted(d: Seq<u8>, src: Seq<u8>, cw: int, ch: int, sw: int, sh: int, r: PixelRect) -> Seq<u8> {
    blit_cells(d, src, cw, ch, sw, sh, r, |row: int, col: int| true)
}

/// The cells that come before (`rows`, `cols`) in row-major order.
pub open spec fn cells_before(rows: int, cols: int) -> spec_fn(int, int) -> bool {
    |row: int, col: int| row < rows || (row == rows && col < cols)
}

/// With a source of exactly `sw` × `sh` pixels (both positive) on a canvas of
/// exactly `cw` × `ch` pixels, the blit fills the destination rectangle: byte
/// `j` of canvas pixel (`px`, `py`) is the blend of its nearest source pixel
/// (alpha 255) when the pixel lies in the rectangle, and is unchanged when it
/// lies outside.
pub proof fn law_blit_fills_rect(
    d: Seq<u8>,
    src: Seq<u8>,
    cw: int,
    ch: int,
    sw: int,
    sh: int,
    r: PixelRect,
    px: int,
    py: int,
    j: int,
)
    requires
        sw > 0,
        sh > 0,
        d.len() == cw * ch * 4,
        src.len() == sw * sh * 4,
        0 <= px < cw,
        0 <= py < ch,
        0 <= j < 4,
    ensures
        ({
            let k = (py * cw + px) * 4 + j;
            let row = py - r.y;
            let col = px - r.x;
            let si = sample_offset(row, col, sw, sh, r);
            blitted(d, src, cw, ch, sw, sh, r)[k] == if 0 <= row < r.h && 0 <= col < r.w {
                if j == 3 {
                    255u8
                } else {
                    blend(src[si + j], d[k], src[si + 3])
                }
            } else {
                d[k]
            }
        }),
{
    let p = py * cw + px;
    let k = p * 4 + j;
    let row = py - r.y;
    let col = px - r.x;
    lemma_fundamental_div_mod_converse(k, 4, p, j);
    lemma_fundamental_div_mod_converse(p, cw, py, px);
    assert(p < cw * ch) by (nonlinear_arith)
        requires
            p == py * cw + px,
            0 <= px < cw,
            0 <= py < ch,
    ;
    assert(k < d.len());
    if 0 <= row < r.h && 0 <= col < r.w {
        let sr = row * sh / r.h as int;
        let sc = col * sw / r.w as int;
        assert(0 <= sr < sh && 0 <= sc < sw) by {
            lemma_div_pos_is_pos(row * sh, r.h as int);
            lemma_div_pos_is_pos(col * sw, r.w as int);
            lemma_mul_strict_inequality(row, r.h as int, sh);
            lemma_mul_strict_inequality(col, r.w as int, sw);
            assert(r.h * sh == sh * r.h && r.w * sw == sw * r.w) by (nonlinear_arith);
            lemma_div_by_multiple_is_strongly_ordered(row * sh, sh * r.h, sh, r.h as int);
            lemma_div_by_multiple_is_strongly_ordered(col * sw, sw * r.w, sw, r.w as int);
            lemma_div_by_multiple(sh, r.h as int);
            lemma_div_by_multiple(sw, r.w as int);
        }
        assert((sr * sw + sc) * 4 + 3 < sw * sh * 4) by (nonlinear_arith)
            requires
                0 <= sr < sh,
                0 <= sc < sw,
        ;
    }
}

/// Drawing the cells before (`rows`, 0) is drawing them all once `rows`
/// reaches the rectangle's height.
proof fn lemma_all_rows(d: Seq<u8>, src: Seq<u8>, cw: int, ch: int, sw: int, sh: int, r: PixelRect, rows: int)
    requires
        rows >= r.h,
    ensures
        blit_cells(d, src, cw, ch, sw, sh, r, cells_before(rows, 0)) == blitted(d, src, cw, ch, sw, sh, r),
{
    assert(blit_cells(d, src, cw, ch, sw, sh, r, cells_before(rows, 0)) =~= blitted(d, src, cw, ch, sw, sh, r));
}

/// Nothing is drawn before the first cell.
proof fn lemma_no_cells(d: Seq<u8>, src: Seq<u8>, cw: int, ch: int, sw: int, sh: int, r: PixelRect)
    ensures
        blit_cells(d, src, cw, ch, sw, sh, r, cells_before(0, 0)) == d,
{
    assert(blit_cells(d, src, cw, ch, sw, sh, r, cells_before(0, 0)) =~= d);
}

/// Once every column of `row` that the rectangle has is passed, the next row
/// begins.
proof fn lemma_row_done(d: Seq<u8>, src: Seq<u8>, cw: int, ch: int, sw: int, sh: int, r: PixelRect, row: int, cols: int)
    requires
        cols >= r.w || !(0 <= r.y + row < ch),
    ensures
        blit_cells(d, src, cw, ch, sw, sh, r, cells_before(row, cols)) == blit_cells(
            d,
            src,
            cw,
            ch,
            sw,
            sh,
            r,
            cells_before(row + 1, 0),
        ),
{
    assert(blit_cells(d, src, cw, ch, sw, sh, r, cells_before(row, cols)) =~= blit_cells(
        d,
        src,
        cw,
        ch,
        sw,
        sh,
        r,
        cells_before(row + 1, 0),
    ));
}

/// A cell that is not drawn changes nothing.
proof fn lemma_skip_cell(d: Seq<u8>, src: Seq<u8>, cw: int, ch: int, sw: int, sh: int, r: PixelRect, row: int, col: int)
    requires
        !(cw > 0 && cell_drawn(row, col, cw, ch, sw, sh, r, src.len() as int, d.len() as int)),
    ensures
        blit_cells(d, src, cw, ch, sw, sh, r, cells_before(row, col)) == blit_cells(
            d,
            src,
            cw,
            ch,
            sw,
            sh,
            r,
            cells_before(row, col + 1),
        ),
{
    assert(blit_cells(d, src, cw, ch, sw, sh, r, cells_before(row, col)) =~= blit_cells(
        d,
        src,
        cw,
        ch,
        sw,
        sh,
        r,
        cells_before(row, col + 1),
    ));
}

/// Writing the four bytes of a drawn cell moves the drawn region past it.
proof fn lemma_draw_cell(
    d: Seq<u8>,
    src: Seq<u8>,
    cw: int,
    ch: int,
    sw: int,
    sh: int,
    r: PixelRect,
    row: int,
    col: int,
    before: Seq<u8>,
    after: Seq<u8>,
)
    requires
        cw > 0,
        cell_drawn(row, col, cw, ch, sw, sh, r, src.len() as int, d.len() as int),
        before == blit_cells(d, src, cw, ch, sw, sh, r, cells_before(row, col)),
        after.len() == d.len(),
        ({
            let di = ((r.y + row) * cw + r.x + col) * 4;
            let si = sample_offset(row, col, sw, sh, r);
            &&& forall|j: int| 0 <= j < 3 ==> #[trigger] after[di + j] == blend(src[si + j], before[di + j], src[si + 3])
            &&& after[di + 3] == 255u8
            &&& forall|k: int| 0 <= k < d.len() && !(di <= k < di + 4) ==> #[trigger] after[k] == before[k]
        }),
    ensures
        after == blit_cells(d, src, cw, ch, sw, sh, r, cells_before(row, col + 1)),
{
    let p = (r.y + row) * cw + r.x + col;
    let di = p * 4;
    let goal = blit_cells(d, src, cw, ch, sw, sh, r, cells_before(row, col + 1));
    lemma_fundamental_div_mod_converse(p, cw, r.y + row, r.x + col);
    assert forall|k: int| 0 <= k < d.len() implies after[k] == goal[k] by {
        lemma_fundamental_div_mod(k, 4);
        let q = k / 4;
        lemma_fundamental_div_mod(q, cw);
        if di <= k < di + 4 {
            lemma_fundamental_div_mod_converse(k, 4, p, k - di);
            assert(before[k] == d[k]);
            if k % 4 < 3 {
                assert(after[di + (k - di)] == blend(src[sample_offset(row, col, sw, sh, r) + (k - di)], before[di + (k - di)], src[sample_offset(row, col, sw, sh, r) + 3]));
            }
        } else {
            assert(q != p);
            if q / cw - r.y == row && q % cw - r.x == col {
                assert(cw * (r.y + row) == (r.y + row) * cw) by (nonlinear_arith);
                assert(q == p);
            }
        }
    }
    assert(after =~= goal);
}
/// One colour channel of `s` drawn with alpha `a` over `d`.
fn blend_channel(s: u8, d: u8, a: u8) -> (v: u8)
    ensures
        v == blend(s, d, a),
{
    let alpha = a as u32;
    let inv = 255 - alpha;
    assert(s as u32 * alpha <= 65025 && d as u32 * inv <= 65025) by (nonlinear_arith)
        requires
            s <= 255,
            d <= 255,
            alpha <= 255,
            inv <= 255,
    ;
    ((s as u32 * alpha + d as u32 * inv) / 255) as u8
}

/// Scales the `src_w` × `src_h` RGBA image `src` into `dest` by nearest
/// neighbour sampling and blends it over the `canvas_w` × `canvas_h` RGBA
/// canvas `dst`; cells off the canvas, and cells whose source or target
/// pixel lies past the end of its buffer, are skipped.
pub fn blit_rgba(dst: &mut [u8], canvas_w: u32, canvas_h: u32, src: &[u8], src_w: u32, src_h: u32, dest: PixelRect)
    requires
        canvas_w <= i32::MAX,
        canvas_h <= i32::MAX,
        src_w <= i32::MAX,
        src_h <= i32::MAX,
        indices_fit(canvas_w as int, canvas_h as int, src_w as int, src_h as int, dest),
        (dest.h - 1) * src_h <= i32::MAX,
        (dest.w - 1) * src_w <= i32::MAX,
        dest.y + dest.h <= i32::MAX + 1,
        dest.x + dest.w <= i32::MAX + 1,
    ensures
        final(dst)@ == blitted(
            old(dst)@,
            src@,
            canvas_w as int,
            canvas_h as int,
            src_w as int,
            src_h as int,
            dest,
        ),
{
    let ghost d = dst@;
    let cw = canvas_w as i64;
    let ch = canvas_h as i64;
    let sw = src_w as i64;
    let sh = src_h as i64;
    let x = dest.x as i64;
    let y = dest.y as i64;
    let w = dest.w as i64;
    let h = dest.h as i64;
    let src_len: usize = src.len();
    let dst_len: usize = dst.len();
    proof {
        lemma_no_cells(d, src@, canvas_w as int, canvas_h as int, src_w as int, src_h as int, dest);
    }
    let mut row: i64 = 0;
    while row < h
        invariant
            0 <= row,
            row <= h || row == 0,
            cw == canvas_w,
            ch == canvas_h,
            sw == src_w,
            sh == src_h,
            x == dest.x,
            y == dest.y,
            w == dest.w,
            h == dest.h,
            src_len == src@.len(),
            dst_len == d.len(),
            dst@.len() == d.len(),
            canvas_w <= i32::MAX,
            canvas_h <= i32::MAX,
            src_w <= i32::MAX,
            src_h <= i32::MAX,
            indices_fit(canvas_w as int, canvas_h as int, src_w as int, src_h as int, dest),
            (dest.h - 1) * src_h <= i32::MAX,
            (dest.w - 1) * src_w <= i32::MAX,
            dest.y + dest.h <= i32::MAX + 1,
            dest.x + dest.w <= i32::MAX + 1,
            dst@ == blit_cells(d, src@, canvas_w as int, canvas_h as int, src_w as int, src_h as int, dest, cells_before(row as int, 0)),
        decreases h - row,
    {
        assert(row * sh <= (h - 1) * sh && (h - 1) * sh <= (h - 1) * sh) by (nonlinear_arith)
            requires
                0 <= row < h,
                sh >= 0,
        ;
        let src_row = row * sh / h;
        assert(src_row <= sh) by {
            lemma_mul_inequality(row as int, h as int, sh as int);
            lemma_div_is_ordered(row * sh, h * sh, h as int);
            lemma_div_by_multiple(sh as int, h as int);
            lemma_div_pos_is_pos(row * sh, h as int);
            assert(h * sh == sh * h) by (nonlinear_arith);
        }
        let py = y + row;
        if 0 <= py && py < ch {
            let mut col: i64 = 0;
            while col < w
                invariant
                    0 <= col,
                    col <= w || col == 0,
                    0 <= row < h,
                    0 <= src_row <= sh,
                    src_row == (row * sh) / (h as int),
                    py == y + row,
                    0 <= py < ch,
                    cw == canvas_w,
                    ch == canvas_h,
                    sw == src_w,
                    sh == src_h,
                    x == dest.x,
                    y == dest.y,
                    w == dest.w,
                    h == dest.h,
                    src_len == src@.len(),
                    dst_len == d.len(),
                    dst@.len() == d.len(),
                    canvas_w <= i32::MAX,
                    canvas_h <= i32::MAX,
                    src_w <= i32::MAX,
                    src_h <= i32::MAX,
                    indices_fit(canvas_w as int, canvas_h as int, src_w as int, src_h as int, dest),
                    (dest.w - 1) * src_w <= i32::MAX,
                    dest.x + dest.w <= i32::MAX + 1,
                    dst@ == blit_cells(d, src@, canvas_w as int, canvas_h as int, src_w as int, src_h as int, dest, cells_before(row as int, col as int)),
                decreases w - col,
            {
                assert(col * sw <= (w - 1) * sw) by (nonlinear_arith)
                    requires
                        0 <= col < w,
                        sw >= 0,
                ;
                let src_col = col * sw / w;
                assert(src_col <= sw) by {
                    lemma_mul_inequality(col as int, w as int, sw as int);
                    lemma_div_is_ordered(col * sw, w * sw, w as int);
                    lemma_div_by_multiple(sw as int, w as int);
                    lemma_div_pos_is_pos(col * sw, w as int);
                    assert(w * sw == sw * w) by (nonlinear_arith);
                }
                let px = x + col;
                if 0 <= px && px < cw {
                    assert(cell_on_canvas(row as int, col as int, canvas_w as int, canvas_h as int, dest));
                    assert(canvas_pixel(row as int, col as int, canvas_w as int, dest) <= i32::MAX);
                    assert(src_row * sw >= 0 && py * cw >= 0) by (nonlinear_arith)
                        requires
                            src_row >= 0,
                            sw >= 0,
                            py >= 0,
                            cw >= 0,
                    ;
                    let si = ((src_row * sw + src_col) * 4) as u64;
                    let di = ((py * cw + px) * 4) as u64;
                    assert(si == sample_offset(row as int, col as int, src_w as int, src_h as int, dest));
                    if si + 3 < src_len as u64 && di + 3 < dst_len as u64 {
                        let ghost before = dst@;
                        let si = si as usize;
                        let di = di as usize;
                        let a = src[si + 3];
                        let v0 = blend_channel(src[si], dst[di], a);
                        dst[di] = v0;
                        let v1 = blend_channel(src[si + 1], dst[di + 1], a);
                        dst[di + 1] = v1;
                        let v2 = blend_channel(src[si + 2], dst[di + 2], a);
                        dst[di + 2] = v2;
                        dst[di + 3] = 255;
                        proof {
                            lemma_draw_cell(d, src@, canvas_w as int, canvas_h as int, src_w as int, src_h as int, dest, row as int, col as int, before, dst@);
                        }
                    } else {
                        proof {
                            lemma_skip_cell(d, src@, canvas_w as int, canvas_h as int, src_w as int, src_h as int, dest, row as int, col as int);
                        }
                    }
                } else {
                    proof {
                        lemma_skip_cell(d, src@, canvas_w as int, canvas_h as int, src_w as int, src_h as int, dest, row as int, col as int);
                    }
                }
                col = col + 1;
            }
            proof {
                lemma_row_done(d, src@, canvas_w as int, canvas_h as int, src_w as int, src_h as int, dest, row as int, col as int);
            }
        } else {
            proof {
                lemma_row_done(d, src@, canvas_w as int, canvas_h as int, src_w as int, src_h as int, dest, row as int, 0);
            }
        }
        row = row + 1;
    }
    proof {
        lemma_all_rows(d, src@, canvas_w as int, canvas_h as int, src_w as int, src_h as int, dest, row as int);
    }
}
} // verus!
