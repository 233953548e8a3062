//! Cutting sprites out of a sprite atlas: single cells for the HUD resource
//! icons and 2x2 quads for the build-menu previews.

use vstd::prelude::*;
use vstd::arithmetic::div_mod::lemma_fundamental_div_mod_converse;

verus! {

/// Size of one sprite of the world atlas, in pixels.
pub const SPRITE_SIZE: u32 = 16;

/// Pitch of the world atlas: a sprite plus a one-pixel gutter.
pub const CELL: u32 = 17;

/// An RGBA8 atlas image: its width in pixels and its pixel bytes, row-major,
/// four bytes per pixel (`None` while the image holds no data).
pub struct AtlasImage {
    pub width: u32,
    pub height: u32,
    pub data: Option<Vec<u8>>,
}

/// A square RGBA8 sprite, `size` pixels wide and high, row-major.
pub struct SpriteImage {
    pub size: [usize; 2],
    pub rgba: Vec<u8>,
}

/// Byte `i` of a sprite `s` pixels wide cut at pixel (`px`, `py`) of an
/// atlas `width` pixels wide: byte `i % 4` of output pixel `i / 4`, which
/// copies atlas pixel (px + column, py + row), or is zero when that pixel
/// lies past the end of the atlas data.
pub open spec fn cell_byte(data: Seq<u8>, width: int, px: int, py: int, s: int, i: int) -> u8 {
    let p = i / 4;
    let src = ((py + p / s) * width + px + p % s) * 4;
    if src + 3 < data.len() {
        data[src + i % 4]
    } else {
        0
    }
}

/// Index arithmetic of `extract_atlas_cell` stays in range (the function
/// computes it in `u32` and `usize`).
pub open spec fn cell_fits(atlas: &AtlasImage, col: u32, row: u32, cell_size: u32) -> bool {
    let s = cell_size - 1;
    &&& col * cell_size <= u32::MAX
    &&& row * cell_size <= u32::MAX
    &&& s * s * 4 <= u32::MAX
    &&& s > 0 ==> {
        &&& col * cell_size + s - 1 <= u32::MAX
        &&& row * cell_size + s - 1 <= u32::MAX
        &&& ((row * cell_size + s - 1) * atlas.width + col * cell_size + s - 1) * 4 + 3 <= usize::MAX
    }
}

proof fn lemma_pixel_split(s: int, x: int, y: int, k: int)
    requires
        0 <= x < s,
        0 <= y,
        0 <= k < 4,
    ensures
        ((y * s + x) * 4 + k) / 4 == y * s + x,
        ((y * s + x) * 4 + k) % 4 == k,
        (y * s + x) / s == y,
        (y * s + x) % s == x,
{
    lemma_fundamental_div_mod_converse((y * s + x) * 4 + k, 4, y * s + x, k);
    lemma_fundamental_div_mod_converse(y * s + x, s, y, x);
}

proof fn lemma_src_bound(s: int, x: int, y: int, px: int, py: int, w: int)
    requires
        0 <= x < s,
        0 <= y < s,
        0 <= px,
        0 <= py,
        0 <= w,
    ensures
        ((py + y) * w + px + x) * 4 + 3 <= ((py + s - 1) * w + px + s - 1) * 4 + 3,
{
    assert((py + y) * w <= (py + s - 1) * w) by (nonlinear_arith)
        requires
            py + y <= py + s - 1,
            0 <= w,
    ;
}

/// Cuts the sprite at (`col`, `row`) out of an atlas of `cell_size`-pixel
/// cells; the sprite is one pixel smaller than a cell. `None` when the atlas
/// holds no data.
pub fn extract_atlas_cell(atlas: &AtlasImage, col: u32, row: u32, cell_size: u32) -> (r: Option<SpriteImage>)
    requires
        cell_size >= 1,
        atlas.data is Some ==> cell_fits(atlas, col, row, cell_size),
    ensures
        atlas.data is None ==> (r is None),
        atlas.data is Some ==> (r is Some),
        r matches Some(img) ==> {
            let s = cell_size - 1;
            &&& img.size@ == seq![s as usize, s as usize]
            &&& img.rgba@ == Seq::new(
                (s * s * 4) as nat,
                |i: int|
                    cell_byte(
                        atlas.data->0@,
                        atlas.width as int,
                        col * cell_size,
                        row * cell_size,
                        s as int,
                        i,
                    ),
            )
        },
{
    let sprite_size = cell_size - 1;
    let src_w = atlas.width;
    let src_data = match &atlas.data {
        Some(d) => d,
        None => {
            return None;
        },
    };
    let px = col * cell_size;
    let py = row * cell_size;
    let ghost s = sprite_size as int;
    let ghost f = |i: int| cell_byte(src_data@, src_w as int, px as int, py as int, s, i);
    let mut data: Vec<u8> = Vec::new();
    let mut y: u32 = 0;
    while y < sprite_size
        invariant
            src_data@ == atlas.data->0@,
            s == sprite_size,
            px == col * cell_size,
            py == row * cell_size,
            src_w == atlas.width,
            cell_fits(atlas, col, row, cell_size),
            cell_size >= 1,
            sprite_size == cell_size - 1,
            f == (|i: int| cell_byte(src_data@, src_w as int, px as int, py as int, s, i)),
            y <= sprite_size,
            data@.len() == y * s * 4,
            data@ =~= Seq::new(data@.len(), f),
        decreases sprite_size - y,
    {
        let mut x: u32 = 0;
        while x < sprite_size
            invariant
                src_data@ == atlas.data->0@,
                s == sprite_size,
                px == col * cell_size,
                py == row * cell_size,
                src_w == atlas.width,
                cell_fits(atlas, col, row, cell_size),
                cell_size >= 1,
                sprite_size == cell_size - 1,
                f == (|i: int| cell_byte(src_data@, src_w as int, px as int, py as int, s, i)),
                y < sprite_size,
                x <= sprite_size,
                data@.len() == (y * s + x) * 4,
                data@ =~= Seq::new(data@.len(), f),
            decreases sprite_size - x,
        {
            proof {
                lemma_src_bound(s, x as int, y as int, px as int, py as int, src_w as int);
                assert(0 <= (py + y) * src_w) by (nonlinear_arith)
                    requires
                        0 <= py + y,
                        0 <= src_w,
                ;
            }
            let sx = (px + x) as usize;
            let sy = (py + y) as usize;
            let src_idx = (sy * src_w as usize + sx) * 4;
            let ghost base = (y * s + x) * 4;
            proof {
                assert(base == data@.len());
                lemma_pixel_split(s, x as int, y as int, 0);
                lemma_pixel_split(s, x as int, y as int, 1);
                lemma_pixel_split(s, x as int, y as int, 2);
                lemma_pixel_split(s, x as int, y as int, 3);
                assert(src_idx == ((py + y) * src_w + px + x) * 4);
            }
            if src_idx + 3 < src_data.len() {
                data.push(src_data[src_idx]);
                data.push(src_data[src_idx + 1]);
                data.push(src_data[src_idx + 2]);
                data.push(src_data[src_idx + 3]);
            } else {
                data.push(0);
                data.push(0);
                data.push(0);
                data.push(0);
            }
            proof {
                assert(data@.len() == base + 4);
                assert(data@[base] == f(base));
                assert(data@[base + 1] == f(base + 1));
                assert(data@[base + 2] == f(base + 2));
                assert(data@[base + 3] == f(base + 3));
                assert((y * s + x + 1) * 4 == base + 4) by (nonlinear_arith)
                    requires
                        base == (y * s + x) * 4,
                ;
            }
            x = x + 1;
        }
        proof {
            assert((y * s + s) * 4 == (y + 1) * s * 4) by (nonlinear_arith);
        }
        y = y + 1;
    }
    let n = sprite_size as usize;
    Some(SpriteImage { size: [n, n], rgba: data })
}

/// Byte `i` of a 32x32 quad tile: output pixel `i / 4` lies in quadrant
/// (top-left, top-right, bottom-left, bottom-right) of `quad`, whose atlas
/// cell it copies; zero when that atlas pixel lies past the end of the data.
pub open spec fn quad_byte(data: Seq<u8>, width: int, quad: Seq<(u32, u32)>, i: int) -> u8 {
    let p = i / 4;
    let ox = p % 32;
    let oy = p / 32;
    let cell = quad[(oy / 16) * 2 + ox / 16];
    let src = ((cell.1 * 17 + oy % 16) * width + cell.0 * 17 + ox % 16) * 4;
    if src + 4 <= data.len() {
        data[src + i % 4]
    } else {
        0
    }
}

/// Index arithmetic of `extract_quad_tile` stays in range for one cell.
pub open spec fn quad_cell_fits(width: u32, cell: (u32, u32)) -> bool {
    &&& cell.0 * 17 + 15 <= u32::MAX
    &&& cell.1 * 17 + 15 <= u32::MAX
    &&& (cell.1 * 17 + 15) * width + cell.0 * 17 + 15 <= u32::MAX
    &&& ((cell.1 * 17 + 15) * width + cell.0 * 17 + 15) * 4 + 4 <= usize::MAX
}

proof fn lemma_quad_src_bound(w: int, c0: int, c1: int, tx: int, ty: int)
    requires
        0 <= tx < 16,
        0 <= ty < 16,
        0 <= w,
        0 <= c0,
        0 <= c1,
    ensures
        (c1 * 17 + ty) * w + c0 * 17 + tx <= (c1 * 17 + 15) * w + c0 * 17 + 15,
        0 <= (c1 * 17 + ty) * w,
{
    assert((c1 * 17 + ty) * w <= (c1 * 17 + 15) * w) by (nonlinear_arith)
        requires
            c1 * 17 + ty <= c1 * 17 + 15,
            0 <= w,
    ;
    assert(0 <= (c1 * 17 + ty) * w) by (nonlinear_arith)
        requires
            0 <= c1 * 17 + ty,
            0 <= w,
    ;
}

/// Assembles a 32x32 tile from four 16x16 atlas sprites at the cells of
/// `quad` (top-left, top-right, bottom-left, bottom-right).
pub fn extract_quad_tile(atlas: &AtlasImage, quad: [(u32, u32); 4]) -> (img: SpriteImage)
    requires
        atlas.data is Some,
        forall|q: int| 0 <= q < 4 ==> quad_cell_fits(atlas.width, #[trigger] quad@[q]),
    ensures
        img.size@ == seq![32usize, 32usize],
        img.rgba@ == Seq::new(4096, |i: int| quad_byte(atlas.data->0@, atlas.width as int, quad@, i)),
{
    let sprite: u32 = SPRITE_SIZE;
    let out_size: u32 = sprite * 2;
    let cell_size: u32 = CELL;
    let atlas_width = atlas.width;
    let atlas_data = match &atlas.data {
        Some(d) => d,
        None => {
            return SpriteImage { size: [0, 0], rgba: Vec::new() };
        },
    };
    let ghost f = |i: int| quad_byte(atlas_data@, atlas_width as int, quad@, i);
    let mut data: Vec<u8> = Vec::new();
    let mut oy: u32 = 0;
    while oy < out_size
        invariant
            atlas_data@ == atlas.data->0@,
            atlas_width == atlas.width,
            sprite == 16,
            out_size == 32,
            cell_size == 17,
            forall|q: int| 0 <= q < 4 ==> quad_cell_fits(atlas.width, #[trigger] quad@[q]),
            f == (|i: int| quad_byte(atlas_data@, atlas_width as int, quad@, i)),
            oy <= 32,
            data@.len() == oy * 128,
            data@ =~= Seq::new(data@.len(), f),
        decreases 32 - oy,
    {
        let mut ox: u32 = 0;
        while ox < out_size
            invariant
                atlas_data@ == atlas.data->0@,
                atlas_width == atlas.width,
                sprite == 16,
                out_size == 32,
                cell_size == 17,
                forall|q: int| 0 <= q < 4 ==> quad_cell_fits(atlas.width, #[trigger] quad@[q]),
                f == (|i: int| quad_byte(atlas_data@, atlas_width as int, quad@, i)),
                oy < 32,
                ox <= 32,
                data@.len() == oy * 128 + ox * 4,
                data@ =~= Seq::new(data@.len(), f),
            decreases 32 - ox,
        {
            let q = ((oy / sprite) * 2 + ox / sprite) as usize;
            let (col, row) = quad[q];
            let tx = ox % sprite;
            let ty = oy % sprite;
            let src_x = col * cell_size;
            let src_y = row * cell_size;
            proof {
                assert(quad_cell_fits(atlas.width, quad@[q as int]));
                lemma_quad_src_bound(atlas_width as int, col as int, row as int, tx as int, ty as int);
            }
            let si = ((src_y + ty) * atlas_width + (src_x + tx)) as usize * 4;
            let ghost base = data@.len() as int;
            proof {
                assert(base == (oy * 32 + ox) * 4);
                assert(forall|k: int| 0 <= k < 4 ==> (#[trigger] ((base + k) / 4)) == oy * 32 + ox);
                assert(forall|k: int| 0 <= k < 4 ==> (#[trigger] ((base + k) % 4)) == k);
                assert((oy * 32 + ox) % 32 == ox);
                assert((oy * 32 + ox) / 32 == oy);
            }
            if si + 4 <= atlas_data.len() {
                data.push(atlas_data[si]);
                data.push(atlas_data[si + 1]);
                data.push(atlas_data[si + 2]);
                data.push(atlas_data[si + 3]);
            } else {
                data.push(0);
                data.push(0);
                data.push(0);
                data.push(0);
            }
            proof {
                assert(data@[base] == f(base));
                assert(data@[base + 1] == f(base + 1));
                assert(data@[base + 2] == f(base + 2));
                assert(data@[base + 3] == f(base + 3));
            }
            ox = ox + 1;
        }
        oy = oy + 1;
    }
    SpriteImage { size: [32, 32], rgba: data }
}

/// A colour channel `v` scaled by alpha `a`, rounded: `(p + p / 256) / 256`
/// with `p = v * a + 128`.
pub open spec fn premul_channel(v: u8, a: u8) -> int {
    let p = v * a + 128;
    (p + p / 256) / 256
}

/// Byte `i` of RGBA8 pixels with their colour premultiplied by alpha:
/// alpha bytes are kept; a fully transparent pixel's colour becomes zero, an
/// opaque pixel's is kept, and any other is scaled by `premul_channel`.
pub open spec fn premultiplied_byte(rgba: Seq<u8>, i: int) -> u8 {
    let a = rgba[i - i % 4 + 3];
    if i % 4 == 3 {
        a
    } else if a == 0 {
        0
    } else if a == 255 {
        rgba[i]
    } else {
        premul_channel(rgba[i], a) as u8
    }
}

/// `egui::ColorImage::from_rgba_unmultiplied` on a `width` by `height`
/// image, read back as bytes with `Color32::to_array`. Its source maps each
/// pixel through `Color32::from_rgba_unmultiplied`: alpha 0 gives a
/// transparent black pixel, alpha 255 keeps the colour, any other alpha
/// scales each colour channel with `mul_frac_round`, which
/// `premultiplied_byte` writes out. It panics unless the byte count is
/// `width * height * 4`.
#[verifier::external_body]
fn egui_premultiply(width: usize, height: usize, rgba: &Vec<u8>) -> (out: Vec<u8>)
    requires
        width * height * 4 == rgba@.len(),
    ensures
        out@ == Seq::new(rgba@.len(), |i: int| premultiplied_byte(rgba@, i)),
{
    let img = egui::ColorImage::from_rgba_unmultiplied([width, height], rgba.as_slice());
    img.pixels.iter().flat_map(|c| c.to_array()).collect()
}

/// A sprite's pixels with colour premultiplied by alpha, the form egui
/// textures take.
pub fn premultiplied(img: &SpriteImage) -> (out: Vec<u8>)
    requires
        img.size@[0] * img.size@[1] * 4 == img.rgba@.len(),
    ensures
        out@ == Seq::new(img.rgba@.len(), |i: int| premultiplied_byte(img.rgba@, i)),
{
    egui_premultiply(img.size[0], img.size[1], &img.rgba)
}

} // verus!
