use vstd::prelude::*;

use crate::cell::{spec_cell_params, spec_render_cell, AsciiCell};
use crate::color::util::{average_color, spec_average};
use crate::color::{cell_wf, Color, ColorValue};
use crate::font::Font;
use crate::pixel::{PixelGrid, Rgb};
use crate::sgr::{chars_to_string, spec_reset, write_reset};

use rayon::iter::IntoParallelIterator;
use rayon::iter::ParallelIterator;

verus! {

/// A rendered image: a flat row-major grid of character cells and its
/// width; the height is the cell count divided by the width.
#[derive(Clone, PartialEq, Eq, Hash, Debug)]
pub struct AsciiImage<C> {
    pub width: u32,
    pub cells: Vec<AsciiCell<C>>,
}

/// The half-open pixel span that grid coordinate `c` of `grid_dim` covers
/// in a source axis of `img_dim` pixels: proportional division tiles the
/// axis exactly, and a degenerate span is widened to one pixel.
pub open spec fn spec_rect_start(img_dim: int, grid_dim: int, c: int) -> int {
    c * img_dim / grid_dim
}

/// The size of that span.
pub open spec fn spec_rect_size(img_dim: int, grid_dim: int, c: int) -> int {
    let start = spec_rect_start(img_dim, grid_dim, c);
    let end = (c + 1) * img_dim / grid_dim;
    if end - start < 1 {
        1
    } else {
        end - start
    }
}

/// The cell at flat row-major position `index` of a `w` by `h` character
/// grid over `img`: the quantized average color of the pixel rectangle the
/// cell covers.
pub open spec fn spec_cell_at<C: Color>(
    img: PixelGrid,
    font: Font,
    w: int,
    h: int,
    index: int,
) -> AsciiCell<C> {
    let cx = index % w;
    let cy = index / w;
    let x = spec_rect_start(img.spec_width() as int, w, cx);
    let y = spec_rect_start(img.spec_height() as int, h, cy);
    let rw = spec_rect_size(img.spec_width() as int, w, cx);
    let rh = spec_rect_size(img.spec_height() as int, h, cy);
    let avg = spec_average(img, x, y, rw, rh);
    C::cell_spec(Rgb { r: avg.r, g: avg.g, b: avg.b }, font)
}

/// The pixel span of a grid coordinate stays inside the source axis.
proof fn lemma_rect_bounds(img_dim: int, grid_dim: int, c: int)
    requires
        0 < img_dim,
        0 < grid_dim,
        0 <= c < grid_dim,
    ensures
        0 <= spec_rect_start(img_dim, grid_dim, c),
        spec_rect_start(img_dim, grid_dim, c) < img_dim,
        spec_rect_start(img_dim, grid_dim, c) <= (c + 1) * img_dim / grid_dim,
        (c + 1) * img_dim / grid_dim <= img_dim,
        1 <= spec_rect_size(img_dim, grid_dim, c),
        spec_rect_start(img_dim, grid_dim, c) + spec_rect_size(img_dim, grid_dim, c) <= img_dim,
{
    vstd::arithmetic::mul::lemma_mul_nonnegative(c, img_dim);
    vstd::arithmetic::div_mod::lemma_div_pos_is_pos(c * img_dim, grid_dim);
    vstd::arithmetic::mul::lemma_mul_strict_inequality(c, grid_dim, img_dim);
    vstd::arithmetic::mul::lemma_mul_is_commutative(grid_dim, img_dim);
    vstd::arithmetic::div_mod::lemma_multiply_divide_lt(c * img_dim, grid_dim, img_dim);
    vstd::arithmetic::mul::lemma_mul_inequality(c, c + 1, img_dim);
    vstd::arithmetic::div_mod::lemma_div_is_ordered(c * img_dim, (c + 1) * img_dim, grid_dim);
    vstd::arithmetic::mul::lemma_mul_inequality(c + 1, grid_dim, img_dim);
    vstd::arithmetic::div_mod::lemma_div_is_ordered((c + 1) * img_dim, grid_dim * img_dim, grid_dim);
    vstd::arithmetic::div_mod::lemma_div_multiples_vanish(img_dim, grid_dim);
}

/// Computes the cell at flat position `index` of the character grid: the
/// per-cell work the data-parallel map distributes.
pub fn cell_at<C: Color>(img: &PixelGrid, font: &Font, width: u32, height: u32, index: u64) -> (r:
    AsciiCell<C>)
    requires
        img.wf(),
        font.wf(),
        img.spec_width() > 0,
        img.spec_height() > 0,
        width > 0,
        height > 0,
        index < width as int * height as int,
    ensures
        r == spec_cell_at::<C>(*img, *font, width as int, height as int, index as int),
        cell_wf(r),
{
    let w64: u64 = width as u64;
    let h64: u64 = height as u64;
    let cx: u64 = index % w64;
    let cy: u64 = index / w64;
    proof {
        vstd::arithmetic::mul::lemma_mul_is_commutative(width as int, height as int);
        vstd::arithmetic::div_mod::lemma_multiply_divide_lt(index as int, width as int, height as int);
        vstd::arithmetic::div_mod::lemma_mod_division_less_than_divisor(index as int, width as int);
        lemma_rect_bounds(img.spec_width() as int, width as int, cx as int);
        lemma_rect_bounds(img.spec_height() as int, height as int, cy as int);
        vstd::arithmetic::mul::lemma_mul_upper_bound(
            cx as int + 1,
            u32::MAX as int,
            img.spec_width() as int,
            u32::MAX as int,
        );
        vstd::arithmetic::mul::lemma_mul_upper_bound(
            cy as int + 1,
            u32::MAX as int,
            img.spec_height() as int,
            u32::MAX as int,
        );
        vstd::arithmetic::mul::lemma_mul_upper_bound(
            cx as int,
            u32::MAX as int,
            img.spec_width() as int,
            u32::MAX as int,
        );
        vstd::arithmetic::mul::lemma_mul_upper_bound(
            cy as int,
            u32::MAX as int,
            img.spec_height() as int,
            u32::MAX as int,
        );
    }
    let iw: u64 = img.width() as u64;
    let ih: u64 = img.height() as u64;
    let x: u64 = cx * iw / w64;
    let y: u64 = cy * ih / h64;
    let x_end: u64 = (cx + 1) * iw / w64;
    let y_end: u64 = (cy + 1) * ih / h64;
    let rw: u64 = if x_end - x < 1 {
        1
    } else {
        x_end - x
    };
    let rh: u64 = if y_end - y < 1 {
        1
    } else {
        y_end - y
    };
    let avg = average_color(img, x as u32, y as u32, rw as u32, rh as u32);
    C::new_cell(avg.to_rgb(), font)
}

/// Relies on rayon's parallel iterator over an integer range with `map`
/// and `collect` into a `Vec`: when the range's length fits `usize`, rayon
/// drives the range in indexed mode and the collect writes each result at
/// its own index; otherwise the range splits into ordered halves whose
/// partial vectors are appended left before right. Either way the vector
/// holds `cell_at`'s result for each index, in index order, exactly as a
/// sequential map would; the closure only calls the verified `cell_at`,
/// whose contract pins every element, so the schedule cannot change the
/// result.
#[verifier::external_body]
fn par_map_cells<C: Color + Send>(img: &PixelGrid, font: &Font, width: u32, height: u32) -> (cells:
    Vec<AsciiCell<C>>)
    requires
        img.wf(),
        font.wf(),
        img.spec_width() > 0,
        img.spec_height() > 0,
        width > 0,
        height > 0,
    ensures
        cells@.len() == width as int * height as int,
        forall|i: int|
            0 <= i < cells@.len() ==> cells@[i] == spec_cell_at::<C>(
                *img,
                *font,
                width as int,
                height as int,
                i,
            ),
        forall|i: int| 0 <= i < cells@.len() ==> cell_wf(#[trigger] cells@[i]),
{
    let area: u64 = (width as u64) * (height as u64);
    (0..area).into_par_iter().map(|index| cell_at::<C>(img, font, width, height, index)).collect()
}

impl<C: ColorValue> AsciiImage<C> {
    /// The cells fill the grid exactly: the count is a multiple of the
    /// width (zero when the width is zero), every cell holds palette
    /// values, and the derived height fits its type.
    pub open spec fn wf(self) -> bool {
        &&& if self.width == 0 {
            self.cells@.len() == 0
        } else {
            self.cells@.len() as int % (self.width as int) == 0 && self.cells@.len() as int / (
            self.width as int) <= u32::MAX
        }
        &&& forall|i: int| 0 <= i < self.cells@.len() ==> cell_wf(#[trigger] self.cells@[i])
    }

    /// The height in character rows.
    pub open spec fn spec_height(self) -> int {
        if self.width == 0 {
            0
        } else {
            self.cells@.len() as int / (self.width as int)
        }
    }

    /// The empty image.
    pub fn new() -> (r: AsciiImage<C>)
        ensures
            r.width == 0,
            r.cells@.len() == 0,
            r.wf(),
    {
        AsciiImage { width: 0, cells: Vec::new() }
    }

    /// Collects cells into an image of the given dimensions; the cells are
    /// handed back unchanged when their number is not `width * height`.
    pub fn from_cells(cells: Vec<AsciiCell<C>>, width: u32, height: u32) -> (r: Result<
        AsciiImage<C>,
        Vec<AsciiCell<C>>,
    >)
        requires
            forall|i: int| 0 <= i < cells@.len() ==> cell_wf(#[trigger] cells@[i]),
        ensures
            match r {
                Ok(img) => cells@.len() == width as int * height as int && img
                    == (AsciiImage { width, cells }) && img.wf() && img.spec_height() == if width
                    == 0 {
                    0int
                } else {
                    height as int
                },
                Err(c) => c == cells && cells@.len() != width as int * height as int,
            },
    {
        proof {
            vstd::arithmetic::mul::lemma_mul_upper_bound(
                width as int,
                u32::MAX as int,
                height as int,
                u32::MAX as int,
            );
        }
        let area: u64 = (width as u64) * (height as u64);
        if cells.len() as u64 == area {
            proof {
                if width == 0 {
                    vstd::arithmetic::mul::lemma_mul_basics(height as int);
                }
                if width > 0 {
                    vstd::arithmetic::mul::lemma_mul_is_commutative(width as int, height as int);
                    vstd::arithmetic::div_mod::lemma_mod_multiples_basic(
                        height as int,
                        width as int,
                    );
                    vstd::arithmetic::div_mod::lemma_div_multiples_vanish(
                        height as int,
                        width as int,
                    );
                }
            }
            Ok(AsciiImage { width, cells })
        } else {
            Err(cells)
        }
    }

    /// The width of the image in characters.
    pub fn width(&self) -> (r: u32)
        ensures
            r == self.width,
    {
        self.width
    }

    /// The height of the image in characters.
    pub fn height(&self) -> (r: u32)
        requires
            self.wf(),
        ensures
            r == self.spec_height(),
    {
        if self.width == 0 {
            0
        } else {
            (self.cells.len() as u64 / self.width as u64) as u32
        }
    }

    /// All the cells of the image, row-major, left to right, top to bottom.
    pub fn cells(&self) -> (r: &Vec<AsciiCell<C>>)
        ensures
            r == self.cells,
    {
        &self.cells
    }

    /// Mutable access to the cells, for manual editing of an image.
    pub fn cells_mut(&mut self) -> (r: &mut Vec<AsciiCell<C>>)
        ensures
            *r == old(self).cells,
            final(self).cells == *final(r),
            final(self).width == old(self).width,
    {
        &mut self.cells
    }
}

impl<C: ColorValue> Default for AsciiImage<C> {
    fn default() -> (r: Self)
        ensures
            r.width == 0,
            r.cells@.len() == 0,
            r.wf(),
    {
        AsciiImage { width: 0, cells: Vec::new() }
    }
}

/// The derived character-grid height that preserves the source image's
/// proportions at character width `w`: `round(w * (H/W) * aspect_ratio)`.
pub open spec fn spec_derived_height(img_w: int, img_h: int, w: int, font: Font) -> int {
    crate::rounded_div::spec_rounded_div(
        w * img_h * font.aspect_ratio.num,
        img_w * font.aspect_ratio.den,
    )
}

/// The derived character-grid width at character height `h`:
/// `round(h * (W/H) / aspect_ratio)`.
pub open spec fn spec_derived_width(img_w: int, img_h: int, h: int, font: Font) -> int {
    crate::rounded_div::spec_rounded_div(
        h * img_w * font.aspect_ratio.den,
        img_h * font.aspect_ratio.num,
    )
}


/// The character-grid width the automatic conversion picks: the source
/// width, unless the font's glyph cell is wider than tall, in which case
/// the width is derived from the full source height.
pub open spec fn spec_auto_width(img: PixelGrid, font: Font) -> int {
    if font.aspect_ratio.num > font.aspect_ratio.den {
        spec_derived_width(
            img.spec_width() as int,
            img.spec_height() as int,
            img.spec_height() as int,
            font,
        )
    } else {
        img.spec_width() as int
    }
}

/// The character-grid height the automatic conversion picks: the source
/// height, unless the font's glyph cell is taller than wide, in which case
/// the height is derived from the full source width.
pub open spec fn spec_auto_height(img: PixelGrid, font: Font) -> int {
    if font.aspect_ratio.num < font.aspect_ratio.den {
        spec_derived_height(
            img.spec_width() as int,
            img.spec_height() as int,
            img.spec_width() as int,
            font,
        )
    } else {
        img.spec_height() as int
    }
}

impl<C: Color + Send> AsciiImage<C> {
    /// Converts a pixel image into a grid of exactly `width` by `height`
    /// character cells (the empty image when either dimension is zero);
    /// each cell is quantized from the average color of the pixel rectangle
    /// it covers.
    pub fn from_image_with_dimensions(image: &PixelGrid, font: &Font, width: u32, height: u32) -> (r:
        AsciiImage<C>)
        requires
            image.wf(),
            font.wf(),
            width > 0 && height > 0 ==> image.spec_width() > 0 && image.spec_height() > 0,
        ensures
            r.wf(),
            (width as int * height as int == 0) ==> r.width == 0 && r.cells@.len() == 0,
            (width as int * height as int > 0) ==> r.width == width && r.cells@.len() == width as int
                * height as int && forall|i: int|
                0 <= i < r.cells@.len() ==> r.cells@[i] == spec_cell_at::<C>(
                    *image,
                    *font,
                    width as int,
                    height as int,
                    i,
                ),
    {
        proof {
            vstd::arithmetic::mul::lemma_mul_upper_bound(
                width as int,
                u32::MAX as int,
                height as int,
                u32::MAX as int,
            );
            if width > 0 && height > 0 {
                vstd::arithmetic::mul::lemma_mul_strictly_positive(width as int, height as int);
            }
        }
        let area: u64 = (width as u64) * (height as u64);
        if area == 0 {
            return AsciiImage { width: 0, cells: Vec::new() };
        }
        let cells = par_map_cells::<C>(image, font, width, height);
        proof {
            vstd::arithmetic::mul::lemma_mul_is_commutative(width as int, height as int);
            vstd::arithmetic::div_mod::lemma_mod_multiples_basic(height as int, width as int);
            vstd::arithmetic::div_mod::lemma_div_multiples_vanish(height as int, width as int);
        }
        AsciiImage { width, cells }
    }

    /// Converts a pixel image at the given character width, deriving the
    /// height that preserves the image's proportions under the font's
    /// aspect ratio.
    pub fn from_image_with_width(image: &PixelGrid, font: &Font, width: u32) -> (r: AsciiImage<C>)
        requires
            image.wf(),
            font.wf(),
            image.spec_width() > 0,
            spec_derived_height(
                image.spec_width() as int,
                image.spec_height() as int,
                width as int,
                *font,
            ) <= u32::MAX,
        ensures
            r.wf(),
            ({
                let h = spec_derived_height(
                    image.spec_width() as int,
                    image.spec_height() as int,
                    width as int,
                    *font,
                );
                &&& (width as int * h == 0) ==> r.width == 0 && r.cells@.len() == 0
                &&& (width as int * h > 0) ==> r.width == width && r.cells@.len() == width as int
                    * h && forall|i: int|
                    0 <= i < r.cells@.len() ==> r.cells@[i] == spec_cell_at::<C>(
                        *image,
                        *font,
                        width as int,
                        h,
                        i,
                    )
            }),
    {
        proof {
            lemma_scale_fits(width as int, image.spec_height() as int, font.aspect_ratio.num as int);
            vstd::arithmetic::mul::lemma_mul_strictly_positive(
                image.spec_width() as int,
                font.aspect_ratio.den as int,
            );
            vstd::arithmetic::mul::lemma_mul_upper_bound(
                image.spec_width() as int,
                u32::MAX as int,
                font.aspect_ratio.den as int,
                u32::MAX as int,
            );
        }
        let num: u128 = (width as u128) * (image.height() as u128) * (font.aspect_ratio.num as u128);
        let den: u128 = (image.width() as u128) * (font.aspect_ratio.den as u128);
        proof {
            vstd::arithmetic::div_mod::lemma_div_pos_is_pos(
                num as int + den as int / 2,
                den as int,
            );
        }
        let height: u64 = ((num + den / 2) / den) as u64;
        proof {
            assert(num as int == width as int * (image.spec_height() as int)
                * (font.aspect_ratio.num as int));
            assert(den as int == image.spec_width() as int * (font.aspect_ratio.den as int));
            assert((num as int + den as int / 2) / (den as int) == spec_derived_height(
                image.spec_width() as int,
                image.spec_height() as int,
                width as int,
                *font,
            ));
            assert(height as int == spec_derived_height(
                image.spec_width() as int,
                image.spec_height() as int,
                width as int,
                *font,
            ));
        }
        if height == 0 {
            proof {
                vstd::arithmetic::mul::lemma_mul_basics(width as int);
            }
            return AsciiImage { width: 0, cells: Vec::new() };
        }
        proof {
            if image.spec_height() == 0 || width == 0 {
                vstd::arithmetic::mul::lemma_mul_basics(width as int);
                vstd::arithmetic::mul::lemma_mul_basics(image.spec_height() as int);
                vstd::arithmetic::mul::lemma_mul_basics(font.aspect_ratio.num as int);
                assert(num as int == 0);
                vstd::arithmetic::div_mod::lemma_basic_div(den as int / 2, den as int);
            }
            assert(image.spec_height() > 0);
            assert(width > 0);
        }
        Self::from_image_with_dimensions(image, font, width, height as u32)
    }

    /// Converts a pixel image at the given character height, deriving the
    /// width that preserves the image's proportions under the font's
    /// aspect ratio.
    pub fn from_image_with_height(image: &PixelGrid, font: &Font, height: u32) -> (r: AsciiImage<C>)
        requires
            image.wf(),
            font.wf(),
            image.spec_height() > 0,
            spec_derived_width(
                image.spec_width() as int,
                image.spec_height() as int,
                height as int,
                *font,
            ) <= u32::MAX,
        ensures
            r.wf(),
            ({
                let w = spec_derived_width(
                    image.spec_width() as int,
                    image.spec_height() as int,
                    height as int,
                    *font,
                );
                &&& (w * height as int == 0) ==> r.width == 0 && r.cells@.len() == 0
                &&& (w * height as int > 0) ==> r.width == w && r.cells@.len() == w * height as int
                    && forall|i: int|
                    0 <= i < r.cells@.len() ==> r.cells@[i] == spec_cell_at::<C>(
                        *image,
                        *font,
                        w,
                        height as int,
                        i,
                    )
            }),
    {
        proof {
            lemma_scale_fits(height as int, image.spec_width() as int, font.aspect_ratio.den as int);
            vstd::arithmetic::mul::lemma_mul_strictly_positive(
                image.spec_height() as int,
                font.aspect_ratio.num as int,
            );
            vstd::arithmetic::mul::lemma_mul_upper_bound(
                image.spec_height() as int,
                u32::MAX as int,
                font.aspect_ratio.num as int,
                u32::MAX as int,
            );
        }
        let num: u128 = (height as u128) * (image.width() as u128) * (font.aspect_ratio.den as u128);
        let den: u128 = (image.height() as u128) * (font.aspect_ratio.num as u128);
        proof {
            vstd::arithmetic::div_mod::lemma_div_pos_is_pos(
                num as int + den as int / 2,
                den as int,
            );
        }
        let width: u64 = ((num + den / 2) / den) as u64;
        proof {
            assert(num as int == height as int * (image.spec_width() as int)
                * (font.aspect_ratio.den as int));
            assert(den as int == image.spec_height() as int * (font.aspect_ratio.num as int));
            assert(width as int == spec_derived_width(
                image.spec_width() as int,
                image.spec_height() as int,
                height as int,
                *font,
            ));
        }
        if width == 0 {
            proof {
                vstd::arithmetic::mul::lemma_mul_basics(height as int);
            }
            return AsciiImage { width: 0, cells: Vec::new() };
        }
        proof {
            if image.spec_width() == 0 || height == 0 {
                vstd::arithmetic::mul::lemma_mul_basics(height as int);
                vstd::arithmetic::mul::lemma_mul_basics(image.spec_width() as int);
                vstd::arithmetic::mul::lemma_mul_basics(font.aspect_ratio.den as int);
                assert(num as int == 0);
                vstd::arithmetic::div_mod::lemma_basic_div(den as int / 2, den as int);
            }
            assert(image.spec_width() > 0);
            assert(height > 0);
        }
        Self::from_image_with_dimensions(image, font, width as u32, height)
    }

    /// Converts a pixel image using the image's own dimensions, downsampling
    /// whichever axis the font's aspect ratio stretches: a tall glyph cell
    /// shrinks the height, a wide one shrinks the width, a square one
    /// leaves both alone.
    pub fn from_image(image: &PixelGrid, font: &Font) -> (r: AsciiImage<C>)
        requires
            image.wf(),
            font.wf(),
            font.aspect_ratio.num < font.aspect_ratio.den ==> image.spec_width() > 0
                && spec_derived_height(
                image.spec_width() as int,
                image.spec_height() as int,
                image.spec_width() as int,
                *font,
            ) <= u32::MAX,
            font.aspect_ratio.num > font.aspect_ratio.den ==> image.spec_height() > 0
                && spec_derived_width(
                image.spec_width() as int,
                image.spec_height() as int,
                image.spec_height() as int,
                *font,
            ) <= u32::MAX,
        ensures
            r.wf(),
            ({
                let w = spec_auto_width(*image, *font);
                let h = spec_auto_height(*image, *font);
                &&& (w * h == 0) ==> r.width == 0 && r.cells@.len() == 0
                &&& (w * h > 0) ==> r.width == w && r.cells@.len() == w * h && forall|i: int|
                    0 <= i < r.cells@.len() ==> r.cells@[i] == spec_cell_at::<C>(
                        *image,
                        *font,
                        w,
                        h,
                        i,
                    )
            }),
    {
        if font.aspect_ratio.num < font.aspect_ratio.den {
            Self::from_image_with_width(image, font, image.width())
        } else if font.aspect_ratio.num == font.aspect_ratio.den {
            Self::from_image_with_dimensions(image, font, image.width(), image.height())
        } else {
            Self::from_image_with_height(image, font, image.height())
        }
    }
}

/// A dimension scaling product of three 32-bit factors fits well inside
/// 128 bits.
proof fn lemma_scale_fits(a: int, b: int, c: int)
    requires
        0 <= a <= u32::MAX,
        0 <= b <= u32::MAX,
        0 <= c <= u32::MAX,
    ensures
        0 <= a * b,
        a * b <= u32::MAX as int * u32::MAX as int,
        0 <= a * b * c,
        a * b * c <= u32::MAX as int * u32::MAX as int * u32::MAX as int,
{
    vstd::arithmetic::mul::lemma_mul_upper_bound(a, u32::MAX as int, b, u32::MAX as int);
    vstd::arithmetic::mul::lemma_mul_nonnegative(a, b);
    vstd::arithmetic::mul::lemma_mul_upper_bound(
        a * b,
        u32::MAX as int * u32::MAX as int,
        c,
        u32::MAX as int,
    );
    vstd::arithmetic::mul::lemma_mul_nonnegative(a * b, c);
}

/// The comparison state carried from one cell to the next: the background
/// just drawn, and the last foreground that was actually selected — a cell
/// without a glyph leaves the terminal's foreground untouched.
pub open spec fn spec_next_previous<C: Color>(
    cell: AsciiCell<C>,
    previous: Option<AsciiCell<C>>,
) -> Option<AsciiCell<C>> {
    Some(
        AsciiCell {
            background: cell.background,
            foreground: match cell.foreground {
                Some(f) => Some(f),
                None => match previous {
                    Some(p) => p.foreground,
                    None => None,
                },
            },
        },
    )
}

/// The text of a row of cells rendered left to right, each cell diffed
/// against the state the cells before it left behind.
pub open spec fn spec_render_row<C: Color>(
    cells: Seq<AsciiCell<C>>,
    previous: Option<AsciiCell<C>>,
) -> Seq<char>
    decreases cells.len(),
{
    if cells.len() == 0 {
        Seq::empty()
    } else {
        spec_render_cell(cells[0], previous) + spec_render_row(
            cells.subrange(1, cells.len() as int),
            spec_next_previous(cells[0], previous),
        )
    }
}

/// The cells of row `y`, left to right.
pub open spec fn spec_row_of<C>(img: AsciiImage<C>, y: int) -> Seq<AsciiCell<C>> {
    img.cells@.subrange(y * img.width as int, y * img.width as int + img.width as int)
}

/// One text line of the image: row `y` rendered from a clean state, closed
/// by the unconditional reset sequence, so no color state leaks between
/// rows.
pub open spec fn spec_render_line<C: Color>(img: AsciiImage<C>, y: int) -> Seq<char> {
    spec_render_row(spec_row_of(img, y), None::<AsciiCell<C>>) + spec_reset()
}

impl<C: Color> AsciiImage<C> {
    /// Appends the text of row `y` to `out`: per cell only the color codes
    /// that change the terminal's state, then the unconditional reset.
    /// Appends nothing when `y` is out of range.
    pub fn fmt_line(&self, out: &mut Vec<char>, y: u32)
        requires
            self.wf(),
        ensures
            (y as int) < self.spec_height() ==> final(out)@ == old(out)@ + spec_render_line(
                *self,
                y as int,
            ),
            (y as int) >= self.spec_height() ==> final(out)@ == old(out)@,
    {
        let h = self.height();
        if y >= h {
            return ;
        }
        let ghost out0 = out@;
        let ghost row = spec_row_of(*self, y as int);
        let w64: u64 = self.width as u64;
        proof {
            vstd::arithmetic::div_mod::lemma_fundamental_div_mod(
                self.cells@.len() as int,
                self.width as int,
            );
            vstd::arithmetic::mul::lemma_mul_upper_bound(
                y as int,
                u32::MAX as int,
                self.width as int,
                u32::MAX as int,
            );
            vstd::arithmetic::mul::lemma_mul_inequality(
                y as int + 1,
                self.spec_height(),
                self.width as int,
            );
            vstd::arithmetic::mul::lemma_mul_is_distributive_add_other_way(
                self.width as int,
                y as int,
                1,
            );
            vstd::arithmetic::mul::lemma_mul_is_commutative(self.width as int, self.spec_height());
        }
        let start: u64 = (y as u64) * w64;
        let total_cells: usize = self.cells.len();
        proof {
            assert(row.skip(0) =~= row);
        }
        let mut previous: Option<AsciiCell<C>> = None;
        let mut j: u64 = 0;
        while j < w64
            invariant
                self.wf(),
                (y as int) < self.spec_height(),
                w64 == self.width,
                start == y as int * self.width as int,
                start + w64 <= self.cells@.len(),
                self.cells@.len() == total_cells,
                row == spec_row_of(*self, y as int),
                j <= w64,
                (match previous {
                    Some(p) => cell_wf(p),
                    None => true,
                }),
                out0 + spec_render_row(row, None::<AsciiCell<C>>) == out@ + spec_render_row(
                    row.skip(j as int),
                    previous,
                ),
            decreases w64 - j,
        {
            let index: u64 = start + j;
            let n: usize = self.cells.len();
            assert(index < n as u64);
            let cell = self.cells[index as usize];
            let ghost prev0 = previous;
            proof {
                assert(row.skip(j as int).len() > 0);
                assert(row.skip(j as int)[0] == row[j as int]);
                assert(row[j as int] == self.cells@[start as int + j as int]);
                assert(cell == row[j as int]);
            }
            let prev_ref: Option<&AsciiCell<C>> = match &previous {
                Some(p) => Some(p),
                None => None,
            };
            cell.fmt_with_previous(out, prev_ref);
            let next_fg: Option<crate::cell::Foreground<C>> = match &cell.foreground {
                Some(f) => Some(*f),
                None => match &previous {
                    Some(p) => p.foreground,
                    None => None,
                },
            };
            previous = Some(AsciiCell { background: cell.background, foreground: next_fg });
            proof {
                assert(previous == spec_next_previous(cell, prev0));
                assert(row.skip(j as int).subrange(1, row.skip(j as int).len() as int) =~= row.skip(
                    j as int + 1,
                ));
                assert(spec_render_row(row.skip(j as int), prev0) == spec_render_cell(cell, prev0)
                    + spec_render_row(row.skip(j as int + 1), previous));
            }
            j = j + 1;
        }
        proof {
            assert(row.skip(w64 as int) =~= Seq::<AsciiCell<C>>::empty());
            assert(spec_render_row(row.skip(w64 as int), previous) =~= Seq::<char>::empty());
        }
        write_reset(out);
        proof {
            assert(out@ =~= out0 + spec_render_line(*self, y as int));
        }
    }

    /// The text of row `y`, or `None` when the image has no such row.
    pub fn line(&self, y: u32) -> (r: Option<String>)
        requires
            self.wf(),
        ensures
            match r {
                Some(s) => (y as int) < self.spec_height() && s@ == spec_render_line(*self, y as int),
                None => (y as int) >= self.spec_height(),
            },
    {
        let h = self.height();
        if y >= h {
            return None;
        }
        let mut buf: Vec<char> = Vec::new();
        self.fmt_line(&mut buf, y);
        Some(chars_to_string(&buf))
    }

    /// Every row of the image as its own text line, top to bottom.
    pub fn lines(&self) -> (r: Vec<String>)
        requires
            self.wf(),
        ensures
            r@.len() == self.spec_height(),
            forall|y: int| 0 <= y < r@.len() ==> (#[trigger] r@[y])@ == spec_render_line(*self, y),
    {
        let h = self.height();
        let mut out: Vec<String> = Vec::new();
        let mut y: u32 = 0;
        while y < h
            invariant
                self.wf(),
                h == self.spec_height(),
                y <= h,
                out@.len() == y,
                forall|k: int| 0 <= k < y ==> (#[trigger] out@[k])@ == spec_render_line(*self, k),
            decreases h - y,
        {
            let mut buf: Vec<char> = Vec::new();
            self.fmt_line(&mut buf, y);
            out.push(chars_to_string(&buf));
            y = y + 1;
        }
        out
    }
}

/// Rendering a run of identical colored blanks after the first cell emits
/// no escape codes at all: every later cell is just one space.
proof fn lemma_blank_run_renders_spaces<C: Color>(cells: Seq<AsciiCell<C>>, bg: C)
    requires
        bg.eq_spec(bg),
        forall|i: int|
            0 <= i < cells.len() ==> (#[trigger] cells[i]) == (AsciiCell {
                background: bg,
                foreground: None::<crate::cell::Foreground<C>>,
            }),
    ensures
        spec_render_row(cells, Some(AsciiCell { background: bg, foreground: None }))
            =~= Seq::new(cells.len(), |i: int| ' '),
    decreases cells.len(),
{
    let prev = Some(AsciiCell { background: bg, foreground: None::<crate::cell::Foreground<C>> });
    if cells.len() > 0 {
        assert(spec_cell_params(cells[0], prev) =~= Seq::<u8>::empty());
        assert(spec_render_cell(cells[0], prev) =~= seq![' ']);
        lemma_blank_run_renders_spaces(cells.subrange(1, cells.len() as int), bg);
        assert(spec_render_row(cells, prev) =~= seq![' '] + Seq::new((cells.len() - 1) as nat, |i: int| ' '));
    }
}

/// Row-diff minimality: a row of cells that all share one background color
/// and carry no foreground renders as exactly one escape sequence at the
/// first cell, then one plain space per cell, then the trailing reset —
/// no further escape sequence is emitted for any later cell.
pub proof fn lemma_uniform_row_minimal<C: Color>(cells: Seq<AsciiCell<C>>, bg: C)
    requires
        cells.len() >= 1,
        bg.eq_spec(bg),
        forall|i: int|
            0 <= i < cells.len() ==> (#[trigger] cells[i]) == (AsciiCell {
                background: bg,
                foreground: None::<crate::cell::Foreground<C>>,
            }),
    ensures
        spec_render_row(cells, None::<AsciiCell<C>>) =~= crate::sgr::spec_sgr_sequence(
            bg.bg_params(),
        ) + Seq::new(cells.len(), |i: int| ' '),
{
    let first = cells[0];
    assert(spec_cell_params(first, None::<AsciiCell<C>>) =~= bg.bg_params());
    let prev = spec_next_previous(first, None::<AsciiCell<C>>);
    assert(prev == Some(AsciiCell { background: bg, foreground: None::<crate::cell::Foreground<C>> }));
    lemma_blank_run_renders_spaces(cells.subrange(1, cells.len() as int), bg);
    assert(spec_render_row(cells, None::<AsciiCell<C>>) =~= crate::sgr::spec_sgr_sequence(
        bg.bg_params(),
    ) + seq![' '] + Seq::new((cells.len() - 1) as nat, |i: int| ' '));
    assert(seq![' '] + Seq::new((cells.len() - 1) as nat, |i: int| ' ') =~= Seq::new(
        cells.len(),
        |i: int| ' ',
    ));
    assert(crate::sgr::spec_sgr_sequence(bg.bg_params()) + seq![' '] + Seq::new(
        (cells.len() - 1) as nat,
        |i: int| ' ',
    ) =~= crate::sgr::spec_sgr_sequence(bg.bg_params()) + (seq![' '] + Seq::new(
        (cells.len() - 1) as nat,
        |i: int| ' ',
    )));
}

} // verus!
