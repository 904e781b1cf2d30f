use vstd::prelude::*;

verus! {

/// An 8-bit RGB triple: the space in which colors are sampled and quantized.
#[derive(Clone, Copy, PartialEq, Eq, Structural, Debug)]
pub struct Rgb {
    pub r: u8,
    pub g: u8,
    pub b: u8,
}

/// An 8-bit RGBA quadruple, as delivered by a pixel source.
#[derive(Clone, Copy, PartialEq, Eq, Structural, Debug)]
pub struct Rgba {
    pub r: u8,
    pub g: u8,
    pub b: u8,
    pub a: u8,
}

impl Rgba {
    /// Drops the alpha channel.
    pub fn to_rgb(&self) -> (r: Rgb)
        ensures
            r == (Rgb { r: self.r, g: self.g, b: self.b }),
    {
        Rgb { r: self.r, g: self.g, b: self.b }
    }
}

/// A pixel-addressable image: the in-memory model of the external image
/// source. Pixels are stored row-major, left to right, top to bottom.
pub struct PixelGrid {
    pub width: u32,
    pub height: u32,
    pub data: Vec<Rgba>,
}

impl PixelGrid {
    /// Every coordinate pair below the dimensions addresses a stored pixel.
    pub open spec fn wf(self) -> bool {
        self.data@.len() == self.width as int * self.height as int
    }

    pub open spec fn spec_width(self) -> u32 {
        self.width
    }

    pub open spec fn spec_height(self) -> u32 {
        self.height
    }

    /// The pixel at column `x`, row `y`.
    pub open spec fn pixel(self, x: int, y: int) -> Rgba {
        self.data@[y * self.width as int + x]
    }

    /// Builds a grid from a row-major pixel sequence; the sequence is handed
    /// back unchanged when its length is not `width * height`.
    pub fn from_pixels(width: u32, height: u32, data: Vec<Rgba>) -> (r: Result<PixelGrid, Vec<Rgba>>)
        ensures
            match r {
                Ok(g) => data@.len() == width as int * height as int && g.wf()
                    && g.spec_width() == width && g.spec_height() == height
                    && forall|x: int, y: int|
                        0 <= x < width && 0 <= y < height ==> g.pixel(x, y) == data@[y * width as int + x],
                Err(d) => d == data && data@.len() != width as int * height as int,
            },
    {
        proof {
            vstd::arithmetic::mul::lemma_mul_upper_bound(
                width as int,
                u32::MAX as int,
                height as int,
                u32::MAX as int,
            );
        }
        let area: u64 = (width as u64) * (height as u64);
        if data.len() as u64 == area {
            Ok(PixelGrid { width, height, data })
        } else {
            Err(data)
        }
    }

    pub fn width(&self) -> (r: u32)
        ensures
            r == self.spec_width(),
    {
        self.width
    }

    pub fn height(&self) -> (r: u32)
        ensures
            r == self.spec_height(),
    {
        self.height
    }

    pub fn get_pixel(&self, x: u32, y: u32) -> (r: Rgba)
        requires
            self.wf(),
            x < self.spec_width(),
            y < self.spec_height(),
        ensures
            r == self.pixel(x as int, y as int),
    {
        proof {
            let w = self.width as int;
            let h = self.height as int;
            vstd::arithmetic::mul::lemma_mul_inequality(y as int + 1, h, w);
            vstd::arithmetic::mul::lemma_mul_is_distributive_add_other_way(w, y as int, 1);
            vstd::arithmetic::mul::lemma_mul_is_commutative(w, h);
            vstd::arithmetic::mul::lemma_mul_upper_bound(y as int, u32::MAX as int, w, u32::MAX as int);
        }
        let index: u64 = (y as u64) * (self.width as u64) + (x as u64);
        let n: usize = self.data.len();
        assert(index < n as u64);
        self.data[index as usize]
    }
}

} // verus!
