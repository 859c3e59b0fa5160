use vstd::prelude::*;

use crate::ppm::{header_text, pixels_text, push_header, push_pixel, Rgb};

verus! {

/// A finished raster: `width` by `height` pixels kept in row-major order, row 0
/// at the top of the picture.
pub struct Image {
    width: u32,
    height: u32,
    pixels: Vec<Rgb>,
}

/// The black pixel every fresh image starts with.
pub open spec fn black() -> Rgb {
    Rgb { r: 0, g: 0, b: 0 }
}

/// The position in row-major order of the pixel in column `x` of row `y`.
pub open spec fn pixel_index(width: nat, x: nat, y: nat) -> nat {
    y * width + x
}

impl Image {
    pub closed spec fn width_spec(&self) -> nat {
        self.width as nat
    }

    pub closed spec fn height_spec(&self) -> nat {
        self.height as nat
    }

    /// The pixels, row after row.
    pub closed spec fn pixels_spec(&self) -> Seq<Rgb> {
        self.pixels@
    }

    /// Both sides are positive and one pixel is held for each place of the grid.
    pub open spec fn wf(&self) -> bool {
        &&& self.width_spec() > 0
        &&& self.height_spec() > 0
        &&& self.pixels_spec().len() == self.width_spec() * self.height_spec()
        &&& self.width_spec() * self.height_spec() <= usize::MAX
    }

    /// The pixel in column `x` of row `y`.
    pub open spec fn pixel_at(&self, x: nat, y: nat) -> Rgb {
        self.pixels_spec()[pixel_index(self.width_spec(), x, y) as int]
    }

    /// The plain-text pixmap of this image: header, then one line per pixel.
    pub open spec fn ppm_spec(&self) -> Seq<u8> {
        header_text(self.width_spec(), self.height_spec()) + pixels_text(self.pixels_spec())
    }

    /// A black image of `width` by `height` pixels. Either side being zero is
    /// a configuration error, as is a pixel count that does not fit in memory.
    pub fn new(width: u32, height: u32) -> (r: Option<Image>)
        ensures
            r is Some <==> width > 0 && height > 0 && width * height <= usize::MAX,
            r matches Some(img) ==> {
                &&& img.wf()
                &&& img.width_spec() == width
                &&& img.height_spec() == height
                &&& img.pixels_spec().len() == width * height
                &&& forall|i: int| 0 <= i < img.pixels_spec().len() ==> img.pixels_spec()[i] == black()
                &&& forall|x: nat, y: nat| x < width && y < height ==> #[trigger] img.pixel_at(x, y) == black()
            },
    {
        if width == 0 || height == 0 {
            return None;
        }
        let w: usize = width as usize;
        let h: usize = height as usize;
        if w > usize::MAX / h {
            proof {
                assert(w * h > usize::MAX) by (nonlinear_arith)
                    requires w > usize::MAX / h, h > 0;
            }
            return None;
        }
        proof {
            assert(w * h <= usize::MAX) by (nonlinear_arith)
                requires w <= usize::MAX / h, h > 0;
        }
        let count: usize = w * h;
        let mut pixels: Vec<Rgb> = Vec::with_capacity(count);
        let mut i: usize = 0;
        while i < count
            invariant
                i <= count,
                pixels@.len() == i,
                forall|k: int| 0 <= k < i ==> pixels@[k] == black(),
            decreases count - i,
        {
            pixels.push(Rgb { r: 0, g: 0, b: 0 });
            i = i + 1;
        }
        let img = Image { width, height, pixels };
        assert forall|x: nat, y: nat| x < width && y < height implies #[trigger] img.pixel_at(x, y) == black() by {
            img.lemma_index_in_bounds(x, y);
        }
        Some(img)
    }

    pub fn width(&self) -> (r: u32)
        ensures
            r == self.width_spec(),
    {
        self.width
    }

    pub fn height(&self) -> (r: u32)
        ensures
            r == self.height_spec(),
    {
        self.height
    }

    /// The pixel in column `x` of row `y`.
    pub fn get(&self, x: u32, y: u32) -> (r: Rgb)
        requires
            self.wf(),
            x < self.width_spec(),
            y < self.height_spec(),
        ensures
            r == self.pixel_at(x as nat, y as nat),
    {
        proof {
            self.lemma_index_in_bounds(x as nat, y as nat);
        }
        self.pixels[y as usize * self.width as usize + x as usize]
    }

    /// Writes `p` as the pixel in column `x` of row `y`; every other pixel
    /// keeps its value.
    pub fn set(&mut self, x: u32, y: u32, p: Rgb)
        requires
            old(self).wf(),
            x < old(self).width_spec(),
            y < old(self).height_spec(),
        ensures
            final(self).wf(),
            final(self).width_spec() == old(self).width_spec(),
            final(self).height_spec() == old(self).height_spec(),
            final(self).pixels_spec() == old(self).pixels_spec().update(
                pixel_index(old(self).width_spec(), x as nat, y as nat) as int,
                p,
            ),
    {
        proof {
            self.lemma_index_in_bounds(x as nat, y as nat);
        }
        let i: usize = y as usize * self.width as usize + x as usize;
        self.pixels.set(i, p);
    }

    /// The image as a plain-text pixmap.
    pub fn to_ppm(&self) -> (r: Vec<u8>)
        requires
            self.wf(),
        ensures
            r@ == self.ppm_spec(),
    {
        let mut out: Vec<u8> = Vec::new();
        push_header(&mut out, self.width, self.height);
        let mut i: usize = 0;
        while i < self.pixels.len()
            invariant
                i <= self.pixels@.len(),
                out@ == header_text(self.width as nat, self.height as nat) + pixels_text(
                    self.pixels@.subrange(0, i as int),
                ),
            decreases self.pixels@.len() - i,
        {
            push_pixel(&mut out, self.pixels[i]);
            proof {
                let done = self.pixels@.subrange(0, i + 1);
                assert(done.drop_last() =~= self.pixels@.subrange(0, i as int));
                assert(out@ =~= header_text(self.width as nat, self.height as nat) + pixels_text(
                    done,
                ));
            }
            i = i + 1;
        }
        assert(self.pixels@.subrange(0, self.pixels@.len() as int) =~= self.pixels@);
        out
    }

    proof fn lemma_index_in_bounds(&self, x: nat, y: nat)
        requires
            self.wf(),
            x < self.width_spec(),
            y < self.height_spec(),
        ensures
            pixel_index(self.width_spec(), x, y) < self.pixels_spec().len(),
            y * self.width_spec() + x <= usize::MAX,
    {
        let w = self.width as nat;
        let h = self.height as nat;
        assert(y * w + x < h * w) by (nonlinear_arith)
            requires y < h, x < w;
        assert(h * w == w * h) by (nonlinear_arith);
    }
}

} // verus!
