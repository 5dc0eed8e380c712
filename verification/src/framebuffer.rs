//! The pixel buffer the downstream display path draws decoded frames into.
//!
//! The buffer holds one 24-bit color per pixel, row by row.  The display
//! hardware behind it is out of this library's scope; the buffer itself is
//! plain data, so its operations are verified here.

use vstd::prelude::*;

verus! {

/// A 24-bit RGB color.
#[derive(Copy, Clone, Debug, PartialEq, Eq, Structural)]
pub struct Rgb888 {
    pub r: u8,
    pub g: u8,
    pub b: u8,
}

/// Black, the color of a cleared buffer.
pub open spec fn spec_black() -> Rgb888 {
    Rgb888 { r: 0, g: 0, b: 0 }
}

impl Rgb888 {
    /// Black, the color of a cleared buffer.
    pub fn black() -> (c: Rgb888)
        ensures
            c == spec_black(),
    {
        Rgb888 { r: 0, g: 0, b: 0 }
    }
}

/// A pixel position: `x` counts columns, `y` rows.
#[derive(Copy, Clone, Debug, PartialEq, Eq, Structural)]
pub struct Point {
    pub x: i32,
    pub y: i32,
}

/// A frame buffer of `width * height` pixels, stored row by row.
pub struct FrameBuffer {
    data: Vec<Rgb888>,
    width: usize,
    height: usize,
}

impl FrameBuffer {
    /// The pixel contents, row by row.
    pub closed spec fn pixels(&self) -> Seq<Rgb888> {
        self.data@
    }

    /// The buffer's width in pixels.
    pub closed spec fn spec_width(&self) -> int {
        self.width as int
    }

    /// The buffer's height in pixels.
    pub closed spec fn spec_height(&self) -> int {
        self.height as int
    }

    /// A buffer is well formed when it holds one color per pixel.
    pub open spec fn wf(&self) -> bool {
        self.pixels().len() == self.spec_width() * self.spec_height()
    }

    /// A fresh buffer of no pixels.
    pub fn new_empty() -> (framebuf: FrameBuffer)
        ensures
            framebuf.wf(),
            framebuf.spec_width() == 0,
            framebuf.spec_height() == 0,
    {
        FrameBuffer { data: Vec::new(), width: 0, height: 0 }
    }

    /// The buffer's width in pixels.
    pub fn width(&self) -> (w: usize)
        ensures
            w == self.spec_width(),
    {
        self.width
    }

    /// The buffer's height in pixels.
    pub fn height(&self) -> (h: usize)
        ensures
            h == self.spec_height(),
    {
        self.height
    }

    /// The color of the pixel at row-by-row index `i`.
    pub fn pixel_at(&self, i: usize) -> (c: Rgb888)
        requires
            i < self.pixels().len(),
        ensures
            c == self.pixels()[i as int],
    {
        self.data[i]
    }

    /// Gives the buffer the new size, keeping the pixels both sizes share
    /// and painting newly gained pixels with `fill_color`.
    pub fn resize(&mut self, new_width: usize, new_height: usize, fill_color: Rgb888)
        requires
            new_width * new_height <= usize::MAX,
        ensures
            final(self).wf(),
            final(self).spec_width() == new_width,
            final(self).spec_height() == new_height,
            final(self).pixels().len() == new_width * new_height,
            forall|i: int| 0 <= i < final(self).pixels().len()
                ==> final(self).pixels()[i] == (if i < old(self).pixels().len() {
                    old(self).pixels()[i]
                } else {
                    fill_color
                }),
    {
        let ghost orig: Seq<Rgb888> = self.data@;
        let new_size = new_width * new_height;
        while self.data.len() > new_size
            invariant
                self.data@.len() <= orig.len(),
                new_size <= self.data@.len() || self.data@.len() == orig.len(),
                self.data@ =~= orig.take(self.data@.len() as int),
            decreases self.data@.len(),
        {
            self.data.pop();
        }
        while self.data.len() < new_size
            invariant
                self.data@.len() <= new_size,
                self.data@.len() >= new_size || self.data@.len() >= orig.len(),
                forall|i: int| 0 <= i < self.data@.len()
                    ==> self.data@[i] == (if i < orig.len() {
                        orig[i]
                    } else {
                        fill_color
                    }),
            decreases new_size - self.data@.len(),
        {
            self.data.push(fill_color);
        }
        self.width = new_width;
        self.height = new_height;
    }

    /// Paints every pixel black; the buffer's size stays as it is.
    pub fn clear(&mut self)
        ensures
            final(self).spec_width() == old(self).spec_width(),
            final(self).spec_height() == old(self).spec_height(),
            final(self).pixels().len() == old(self).pixels().len(),
            forall|i: int| 0 <= i < final(self).pixels().len()
                ==> final(self).pixels()[i] == spec_black(),
    {
        let mut i: usize = 0;
        while i < self.data.len()
            invariant
                i <= self.data@.len(),
                self.data@.len() == old(self).pixels().len(),
                self.width == old(self).width,
                self.height == old(self).height,
                forall|j: int| 0 <= j < i ==> self.data@[j] == spec_black(),
            decreases self.data@.len() - i,
        {
            let black = Rgb888::black();
            self.data.set(i, black);
            i = i + 1;
        }
    }

    /// Paints the pixel at `pos` with `color`.
    pub fn set_pixel_color(&mut self, pos: Point, color: Rgb888)
        requires
            old(self).wf(),
            0 <= pos.x < old(self).spec_width(),
            0 <= pos.y < old(self).spec_height(),
        ensures
            final(self).wf(),
            final(self).spec_width() == old(self).spec_width(),
            final(self).spec_height() == old(self).spec_height(),
            final(self).pixels() == old(self).pixels().update(
                pos.y * old(self).spec_width() + pos.x,
                color,
            ),
    {
        proof {
            let w = old(self).spec_width();
            let h = old(self).spec_height();
            let x = pos.x as int;
            let y = pos.y as int;
            assert(y * w + x < w * h) by (nonlinear_arith)
                requires
                    0 <= x < w,
                    0 <= y < h,
            ;
            assert(self.data.len() <= usize::MAX);
            assert(self.data@.len() <= usize::MAX);
        }
        let i: usize = (pos.y as usize) * self.width + (pos.x as usize);
        self.data.set(i, color);
    }
}

/// Clears the frame buffer: every pixel goes black, the size stays.
pub fn clear_framebuf(framebuf: &mut FrameBuffer)
    ensures
        final(framebuf).spec_width() == old(framebuf).spec_width(),
        final(framebuf).spec_height() == old(framebuf).spec_height(),
        final(framebuf).pixels().len() == old(framebuf).pixels().len(),
        forall|i: int| 0 <= i < final(framebuf).pixels().len()
            ==> final(framebuf).pixels()[i] == spec_black(),
{
    framebuf.clear();
}

/// Sets the size of the frame buffer, painting newly gained pixels black.
pub fn set_framebuf_size(framebuf: &mut FrameBuffer, width: usize, height: usize)
    requires
        width * height <= usize::MAX,
    ensures
        final(framebuf).wf(),
        final(framebuf).spec_width() == width,
        final(framebuf).spec_height() == height,
{
    let black = Rgb888::black();
    framebuf.resize(width, height, black);
}

/// Draws a pixel with `color` at `pos` in the frame buffer.
pub fn draw_pixel(framebuf: &mut FrameBuffer, pos: Point, color: Rgb888)
    requires
        old(framebuf).wf(),
        0 <= pos.x < old(framebuf).spec_width(),
        0 <= pos.y < old(framebuf).spec_height(),
    ensures
        final(framebuf).wf(),
        final(framebuf).spec_width() == old(framebuf).spec_width(),
        final(framebuf).spec_height() == old(framebuf).spec_height(),
        final(framebuf).pixels() == old(framebuf).pixels().update(
            pos.y * old(framebuf).spec_width() + pos.x,
            color,
        ),
{
    framebuf.set_pixel_color(pos, color);
}

} // verus!
