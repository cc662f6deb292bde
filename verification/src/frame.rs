//! The frame buffer: a rectangle of colours, stored row by row from the top.

use vstd::prelude::*;
use crate::colorf::ColorF;

verus! {

/// What a frame holds: its size and its pixels in row-major order.
pub struct FrameView {
    pub width: nat,
    pub height: nat,
    pub pixels: Seq<ColorF>,
}

impl FrameView {
    /// The place of the pixel in column `x` of row `y`.
    pub open spec fn index_of(self, x: int, y: int) -> int {
        self.width * y + x
    }

    /// The pixel in column `x` of row `y`.
    pub open spec fn pixel(self, x: int, y: int) -> ColorF {
        self.pixels[self.index_of(x, y)]
    }

    /// One colour for each pixel.
    pub open spec fn wf(self) -> bool {
        self.pixels.len() == self.width * self.height
    }

    /// Whether column `x` of row `y` lies inside the frame.
    pub open spec fn inside(self, x: int, y: int) -> bool {
        0 <= x < self.width && 0 <= y < self.height
    }

    /// Every pixel inside the frame has a place in the data.
    pub proof fn lemma_index_in_bounds(self, x: int, y: int)
        requires
            self.wf(),
            self.inside(x, y),
        ensures
            0 <= self.index_of(x, y) < self.pixels.len(),
    {
        assert(self.width * y + self.width <= self.width * self.height) by (nonlinear_arith)
            requires
                0 <= y < self.height,
                0 <= self.width,
        ;
        assert(0 <= self.width * y) by (nonlinear_arith)
            requires
                0 <= y,
                0 <= self.width,
        ;
    }

    /// Two pixels inside the frame share a place only if they are one
    /// pixel: a write to one never shows in another.
    pub proof fn lemma_index_injective(self, x1: int, y1: int, x2: int, y2: int)
        requires
            self.inside(x1, y1),
            self.inside(x2, y2),
            self.index_of(x1, y1) == self.index_of(x2, y2),
        ensures
            x1 == x2,
            y1 == y2,
    {
        let w = self.width as int;
        if y1 < y2 {
            assert(w * y1 + w <= w * y2) by (nonlinear_arith)
                requires
                    y1 < y2,
                    0 <= w,
            ;
        } else if y2 < y1 {
            assert(w * y2 + w <= w * y1) by (nonlinear_arith)
                requires
                    y2 < y1,
                    0 <= w,
            ;
        }
    }

    /// Rows follow each other from the top, and within a row the columns
    /// from the left: the place `i` of the data is column `i % width` of
    /// row `i / width`.
    pub proof fn lemma_index_of_place(self, i: int)
        requires
            self.wf(),
            0 <= i < self.pixels.len(),
        ensures
            self.inside(i % (self.width as int), i / (self.width as int)),
            self.index_of(i % (self.width as int), i / (self.width as int)) == i,
    {
        let w = self.width as int;
        let h = self.height as int;
        assert(w > 0) by (nonlinear_arith)
            requires
                0 <= i < w * h,
                0 <= w,
        ;
        vstd::arithmetic::div_mod::lemma_fundamental_div_mod(i, w);
        vstd::arithmetic::div_mod::lemma_div_pos_is_pos(i, w);
        assert(i / w < h) by (nonlinear_arith)
            requires
                i < w * h,
                w > 0,
                i == w * (i / w) + i % w,
                0 <= i % w,
        ;
    }
}

/// A buffer of `width` by `height` colours.
pub struct Frame {
    data: Vec<ColorF>,
    width: usize,
    height: usize,
}

impl View for Frame {
    type V = FrameView;

    closed spec fn view(&self) -> FrameView {
        FrameView { width: self.width as nat, height: self.height as nat, pixels: self.data@ }
    }
}

impl Clone for Frame {
    /// A frame of the same size with the same pixels.
    fn clone(&self) -> (copy: Frame)
        ensures
            copy@ == self@,
    {
        let data = self.data.clone();
        assert(data@ =~= self.data@);
        Frame { data, width: self.width, height: self.height }
    }
}

impl Frame {
    /// A frame is well formed when it holds one colour for each pixel.
    /// `new` makes such a frame and every method keeps it so; only a caller
    /// that changes the length through `data_mut` can break it.
    pub open spec fn wf(&self) -> bool {
        self@.wf()
    }

    /// A frame of the given size, all black.
    pub fn new(width: usize, height: usize) -> (frame: Frame)
        requires
            width * height <= usize::MAX,
        ensures
            frame.wf(),
            frame@.width == width,
            frame@.height == height,
            frame@.pixels =~= Seq::new(
                (width * height) as nat,
                |i: int| ColorF::primary(false, false, false),
            ),
    {
        let black = ColorF::black();
        let cont = vec![black; width * height];
        Frame { data: cont, width, height }
    }

    /// The pixels in row-major order, top row first.
    pub fn data(&self) -> (r: &Vec<ColorF>)
        ensures
            r@ == self@.pixels,
    {
        &self.data
    }

    /// The pixels, to be written in place. The frame stays well formed as
    /// long as the length is left alone.
    pub fn data_mut(&mut self) -> (r: &mut Vec<ColorF>)
        ensures
            r@ == old(self)@.pixels,
            final(self)@.pixels == final(r)@,
            final(self)@.width == old(self)@.width,
            final(self)@.height == old(self)@.height,
    {
        &mut self.data
    }

    pub fn width(&self) -> (w: usize)
        ensures
            w == self@.width,
    {
        self.width
    }

    pub fn height(&self) -> (h: usize)
        ensures
            h == self@.height,
    {
        self.height
    }

    /// The pixel in column `x` of row `y`.
    pub fn get_pixel(&self, x: usize, y: usize) -> (c: &ColorF)
        requires
            self@.index_of(x as int, y as int) < self@.pixels.len(),
        ensures
            *c == self@.pixel(x as int, y as int),
    {
        assert(self@.pixels.len() == self.data.len());
        let index = self.get_index(x, y);
        &self.data[index]
    }

    /// Writes the pixel in column `x` of row `y` and no other.
    pub fn set_pixel(&mut self, x: usize, y: usize, color: &ColorF)
        requires
            old(self)@.index_of(x as int, y as int) < old(self)@.pixels.len(),
        ensures
            final(self)@.width == old(self)@.width,
            final(self)@.height == old(self)@.height,
            final(self)@.pixels == old(self)@.pixels.update(
                old(self)@.index_of(x as int, y as int),
                *color,
            ),
            old(self).wf() ==> final(self).wf(),
    {
        assert(self@.pixels.len() == self.data.len());
        let index = self.get_index(x, y);
        self.data[index] = *color;
    }

    /// Writes every pixel.
    pub fn fill(&mut self, color: &ColorF)
        ensures
            final(self)@.width == old(self)@.width,
            final(self)@.height == old(self)@.height,
            final(self)@.pixels.len() == old(self)@.pixels.len(),
            forall|i: int| 0 <= i < final(self)@.pixels.len() ==> final(self)@.pixels[i] == *color,
            old(self).wf() ==> final(self).wf(),
    {
        let n = self.data.len();
        let mut i: usize = 0;
        while i < n
            invariant
                i <= n,
                n == self.data.len(),
                self.width == old(self).width,
                self.height == old(self).height,
                self.data.len() == old(self).data.len(),
                forall|j: int| 0 <= j < i ==> self.data@[j] == *color,
            decreases n - i,
        {
            self.data[i] = *color;
            i += 1;
        }
    }

    /// The place of the pixel in column `x` of row `y` in the data.
    fn get_index(&self, x: usize, y: usize) -> (index: usize)
        requires
            self@.index_of(x as int, y as int) <= usize::MAX,
        ensures
            index == self@.index_of(x as int, y as int),
    {
        assert(self.width * y <= self.width * y + x);
        self.width * y + x
    }
}

} // verus!
