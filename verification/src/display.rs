//! The frame buffer itself.

use vstd::prelude::*;

use core::convert::Infallible;
use embedded_graphics::pixelcolor::BinaryColor;
use vstd::std_specs::convert::FromSpec;
use vstd::std_specs::iter::IteratorSpec;

use crate::color::{binary_color, binary_color_of};
use crate::geometry::{to_unsigned, Pixel, Point, Size};

verus! {

/// The store after one pixel write: the pixel's slot takes its colour; a
/// pixel outside the grid changes nothing.
pub open spec fn painted<C>(store: Seq<C>, size: Size, pixel: Pixel<C>) -> Seq<C> {
    match size.index_of(pixel.0) {
        Some(index) => store.update(index, pixel.1),
        None => store,
    }
}

/// The store after the writes of `pixels`, applied first to last.
pub open spec fn painted_all<C>(store: Seq<C>, size: Size, pixels: Seq<Pixel<C>>) -> Seq<C>
    decreases pixels.len(),
{
    if pixels.len() == 0 {
        store
    } else {
        painted(painted_all(store, size, pixels.drop_last()), size, pixels.last())
    }
}

/// A display that lives in memory: one colour per grid cell, row by row.
#[derive(Debug)]
pub struct InMemoryDisplay<C> {
    size: Size,
    pixels: Vec<C>,
}

impl<C> View for InMemoryDisplay<C> {
    type V = Seq<C>;

    /// The stored colours in row-major order.
    closed spec fn view(&self) -> Seq<C> {
        self.pixels@
    }
}

impl<C> InMemoryDisplay<C> {
    /// The dimensions the display was made with.
    pub closed spec fn dimensions(self) -> Size {
        self.size
    }

    /// The store holds exactly one colour per grid cell.
    #[verifier::type_invariant]
    pub open spec fn well_formed(self) -> bool {
        self@.len() == self.dimensions().area()
    }

    /// The write that replays slot `index`: the point the slot decodes to,
    /// with the colour stored there.
    pub open spec fn pixel(self, index: int) -> Pixel<C>
        recommends
            0 <= index < self@.len(),
    {
        Pixel(self.dimensions().point_at(index), self@[index])
    }

    /// Every slot as one write, slot 0 first.
    pub open spec fn pixel_seq(self) -> Seq<Pixel<C>> {
        Seq::new(self@.len(), |index: int| self.pixel(index))
    }

    /// The colour stored for `point`, where the grid contains it.
    pub open spec fn color_at(self, point: Point) -> C
        recommends
            self.dimensions().contains(point),
    {
        self@[self.dimensions().index_of(point)->0]
    }
}

impl<C: Copy> InMemoryDisplay<C> {
    /// A display of the given size in which every cell holds `color`.
    ///
    /// Width times height has to fit a `usize`, as the length of the store.
    pub fn filled(size: Size, color: C) -> (display: Self)
        requires
            size.area() <= usize::MAX,
        ensures
            display.well_formed(),
            display.dimensions() == size,
            display@ == Seq::new(size.area(), |i: int| color),
    {
        assert(size.width * size.height <= usize::MAX);
        let pixel_count: usize = size.width as usize * size.height as usize;
        let mut pixels: Vec<C> = Vec::new();
        let mut filled: usize = 0;
        while filled < pixel_count
            invariant
                filled <= pixel_count,
                pixels@ == Seq::new(filled as nat, |i: int| color),
            decreases pixel_count - filled,
        {
            pixels.push(color);
            filled = filled + 1;
            assert(pixels@ =~= Seq::new(filled as nat, |i: int| color));
        }
        InMemoryDisplay { size, pixels }
    }

    /// A display of the given size in which every cell holds the colour that
    /// `C` makes of the binary "off".
    ///
    /// Whatever `C::from` hands back, all cells hold that one colour; where
    /// `C` states what its conversion computes, the cells hold exactly that.
    pub fn new(size: Size) -> (display: Self)
        where C: From<BinaryColor>
        requires
            size.area() <= usize::MAX,
        ensures
            display.well_formed(),
            display.dimensions() == size,
            forall|i: int, j: int|
                0 <= i < display@.len() && 0 <= j < display@.len() ==> display@[i] == display@[j],
            C::obeys_from_spec() ==> display@ == Seq::new(
                size.area(),
                |i: int| C::from_spec(binary_color(false)),
            ),
    {
        let background = C::from(binary_color_of(false));
        Self::filled(size, background)
    }

    /// The row-major slot of `point`, column plus row times width, or `None`
    /// where the point lies outside the grid. Every bounds test of the
    /// display goes through this function.
    pub fn point_to_index(&self, point: Point) -> (index: Option<usize>)
        ensures
            match index {
                Some(i) => self.dimensions().index_of(point) == Some(i as int) && i < self@.len(),
                None => self.dimensions().index_of(point) is None,
            },
    {
        proof {
            use_type_invariant(self);
        }
        if let Some((x, y)) = to_unsigned(point) {
            if x < self.size.width && y < self.size.height {
                assert(0 <= y * self.size.width <= x + y * self.size.width < self.size.width
                    * self.size.height) by (nonlinear_arith)
                    requires
                        x < self.size.width,
                        y < self.size.height,
                ;
                assert(self.size.width * self.size.height == self.pixels.len());
                return Some(x as usize + y as usize * self.size.width as usize);
            }
        }
        None
    }

    /// The colour at `point`.
    ///
    /// Reading is not checked: the caller keeps `point` inside the grid, and
    /// asks `point_to_index` first where it cannot tell. Compiled without
    /// that proof, a read outside the grid panics.
    pub fn get_pixel(&self, point: Point) -> (color: C)
        requires
            self.dimensions().contains(point),
        ensures
            color == self.color_at(point),
    {
        let index = self.point_to_index(point).expect("can't get point outside of display");
        self.pixels[index]
    }

    /// Writes one pixel, or drops it where it lies outside the grid.
    fn put(&mut self, pixel: Pixel<C>)
        ensures
            final(self).well_formed(),
            final(self).dimensions() == old(self).dimensions(),
            final(self)@ == painted(old(self)@, old(self).dimensions(), pixel),
    {
        proof {
            use_type_invariant(&*self);
        }
        let Pixel(point, color) = pixel;
        if let Some(index) = self.point_to_index(point) {
            self.pixels[index] = color;
        }
    }

    /// Writes the pixels in the order in which `pixels` yields them, one at
    /// a time and without collecting them first. Those outside the grid are
    /// dropped without a sign, so the call never fails.
    ///
    /// The iterator has to come to an end: it follows the iterator laws and
    /// carries a measure that shrinks with every item.
    pub fn draw_iter<I>(&mut self, pixels: I) -> (result: Result<(), Infallible>)
        where I: Iterator<Item = Pixel<C>>
        requires
            pixels.obeys_prophetic_iter_laws(),
            pixels.decrease() is Some,
        ensures
            result is Ok,
            final(self).well_formed(),
            final(self).dimensions() == old(self).dimensions(),
            final(self)@ == painted_all(old(self)@, old(self).dimensions(), pixels.remaining()),
    {
        proof {
            use_type_invariant(&*self);
        }
        let mut rest = pixels;
        let ghost mut done: Seq<Pixel<C>> = Seq::empty();
        loop
            invariant
                rest.obeys_prophetic_iter_laws(),
                rest.decrease() is Some,
                done + rest.remaining() == pixels.remaining(),
                self.well_formed(),
                self.dimensions() == old(self).dimensions(),
                self@ == painted_all(old(self)@, old(self).dimensions(), done),
            ensures
                done == pixels.remaining(),
            decreases rest.decrease()->0,
        {
            let ghost ahead = rest.remaining();
            match rest.next() {
                Some(pixel) => {
                    self.put(pixel);
                    proof {
                        assert(done.push(pixel) + ahead.drop_first() =~= done + ahead);
                        assert(done.push(pixel).drop_last() =~= done);
                        done = done.push(pixel);
                    }
                },
                None => {
                    assert(done =~= done + ahead);
                    break;
                },
            }
        }
        Ok(())
    }

    /// The number of slots: width times height.
    pub fn pixel_count(&self) -> (count: usize)
        ensures
            count == self@.len(),
            count == self.dimensions().area(),
    {
        proof {
            use_type_invariant(self);
        }
        self.pixels.len()
    }

    /// The write that replays slot `index`: column `index mod width`, row
    /// `index div width`, and the colour stored in the slot.
    pub fn pixel_at(&self, index: usize) -> (pixel: Pixel<C>)
        requires
            index < self@.len(),
        ensures
            pixel == self.pixel(index as int),
    {
        proof {
            use_type_invariant(self);
            assert(self.size.width != 0) by (nonlinear_arith)
                requires
                    0 <= index < self.size.width * self.size.height,
            ;
        }
        let width = self.size.width as usize;
        let x = #[verifier::truncate] ((index % width) as i32);
        let y = #[verifier::truncate] ((index / width) as i32);
        Pixel(Point::new(x, y), self.pixels[index])
    }

    /// Every slot as one write, in row-major order.
    pub fn pixels(&self) -> (pixels: Vec<Pixel<C>>)
        ensures
            pixels@ == self.pixel_seq(),
    {
        let count = self.pixel_count();
        let mut pixels: Vec<Pixel<C>> = Vec::new();
        let mut index: usize = 0;
        while index < count
            invariant
                count == self@.len(),
                index <= count,
                pixels@ == self.pixel_seq().take(index as int),
            decreases count - index,
        {
            pixels.push(self.pixel_at(index));
            index = index + 1;
            assert(pixels@ =~= self.pixel_seq().take(index as int));
        }
        assert(pixels@ =~= self.pixel_seq());
        pixels
    }

    /// Replays every slot onto `display`, slot 0 first, without changing
    /// this display and without collecting the writes first. Slots whose
    /// point `display` does not contain are dropped there.
    pub fn update(&self, display: &mut InMemoryDisplay<C>) -> (result: Result<(), Infallible>)
        ensures
            result is Ok,
            final(display).well_formed(),
            final(display).dimensions() == old(display).dimensions(),
            final(display)@ == painted_all(old(display)@, old(display).dimensions(), self.pixel_seq()),
    {
        proof {
            use_type_invariant(&*display);
        }
        let count = self.pixel_count();
        let mut index: usize = 0;
        while index < count
            invariant
                count == self@.len(),
                index <= count,
                display.well_formed(),
                display.dimensions() == old(display).dimensions(),
                display@ == painted_all(
                    old(display)@,
                    old(display).dimensions(),
                    self.pixel_seq().take(index as int),
                ),
            decreases count - index,
        {
            display.put(self.pixel_at(index));
            index = index + 1;
            assert(self.pixel_seq().take(index as int).drop_last() =~= self.pixel_seq().take(
                index - 1,
            ));
        }
        assert(self.pixel_seq().take(index as int) =~= self.pixel_seq());
        Ok(())
    }

    /// The fixed dimensions.
    pub fn size(&self) -> (size: Size)
        ensures
            size == self.dimensions(),
    {
        self.size
    }
}

} // verus!
