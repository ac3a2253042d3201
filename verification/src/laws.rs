//! What holds of the display's model, whatever the sizes, points and colours.

use vstd::prelude::*;

use crate::display::{painted_all, InMemoryDisplay};
use crate::geometry::{Pixel, Point, Size};

verus! {

/// A point inside the grid encodes to a slot below width times height, and
/// that slot decodes back to the point.
pub proof fn point_encodes_to_slot(size: Size, point: Point)
    requires
        size.contains(point),
    ensures
        size.index_of(point) == Some(point.x + point.y * size.width),
        0 <= size.index_of(point)->0 < size.area(),
        size.point_at(size.index_of(point)->0) == point,
{
    let w = size.width as int;
    let h = size.height as int;
    let x = point.x as int;
    let y = point.y as int;
    assert(0 <= x + y * w < w * h && (x + y * w) % w == x && (x + y * w) / w == y)
        by (nonlinear_arith)
        requires
            0 <= x < w,
            0 <= y < h,
    ;
}

/// A point outside the grid, negative or too far right or down, has no slot.
pub proof fn point_outside_has_no_slot(size: Size, point: Point)
    requires
        point.x < 0 || point.y < 0 || point.x >= size.width || point.y >= size.height,
    ensures
        size.index_of(point) is None,
{
}

/// In a grid whose cells all fit a `Point`, each slot decodes to a point
/// of the grid that encodes to the same slot again: no two slots share a
/// point.
pub proof fn slot_decodes_to_point(size: Size, index: int)
    requires
        size.addressable(),
        0 <= index < size.area(),
    ensures
        size.contains(size.point_at(index)),
        size.index_of(size.point_at(index)) == Some(index),
{
    let w = size.width as int;
    let h = size.height as int;
    assert(w > 0 && h > 0 && 0 <= index % w < w && 0 <= index / w < h && index % w + (index / w)
        * w == index) by (nonlinear_arith)
        requires
            0 <= index < w * h,
            0 <= w,
            0 <= h,
    ;
}

/// Two points of the grid that encode to one slot are one point.
pub proof fn slot_names_one_point(size: Size, first: Point, second: Point)
    requires
        size.contains(first),
        size.contains(second),
        size.index_of(first) == size.index_of(second),
    ensures
        first == second,
{
    point_encodes_to_slot(size, first);
    point_encodes_to_slot(size, second);
}

/// Writes never change how many slots the store has.
pub proof fn painting_keeps_length<C>(store: Seq<C>, size: Size, pixels: Seq<Pixel<C>>)
    requires
        store.len() == size.area(),
    ensures
        painted_all(store, size, pixels).len() == store.len(),
    decreases pixels.len(),
{
    if pixels.len() > 0 {
        painting_keeps_length(store, size, pixels.drop_last());
        if size.contains(pixels.last().0) {
            point_encodes_to_slot(size, pixels.last().0);
        }
    }
}

/// A display in which every slot holds one colour shows that colour at
/// every point of its grid.
pub proof fn filled_display_shows_color<C>(display: InMemoryDisplay<C>, color: C, point: Point)
    requires
        display@ == Seq::new(display.dimensions().area(), |i: int| color),
        display.dimensions().contains(point),
    ensures
        display.color_at(point) == color,
{
    point_encodes_to_slot(display.dimensions(), point);
}

/// Writing one pixel inside the grid makes its point show the new colour
/// and leaves every other point as it was.
pub proof fn write_inside_sets_one_point<C>(
    before: InMemoryDisplay<C>,
    after: InMemoryDisplay<C>,
    point: Point,
    color: C,
)
    requires
        before.well_formed(),
        before.dimensions().contains(point),
        after.dimensions() == before.dimensions(),
        after@ == painted_all(before@, before.dimensions(), seq![Pixel(point, color)]),
    ensures
        after.well_formed(),
        after@ == before@.update(before.dimensions().index_of(point)->0, color),
        after.color_at(point) == color,
        forall|other: Point| #[trigger]
            before.dimensions().contains(other) && other != point ==> after.color_at(other)
                == before.color_at(other),
{
    let size = before.dimensions();
    let pixels = seq![Pixel(point, color)];
    point_encodes_to_slot(size, point);
    assert(pixels.drop_last() =~= Seq::empty());
    assert(painted_all(before@, size, pixels.drop_last()) == before@);
    assert(pixels.last() == Pixel(point, color));
    assert forall|other: Point| #[trigger]
        size.contains(other) && other != point implies after.color_at(other) == before.color_at(
        other,
    ) by {
        point_encodes_to_slot(size, other);
        if size.index_of(other) == size.index_of(point) {
            slot_names_one_point(size, other, point);
        }
    }
}

/// Writing pixels that all lie outside the grid changes nothing.
pub proof fn writes_outside_change_nothing<C>(store: Seq<C>, size: Size, pixels: Seq<Pixel<C>>)
    requires
        forall|i: int| 0 <= i < pixels.len() ==> !size.contains(#[trigger] pixels[i].0),
    ensures
        painted_all(store, size, pixels) == store,
    decreases pixels.len(),
{
    if pixels.len() > 0 {
        writes_outside_change_nothing(store, size, pixels.drop_last());
    }
}

/// Writing one pixel outside the grid changes nothing.
pub proof fn write_outside_changes_nothing<C>(store: Seq<C>, size: Size, point: Point, color: C)
    requires
        !size.contains(point),
    ensures
        painted_all(store, size, seq![Pixel(point, color)]) == store,
{
    writes_outside_change_nothing(store, size, seq![Pixel(point, color)]);
}

/// The colour of the last pixel of `pixels` that falls on `slot`, if any
/// does.
pub open spec fn last_write<C>(size: Size, pixels: Seq<Pixel<C>>, slot: int) -> Option<C>
    decreases pixels.len(),
{
    if pixels.len() == 0 {
        None
    } else if size.index_of(pixels.last().0) == Some(slot) {
        Some(pixels.last().1)
    } else {
        last_write(size, pixels.drop_last(), slot)
    }
}

/// After a run of writes each slot holds the colour of the last write that
/// fell on it, or what it held before where none did.
pub proof fn slot_holds_last_write<C>(store: Seq<C>, size: Size, pixels: Seq<Pixel<C>>, slot: int)
    requires
        store.len() == size.area(),
        0 <= slot < store.len(),
    ensures
        painted_all(store, size, pixels)[slot] == match last_write(size, pixels, slot) {
            Some(color) => color,
            None => store[slot],
        },
    decreases pixels.len(),
{
    if pixels.len() > 0 {
        let earlier = pixels.drop_last();
        slot_holds_last_write(store, size, earlier, slot);
        painting_keeps_length(store, size, earlier);
        if size.contains(pixels.last().0) {
            point_encodes_to_slot(size, pixels.last().0);
        }
    }
}

/// Writing the same pixels a second time changes nothing more.
pub proof fn drawing_twice_equals_once<C>(store: Seq<C>, size: Size, pixels: Seq<Pixel<C>>)
    requires
        store.len() == size.area(),
    ensures
        painted_all(painted_all(store, size, pixels), size, pixels) == painted_all(
            store,
            size,
            pixels,
        ),
{
    let once = painted_all(store, size, pixels);
    let twice = painted_all(once, size, pixels);
    painting_keeps_length(store, size, pixels);
    painting_keeps_length(once, size, pixels);
    assert forall|slot: int| 0 <= slot < once.len() implies twice[slot] == once[slot] by {
        slot_holds_last_write(store, size, pixels, slot);
        slot_holds_last_write(once, size, pixels, slot);
    }
    assert(twice =~= once);
}

/// Replaying the first `count` slots of `source` onto a store of the same
/// size copies exactly those slots.
proof fn replayed_prefix<C>(source: InMemoryDisplay<C>, target: Seq<C>, count: int)
    requires
        source.well_formed(),
        source.dimensions().addressable(),
        target.len() == source@.len(),
        0 <= count <= source@.len(),
    ensures
        painted_all(target, source.dimensions(), source.pixel_seq().take(count)) == Seq::new(
            target.len(),
            |slot: int|
                if slot < count {
                    source@[slot]
                } else {
                    target[slot]
                },
        ),
    decreases count,
{
    let size = source.dimensions();
    let replayed = source.pixel_seq().take(count);
    let copied = Seq::new(
        target.len(),
        |slot: int|
            if slot < count {
                source@[slot]
            } else {
                target[slot]
            },
    );
    if count == 0 {
        assert(painted_all(target, size, replayed) =~= copied);
    } else {
        replayed_prefix(source, target, count - 1);
        slot_decodes_to_point(size, count - 1);
        assert(replayed.drop_last() =~= source.pixel_seq().take(count - 1));
        assert(replayed.last() == source.pixel(count - 1));
        assert(painted_all(target, size, replayed) =~= copied);
    }
}

/// Replaying a display onto a store of the same size makes the store an
/// exact copy of the display, provided every cell of the grid fits a
/// `Point`: each slot is written once, at its own place.
pub proof fn update_copies_contents<C>(source: InMemoryDisplay<C>, target: Seq<C>)
    requires
        source.well_formed(),
        source.dimensions().addressable(),
        target.len() == source@.len(),
    ensures
        source.pixel_seq().len() == source.dimensions().area(),
        painted_all(target, source.dimensions(), source.pixel_seq()) == source@,
{
    replayed_prefix(source, target, source@.len() as int);
    assert(source.pixel_seq().take(source@.len() as int) =~= source.pixel_seq());
    assert(painted_all(target, source.dimensions(), source.pixel_seq()) =~= source@);
}

/// The replayed sequence depends on nothing but the dimensions and the
/// stored colours: replaying an unchanged display again gives the same
/// sequence.
pub proof fn replay_is_repeatable<C>(first: InMemoryDisplay<C>, second: InMemoryDisplay<C>)
    requires
        first.dimensions() == second.dimensions(),
        first@ == second@,
    ensures
        first.pixel_seq() == second.pixel_seq(),
{
    assert(first.pixel_seq() =~= second.pixel_seq());
}

} // verus!
