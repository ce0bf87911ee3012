//! The pyramid of tiles: the squares that a drawing is cut into at each
//! level of zoom, and the part of the drawing in each of them.
use vstd::prelude::*;
use vstd::arithmetic::div_mod::{
    lemma_fundamental_div_mod_converse_div, lemma_fundamental_div_mod_converse_mod,
};
use vstd::arithmetic::power2::{lemma2_to64, lemma_pow2_strictly_increases, lemma_pow2_unfold, pow2};
use crate::bounding_box::{BoundingBox, BoundingSquare, Vector2};
use crate::scalar::Scalar;
use crate::svg_parser::{
    element_shape, from_svg_data_spec, select_spec, shape_of, ElementView, Failure, ParseError,
    SvgElement,
};

verus! {

/// The place of a tile: its level of zoom, and its column and row among the
/// tiles of that level, both counted from zero.
#[derive(Debug, Clone, Copy, Hash, PartialEq, Eq)]
pub struct TileCoords {
    /// The column in `x`, the row in `y`.
    pub location: Vector2<u32>,
    pub zoom: u32,
}

/// How many tiles lie side by side at a level of zoom: two to the power of
/// the level.
pub open spec fn side(zoom: u32) -> nat {
    pow2(zoom as nat)
}

/// The deepest level of zoom whose columns and rows can be counted.
pub const MAX_ZOOM: u32 = 31;

impl TileCoords {
    /// Whether the tile exists: its column and row lie within its level.
    pub open spec fn valid(self) -> bool {
        &&& self.zoom <= MAX_ZOOM
        &&& self.location.x < side(self.zoom)
        &&& self.location.y < side(self.zoom)
    }

    /// The place of the tile in the order of its level: row after row, and
    /// within a row column after column.
    pub open spec fn index(self) -> int {
        self.location.y * side(self.zoom) + self.location.x
    }

    pub fn new(location: Vector2<u32>, zoom: u32) -> (r: Self)
        ensures
            r == (TileCoords { location, zoom }),
    {
        Self { location, zoom }
    }
}

/// The tile at place `i` in the order of a level.
pub open spec fn level_tile(zoom: u32, i: int) -> TileCoords {
    TileCoords {
        location: Vector2 { x: (i % side(zoom) as int) as u32, y: (i / side(zoom) as int) as u32 },
        zoom,
    }
}

/// The tiles of one level in order: the first row from left to right, then
/// the second, and so on.
pub open spec fn level(zoom: u32) -> Seq<TileCoords> {
    Seq::new(side(zoom) * side(zoom), |i: int| level_tile(zoom, i))
}

/// The tiles of the levels from `first` to `last` in order, level after
/// level.
pub open spec fn levels(first: int, last: int) -> Seq<TileCoords>
    decreases last + 1 - first,
{
    if first > last || first < 0 || last > MAX_ZOOM {
        Seq::empty()
    } else {
        level(first as u32) + levels(first + 1, last)
    }
}

/// The place `row * side + col` lies in row `row` and column `col`.
proof fn lemma_cell(side: int, col: int, row: int)
    requires
        0 <= col < side,
        0 <= row < side,
    ensures
        (row * side + col) % side == col,
        (row * side + col) / side == row,
        0 <= row * side + col < side * side,
        (row + 1) * side == row * side + side,
{
    lemma_fundamental_div_mod_converse_mod(row * side + col, side, row, col);
    lemma_fundamental_div_mod_converse_div(row * side + col, side, row, col);
    assert(0 <= row * side + col < side * side && (row + 1) * side == row * side + side)
        by (nonlinear_arith)
        requires
            0 <= col < side,
            0 <= row < side,
    ;
}

/// A level of zoom up to the deepest has at most two to the power of 31
/// tiles side by side.
proof fn lemma_side_bound(zoom: u32)
    requires
        zoom <= MAX_ZOOM,
    ensures
        0 < side(zoom) <= 0x8000_0000,
{
    lemma2_to64();
    if zoom < 31 {
        lemma_pow2_strictly_increases(zoom as nat, 31);
    }
    vstd::arithmetic::power2::lemma_pow2_pos(zoom as nat);
}

/// Every tile of a level lies within the level, and stands at its own
/// place in the order.
pub proof fn lemma_level_tiles(zoom: u32, i: int)
    requires
        zoom <= MAX_ZOOM,
        0 <= i < level(zoom).len(),
    ensures
        level(zoom)[i].valid(),
        level(zoom)[i].zoom == zoom,
        level(zoom)[i].index() == i,
{
    lemma_side_bound(zoom);
    let s = side(zoom) as int;
    assert(0 <= i % s < s && 0 <= i / s < s && s * (i / s) + i % s == i) by (nonlinear_arith)
        requires
            0 <= i < s * s,
            s > 0,
    ;
    assert(s * (i / s) == (i / s) * s) by (nonlinear_arith);
}

/// A level of zoom `z` has four to the power of `z` tiles: as many as its
/// side has, squared.
pub proof fn lemma_level_len(zoom: u32)
    ensures
        level(zoom).len() == side(zoom) * side(zoom),
        zoom == 0 ==> level(zoom).len() == 1,
        zoom == 1 ==> level(zoom).len() == 4,
        zoom == 2 ==> level(zoom).len() == 16,
{
    lemma2_to64();
    let s = side(zoom);
    if zoom == 0 {
        assert(s * s == 1) by (nonlinear_arith)
            requires
                s == 1,
        ;
    } else if zoom == 1 {
        assert(s * s == 4) by (nonlinear_arith)
            requires
                s == 2,
        ;
    } else if zoom == 2 {
        assert(s * s == 16) by (nonlinear_arith)
            requires
                s == 4,
        ;
    }
}

/// The levels from 0 to 2 have 1 + 4 + 16 tiles together.
pub proof fn lemma_three_levels_len()
    ensures
        levels(0, 2).len() == 21,
{
    lemma_level_len(0);
    lemma_level_len(1);
    lemma_level_len(2);
    reveal_with_fuel(levels, 4);
}

/// Every tile of the levels from `first` to `last` exists and lies in one of
/// those levels.
pub proof fn lemma_levels_tiles(first: int, last: int, i: int)
    requires
        0 <= i < levels(first, last).len(),
    ensures
        levels(first, last)[i].valid(),
        first <= levels(first, last)[i].zoom <= last,
    decreases last + 1 - first,
{
    if first > last || first < 0 || last > MAX_ZOOM {
    } else if i < level(first as u32).len() {
        lemma_level_tiles(first as u32, i);
    } else {
        lemma_levels_tiles(first + 1, last, i - level(first as u32).len());
    }
}

/// No tile occurs twice among the levels from `first` to `last`.
pub proof fn lemma_levels_distinct(first: int, last: int, i: int, j: int)
    requires
        0 <= i < j < levels(first, last).len(),
    ensures
        levels(first, last)[i] != levels(first, last)[j],
    decreases last + 1 - first,
{
    if first > last || first < 0 || last > MAX_ZOOM {
    } else {
        let n = level(first as u32).len() as int;
        if j < n {
            lemma_level_tiles(first as u32, i);
            lemma_level_tiles(first as u32, j);
        } else if i < n {
            lemma_level_tiles(first as u32, i);
            lemma_levels_tiles(first + 1, last, j - n);
        } else {
            lemma_levels_distinct(first + 1, last, i - n, j - n);
        }
    }
}

/// Walks the tiles of one level of zoom, or of several, in order.
pub struct TileIterator {
    coords: Option<TileCoords>,
    last_zoom: u32,
}

impl TileIterator {
    #[verifier::type_invariant]
    spec fn well_formed(self) -> bool {
        &&& self.last_zoom <= MAX_ZOOM
        &&& self.coords matches Some(coords) ==> coords.valid() && coords.zoom <= self.last_zoom
    }

    /// The tiles that are still to come, in order.
    pub closed spec fn remaining(self) -> Seq<TileCoords> {
        match self.coords {
            None => Seq::empty(),
            Some(coords) => level(coords.zoom).skip(coords.index()) + levels(
                coords.zoom + 1,
                self.last_zoom as int,
            ),
        }
    }

    /// Starts at the first tile of the level `zoom_level`, which is the only
    /// level walked.
    pub fn new(zoom_level: u32) -> (r: Self)
        requires
            zoom_level <= MAX_ZOOM,
        ensures
            r.remaining() == level(zoom_level),
    {
        let r = Self::over(zoom_level, zoom_level);
        proof {
            reveal_with_fuel(levels, 2);
            assert(level(zoom_level) + Seq::<TileCoords>::empty() == level(zoom_level));
        }
        r
    }

    /// Starts at the first tile of the level `min_zoom`; the levels up to
    /// `max_zoom` follow.
    pub fn over(min_zoom: u32, max_zoom: u32) -> (r: Self)
        requires
            min_zoom <= max_zoom <= MAX_ZOOM,
        ensures
            r.remaining() == levels(min_zoom as int, max_zoom as int),
    {
        let initial_coords = TileCoords::new(Vector2 { x: 0, y: 0 }, min_zoom);
        proof {
            lemma_side_bound(min_zoom);
            assert(level(min_zoom).skip(0) == level(min_zoom));
        }
        Self { coords: Some(initial_coords), last_zoom: max_zoom }
    }

    /// The greatest column and row of a level.
    pub fn max_coords_for_zoom_level(zoom_level: u32) -> (r: u32)
        requires
            zoom_level <= MAX_ZOOM,
        ensures
            r == side(zoom_level) - 1,
    {
        let mut tiles: u32 = 1;
        let mut i: u32 = 0;
        proof {
            lemma2_to64();
        }
        while i < zoom_level
            invariant
                i <= zoom_level <= MAX_ZOOM,
                tiles == side(i),
            decreases zoom_level - i,
        {
            proof {
                lemma_side_bound(i);
                lemma_side_bound((i + 1) as u32);
                lemma_pow2_unfold((i + 1) as nat);
            }
            tiles = tiles * 2;
            i += 1;
        }
        proof {
            lemma_side_bound(zoom_level);
        }
        tiles - 1
    }

    /// Gives the next tile and moves on: to the next column, at the end of a
    /// row to the next row, at the end of a level to the next level, and
    /// after the last level to the end.
    pub fn next(&mut self) -> (r: Option<TileCoords>)
        ensures
            old(self).remaining().len() == 0 ==> r is None && final(self).remaining().len() == 0,
            old(self).remaining().len() > 0 ==> r == Some(old(self).remaining()[0])
                && final(self).remaining() == old(self).remaining().skip(1),
    {
        proof {
            use_type_invariant(&*self);
        }
        let coords = self.coords;
        if let Some(current) = coords {
            let max_coords = Self::max_coords_for_zoom_level(current.zoom);
            let ghost s = side(current.zoom) as int;
            let ghost rest = levels(current.zoom + 1, self.last_zoom as int);
            let ghost tiles = level(current.zoom);
            let ghost at = current.index();
            proof {
                lemma_side_bound(current.zoom);
                lemma_cell(s, current.location.x as int, current.location.y as int);
                assert(tiles[at] == current);
                assert((tiles.skip(at) + rest)[0] == current);
            }
            if current.location.x < max_coords {
                let moved = TileCoords {
                    location: Vector2 { x: current.location.x + 1, y: current.location.y },
                    zoom: current.zoom,
                };
                self.coords = Some(moved);
                assert(moved.index() == at + 1);
                assert(self.remaining() == tiles.skip(at + 1) + rest);
                assert((tiles.skip(at) + rest).skip(1) == tiles.skip(at + 1) + rest);
            } else if current.location.y < max_coords {
                let moved = TileCoords {
                    location: Vector2 { x: 0, y: current.location.y + 1 },
                    zoom: current.zoom,
                };
                self.coords = Some(moved);
                assert(moved.index() == at + 1);
                assert(self.remaining() == tiles.skip(at + 1) + rest);
                assert((tiles.skip(at) + rest).skip(1) == tiles.skip(at + 1) + rest);
            } else if current.zoom < self.last_zoom {
                let moved = TileCoords { location: Vector2 { x: 0, y: 0 }, zoom: current.zoom + 1 };
                proof {
                    lemma_side_bound(moved.zoom);
                    assert(at + 1 == s * s) by (nonlinear_arith)
                        requires
                            at == (s - 1) * s + (s - 1),
                    ;
                    assert(level(moved.zoom).skip(0) == level(moved.zoom));
                    assert((tiles.skip(at) + rest).skip(1) == rest);
                    let up = side(moved.zoom) as int;
                    let row = moved.location.y as int;
                    assert(row * up == 0) by (nonlinear_arith)
                        requires
                            row == 0,
                    ;
                    assert(moved.index() == 0);
                }
                self.coords = Some(moved);
                assert(self.remaining() == level(moved.zoom) + levels(
                    moved.zoom + 1,
                    self.last_zoom as int,
                ));
                assert(self.remaining() == rest);
            } else {
                proof {
                    assert(at + 1 == s * s) by (nonlinear_arith)
                        requires
                            at == (s - 1) * s + (s - 1),
                    ;
                    assert(rest == Seq::<TileCoords>::empty());
                    assert((tiles.skip(at) + rest).skip(1) == Seq::<TileCoords>::empty());
                }
                self.coords = None;
                assert(self.remaining() == Seq::<TileCoords>::empty());
            }
        }
        coords
    }
}

/// The part of a drawing that lies in one tile.
#[derive(Debug)]
pub struct Tile<T> {
    pub image: SvgElement<T>,
}

impl<T: Scalar> Tile<T> {
    pub fn new(image: SvgElement<T>) -> (r: Self)
        ensures
            r.image == image,
    {
        Self { image }
    }

    /// Makes the element of the `svg` crate that is written out for the
    /// tile.
    pub fn as_element(&self) -> (r: svg::node::element::Element)
        ensures
            element_shape(r) == shape_of(self.image@),
    {
        self.image.as_element()
    }
}

/// The square of the tile at `coords` when the one tile of level 0 is
/// `bounds`: its edge is that of `bounds` divided by the number of tiles side
/// by side, and it lies as many edges to the right and down as its column
/// and row say.
pub open spec fn tile_square<T: Scalar>(bounds: BoundingSquare<T>, coords: TileCoords) -> BoundingSquare<
    T,
> {
    let edge_length = bounds.size.over_spec(T::from_u32_spec(side(coords.zoom) as u32));
    let offset = Vector2 {
        x: edge_length.times_spec(T::from_u32_spec(coords.location.x)),
        y: edge_length.times_spec(T::from_u32_spec(coords.location.y)),
    };
    BoundingSquare { top_left: bounds.top_left.plus_spec(offset), size: edge_length }
}

/// The same region as a box.
pub open spec fn square_box<T: Scalar>(square: BoundingSquare<T>) -> BoundingBox<T> {
    BoundingBox { top_left: square.top_left, size: Vector2 { x: square.size, y: square.size } }
}

/// What stands for a tile that no element reaches: an element named `svg`
/// with the box of the tile and nothing in it.
pub open spec fn placeholder<T: Scalar>(bounds: BoundingBox<T>) -> ElementView<T> {
    ElementView {
        bounding_box: bounds,
        children: Seq::empty(),
        tag_name: "svg"@,
        attributes: Map::empty(),
    }
}

/// The image of the tile at `coords`: what is selected of the drawing by the
/// box of the tile, or the placeholder where nothing is; its `viewBox` is the
/// box of the tile, and it has no `height` and no `width`.
pub open spec fn tile_spec<T: Scalar>(
    root: ElementView<T>,
    bounds: BoundingSquare<T>,
    coords: TileCoords,
) -> ElementView<T> {
    let tile_box = square_box(tile_square(bounds, coords));
    let selected = match select_spec(root, tile_box) {
        Some(element) => element,
        None => placeholder(tile_box),
    };
    ElementView {
        attributes: selected.attributes.insert("viewBox"@, tile_box.view_box_spec()).remove(
            "height"@,
        ).remove("width"@),
        ..selected
    }
}

/// A drawing together with the square that the one tile of level 0 covers.
#[derive(Debug)]
pub struct Layer<T> {
    pub root_element: SvgElement<T>,
    pub bounds: BoundingSquare<T>,
}

impl<T: Scalar> Layer<T> {
    /// Reads the drawing of a layer.
    pub fn new(svg_data: &str, bounds: BoundingSquare<T>) -> (r: Result<Self, ParseError>)
        ensures
            match r {
                Ok(layer) => layer.bounds == bounds && from_svg_data_spec::<T>(svg_data@) == Ok::<
                    ElementView<T>,
                    Failure,
                >(layer.root_element@),
                Err(error) => from_svg_data_spec::<T>(svg_data@) == Err::<ElementView<T>, Failure>(
                    error@,
                ),
            },
    {
        match SvgElement::from_svg_data(svg_data) {
            Ok(root_element) => Ok(Self { root_element, bounds }),
            Err(error) => Err(error),
        }
    }

    /// The square of the tile at `coords`.
    pub fn bounds_for_tile_coords(&self, coords: &TileCoords) -> (r: BoundingSquare<T>)
        requires
            coords.zoom <= MAX_ZOOM,
        ensures
            r == tile_square(self.bounds, *coords),
    {
        proof {
            lemma_side_bound(coords.zoom);
        }
        let tiles = TileIterator::max_coords_for_zoom_level(coords.zoom) + 1;
        let edge_length = self.bounds.edge_length().over(T::from_u32(tiles));
        let offset = Vector2::new(
            edge_length.times(T::from_u32(coords.location.x)),
            edge_length.times(T::from_u32(coords.location.y)),
        );
        BoundingSquare::new(self.bounds.get_top_left().plus(offset), edge_length)
    }

    /// Cuts the tile at `coords` out of the drawing. Every place gives a
    /// tile: where no element reaches it, the placeholder.
    pub fn tile(&self, coords: &TileCoords) -> (r: Tile<T>)
        requires
            coords.zoom <= MAX_ZOOM,
        ensures
            r.image@ == tile_spec(self.root_element@, self.bounds, *coords),
    {
        let bounds = self.bounds_for_tile_coords(coords).as_bounding_box();
        let view_box = bounds.as_view_box();
        let mut svg = match self.root_element.select_with(&bounds) {
            Some(selected) => selected,
            None => SvgElement::empty_root(bounds),
        };
        svg.set_attr("viewBox", view_box);
        svg.delete_attr("height");
        svg.delete_attr("width");
        Tile::new(svg)
    }
}

} // verus!
