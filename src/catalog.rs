use vstd::prelude::*;
use crate::board::{on_board, X_LENGTH, Y_LENGTH};

verus! {

/// Column at which a new block's origin is placed: the middle of the board.
pub const INITIAL_X: i32 = (X_LENGTH / 2) as i32;

/// Row at which a new block's origin is placed: four rows below the top.
pub const INITIAL_Y: i32 = (Y_LENGTH - 4) as i32;

/// An RGB color.
#[derive(Clone, Copy, Debug, PartialEq, Eq, Structural)]
pub struct Color {
    pub r: u8,
    pub g: u8,
    pub b: u8,
}

impl Color {
    pub fn rgb_u8(r: u8, g: u8, b: u8) -> (c: Color)
        ensures
            c == (Color { r, g, b }),
    {
        Color { r, g, b }
    }
}

/// The six colors of the standard palette.
pub open spec fn standard_colors() -> Seq<Color> {
    seq![
        Color { r: 64, g: 230, b: 100 },
        Color { r: 220, g: 64, b: 90 },
        Color { r: 70, g: 150, b: 210 },
        Color { r: 220, g: 230, b: 70 },
        Color { r: 35, g: 220, b: 241 },
        Color { r: 240, g: 140, b: 70 },
    ]
}

/// The palette from which each new block takes its color.
pub struct Materials {
    pub colors: Vec<Color>,
}

impl Materials {
    pub open spec fn wf(&self) -> bool {
        self.colors@.len() > 0
    }
}

impl Default for Materials {
    fn default() -> (m: Materials)
        ensures
            m.wf(),
            m.colors@ == standard_colors(),
    {
        let colors = vec![
            Color::rgb_u8(64, 230, 100),
            Color::rgb_u8(220, 64, 90),
            Color::rgb_u8(70, 150, 210),
            Color::rgb_u8(220, 230, 70),
            Color::rgb_u8(35, 220, 241),
            Color::rgb_u8(240, 140, 70),
        ];
        Materials { colors }
    }
}

/// A tetromino: the offsets of its four cells from the block's origin.
pub type Shape = [(i32, i32); 4];

/// Are the four offsets of `s` pairwise distinct?
pub open spec fn offsets_distinct(s: Shape) -> bool {
    s@[0] != s@[1] && s@[0] != s@[2] && s@[0] != s@[3] && s@[1] != s@[2] && s@[1] != s@[3]
        && s@[2] != s@[3]
}

/// Does offset `o`, placed at the spawn origin, land on the playable board?
pub open spec fn offset_fits(o: (i32, i32)) -> bool {
    on_board(INITIAL_X + o.0, INITIAL_Y + o.1)
}

/// A shape that a block can be spawned with: four distinct cells, all on the
/// board when placed at the spawn origin.
pub open spec fn shape_ok(s: Shape) -> bool {
    offsets_distinct(s) && offset_fits(s@[0]) && offset_fits(s@[1]) && offset_fits(s@[2])
        && offset_fits(s@[3])
}

/// The seven standard tetrominoes: I, L, mirrored L, Z, mirrored Z, square and T.
pub open spec fn standard_shapes() -> Seq<Seq<(i32, i32)>> {
    seq![
        seq![(0i32, 0i32), (0, -1i32), (0, 1), (0, 2)],
        seq![(0i32, 0i32), (0, -1i32), (0, 1), (-1i32, 1)],
        seq![(0i32, 0i32), (0, -1i32), (0, 1), (1, 1)],
        seq![(0i32, 0i32), (0, -1i32), (1, 0), (1, 1)],
        seq![(0i32, 0i32), (1, 0), (0, 1), (1, -1i32)],
        seq![(0i32, 0i32), (0, 1), (1, 0), (1, 1)],
        seq![(0i32, 0i32), (-1i32, 0), (1, 0), (0, 1)],
    ]
}

/// The catalog of shapes that new blocks are drawn from.
pub struct BlockPatterns(pub Vec<Shape>);

impl BlockPatterns {
    pub open spec fn wf(&self) -> bool {
        self.0@.len() > 0 && forall|i: int| 0 <= i < self.0@.len() ==> shape_ok(#[trigger] self.0@[i])
    }
}

impl Default for BlockPatterns {
    /// The seven tetrominoes: I, L, mirrored L, Z, mirrored Z, square and T.
    fn default() -> (p: BlockPatterns)
        ensures
            p.wf(),
            p.0@.map_values(|s: Shape| s@) == standard_shapes(),
    {
        let i: Shape = [(0, 0), (0, -1), (0, 1), (0, 2)];
        let l: Shape = [(0, 0), (0, -1), (0, 1), (-1, 1)];
        let ml: Shape = [(0, 0), (0, -1), (0, 1), (1, 1)];
        let z: Shape = [(0, 0), (0, -1), (1, 0), (1, 1)];
        let mz: Shape = [(0, 0), (1, 0), (0, 1), (1, -1)];
        let o: Shape = [(0, 0), (0, 1), (1, 0), (1, 1)];
        let t: Shape = [(0, 0), (-1, 0), (1, 0), (0, 1)];
        let shapes = vec![i, l, ml, z, mz, o, t];
        proof {
            assert(i@ =~= seq![(0i32, 0i32), (0, -1i32), (0, 1), (0, 2)]);
            assert(l@ =~= seq![(0i32, 0i32), (0, -1i32), (0, 1), (-1i32, 1)]);
            assert(ml@ =~= seq![(0i32, 0i32), (0, -1i32), (0, 1), (1, 1)]);
            assert(z@ =~= seq![(0i32, 0i32), (0, -1i32), (1, 0), (1, 1)]);
            assert(mz@ =~= seq![(0i32, 0i32), (1, 0), (0, 1), (1, -1i32)]);
            assert(o@ =~= seq![(0i32, 0i32), (0, 1), (1, 0), (1, 1)]);
            assert(t@ =~= seq![(0i32, 0i32), (-1i32, 0), (1, 0), (0, 1)]);
            assert(shape_ok(i) && shape_ok(l) && shape_ok(ml) && shape_ok(z));
            assert(shape_ok(mz) && shape_ok(o) && shape_ok(t));
            assert(shapes@.map_values(|s: Shape| s@) =~= standard_shapes());
        }
        BlockPatterns(shapes)
    }
}

/// Relies on rand's `thread_rng` and `Rng::gen::<usize>`: a draw from the
/// thread's random source. Nothing is promised of its value.
#[verifier::external_body]
pub(crate) fn draw_usize() -> usize {
    rand::Rng::gen::<usize>(&mut rand::thread_rng())
}

/// The shape that a draw of `draw` selects: the draw reduced modulo the
/// catalog's size.
pub fn block_at_draw(blocks: &Vec<Shape>, draw: usize) -> (r: Shape)
    requires
        blocks@.len() > 0,
    ensures
        r == blocks@[draw as int % blocks@.len() as int],
{
    let index: usize = draw % blocks.len();
    blocks[index]
}

/// The color that a draw of `draw` selects: the draw reduced modulo the
/// palette's size.
pub fn color_at_draw(colors: &Vec<Color>, draw: usize) -> (r: Color)
    requires
        colors@.len() > 0,
    ensures
        r == colors@[draw as int % colors@.len() as int],
{
    let index: usize = draw % colors.len();
    colors[index]
}

/// A shape drawn at random from `blocks`.
pub fn next_block(blocks: &Vec<Shape>) -> (r: Shape)
    requires
        blocks@.len() > 0,
    ensures
        blocks@.contains(r),
{
    let draw = draw_usize();
    let r = block_at_draw(blocks, draw);
    assert(blocks@[draw as int % blocks@.len() as int] == r);
    r
}

/// A color drawn at random from `colors`.
pub fn next_color(colors: &Vec<Color>) -> (r: Color)
    requires
        colors@.len() > 0,
    ensures
        colors@.contains(r),
{
    let draw = draw_usize();
    let r = color_at_draw(colors, draw);
    assert(colors@[draw as int % colors@.len() as int] == r);
    r
}

} // verus!
