use vstd::prelude::*;
use crate::board::{GameBoard, Position, on_board, in_storage, occupancy_grows};
use crate::catalog::{
    Color, Shape, BlockPatterns, Materials, INITIAL_X, INITIAL_Y, offsets_distinct, shape_ok,
    block_at_draw, color_at_draw, draw_usize, standard_shapes, standard_colors,
};
use crate::timer::{BlockFallTimer, tick_block_fall_timer};

verus! {

/// Marks a block that is still falling.
#[derive(Clone, Copy, Debug, PartialEq, Eq, Structural)]
pub struct FreeBlock {}

/// Marks a block that has come to rest and is recorded in the board.
#[derive(Clone, Copy, Debug, PartialEq, Eq, Structural)]
pub struct FixBlock {}

/// Where a block is in its life: falling, or fixed in place.
#[derive(Clone, Copy, Debug, PartialEq, Eq, Structural)]
pub enum BlockState {
    Free(FreeBlock),
    Fixed(FixBlock),
}

/// Four cells of one color that were spawned together.
#[derive(Clone, Copy, Debug)]
pub struct Block {
    pub cells: [Position; 4],
    pub color: Color,
    pub state: BlockState,
}

/// The cell that offset `o` gives when placed at the spawn origin.
pub open spec fn placed(o: (i32, i32)) -> Position {
    Position { x: (INITIAL_X + o.0) as i32, y: (INITIAL_Y + o.1) as i32 }
}

/// Are the four cells of `b` at pairwise distinct positions?
pub open spec fn cells_distinct(b: Block) -> bool {
    let c = b.cells@;
    c[0] != c[1] && c[0] != c[2] && c[0] != c[3] && c[1] != c[2] && c[1] != c[3] && c[2] != c[3]
}

/// Is cell `p` on the playable board?
pub open spec fn cell_on_board(p: Position) -> bool {
    on_board(p.x as int, p.y as int)
}

/// Are all four cells of `b` on the playable board?
pub open spec fn cells_on_board(b: Block) -> bool {
    cell_on_board(b.cells@[0]) && cell_on_board(b.cells@[1]) && cell_on_board(b.cells@[2])
        && cell_on_board(b.cells@[3])
}

/// Is `b` a falling block made of shape `s` at the spawn origin, in color `c`?
pub open spec fn is_spawn_of(b: Block, s: Shape, c: Color) -> bool {
    &&& b.state is Free
    &&& b.color == c
    &&& forall|i: int| 0 <= i < 4 ==> #[trigger] b.cells@[i] == placed(s@[i])
}

/// Can the shape be placed at the spawn origin without overflow?
pub open spec fn spawnable(s: Shape) -> bool {
    forall|i: int|
        0 <= i < 4 ==> (#[trigger] s@[i]).0 <= i32::MAX - INITIAL_X && s@[i].1 <= i32::MAX
            - INITIAL_Y
}

/// Does one of the cells of `b` stop it from falling on `board`?
pub open spec fn cannot_fall(board: GameBoard, b: Block) -> bool {
    board.blocks(b.cells@[0]) || board.blocks(b.cells@[1]) || board.blocks(b.cells@[2])
        || board.blocks(b.cells@[3])
}

/// Is `after` the block `before` moved one row down, all cells together?
pub open spec fn fallen(before: Block, after: Block) -> bool {
    &&& after.color == before.color
    &&& after.state == before.state
    &&& forall|i: int|
        0 <= i < 4 ==> #[trigger] after.cells@[i] == (Position {
            x: before.cells@[i].x,
            y: (before.cells@[i].y - 1) as i32,
        })
}

/// Is `after` the block `before` made fixed, in place?
pub open spec fn fixed_from(before: Block, after: Block) -> bool {
    after.cells@ == before.cells@ && after.color == before.color && after.state is Fixed
}

/// Does a cell of `b` stand at `(x, y)`?
pub open spec fn covers(b: Block, x: int, y: int) -> bool {
    exists|i: int| 0 <= i < 4 && b.cells@[i].x == x && #[trigger] b.cells@[i].y == y
}

/// Is `after` the board `before` with the cells of `b` recorded, and nothing else?
pub open spec fn recorded(before: GameBoard, after: GameBoard, b: Block) -> bool {
    forall|x: int, y: int|
        in_storage(x, y) ==> #[trigger] after.occupied(x, y) == (before.occupied(x, y) || covers(
            b,
            x,
            y,
        ))
}

/// Is cell `p` inside the occupancy storage?
pub open spec fn cell_in_storage(p: Position) -> bool {
    in_storage(p.x as int, p.y as int)
}

/// Are all four cells of `b` inside the occupancy storage?
pub open spec fn cells_in_storage(b: Block) -> bool {
    cell_in_storage(b.cells@[0]) && cell_in_storage(b.cells@[1]) && cell_in_storage(b.cells@[2])
        && cell_in_storage(b.cells@[3])
}

/// Can a fall step act on `b` without a fault? A block that is fixed must have
/// its cells inside the storage, where they are recorded; a block that moves
/// down must have every row above the least `i32`.
pub open spec fn fall_safe(board: GameBoard, b: Block) -> bool {
    if cannot_fall(board, b) {
        cells_in_storage(b)
    } else {
        b.cells@[0].y > i32::MIN && b.cells@[1].y > i32::MIN && b.cells@[2].y > i32::MIN
            && b.cells@[3].y > i32::MIN
    }
}

/// A request for a new falling block. It carries nothing.
#[derive(Clone, Copy, Debug)]
pub struct NewBlockEvent;

/// The requests for a new block that have not been handled yet.
pub struct NewBlockEvents {
    queue: Vec<NewBlockEvent>,
}

impl NewBlockEvents {
    /// Number of pending requests.
    pub closed spec fn pending(&self) -> nat {
        self.queue@.len()
    }

    pub fn new() -> (r: NewBlockEvents)
        ensures
            r.pending() == 0,
    {
        NewBlockEvents { queue: Vec::new() }
    }

    pub fn len(&self) -> (r: usize)
        ensures
            r == self.pending(),
    {
        self.queue.len()
    }

    /// Adds one request.
    pub fn send(&mut self)
        ensures
            final(self).pending() == old(self).pending() + 1,
    {
        self.queue.push(NewBlockEvent);
    }

    /// Removes every pending request; returns whether there was any.
    pub fn drain(&mut self) -> (r: bool)
        ensures
            r == (old(self).pending() > 0),
            final(self).pending() == 0,
    {
        let r = self.queue.len() > 0;
        self.queue = Vec::new();
        r
    }
}

/// Sends the request for the first block.
pub fn send_new_block_event(events: &mut NewBlockEvents)
    ensures
        final(events).pending() == old(events).pending() + 1,
{
    events.send();
}

/// The whole simulation state.
pub struct Game {
    pub board: GameBoard,
    pub timer: BlockFallTimer,
    pub events: NewBlockEvents,
    pub falling: Option<Block>,
    pub fixed: Vec<Block>,
    pub patterns: BlockPatterns,
    pub materials: Materials,
}

/// Is `b` a block that may be falling: four distinct cells?
pub open spec fn falling_ok(b: Block) -> bool {
    b.state is Free && cells_distinct(b)
}

/// Cell `i` of the falling block of `g`.
pub open spec fn falling_cell(g: Game, i: int) -> Position {
    (g.falling->0).cells@[i]
}

/// `after` is `before` with its falling block fixed: the block is appended
/// to the fixed blocks, its cells are recorded in the board, and one request
/// for a new block is sent.
pub open spec fn fix_step(before: Game, after: Game) -> bool {
    let b = before.falling->0;
    &&& before.falling is Some
    &&& after.falling is None
    &&& after.fixed@.len() == before.fixed@.len() + 1
    &&& after.fixed@.drop_last() == before.fixed@
    &&& fixed_from(b, after.fixed@.last())
    &&& recorded(before.board, after.board, b)
    &&& after.events.pending() == before.events.pending() + 1
}

/// `after` is `before` with its falling block one row lower, and nothing
/// else of the board, the requests or the fixed blocks changed.
pub open spec fn fall_step(before: Game, after: Game) -> bool {
    &&& before.falling is Some
    &&& after.falling is Some
    &&& fallen(before.falling->0, after.falling->0)
    &&& after.board == before.board
    &&& after.events == before.events
    &&& after.fixed == before.fixed
}

/// The falling block, the board, the requests and the fixed blocks are as in `before`.
pub open spec fn idle_step(before: Game, after: Game) -> bool {
    &&& after.falling == before.falling
    &&& after.board == before.board
    &&& after.events == before.events
    &&& after.fixed == before.fixed
}

/// `after` is `before` with every request removed and a new falling block
/// of a shape and a color from the catalogs; board and fixed blocks kept.
pub open spec fn spawn_step(before: Game, after: Game) -> bool {
    &&& after.events.pending() == 0
    &&& after.falling is Some
    &&& exists|s: Shape, c: Color|
        before.patterns.0@.contains(s) && before.materials.colors@.contains(c) && is_spawn_of(
            after.falling->0,
            s,
            c,
        )
    &&& after.board == before.board
    &&& after.fixed == before.fixed
}

/// Over consecutive fall steps, the falling block of game `k` has every cell
/// `k` rows below the same cell in game 0, in the same column, so the offsets
/// between its cells are those of game 0.
pub proof fn lemma_fall_keeps_shape(games: Seq<Game>, k: int)
    requires
        forall|j: int| 0 <= j < games.len() - 1 ==> fall_step(#[trigger] games[j], games[j + 1]),
        games.len() > 0,
        games[0].falling is Some,
        forall|i: int| 0 <= i < 4 ==> #[trigger] falling_cell(games[0], i).y - games.len() >= i32::MIN,
        0 <= k < games.len(),
    ensures
        games[k].falling is Some,
        forall|i: int|
            0 <= i < 4 ==> #[trigger] falling_cell(games[k], i).x == falling_cell(games[0], i).x
                && falling_cell(games[k], i).y == falling_cell(games[0], i).y - k,
        forall|i: int, j: int|
            0 <= i < 4 && 0 <= j < 4 ==> #[trigger] falling_cell(games[k], i).x - #[trigger] falling_cell(
                games[k],
                j,
            ).x == falling_cell(games[0], i).x - falling_cell(games[0], j).x && falling_cell(
                games[k],
                i,
            ).y - falling_cell(games[k], j).y == falling_cell(games[0], i).y - falling_cell(
                games[0],
                j,
            ).y,
    decreases k,
{
    if k > 0 {
        lemma_fall_keeps_shape(games, k - 1);
        assert(fall_step(games[k - 1], games[k]));
        assert forall|i: int| 0 <= i < 4 implies #[trigger] falling_cell(games[k], i).x
            == falling_cell(games[0], i).x && falling_cell(games[k], i).y == falling_cell(
            games[0],
            i,
        ).y - k by {
            assert(falling_cell(games[k], i) == (Position {
                x: falling_cell(games[k - 1], i).x,
                y: (falling_cell(games[k - 1], i).y - 1) as i32,
            }));
            assert(falling_cell(games[0], i).y - games.len() >= i32::MIN);
        }
    }
}

impl Game {
    /// At most one block falls, and only while no request for a new one is
    /// pending; the falling block has four distinct cells; every recorded
    /// block is fixed, has four distinct cells, and lies inside the storage.
    pub open spec fn wf(&self) -> bool {
        &&& self.board.wf()
        &&& self.timer.wf()
        &&& self.patterns.wf()
        &&& self.materials.wf()
        &&& self.falling is Some ==> self.events.pending() == 0 && falling_ok(self.falling->0)
        &&& forall|i: int|
            0 <= i < self.fixed@.len() ==> (#[trigger] self.fixed@[i]).state is Fixed
                && cells_distinct(self.fixed@[i]) && cells_in_storage(self.fixed@[i])
    }

    /// A well-formed game whose falling block, if any, lies on the playable
    /// board. Every state that the simulation reaches from `Game::new` is one.
    pub open spec fn reachable(&self) -> bool {
        self.wf() && (self.falling is Some ==> cells_on_board(self.falling->0))
    }

    /// A game with an empty board, the standard catalogs and timer, and no block.
    pub fn new() -> (g: Game)
        ensures
            g.reachable(),
            forall|x: int, y: int| in_storage(x, y) ==> !g.board.occupied(x, y),
            g.falling is None,
            g.fixed@.len() == 0,
            g.events.pending() == 0,
            g.patterns.0@.map_values(|s: Shape| s@) == standard_shapes(),
            g.materials.colors@ == standard_colors(),
            g.timer.interval_len() == crate::timer::BLOCK_FALL_INTERVAL,
            g.timer.elapsed_time() == 0,
            !g.timer.is_ready(),
    {
        Game {
            board: GameBoard::new(),
            timer: BlockFallTimer::default(),
            events: NewBlockEvents::new(),
            falling: None,
            fixed: Vec::new(),
            patterns: BlockPatterns::default(),
            materials: Materials::default(),
        }
    }
}

proof fn lemma_reachable_fall_safe(g: Game)
    requires
        g.reachable(),
        g.falling is Some,
    ensures
        fall_safe(g.board, g.falling->0),
{
}

/// A falling block made of `shape` at the spawn origin, in `color`.
pub fn spawn_block(shape: &Shape, color: Color) -> (r: Block)
    requires
        spawnable(*shape),
    ensures
        is_spawn_of(r, *shape, color),
        offsets_distinct(*shape) ==> cells_distinct(r),
{
    let s0 = shape[0];
    let s1 = shape[1];
    let s2 = shape[2];
    let s3 = shape[3];
    assert(s0 == shape@[0] && s1 == shape@[1] && s2 == shape@[2] && s3 == shape@[3]);
    let c0 = Position { x: INITIAL_X + s0.0, y: INITIAL_Y + s0.1 };
    let c1 = Position { x: INITIAL_X + s1.0, y: INITIAL_Y + s1.1 };
    let c2 = Position { x: INITIAL_X + s2.0, y: INITIAL_Y + s2.1 };
    let c3 = Position { x: INITIAL_X + s3.0, y: INITIAL_Y + s3.1 };
    let r = Block { cells: [c0, c1, c2, c3], color, state: BlockState::Free(FreeBlock {}) };
    assert(r.cells@ =~= seq![c0, c1, c2, c3]);
    r
}


proof fn lemma_ok_shape_spawnable(s: Shape)
    requires
        shape_ok(s),
    ensures
        spawnable(s),
{
}

proof fn lemma_spawned_falling_ok(b: Block, s: Shape, c: Color)
    requires
        shape_ok(s),
        is_spawn_of(b, s, c),
    ensures
        falling_ok(b),
        cells_on_board(b),
{
    assert(b.cells@[0] == placed(s@[0]));
    assert(b.cells@[1] == placed(s@[1]));
    assert(b.cells@[2] == placed(s@[2]));
    assert(b.cells@[3] == placed(s@[3]));
}

/// Makes a block of `shape` and `color` the falling one.
fn start_falling(game: &mut Game, shape: Shape, color: Color)
    requires
        old(game).wf(),
        old(game).falling is None,
        old(game).events.pending() == 0,
        shape_ok(shape),
    ensures
        final(game).reachable(),
        final(game).falling is Some,
        is_spawn_of(final(game).falling->0, shape, color),
        final(game).board == old(game).board,
        final(game).timer == old(game).timer,
        final(game).events == old(game).events,
        final(game).fixed == old(game).fixed,
        final(game).patterns == old(game).patterns,
        final(game).materials == old(game).materials,
{
    proof {
        lemma_ok_shape_spawnable(shape);
    }
    let b = spawn_block(&shape, color);
    proof {
        lemma_spawned_falling_ok(b, shape, color);
    }
    game.falling = Some(b);
}

/// Handles the pending requests for a new block, with the shape and color
/// given by two draws: any number of requests gives one block, of shape
/// `patterns[shape_draw % 7]` and color `colors[color_draw % 6]` for the
/// standard catalogs, and all requests are removed. Without a request
/// nothing changes.
pub fn spawn_block_element_from(game: &mut Game, shape_draw: usize, color_draw: usize)
    requires
        old(game).wf(),
    ensures
        final(game).wf(),
        old(game).reachable() ==> final(game).reachable(),
        old(game).events.pending() == 0 ==> *final(game) == *old(game),
        old(game).events.pending() > 0 ==> {
            &&& old(game).falling is None
            &&& final(game).reachable()
            &&& final(game).events.pending() == 0
            &&& final(game).falling is Some
            &&& is_spawn_of(
                final(game).falling->0,
                old(game).patterns.0@[shape_draw as int % old(game).patterns.0@.len() as int],
                old(game).materials.colors@[color_draw as int
                    % old(game).materials.colors@.len() as int],
            )
            &&& final(game).board == old(game).board
            &&& final(game).timer == old(game).timer
            &&& final(game).fixed == old(game).fixed
            &&& final(game).patterns == old(game).patterns
            &&& final(game).materials == old(game).materials
        },
{
    if game.events.len() == 0 {
        return;
    }
    game.events.drain();
    let shape = block_at_draw(&game.patterns.0, shape_draw);
    let color = color_at_draw(&game.materials.colors, color_draw);
    start_falling(game, shape, color);
}

/// Handles the pending requests for a new block: any number of requests
/// gives one block, of a shape and a color drawn at random from the catalogs,
/// and all requests are removed. Without a request nothing changes; in
/// particular no block is created while another one is falling.
pub fn spawn_block_element(game: &mut Game)
    requires
        old(game).wf(),
    ensures
        final(game).wf(),
        old(game).reachable() ==> final(game).reachable(),
        old(game).events.pending() == 0 ==> *final(game) == *old(game),
        old(game).falling is Some ==> *final(game) == *old(game),
        old(game).events.pending() > 0 ==> {
            &&& spawn_step(*old(game), *final(game))
            &&& final(game).reachable()
            &&& final(game).timer == old(game).timer
            &&& final(game).patterns == old(game).patterns
            &&& final(game).materials == old(game).materials
        },
{
    if game.events.len() == 0 {
        return;
    }
    let shape_draw = draw_usize();
    let color_draw = draw_usize();
    let ghost before = *game;
    spawn_block_element_from(game, shape_draw, color_draw);
    proof {
        let s = before.patterns.0@[shape_draw as int % before.patterns.0@.len() as int];
        let c = before.materials.colors@[color_draw as int % before.materials.colors@.len() as int];
        assert(before.patterns.0@.contains(s));
        assert(before.materials.colors@.contains(c));
    }
}

/// One fall step, taken when the timer is ready (its readiness is consumed).
/// If a cell of the falling block rests on the floor or on an occupied cell,
/// the whole block is fixed: its cells are recorded in the board and one
/// request for a new block is sent. Otherwise every cell moves down one row;
/// cells off the playable board never stop the block.
pub fn block_fall(game: &mut Game)
    requires
        old(game).wf(),
        old(game).falling is Some ==> fall_safe(old(game).board, old(game).falling->0),
    ensures
        final(game).wf(),
        old(game).reachable() ==> final(game).reachable(),
        !final(game).timer.is_ready(),
        final(game).timer.interval_len() == old(game).timer.interval_len(),
        final(game).timer.elapsed_time() == old(game).timer.elapsed_time(),
        final(game).patterns == old(game).patterns,
        final(game).materials == old(game).materials,
        occupancy_grows(old(game).board, final(game).board),
        !(old(game).timer.is_ready() && old(game).falling is Some) ==> idle_step(
            *old(game),
            *final(game),
        ),
        old(game).timer.is_ready() && old(game).falling is Some && cannot_fall(
            old(game).board,
            old(game).falling->0,
        ) ==> fix_step(*old(game), *final(game)),
        old(game).timer.is_ready() && old(game).falling is Some && !cannot_fall(
            old(game).board,
            old(game).falling->0,
        ) ==> fall_step(*old(game), *final(game)),
{
    if !game.timer.consume_if_ready() {
        return;
    }
    let b = match game.falling {
        Some(b) => b,
        None => {
            return;
        },
    };
    let c = b.cells;
    let cannot = game.board.is_blocked(&c[0]) || game.board.is_blocked(&c[1])
        || game.board.is_blocked(&c[2]) || game.board.is_blocked(&c[3]);
    if cannot {
        let ghost before = game.board;
        game.board.mark_occupied(c[0].x as usize, c[0].y as usize);
        game.board.mark_occupied(c[1].x as usize, c[1].y as usize);
        game.board.mark_occupied(c[2].x as usize, c[2].y as usize);
        game.board.mark_occupied(c[3].x as usize, c[3].y as usize);
        proof {
            assert forall|x: int, y: int| in_storage(x, y) implies #[trigger] game.board.occupied(
                x,
                y,
            ) == (before.occupied(x, y) || covers(b, x, y)) by {
                if game.board.occupied(x, y) && !before.occupied(x, y) {
                    if c@[0].x == x && c@[0].y == y {
                        assert(0 <= 0int < 4 && b.cells@[0].x == x && b.cells@[0].y == y);
                    } else if c@[1].x == x && c@[1].y == y {
                        assert(0 <= 1int < 4 && b.cells@[1].x == x && b.cells@[1].y == y);
                    } else if c@[2].x == x && c@[2].y == y {
                        assert(0 <= 2int < 4 && b.cells@[2].x == x && b.cells@[2].y == y);
                    } else {
                        assert(0 <= 3int < 4 && b.cells@[3].x == x && b.cells@[3].y == y);
                    }
                }
            }
        }
        let f = Block { cells: c, color: b.color, state: BlockState::Fixed(FixBlock {}) };
        game.fixed.push(f);
        game.falling = None;
        game.events.send();
        proof {
            assert(game.fixed@.drop_last() =~= old(game).fixed@);
        }
    } else {
        let m = Block {
            cells: [
                Position { x: c[0].x, y: c[0].y - 1 },
                Position { x: c[1].x, y: c[1].y - 1 },
                Position { x: c[2].x, y: c[2].y - 1 },
                Position { x: c[3].x, y: c[3].y - 1 },
            ],
            color: b.color,
            state: b.state,
        };
        proof {
            assert(m.cells@ =~= seq![
                Position { x: c@[0].x, y: (c@[0].y - 1) as i32 },
                Position { x: c@[1].x, y: (c@[1].y - 1) as i32 },
                Position { x: c@[2].x, y: (c@[2].y - 1) as i32 },
                Position { x: c@[3].x, y: (c@[3].y - 1) as i32 },
            ]);
        }
        game.falling = Some(m);
    }
}

/// Will the timer be ready after `delta` more nanoseconds?
pub open spec fn ready_after(timer: BlockFallTimer, delta: u64) -> bool {
    timer.is_ready() || timer.elapsed_time() + delta >= timer.interval_len()
}

/// One frame of the simulation: the timer advances by `delta` nanoseconds,
/// then pending requests for a new block are handled, then one fall step is
/// taken. A block spawned in this frame is not yet seen by the fall step: if
/// the timer was ready, that readiness passes with no block to move.
pub fn run_frame(game: &mut Game, delta: u64)
    requires
        old(game).reachable(),
    ensures
        final(game).reachable(),
        final(game).patterns == old(game).patterns,
        final(game).materials == old(game).materials,
        final(game).timer.interval_len() == old(game).timer.interval_len(),
        final(game).timer.elapsed_time() == (old(game).timer.elapsed_time() + delta) % (
        old(game).timer.interval_len() as int),
        !final(game).timer.is_ready(),
        occupancy_grows(old(game).board, final(game).board),
        old(game).events.pending() > 0 ==> spawn_step(*old(game), *final(game)),
        old(game).events.pending() == 0 && ready_after(old(game).timer, delta)
            && old(game).falling is Some && cannot_fall(old(game).board, old(game).falling->0)
            ==> fix_step(*old(game), *final(game)),
        old(game).events.pending() == 0 && ready_after(old(game).timer, delta)
            && old(game).falling is Some && !cannot_fall(old(game).board, old(game).falling->0)
            ==> fall_step(*old(game), *final(game)),
        old(game).events.pending() == 0 && !(ready_after(old(game).timer, delta)
            && old(game).falling is Some) ==> idle_step(*old(game), *final(game)),
{
    tick_block_fall_timer(&mut game.timer, delta);
    let spawning = game.events.len() > 0;
    spawn_block_element(game);
    if spawning {
        game.timer.consume_if_ready();
    } else {
        proof {
            if game.falling is Some {
                lemma_reachable_fall_safe(*game);
            }
        }
        block_fall(game);
    }
}

} // verus!
