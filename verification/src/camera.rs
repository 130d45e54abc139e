//! The camera's bookkeeping: the viewport, the cached table of per-pixel ray
//! directions, the pointer position that a drag is measured from, and the
//! decision of what a frame's input does to the camera.
//!
//! Positions and directions are values of the caller's types `P` and `D`,
//! which the camera stores and hands back without looking inside.

use crate::state::{KeyboardState, PointerState};
use vstd::prelude::*;

verus! {

/// One step of translation along a local axis of the camera.
#[derive(Clone, Copy, Debug, PartialEq, Eq, Structural)]
pub enum Direction {
    Forward,
    Backward,
    Left,
    Right,
    Down,
    Up,
}

/// What one frame's input asks of the camera.
#[derive(Debug)]
pub struct Steering {
    /// The translations to apply, in this order, one for each held key.
    pub moves: Vec<Direction>,
    /// Whether to rotate the forward direction by the pointer's drag.
    pub turn: bool,
}

/// The camera as the contracts speak of it.
pub struct CameraView<P, D> {
    pub viewport_height: nat,
    pub viewport_width: nat,
    pub last_mouse_position: P,
    pub ray_directions: Seq<D>,
    pub stale: bool,
}

/// The viewport, the remembered pointer position and the table of ray
/// directions, with a flag that tells whether the table is out of date.
pub struct Camera<P, D> {
    viewport_height: u32,
    viewport_width: u32,
    last_mouse_position: P,
    // cached
    ray_directions: Vec<D>,
    stale: bool,
}

/// Whether the pointer is known and looking around is engaged.
pub open spec fn is_looking<P>(pointer_state: PointerState<P>) -> bool {
    pointer_state.pos is Some && pointer_state.secondary_down
}

/// The translations that the held keys ask for, in the order in which the
/// keys are examined: `w`, `s`, `a`, `d`, `q`, `e`.
pub open spec fn planned_moves(keyboard_state: KeyboardState) -> Seq<Direction> {
    (if keyboard_state.w {
        seq![Direction::Forward]
    } else {
        seq![]
    }) + (if keyboard_state.s {
        seq![Direction::Backward]
    } else {
        seq![]
    }) + (if keyboard_state.a {
        seq![Direction::Left]
    } else {
        seq![]
    }) + (if keyboard_state.d {
        seq![Direction::Right]
    } else {
        seq![]
    }) + (if keyboard_state.q {
        seq![Direction::Down]
    } else {
        seq![]
    }) + (if keyboard_state.e {
        seq![Direction::Up]
    } else {
        seq![]
    })
}

/// The translations of a frame: those of the held keys while looking around,
/// none otherwise.
pub open spec fn steering_moves<P>(
    pointer_state: PointerState<P>,
    keyboard_state: KeyboardState,
) -> Seq<Direction> {
    if is_looking(pointer_state) {
        planned_moves(keyboard_state)
    } else {
        Seq::empty()
    }
}

/// Whether a frame rotates the camera: only while looking around, and only
/// if the pointer was dragged.
pub open spec fn steering_turn<P>(pointer_state: PointerState<P>, turned: bool) -> bool {
    is_looking(pointer_state) && turned
}

impl<P, D> CameraView<P, D> {
    /// A camera that is not stale has one ray direction per pixel.
    pub open spec fn well_formed(self) -> bool {
        !self.stale ==> self.ray_directions.len() == self.viewport_width * self.viewport_height
    }

    /// The camera after a frame's input.
    ///
    /// A known pointer position is remembered. The camera becomes stale if
    /// the frame moves or turns it.
    pub open spec fn steered(
        self,
        pointer_state: PointerState<P>,
        keyboard_state: KeyboardState,
        turned: bool,
    ) -> Self {
        CameraView {
            last_mouse_position: match pointer_state.pos {
                Some(mouse_pos) => mouse_pos,
                None => self.last_mouse_position,
            },
            stale: self.stale || steering_moves(pointer_state, keyboard_state).len() > 0
                || steering_turn(pointer_state, turned),
            ..self
        }
    }

    /// The camera after its table of ray directions was rebuilt as `table`.
    pub open spec fn refreshed(self, table: Seq<D>) -> Self {
        CameraView { ray_directions: table, stale: false, ..self }
    }

    /// The camera after a resize: unchanged if the viewport already has that
    /// size, stale with the new size otherwise.
    pub open spec fn resized(self, new_height: u32, new_width: u32) -> Self {
        if self.viewport_height == new_height && self.viewport_width == new_width {
            self
        } else {
            CameraView {
                viewport_height: new_height as nat,
                viewport_width: new_width as nat,
                stale: true,
                ..self
            }
        }
    }
}

impl<P, D> View for Camera<P, D> {
    type V = CameraView<P, D>;

    closed spec fn view(&self) -> CameraView<P, D> {
        CameraView {
            viewport_height: self.viewport_height as nat,
            viewport_width: self.viewport_width as nat,
            last_mouse_position: self.last_mouse_position,
            ray_directions: self.ray_directions@,
            stale: self.stale,
        }
    }
}

impl<P, D> Camera<P, D> {
    #[verifier::type_invariant]
    spec fn fresh_table_fits(self) -> bool {
        !self.stale ==> self.ray_directions@.len() == self.viewport_width * self.viewport_height
    }

    /// A camera with an empty viewport and an empty table, which measures
    /// the first drag from `last_mouse_position`.
    pub fn new(last_mouse_position: P) -> (camera: Self)
        ensures
            camera@ == (CameraView {
                viewport_height: 0,
                viewport_width: 0,
                last_mouse_position,
                ray_directions: Seq::<D>::empty(),
                stale: false,
            }),
    {
        Camera {
            viewport_height: 0,
            viewport_width: 0,
            last_mouse_position,
            ray_directions: Vec::new(),
            stale: false,
        }
    }

    /// Decides what a frame's input does to the camera.
    ///
    /// `turned` says whether the pointer, scaled by the drag sensitivity, has
    /// moved on either axis since the position that the camera remembers.
    ///
    /// With no pointer position nothing happens. With one, the camera
    /// remembers it; unless looking around is engaged that is all. While
    /// looking around, each held key asks for a translation and a drag asks
    /// for a rotation, and either leaves the camera stale: the caller is to
    /// apply them, recompute the view, and only then rebuild the table of
    /// ray directions.
    pub fn update(
        &mut self,
        pointer_state: PointerState<P>,
        keyboard_state: KeyboardState,
        turned: bool,
    ) -> (steering: Steering)
        ensures
            final(self)@ == old(self)@.steered(pointer_state, keyboard_state, turned),
            steering.moves@ == steering_moves(pointer_state, keyboard_state),
            steering.turn == steering_turn(pointer_state, turned),
    {
        proof {
            use_type_invariant(&*self);
        }
        let mut moves: Vec<Direction> = Vec::new();
        let Some(mouse_pos) = pointer_state.pos else {
            return Steering { moves, turn: false };
        };

        self.last_mouse_position = mouse_pos;
        if !pointer_state.secondary_down {
            return Steering { moves, turn: false };
        }

        // translation
        if keyboard_state.w {
            moves.push(Direction::Forward);
        }
        if keyboard_state.s {
            moves.push(Direction::Backward);
        }
        if keyboard_state.a {
            moves.push(Direction::Left);
        }
        if keyboard_state.d {
            moves.push(Direction::Right);
        }
        if keyboard_state.q {
            moves.push(Direction::Down);
        }
        if keyboard_state.e {
            moves.push(Direction::Up);
        }

        if moves.len() > 0 || turned {
            self.stale = true;
        }
        assert(moves@ =~= planned_moves(keyboard_state));
        Steering { moves, turn: turned }
    }

    /// Sets the size of the viewport, and says whether that changed it.
    ///
    /// A change leaves the camera stale: the caller is to recompute the
    /// projection and then rebuild the table of ray directions.
    pub fn resize(&mut self, new_height: u32, new_width: u32) -> (changed: bool)
        ensures
            final(self)@ == old(self)@.resized(new_height, new_width),
            changed == !(old(self)@.viewport_height == new_height && old(self)@.viewport_width
                == new_width),
    {
        proof {
            use_type_invariant(&*self);
        }
        if self.viewport_height == new_height && self.viewport_width == new_width {
            return false;
        }
        self.stale = true;
        self.viewport_height = new_height;
        self.viewport_width = new_width;
        true
    }

    /// Rebuilds the table of ray directions, row by row, with one call of
    /// `direction_at(x, y)` for each pixel of the viewport.
    ///
    /// Entry `i` of the new table belongs to the pixel in column
    /// `i % width` of row `i / width`. A viewport without area gives an empty
    /// table and no call. The camera is no longer stale afterwards.
    pub fn recalculate_raydirections<F>(&mut self, direction_at: F) where F: Fn(u32, u32) -> D
        requires
            old(self)@.viewport_width * old(self)@.viewport_height <= usize::MAX,
            forall|x: u32, y: u32|
                x < old(self)@.viewport_width && y < old(self)@.viewport_height ==> call_requires(
                    direction_at,
                    (x, y),
                ),
        ensures
            final(self)@ == old(self)@.refreshed(final(self)@.ray_directions),
            final(self)@.ray_directions.len() == old(self)@.viewport_width * old(
                self,
            )@.viewport_height,
            forall|i: int|
                0 <= i < final(self)@.ray_directions.len() ==> call_ensures(
                    direction_at,
                    (
                        (i % old(self)@.viewport_width as int) as u32,
                        (i / old(self)@.viewport_width as int) as u32,
                    ),
                    #[trigger] final(self)@.ray_directions[i],
                ),
    {
        let height: u32 = self.viewport_height;
        let width: u32 = self.viewport_width;
        // The table is rebuilt outside the camera, in the storage it had.
        let mut table: Vec<D> = Vec::new();
        self.stale = true;
        core::mem::swap(&mut table, &mut self.ray_directions);
        table.clear();
        assert(height as usize * width as usize == width * height) by (nonlinear_arith)
            requires
                width * height <= usize::MAX,
        ;
        table.reserve(height as usize * width as usize);

        let mut y: u32 = 0;
        while y < height
            invariant
                y <= height,
                width * height <= usize::MAX,
                table@.len() == y * width,
                forall|x: u32, y: u32| x < width && y < height ==> call_requires(direction_at, (x, y)),
                forall|i: int|
                    0 <= i < table@.len() ==> call_ensures(
                        direction_at,
                        ((i % width as int) as u32, (i / width as int) as u32),
                        #[trigger] table@[i],
                    ),
            decreases height - y,
        {
            let mut x: u32 = 0;
            while x < width
                invariant
                    y < height,
                    x <= width,
                    width * height <= usize::MAX,
                    table@.len() == y * width + x,
                    forall|x: u32, y: u32|
                        x < width && y < height ==> call_requires(direction_at, (x, y)),
                    forall|i: int|
                        0 <= i < table@.len() ==> call_ensures(
                            direction_at,
                            ((i % width as int) as u32, (i / width as int) as u32),
                            #[trigger] table@[i],
                        ),
                decreases width - x,
            {
                let ray_direction = direction_at(x, y);
                proof {
                    vstd::arithmetic::div_mod::lemma_fundamental_div_mod_converse(
                        y * width + x,
                        width as int,
                        y as int,
                        x as int,
                    );
                }
                table.push(ray_direction);
                x += 1;
            }
            assert(y * width + width == (y + 1) * width) by (nonlinear_arith);
            y += 1;
        }
        assert(y * width == width * height) by (nonlinear_arith)
            requires
                y == height,
        ;
        self.ray_directions = table;
        self.stale = false;
    }

    /// Whether the camera has moved, turned or changed size since the table
    /// of ray directions was last rebuilt.
    pub fn is_stale(&self) -> (stale: bool)
        ensures
            stale == self@.stale,
            self@.well_formed(),
    {
        proof {
            use_type_invariant(self);
        }
        self.stale
    }

    /// The height of the viewport in pixels.
    pub fn get_viewport_height(&self) -> (height: u32)
        ensures
            height == self@.viewport_height,
    {
        self.viewport_height
    }

    /// The width of the viewport in pixels.
    pub fn get_viewport_width(&self) -> (width: u32)
        ensures
            width == self@.viewport_width,
    {
        self.viewport_width
    }

    /// The pointer position that the next drag is measured from.
    pub fn get_last_mouse_position(&self) -> (position: &P)
        ensures
            *position == self@.last_mouse_position,
    {
        &self.last_mouse_position
    }

    /// The table of ray directions, row by row.
    pub fn get_ray_directions(&self) -> (directions: &[D])
        ensures
            directions@ == self@.ray_directions,
    {
        self.ray_directions.as_slice()
    }
}

/// Resizing to the size that the viewport already has changes nothing, so a
/// second resize to the same size neither touches the table of ray
/// directions nor leaves the camera stale again once the table was rebuilt.
pub proof fn lemma_resize_is_idempotent<P, D>(
    camera: CameraView<P, D>,
    height: u32,
    width: u32,
    table: Seq<D>,
)
    ensures
        camera.resized(height, width).resized(height, width) == camera.resized(height, width),
        camera.resized(height, width).refreshed(table).resized(height, width) == camera.resized(
            height,
            width,
        ).refreshed(table),
{
}

/// Unless looking around is engaged, no key and no drag moves the camera: a
/// frame asks for no translation and no rotation, and leaves the viewport,
/// the table of ray directions and the staleness as they were.
pub proof fn lemma_still_without_look<P, D>(
    camera: CameraView<P, D>,
    pointer_state: PointerState<P>,
    keyboard_state: KeyboardState,
    turned: bool,
)
    requires
        !is_looking(pointer_state),
    ensures
        steering_moves(pointer_state, keyboard_state).len() == 0,
        !steering_turn(pointer_state, turned),
        camera.steered(pointer_state, keyboard_state, turned).stale == camera.stale,
        camera.steered(pointer_state, keyboard_state, turned).ray_directions
            == camera.ray_directions,
        camera.steered(pointer_state, keyboard_state, turned).viewport_height
            == camera.viewport_height,
        camera.steered(pointer_state, keyboard_state, turned).viewport_width
            == camera.viewport_width,
{
}

/// While looking around, a held key asks for its translation exactly once
/// and a key that is not held asks for none; the camera is stale afterwards
/// if any key is held.
pub proof fn lemma_moves_follow_keys<P, D>(
    camera: CameraView<P, D>,
    pointer_state: PointerState<P>,
    keyboard_state: KeyboardState,
    turned: bool,
)
    requires
        is_looking(pointer_state),
    ensures
        ({
            let moves = steering_moves(pointer_state, keyboard_state);
            &&& moves.to_multiset().count(Direction::Forward) == if keyboard_state.w {
                1nat
            } else {
                0nat
            }
            &&& moves.to_multiset().count(Direction::Backward) == if keyboard_state.s {
                1nat
            } else {
                0nat
            }
            &&& moves.to_multiset().count(Direction::Left) == if keyboard_state.a {
                1nat
            } else {
                0nat
            }
            &&& moves.to_multiset().count(Direction::Right) == if keyboard_state.d {
                1nat
            } else {
                0nat
            }
            &&& moves.to_multiset().count(Direction::Down) == if keyboard_state.q {
                1nat
            } else {
                0nat
            }
            &&& moves.to_multiset().count(Direction::Up) == if keyboard_state.e {
                1nat
            } else {
                0nat
            }
            &&& (moves.len() > 0 ==> camera.steered(pointer_state, keyboard_state, turned).stale)
        }),
{
    broadcast use vstd::seq_lib::group_to_multiset_ensures;
    broadcast use vstd::multiset::group_multiset_axioms;

    let e = Seq::<Direction>::empty();
    let m1 = if keyboard_state.w { e.push(Direction::Forward) } else { e };
    let m2 = if keyboard_state.s { m1.push(Direction::Backward) } else { m1 };
    let m3 = if keyboard_state.a { m2.push(Direction::Left) } else { m2 };
    let m4 = if keyboard_state.d { m3.push(Direction::Right) } else { m3 };
    let m5 = if keyboard_state.q { m4.push(Direction::Down) } else { m4 };
    let m6 = if keyboard_state.e { m5.push(Direction::Up) } else { m5 };
    assert(m6 =~= planned_moves(keyboard_state));
    assert(e.to_multiset() =~= vstd::multiset::Multiset::empty());
}

/// Holding the forward key alone while looking around asks for one
/// translation, forward.
pub proof fn lemma_forward_key_moves_forward<P>(
    pointer_state: PointerState<P>,
    keyboard_state: KeyboardState,
)
    requires
        is_looking(pointer_state),
        keyboard_state.w,
        !keyboard_state.s && !keyboard_state.a && !keyboard_state.d && !keyboard_state.q
            && !keyboard_state.e,
    ensures
        steering_moves(pointer_state, keyboard_state) == seq![Direction::Forward],
{
    assert(planned_moves(keyboard_state) =~= seq![Direction::Forward]);
}

} // verus!
