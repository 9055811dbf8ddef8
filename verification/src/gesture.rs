//! The virtual two-finger touchpad gesture that carries converted scroll
//! motion: where a gesture starts, how it follows each frame, when it wraps
//! around at the pad's edge, and when it ends.
use crate::frame::Frame;
use vstd::prelude::*;

verus! {

/// Whether an integer is representable as an `i32`.
pub open spec fn fits_i32(v: int) -> bool {
    i32::MIN <= v <= i32::MAX
}

/// The sign of an integer: 1, -1 or 0.
pub open spec fn sign(v: int) -> int {
    if v > 0 {
        1
    } else if v < 0 {
        -1
    } else {
        0
    }
}

/// The offset by which a new gesture is primed: `prime_units` in the
/// direction of the first motion, nothing when there is no motion.
pub open spec fn prime_offset(delta: int, prime_units: int) -> int {
    sign(delta) * prime_units
}

/// Offset that primes a new gesture in the direction of its first motion.
pub fn gesture_prime(delta: i32, prime_units: i32) -> (r: i32)
    requires
        fits_i32(prime_offset(delta as int, prime_units as int)),
    ensures
        r == prime_offset(delta as int, prime_units as int),
{
    if delta > 0 {
        prime_units
    } else if delta < 0 {
        -prime_units
    } else {
        0
    }
}

/// Half of an integer, rounded toward zero as integer division does.
pub open spec fn half_toward_zero(v: int) -> int {
    if v >= 0 {
        v / 2
    } else {
        -((-v) / 2)
    }
}

/// Where a gesture that ran into an edge starts again: on the side opposite
/// to the motion, or in the middle when there is no motion on this axis.
pub open spec fn restart_at(delta: int, minimum: int, maximum: int, margin: int) -> int {
    if delta > 0 {
        minimum + margin
    } else if delta < 0 {
        maximum - margin
    } else {
        half_toward_zero(minimum + maximum)
    }
}

/// Start position of a gesture restarted after reaching an edge.
pub fn restart_position(delta: i32, minimum: i32, maximum: i32, margin: i32) -> (r: i32)
    requires
        fits_i32(minimum + margin),
        fits_i32(maximum - margin),
        fits_i32(minimum + maximum),
    ensures
        r == restart_at(delta as int, minimum as int, maximum as int, margin as int),
{
    if delta > 0 {
        minimum + margin
    } else if delta < 0 {
        maximum - margin
    } else {
        (minimum + maximum) / 2
    }
}

/// Whether a running gesture should end: the engine has no motion left and
/// the wheel has been quiet for at least `gesture_idle` (both in
/// nanoseconds), or has not been used at all.
pub open spec fn should_end(engine_active: bool, quiet_for: Option<u128>, gesture_idle: u128) -> bool {
    !engine_active && match quiet_for {
        Some(quiet) => quiet >= gesture_idle,
        None => true,
    }
}

/// Whether a running gesture should end; durations are in nanoseconds.
pub fn gesture_should_end(engine_active: bool, quiet_for: Option<u128>, gesture_idle: u128) -> (r:
    bool)
    ensures
        r == should_end(engine_active, quiet_for, gesture_idle),
{
    !engine_active && match quiet_for {
        Some(quiet) => quiet >= gesture_idle,
        None => true,
    }
}


/// Lowest coordinate of the virtual touchpad.
pub const PAD_MIN: i32 = 0;

/// Highest coordinate of the virtual touchpad.
pub const PAD_MAX: i32 = 8000;

/// Where the fingers rest between gestures.
pub const PAD_START: i32 = 4000;

/// Horizontal distance of each finger from the gesture's centre.
pub const FINGER_GAP: i32 = 400;

/// Distance from the pad's border at which a gesture wraps around.
pub const EDGE_MARGIN: i32 = 600;

/// Tracking identifiers stay below this bound.
pub const TRACKING_LIMIT: i32 = 65000;

/// Tracking identifier before the first gesture.
pub const TRACKING_START: i32 = 100;

/// One step of the virtual touchpad, in the order the pad reports them.
#[derive(Debug, Clone, Copy, PartialEq, Eq, Structural)]
pub enum TouchAction {
    /// Two fingers touch down: the first at `first_x`, the second at
    /// `second_x`, both at height `y`; `x` is the centre of the gesture.
    Press { first_id: i32, second_id: i32, first_x: i32, second_x: i32, x: i32, y: i32 },
    /// Both fingers move to the given positions.
    Move { first_x: i32, second_x: i32, x: i32, y: i32 },
    /// Both fingers lift.
    Release,
}

/// Two fingers pressed around `(x, y)` with tracking identifiers `tracking`
/// and `tracking + 1`.
pub open spec fn press_at(tracking: int, x: int, y: int) -> TouchAction {
    TouchAction::Press {
        first_id: tracking as i32,
        second_id: (tracking + 1) as i32,
        first_x: (x - FINGER_GAP) as i32,
        second_x: (x + FINGER_GAP) as i32,
        x: x as i32,
        y: y as i32,
    }
}

/// Both fingers moved around `(x, y)`.
pub open spec fn move_to(x: int, y: int) -> TouchAction {
    TouchAction::Move {
        first_x: (x - FINGER_GAP) as i32,
        second_x: (x + FINGER_GAP) as i32,
        x: x as i32,
        y: y as i32,
    }
}

/// The tracking identifier of the next gesture.
pub open spec fn next_tracking(tracking: int) -> int {
    (tracking + 2) % (TRACKING_LIMIT as int)
}

/// Whether a coordinate lies in the band in which a gesture may continue.
pub open spec fn in_band(v: int) -> bool {
    PAD_MIN + EDGE_MARGIN <= v <= PAD_MAX - EDGE_MARGIN
}

/// The pad state as `(x, y, tracking)`.
pub type PadView = (int, int, int);

/// Whether beginning a gesture from `pad` stays within `i32`.
pub open spec fn begin_fits(pad: PadView, dx: int, dy: int, prime_units: int) -> bool {
    let px = prime_offset(dx, prime_units);
    let py = prime_offset(dy, prime_units);
    &&& fits_i32(px)
    &&& fits_i32(py)
    &&& fits_i32(pad.0 - px)
    &&& fits_i32(pad.1 - py)
    &&& fits_i32(pad.0 - px - FINGER_GAP)
    &&& fits_i32(pad.0 - px + FINGER_GAP)
    &&& fits_i32(pad.0 - FINGER_GAP)
    &&& fits_i32(pad.0 + FINGER_GAP)
}

/// What beginning a gesture reports: the fingers touch down `prime_units`
/// behind the current position, then move onto it if they were primed.
pub open spec fn begin_actions(pad: PadView, dx: int, dy: int, prime_units: int) -> Seq<TouchAction> {
    let px = prime_offset(dx, prime_units);
    let py = prime_offset(dy, prime_units);
    let press = seq![press_at(next_tracking(pad.2), pad.0 - px, pad.1 - py)];
    if px != 0 || py != 0 {
        press.push(move_to(pad.0, pad.1))
    } else {
        press
    }
}

/// The pad after beginning a gesture: same position, next tracking identifier.
pub open spec fn after_begin(pad: PadView) -> PadView {
    (pad.0, pad.1, next_tracking(pad.2))
}

/// Whether a scroll step by `(dx, dy)` from `pad` leaves the band, so that
/// the gesture has to be restarted at the opposite edge.
pub open spec fn scroll_restarts(pad: PadView, dx: int, dy: int) -> bool {
    !in_band(pad.0 + 2 * dx) || !in_band(pad.1 + 2 * dy)
}

/// Where the fingers are after a scroll step by `(dx, dy)`.
pub open spec fn scroll_target(pad: PadView, dx: int, dy: int) -> (int, int) {
    if scroll_restarts(pad, dx, dy) {
        (
            restart_at(2 * dx, PAD_MIN as int, PAD_MAX as int, EDGE_MARGIN as int) + 2 * dx,
            restart_at(2 * dy, PAD_MIN as int, PAD_MAX as int, EDGE_MARGIN as int) + 2 * dy,
        )
    } else {
        (pad.0 + 2 * dx, pad.1 + 2 * dy)
    }
}

/// Whether a scroll step by `(dx, dy)` from `pad` stays within `i32`.
pub open spec fn scroll_fits(pad: PadView, dx: int, dy: int) -> bool {
    let target = scroll_target(pad, dx, dy);
    &&& fits_i32(2 * dx)
    &&& fits_i32(2 * dy)
    &&& fits_i32(pad.0 + 2 * dx)
    &&& fits_i32(pad.1 + 2 * dy)
    &&& fits_i32(target.0)
    &&& fits_i32(target.1)
    &&& fits_i32(target.0 - FINGER_GAP)
    &&& fits_i32(target.0 + FINGER_GAP)
}

/// What a scroll step reports: a restart at the opposite edge when needed,
/// then the move to the new position.
pub open spec fn scroll_actions(pad: PadView, dx: int, dy: int) -> Seq<TouchAction> {
    let target = scroll_target(pad, dx, dy);
    if scroll_restarts(pad, dx, dy) {
        seq![
            TouchAction::Release,
            press_at(
                next_tracking(pad.2),
                restart_at(2 * dx, PAD_MIN as int, PAD_MAX as int, EDGE_MARGIN as int),
                restart_at(2 * dy, PAD_MIN as int, PAD_MAX as int, EDGE_MARGIN as int),
            ),
            move_to(target.0, target.1),
        ]
    } else {
        seq![move_to(target.0, target.1)]
    }
}

/// The pad after a scroll step.
pub open spec fn after_scroll(pad: PadView, dx: int, dy: int) -> PadView {
    let target = scroll_target(pad, dx, dy);
    if scroll_restarts(pad, dx, dy) {
        (target.0, target.1, next_tracking(pad.2))
    } else {
        (target.0, target.1, pad.2)
    }
}

/// The pad after a gesture ended: fingers back at the resting position.
pub open spec fn after_end(pad: PadView) -> PadView {
    (PAD_START as int, PAD_START as int, pad.2)
}

/// Position of the fingers and tracking identifier of the virtual touchpad.
pub struct TouchPad {
    x: i32,
    y: i32,
    tracking: i32,
}

impl View for TouchPad {
    type V = PadView;

    closed spec fn view(&self) -> PadView {
        (self.x as int, self.y as int, self.tracking as int)
    }
}

impl TouchPad {
    #[verifier::type_invariant]
    spec fn tracking_in_range(self) -> bool {
        0 <= self.tracking < TRACKING_LIMIT
    }

    /// A pad with the fingers at rest and no gesture started yet.
    pub fn new() -> (pad: Self)
        ensures
            pad@ == (PAD_START as int, PAD_START as int, TRACKING_START as int),
    {
        TouchPad { x: PAD_START, y: PAD_START, tracking: TRACKING_START }
    }

    fn press(&self) -> (a: TouchAction)
        requires
            fits_i32(self@.0 - FINGER_GAP),
            fits_i32(self@.0 + FINGER_GAP),
        ensures
            a == press_at(self@.2, self@.0, self@.1),
    {
        proof {
            use_type_invariant(self);
        }
        TouchAction::Press {
            first_id: self.tracking,
            second_id: self.tracking + 1,
            first_x: self.x - FINGER_GAP,
            second_x: self.x + FINGER_GAP,
            x: self.x,
            y: self.y,
        }
    }

    fn position(&self) -> (a: TouchAction)
        requires
            fits_i32(self@.0 - FINGER_GAP),
            fits_i32(self@.0 + FINGER_GAP),
        ensures
            a == move_to(self@.0, self@.1),
    {
        TouchAction::Move {
            first_x: self.x - FINGER_GAP,
            second_x: self.x + FINGER_GAP,
            x: self.x,
            y: self.y,
        }
    }

    /// Begins a gesture whose first motion is `(dx, dy)`: the fingers touch
    /// down `prime_units` behind the current position in the direction of
    /// that motion, so that the first frame already scrolls.
    pub fn begin(&mut self, dx: i32, dy: i32, prime_units: i32) -> (actions: Vec<TouchAction>)
        requires
            begin_fits(old(self)@, dx as int, dy as int, prime_units as int),
        ensures
            final(self)@ == after_begin(old(self)@),
            0 <= final(self)@.2 < TRACKING_LIMIT,
            actions@ == begin_actions(old(self)@, dx as int, dy as int, prime_units as int),
    {
        proof {
            use_type_invariant(&*self);
        }
        self.tracking = (self.tracking + 2) % TRACKING_LIMIT;
        let prime_x = gesture_prime(dx, prime_units);
        let prime_y = gesture_prime(dy, prime_units);
        let start = TouchPad { x: self.x - prime_x, y: self.y - prime_y, tracking: self.tracking };
        let mut actions = Vec::new();
        actions.push(start.press());
        if prime_x != 0 || prime_y != 0 {
            actions.push(self.position());
        }
        actions
    }

    /// Moves the fingers by twice `(dx, dy)`. A gesture that would leave the
    /// band ends and starts again at the opposite edge, so that an
    /// arbitrarily long stream of motion can flow.
    pub fn scroll(&mut self, dx: i32, dy: i32) -> (actions: Vec<TouchAction>)
        requires
            scroll_fits(old(self)@, dx as int, dy as int),
        ensures
            final(self)@ == after_scroll(old(self)@, dx as int, dy as int),
            0 <= final(self)@.2 < TRACKING_LIMIT,
            actions@ == scroll_actions(old(self)@, dx as int, dy as int),
    {
        proof {
            use_type_invariant(&*self);
        }
        let scaled_x = dx * 2;
        let scaled_y = dy * 2;
        let next_x = self.x + scaled_x;
        let next_y = self.y + scaled_y;
        let mut actions = Vec::new();
        if !(PAD_MIN + EDGE_MARGIN <= next_x && next_x <= PAD_MAX - EDGE_MARGIN)
            || !(PAD_MIN + EDGE_MARGIN <= next_y && next_y <= PAD_MAX - EDGE_MARGIN)
        {
            let mut released = self.end();
            actions.append(&mut released);
            self.x = restart_position(scaled_x, PAD_MIN, PAD_MAX, EDGE_MARGIN);
            self.y = restart_position(scaled_y, PAD_MIN, PAD_MAX, EDGE_MARGIN);
            let mut pressed = self.begin(0, 0, 0);
            actions.append(&mut pressed);
        }
        self.x = self.x + scaled_x;
        self.y = self.y + scaled_y;
        actions.push(self.position());
        actions
    }

    /// Lifts both fingers and returns them to the resting position.
    pub fn end(&mut self) -> (actions: Vec<TouchAction>)
        ensures
            final(self)@ == after_end(old(self)@),
            0 <= final(self)@.2 < TRACKING_LIMIT,
            actions@ == seq![TouchAction::Release],
    {
        proof {
            use_type_invariant(&*self);
        }
        self.x = PAD_START;
        self.y = PAD_START;
        let mut actions = Vec::new();
        actions.push(TouchAction::Release);
        actions
    }
}


/// A scroll step no larger than the band keeps the fingers inside the band,
/// whether or not the gesture had to wrap around at an edge: an arbitrarily
/// long stream of bounded steps can flow through one virtual pad.
pub proof fn lemma_scroll_stays_in_band(pad: PadView, dx: int, dy: int)
    requires
        -(PAD_MAX - PAD_MIN - 2 * EDGE_MARGIN) <= 2 * dx <= PAD_MAX - PAD_MIN - 2 * EDGE_MARGIN,
        -(PAD_MAX - PAD_MIN - 2 * EDGE_MARGIN) <= 2 * dy <= PAD_MAX - PAD_MIN - 2 * EDGE_MARGIN,
    ensures
        in_band(after_scroll(pad, dx, dy).0),
        in_band(after_scroll(pad, dx, dy).1),
{
}

/// Where an action puts the gesture's centre; a release puts it nowhere.
pub open spec fn action_position(a: TouchAction) -> Option<(int, int)> {
    match a {
        TouchAction::Press { x, y, .. } => Some((x as int, y as int)),
        TouchAction::Move { x, y, .. } => Some((x as int, y as int)),
        TouchAction::Release => None,
    }
}

/// Beginning a gesture treats both axes alike: the fingers touch down
/// `prime_units` behind the current position on every axis that moves,
/// opposite to its motion, with the next tracking identifiers; whenever they
/// were displaced on either axis they then move onto the current position,
/// so a begun gesture always rests at the pad's position.
pub proof fn lemma_begin_primes_each_axis(pad: PadView, dx: int, dy: int, prime_units: int)
    requires
        fits_i32(pad.0),
        fits_i32(pad.1),
        begin_fits(pad, dx, dy, prime_units),
    ensures
        ({
            let actions = begin_actions(pad, dx, dy, prime_units);
            let off_x = if dx > 0 {
                prime_units
            } else if dx < 0 {
                -prime_units
            } else {
                0
            };
            let off_y = if dy > 0 {
                prime_units
            } else if dy < 0 {
                -prime_units
            } else {
                0
            };
            &&& actions.len() == if off_x != 0 || off_y != 0 {
                2int
            } else {
                1int
            }
            &&& actions[0] matches TouchAction::Press { first_id, second_id, .. } && first_id
                == next_tracking(pad.2) && second_id == first_id + 1
            &&& action_position(actions[0]) == Some((pad.0 - off_x, pad.1 - off_y))
            &&& action_position(actions.last()) == Some((pad.0, pad.1))
            &&& forall|i: int| 1 <= i < actions.len() ==> (#[trigger] actions[i]) is Move
        }),
{
    assert(prime_offset(dx, prime_units) == if dx > 0 {
        prime_units
    } else if dx < 0 {
        -prime_units
    } else {
        0
    }) by (nonlinear_arith);
    assert(prime_offset(dy, prime_units) == if dy > 0 {
        prime_units
    } else if dy < 0 {
        -prime_units
    } else {
        0
    }) by (nonlinear_arith);
    let t = next_tracking(pad.2);
    assert(0 <= t < TRACKING_LIMIT);
}

/// A scroll step moves the fingers by twice the frame's motion: from the
/// pad's position when the step stays in the band, otherwise from a fresh
/// touch-down at the opposite edge after lifting the fingers; the step ends
/// with a move.
pub proof fn lemma_scroll_moves_twice_the_frame(pad: PadView, dx: int, dy: int)
    requires
        0 <= pad.2 < TRACKING_LIMIT,
        scroll_fits(pad, dx, dy),
    ensures
        ({
            let actions = scroll_actions(pad, dx, dy);
            let after = after_scroll(pad, dx, dy);
            &&& actions.last() is Move
            &&& action_position(actions.last()) == Some((after.0, after.1))
            &&& if actions.len() == 1 {
                &&& after.0 == pad.0 + 2 * dx
                &&& after.1 == pad.1 + 2 * dy
                &&& after.2 == pad.2
            } else {
                &&& actions.len() == 3
                &&& actions[0] is Release
                &&& actions[1] is Press
                &&& action_position(actions[1]) matches Some(start) && after.0 == start.0 + 2 * dx
                    && after.1 == start.1 + 2 * dy
                &&& action_position(actions[1]) matches Some(start) && (dx > 0 ==> start.0
                    == PAD_MIN + EDGE_MARGIN) && (dx < 0 ==> start.0 == PAD_MAX - EDGE_MARGIN) && (
                dy > 0 ==> start.1 == PAD_MIN + EDGE_MARGIN) && (dy < 0 ==> start.1 == PAD_MAX
                    - EDGE_MARGIN)
            }
        }),
{
}

/// While a gesture runs, following a frame never touches down again: no
/// action is a press and the tracking identifier stays, unless the motion
/// runs into the pad's edge and the gesture restarts on the opposite side.
/// The actions are then those of the scroll step, followed by a release
/// when the gesture ends.
pub proof fn lemma_running_gesture_does_not_press(
    state: DriverView,
    frame: Frame,
    engine_active: bool,
    quiet_for: Option<u128>,
    gesture_idle: u128,
    prime_units: int,
)
    requires
        state.1,
        0 <= state.0.2 < TRACKING_LIMIT,
    ensures
        ({
            let (next, actions) = frame_step(
                state,
                frame,
                engine_active,
                quiet_for,
                gesture_idle,
                prime_units,
            );
            let h = frame.horizontal as int;
            let v = frame.vertical as int;
            let restarts = frame.moves() && scroll_restarts(state.0, h, v);
            &&& !restarts ==> next.0.2 == state.0.2
            &&& !restarts ==> forall|i: int|
                0 <= i < actions.len() ==> !((#[trigger] actions[i]) is Press)
            &&& next.0.2 != state.0.2 ==> restarts
            &&& actions.len() == (if frame.moves() {
                if scroll_restarts(state.0, h, v) {
                    3int
                } else {
                    1int
                }
            } else {
                0int
            }) + (if should_end(engine_active, quiet_for, gesture_idle) {
                1int
            } else {
                0int
            })
        }),
{
    let t = state.0.2;
    assert(next_tracking(t) != t) by {
        if t + 2 < TRACKING_LIMIT {
            assert((t + 2) % (TRACKING_LIMIT as int) == t + 2);
        } else {
            assert((t + 2) % (TRACKING_LIMIT as int) == t + 2 - TRACKING_LIMIT);
        }
    }
}

/// A gesture begins only once: from rest, a moving frame touches down
/// exactly once, at the start of its actions, and the gesture then runs
/// unless it ends in the same frame.
pub proof fn lemma_gesture_begins_once(
    state: DriverView,
    frame: Frame,
    engine_active: bool,
    quiet_for: Option<u128>,
    gesture_idle: u128,
    prime_units: int,
)
    requires
        !state.1,
        frame.moves(),
        begin_fits(state.0, frame.horizontal as int, frame.vertical as int, prime_units),
    ensures
        ({
            let (next, actions) = frame_step(
                state,
                frame,
                engine_active,
                quiet_for,
                gesture_idle,
                prime_units,
            );
            &&& actions[0] is Press
            &&& next.1 == !should_end(engine_active, quiet_for, gesture_idle)
        }),
{
}

/// The gesture state as the pad and whether a gesture is running.
pub type DriverView = (PadView, bool);

/// Whether following `frame` from `state` stays within `i32`.
pub open spec fn frame_fits(state: DriverView, frame: Frame, prime_units: int) -> bool {
    frame.moves() ==> {
        &&& !state.1 ==> begin_fits(
            state.0,
            frame.horizontal as int,
            frame.vertical as int,
            prime_units,
        )
        &&& scroll_fits(state.0, frame.horizontal as int, frame.vertical as int)
    }
}

/// One output frame: a gesture begins with the first motion, every motion is
/// scrolled, and a running gesture ends once `should_end` holds. Yields the
/// new state and the reported actions.
pub open spec fn frame_step(
    state: DriverView,
    frame: Frame,
    engine_active: bool,
    quiet_for: Option<u128>,
    gesture_idle: u128,
    prime_units: int,
) -> (DriverView, Seq<TouchAction>) {
    let h = frame.horizontal as int;
    let v = frame.vertical as int;
    let begins = frame.moves() && !state.1;
    let pad1 = if begins {
        after_begin(state.0)
    } else {
        state.0
    };
    let acts1 = if begins {
        begin_actions(state.0, h, v, prime_units)
    } else {
        Seq::empty()
    };
    let running = state.1 || begins;
    let pad2 = if frame.moves() {
        after_scroll(pad1, h, v)
    } else {
        pad1
    };
    let acts2 = if frame.moves() {
        scroll_actions(pad1, h, v)
    } else {
        Seq::empty()
    };
    let ends = running && should_end(engine_active, quiet_for, gesture_idle);
    if ends {
        ((after_end(pad2), false), acts1 + acts2 + seq![TouchAction::Release])
    } else {
        ((pad2, running), acts1 + acts2)
    }
}

/// Drives the virtual touchpad from the frames of the scroll engine.
pub struct GestureDriver {
    pad: TouchPad,
    running: bool,
}

impl View for GestureDriver {
    type V = DriverView;

    closed spec fn view(&self) -> DriverView {
        (self.pad@, self.running)
    }
}

impl GestureDriver {
    /// A driver with the fingers at rest and no gesture running.
    pub fn new() -> (d: Self)
        ensures
            d@ == ((PAD_START as int, PAD_START as int, TRACKING_START as int), false),
    {
        GestureDriver { pad: TouchPad::new(), running: false }
    }

    /// Whether a gesture is running.
    pub fn is_running(&self) -> (b: bool)
        ensures
            b == self@.1,
    {
        self.running
    }

    /// Whether following `frame` stays within `i32`; `follow` requires it.
    pub fn can_follow(&self, frame: Frame, prime_units: i32) -> (b: bool)
        ensures
            b == frame_fits(self@, frame, prime_units as int),
    {
        if !frame.has_motion() {
            return true;
        }
        let x = self.pad.x as i64;
        let y = self.pad.y as i64;
        let dx = frame.horizontal as i64;
        let dy = frame.vertical as i64;
        let gap = FINGER_GAP as i64;
        let mut ok = true;
        if !self.running {
            let px = prime_wide(dx, prime_units as i64);
            let py = prime_wide(dy, prime_units as i64);
            ok = within(px) && within(py) && within(x - px) && within(y - py) && within(
                x - px - gap,
            ) && within(x - px + gap) && within(x - gap) && within(x + gap);
        }
        let next_x = x + 2 * dx;
        let next_y = y + 2 * dy;
        let low = (PAD_MIN + EDGE_MARGIN) as i64;
        let high = (PAD_MAX - EDGE_MARGIN) as i64;
        let restarts = !(low <= next_x && next_x <= high) || !(low <= next_y && next_y <= high);
        let (tx, ty) = if restarts {
            (
                restart_wide(2 * dx) + 2 * dx,
                restart_wide(2 * dy) + 2 * dy,
            )
        } else {
            (next_x, next_y)
        };
        ok && within(2 * dx) && within(2 * dy) && within(next_x) && within(next_y) && within(tx)
            && within(ty) && within(tx - gap) && within(tx + gap)
    }

    /// Follows one output frame of the scroll engine. `quiet_for` is the time
    /// since the last wheel input and `gesture_idle` the time after which a
    /// gesture without motion ends, both in nanoseconds.
    pub fn follow(
        &mut self,
        frame: Frame,
        engine_active: bool,
        quiet_for: Option<u128>,
        gesture_idle: u128,
        prime_units: i32,
    ) -> (actions: Vec<TouchAction>)
        requires
            frame_fits(old(self)@, frame, prime_units as int),
        ensures
            (final(self)@, actions@) == frame_step(
                old(self)@,
                frame,
                engine_active,
                quiet_for,
                gesture_idle,
                prime_units as int,
            ),
    {
        let mut actions = Vec::new();
        let moves = frame.has_motion();
        if moves && !self.running {
            let mut begun = self.pad.begin(frame.horizontal, frame.vertical, prime_units);
            actions.append(&mut begun);
            self.running = true;
        }
        if moves {
            let mut scrolled = self.pad.scroll(frame.horizontal, frame.vertical);
            actions.append(&mut scrolled);
        }
        if self.running && gesture_should_end(engine_active, quiet_for, gesture_idle) {
            let mut ended = self.pad.end();
            actions.append(&mut ended);
            self.running = false;
        }
        actions
    }

    /// Ends a running gesture, as when the service stops.
    pub fn finish(&mut self) -> (actions: Vec<TouchAction>)
        ensures
            old(self)@.1 ==> final(self)@ == (after_end(old(self)@.0), false) && actions@ == seq![
                TouchAction::Release,
            ],
            !old(self)@.1 ==> final(self)@ == old(self)@ && actions@.len() == 0,
    {
        if self.running {
            self.running = false;
            self.pad.end()
        } else {
            Vec::new()
        }
    }
}

/// Whether a wide value fits into `i32`.
fn within(v: i64) -> (b: bool)
    ensures
        b == fits_i32(v as int),
{
    i32::MIN as i64 <= v && v <= i32::MAX as i64
}

/// `prime_offset` on wide values.
fn prime_wide(delta: i64, prime_units: i64) -> (r: i64)
    requires
        fits_i32(prime_units as int),
    ensures
        r == prime_offset(delta as int, prime_units as int),
{
    if delta > 0 {
        prime_units
    } else if delta < 0 {
        -prime_units
    } else {
        0
    }
}

/// `restart_at` on the pad's bounds, for wide values.
fn restart_wide(delta: i64) -> (r: i64)
    ensures
        r == restart_at(delta as int, PAD_MIN as int, PAD_MAX as int, EDGE_MARGIN as int),
{
    if delta > 0 {
        (PAD_MIN + EDGE_MARGIN) as i64
    } else if delta < 0 {
        (PAD_MAX - EDGE_MARGIN) as i64
    } else {
        ((PAD_MIN + PAD_MAX) / 2) as i64
    }
}

} // verus!
