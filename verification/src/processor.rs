//! From the messages of a phone to commands for the mouse.
//!
//! The state of one connection: the mode, the calibrated corners, and what is
//! tracked between two orientations. `N` is the type of the numbers in the
//! messages and `F` that of the state of the motion filter. The processor
//! decides what a message means and what is remembered of it; the arithmetic
//! on orientations is the caller's, who gets a frame to compute and hands the
//! result back.

use vstd::prelude::*;

use crate::protocol::{Btn, ClientMsg, Corner, Mode, RotationDelta};
use crate::throttle;

verus! {

/// A command for the mouse.
#[derive(Debug, Clone, Copy, PartialEq, Eq, Structural)]
pub enum MouseCmd {
    Press(Btn),
    Release(Btn),
    Scroll(i32),
    MoveTo(i32, i32),
}

/// What the processor is set to.
#[derive(Debug, Clone, Copy, PartialEq, Eq, Structural)]
pub struct Config {
    /// Wheel steps for one tick.
    pub scroll_sensitivity: i32,
    /// The direction of the wheel.
    pub scroll_sign: i32,
    /// Milliseconds without an orientation after which tracking starts anew.
    pub tracking_gap_ms: u64,
}

/// An orientation of the phone.
#[derive(Debug, Clone, Copy)]
pub struct Sample<N> {
    pub beta: N,
    pub alpha: N,
    pub gamma: N,
}

/// The orientation stored for a corner.
#[derive(Debug, Clone, Copy)]
pub struct Aim<N> {
    pub beta: N,
    pub alpha: N,
}

/// The orientations of all four corners.
#[derive(Debug, Clone, Copy)]
pub struct Corners<N> {
    pub tl: Aim<N>,
    pub tr: Aim<N>,
    pub bl: Aim<N>,
    pub br: Aim<N>,
}

/// How much a roll of the phone adds to the angles.
#[derive(Debug, Clone, Copy)]
pub struct Roll<N> {
    pub alpha_coupling: N,
    pub beta_coupling: N,
}

/// Where the motion of the phone is taken from.
#[derive(Debug, Clone, Copy)]
pub enum Motion<N> {
    /// The rotation that the phone integrated itself.
    Gyro(RotationDelta<N>),
    /// The difference of two orientations.
    Euler { from: Sample<N>, to: Sample<N> },
}

/// A position on the desktop to be computed from an orientation.
#[derive(Debug, Clone, Copy)]
pub struct AbsoluteFrame<N> {
    pub corners: Corners<N>,
    pub beta: N,
    pub alpha: N,
    pub smoothing: N,
    pub pos: Option<(N, N)>,
}

/// A position on the desktop to be computed from a motion. Without a filter the
/// motion starts at rest; without a position it starts in the middle; without
/// coefficients the roll of the phone is not compensated.
#[derive(Debug, Clone, Copy)]
pub struct RelativeFrame<N, F> {
    pub motion: Motion<N>,
    /// Nanoseconds since the last orientation.
    pub elapsed: u64,
    pub smoothing: N,
    pub roll: Option<Roll<N>>,
    pub filter: Option<F>,
    pub pos: Option<(N, N)>,
}

/// What follows from a message.
#[derive(Debug)]
pub enum Step<N, F> {
    /// Commands for the mouse.
    Commands(Vec<MouseCmd>),
    /// A position is to be computed, see [`Processor::place_absolute`].
    Absolute(AbsoluteFrame<N>),
    /// A position is to be computed, see [`Processor::place_relative`].
    Relative(RelativeFrame<N, F>),
}

/// The contents of a [`Step`].
pub enum StepView<N, F> {
    Commands(Seq<MouseCmd>),
    Absolute(AbsoluteFrame<N>),
    Relative(RelativeFrame<N, F>),
}

impl<N, F> View for Step<N, F> {
    type V = StepView<N, F>;

    open spec fn view(&self) -> StepView<N, F> {
        match *self {
            Step::Commands(cmds) => StepView::Commands(cmds@),
            Step::Absolute(frame) => StepView::Absolute(frame),
            Step::Relative(frame) => StepView::Relative(frame),
        }
    }
}

/// Nothing follows from the message.
pub open spec fn nothing<N, F>() -> StepView<N, F> {
    StepView::Commands(Seq::empty())
}

/// The state of one connection.
#[derive(Debug, Clone, Copy)]
pub struct Processor<N, F> {
    pub mode: Mode,
    pub smoothing: N,
    pub tl: Option<Aim<N>>,
    pub tr: Option<Aim<N>>,
    pub bl: Option<Aim<N>>,
    pub br: Option<Aim<N>>,
    /// The coefficients of the roll calibration, unless it is off.
    pub roll: Option<Roll<N>>,
    /// The smoothed position of the pointer, once it has one.
    pub pos: Option<(N, N)>,
    /// The last orientation and when it came, in nanoseconds.
    pub previous: Option<(Sample<N>, u64)>,
    /// The state of the motion filter, unless it is at rest.
    pub filter: Option<F>,
    /// The velocity of the pointer, unless it is at rest.
    pub velocity: Option<(N, N)>,
}

/// The commands that put the pointer on a pixel.
pub open spec fn pointer_commands(pixel: (i32, i32)) -> Seq<MouseCmd> {
    seq![MouseCmd::MoveTo(pixel.0, pixel.1)]
}

/// The wheel steps for a number of ticks.
pub open spec fn wheel_steps(config: Config, dy: i32) -> int {
    dy * config.scroll_sensitivity * config.scroll_sign
}

/// Whether the wheel steps can be counted.
pub open spec fn wheel_in_range(config: Config, dy: i32) -> bool {
    &&& i32::MIN <= dy * config.scroll_sensitivity <= i32::MAX
    &&& i32::MIN <= wheel_steps(config, dy) <= i32::MAX
}

/// Whether the wheel steps for a number of ticks can be counted.
pub fn check_wheel(config: &Config, dy: i32) -> (r: bool)
    ensures
        r == wheel_in_range(*config, dy),
{
    match dy.checked_mul(config.scroll_sensitivity) {
        Some(steps) => steps.checked_mul(config.scroll_sign).is_some(),
        None => false,
    }
}

/// Whether the message can be handled: the wheel steps it asks for, if any, can
/// be counted.
pub open spec fn in_range<N>(config: Config, msg: ClientMsg<N>) -> bool {
    match msg {
        ClientMsg::Scroll { dy } => wheel_in_range(config, dy),
        _ => true,
    }
}

impl<N: Copy, F: Copy> Processor<N, F> {
    /// The orientation stored for a corner.
    pub open spec fn corner(self, point: Corner) -> Option<Aim<N>> {
        match point {
            Corner::Tl => self.tl,
            Corner::Tr => self.tr,
            Corner::Bl => self.bl,
            Corner::Br => self.br,
        }
    }

    /// The processor with an orientation stored for a corner.
    pub open spec fn with_corner(self, point: Corner, aim: Aim<N>) -> Self {
        match point {
            Corner::Tl => Processor { tl: Some(aim), ..self },
            Corner::Tr => Processor { tr: Some(aim), ..self },
            Corner::Bl => Processor { bl: Some(aim), ..self },
            Corner::Br => Processor { br: Some(aim), ..self },
        }
    }

    /// The orientations of all four corners, once there is one for each.
    pub open spec fn calibration(self) -> Option<Corners<N>> {
        match (self.tl, self.tr, self.bl, self.br) {
            (Some(tl), Some(tr), Some(bl), Some(br)) => Some(Corners { tl, tr, bl, br }),
            _ => None,
        }
    }

    /// The processor with nothing tracked.
    pub open spec fn untracked(self) -> Self {
        Processor { previous: None, filter: None, velocity: None, pos: None, ..self }
    }

    /// What follows from an orientation in absolute mode: nothing unless all
    /// four corners are calibrated.
    pub open spec fn absolute_step(self, sample: Sample<N>) -> StepView<N, F> {
        match self.calibration() {
            Some(corners) => StepView::Absolute(
                AbsoluteFrame {
                    corners,
                    beta: sample.beta,
                    alpha: sample.alpha,
                    smoothing: self.smoothing,
                    pos: self.pos,
                },
            ),
            None => nothing(),
        }
    }

    /// The processor after an orientation in relative mode.
    pub open spec fn relative_next(self, config: Config, sample: Sample<N>, now: u64) -> Self {
        let next = Processor { previous: Some((sample, now)), ..self };
        match self.previous {
            Some((_, at)) => if throttle::at_least_millis(
                at as int,
                now as int,
                config.tracking_gap_ms as int,
            ) {
                Processor { filter: None, velocity: None, ..next }
            } else {
                next
            },
            None => next,
        }
    }

    /// What follows from an orientation in relative mode: nothing from the
    /// first one, nor from the first one after a gap.
    pub open spec fn relative_step(
        self,
        config: Config,
        sample: Sample<N>,
        rotation: Option<RotationDelta<N>>,
        now: u64,
    ) -> StepView<N, F> {
        match self.previous {
            Some((from, at)) => if throttle::at_least_millis(
                at as int,
                now as int,
                config.tracking_gap_ms as int,
            ) {
                nothing()
            } else {
                StepView::Relative(
                    RelativeFrame {
                        motion: match rotation {
                            Some(delta) => Motion::Gyro(delta),
                            None => Motion::Euler { from, to: sample },
                        },
                        elapsed: throttle::elapsed(at as int, now as int) as u64,
                        smoothing: self.smoothing,
                        roll: self.roll,
                        filter: self.filter,
                        pos: self.pos,
                    },
                )
            },
            None => nothing(),
        }
    }

    /// The processor after a message.
    pub open spec fn next(self, config: Config, msg: ClientMsg<N>, now: u64) -> Self {
        match msg {
            ClientMsg::Mode { mode } => Processor { mode, ..self }.untracked(),
            ClientMsg::Smoothing { value } => Processor { smoothing: value, ..self },
            ClientMsg::Calib { point, beta, alpha, gamma } => self.with_corner(
                point,
                Aim { beta, alpha },
            ),
            ClientMsg::ResetCalib => Processor { tl: None, tr: None, bl: None, br: None, ..self },
            ClientMsg::GammaCalib { alpha_coupling, beta_coupling } => Processor {
                roll: Some(Roll { alpha_coupling, beta_coupling }),
                ..self
            },
            ClientMsg::ResetGammaCalib => Processor { roll: None, ..self },
            ClientMsg::Move { beta, alpha, gamma, rotation_delta } => match self.mode {
                Mode::Absolute => self,
                Mode::Relative => self.relative_next(config, Sample { beta, alpha, gamma }, now),
            },
            _ => self,
        }
    }

    /// What follows from a message.
    pub open spec fn step(self, config: Config, msg: ClientMsg<N>, now: u64) -> StepView<N, F> {
        match msg {
            ClientMsg::Down { button } => StepView::Commands(seq![MouseCmd::Press(button)]),
            ClientMsg::Up { button } => StepView::Commands(seq![MouseCmd::Release(button)]),
            ClientMsg::Scroll { dy } => if wheel_steps(config, dy) == 0 {
                nothing()
            } else {
                StepView::Commands(seq![MouseCmd::Scroll(wheel_steps(config, dy) as i32)])
            },
            ClientMsg::Move { beta, alpha, gamma, rotation_delta } => {
                let sample = Sample { beta, alpha, gamma };
                match self.mode {
                    Mode::Absolute => self.absolute_step(sample),
                    Mode::Relative => self.relative_step(config, sample, rotation_delta, now),
                }
            },
            _ => nothing(),
        }
    }

    /// A connection that has just been made.
    pub open spec fn fresh(smoothing: N) -> Self {
        Processor {
            mode: Mode::Relative,
            smoothing,
            tl: None,
            tr: None,
            bl: None,
            br: None,
            roll: None,
            pos: None,
            previous: None,
            filter: None,
            velocity: None,
        }
    }

    /// The processor after the position for an absolute frame was handed back.
    pub open spec fn placed_absolute(self, pos: (N, N)) -> Self {
        Processor { pos: Some(pos), ..self }
    }

    /// The processor after the motion for a relative frame was handed back.
    pub open spec fn placed_relative(self, filter: F, velocity: (N, N), pos: (N, N)) -> Self {
        Processor { filter: Some(filter), velocity: Some(velocity), pos: Some(pos), ..self }
    }

    /// A connection that has just been made. The air mouse is the default.
    pub fn new(smoothing: N) -> (r: Self)
        ensures
            r == Self::fresh(smoothing),
            r == (Processor::<N, F> {
                mode: Mode::Relative,
                smoothing,
                tl: None,
                tr: None,
                bl: None,
                br: None,
                roll: None,
                pos: None,
                previous: None,
                filter: None,
                velocity: None,
            }),
    {
        Processor {
            mode: Mode::Relative,
            smoothing,
            tl: None,
            tr: None,
            bl: None,
            br: None,
            roll: None,
            pos: None,
            previous: None,
            filter: None,
            velocity: None,
        }
    }

    /// Forgets what is tracked, so that a reconnect or a switch of the mode does
    /// not make the pointer jump.
    pub fn reset_tracking(&mut self)
        ensures
            *final(self) == old(self).untracked(),
    {
        self.previous = None;
        self.filter = None;
        self.velocity = None;
        self.pos = None;
    }

    /// Handles one message that came at `now`, a moment in nanoseconds.
    pub fn handle(&mut self, config: &Config, msg: ClientMsg<N>, now: u64) -> (r: Step<N, F>)
        requires
            in_range(*config, msg),
        ensures
            *final(self) == old(self).next(*config, msg, now),
            r@ == old(self).step(*config, msg, now),
            msg matches ClientMsg::Down { button } ==> r@ == StepView::<N, F>::Commands(
                seq![MouseCmd::Press(button)],
            ),
            msg matches ClientMsg::Up { button } ==> r@ == StepView::<N, F>::Commands(
                seq![MouseCmd::Release(button)],
            ),
    {
        match msg {
            ClientMsg::Mode { mode } => {
                self.mode = mode;
                self.reset_tracking();
                Step::Commands(Vec::new())
            },
            ClientMsg::Smoothing { value } => {
                self.smoothing = value;
                Step::Commands(Vec::new())
            },
            ClientMsg::Calib { point, beta, alpha, gamma: _ } => {
                let aim = Aim { beta, alpha };
                match point {
                    Corner::Tl => {
                        self.tl = Some(aim);
                    },
                    Corner::Tr => {
                        self.tr = Some(aim);
                    },
                    Corner::Bl => {
                        self.bl = Some(aim);
                    },
                    Corner::Br => {
                        self.br = Some(aim);
                    },
                }
                Step::Commands(Vec::new())
            },
            ClientMsg::ResetCalib => {
                self.tl = None;
                self.tr = None;
                self.bl = None;
                self.br = None;
                Step::Commands(Vec::new())
            },
            ClientMsg::GammaCalib { alpha_coupling, beta_coupling } => {
                self.roll = Some(Roll { alpha_coupling, beta_coupling });
                Step::Commands(Vec::new())
            },
            ClientMsg::ResetGammaCalib => {
                self.roll = None;
                Step::Commands(Vec::new())
            },
            ClientMsg::Down { button } => one_command(MouseCmd::Press(button)),
            ClientMsg::Up { button } => one_command(MouseCmd::Release(button)),
            ClientMsg::Scroll { dy } => {
                let steps: i32 = dy * config.scroll_sensitivity * config.scroll_sign;
                if steps == 0 {
                    Step::Commands(Vec::new())
                } else {
                    one_command(MouseCmd::Scroll(steps))
                }
            },
            ClientMsg::Move { beta, alpha, gamma, rotation_delta } => {
                let sample = Sample { beta, alpha, gamma };
                match self.mode {
                    Mode::Absolute => self.absolute(sample),
                    Mode::Relative => self.relative(config, sample, rotation_delta, now),
                }
            },
        }
    }

    /// The orientations of all four corners, once there is one for each.
    pub fn corners(&self) -> (r: Option<Corners<N>>)
        ensures
            r == self.calibration(),
    {
        match (self.tl, self.tr, self.bl, self.br) {
            (Some(tl), Some(tr), Some(bl), Some(br)) => Some(Corners { tl, tr, bl, br }),
            _ => None,
        }
    }

    fn absolute(&self, sample: Sample<N>) -> (r: Step<N, F>)
        ensures
            r@ == self.absolute_step(sample),
    {
        match self.corners() {
            Some(corners) => Step::Absolute(
                AbsoluteFrame {
                    corners,
                    beta: sample.beta,
                    alpha: sample.alpha,
                    smoothing: self.smoothing,
                    pos: self.pos,
                },
            ),
            None => Step::Commands(Vec::new()),
        }
    }

    fn relative(
        &mut self,
        config: &Config,
        sample: Sample<N>,
        rotation_delta: Option<RotationDelta<N>>,
        now: u64,
    ) -> (r: Step<N, F>)
        ensures
            *final(self) == old(self).relative_next(*config, sample, now),
            r@ == old(self).relative_step(*config, sample, rotation_delta, now),
    {
        let previous = self.previous;
        self.previous = Some((sample, now));
        let (from, at) = match previous {
            Some(pair) => pair,
            None => {
                return Step::Commands(Vec::new());
            },
        };
        if throttle::millis_passed(at, now, config.tracking_gap_ms) {
            self.velocity = None;
            self.filter = None;
            return Step::Commands(Vec::new());
        }
        let motion = match rotation_delta {
            Some(delta) => Motion::Gyro(delta),
            None => Motion::Euler { from, to: sample },
        };
        Step::Relative(
            RelativeFrame {
                motion,
                elapsed: throttle::elapsed_nanos(at, now),
                smoothing: self.smoothing,
                roll: self.roll,
                filter: self.filter,
                pos: self.pos,
            },
        )
    }

    /// Takes the position that was computed for an absolute frame, and the pixel
    /// it falls on.
    pub fn place_absolute(&mut self, pos: (N, N), pixel: (i32, i32)) -> (r: Vec<MouseCmd>)
        ensures
            *final(self) == (Processor { pos: Some(pos), ..*old(self) }),
            *final(self) == old(self).placed_absolute(pos),
            r@ == seq![MouseCmd::MoveTo(pixel.0, pixel.1)],
            r@ == pointer_commands(pixel),
    {
        self.pos = Some(pos);
        let mut cmds: Vec<MouseCmd> = Vec::new();
        cmds.push(MouseCmd::MoveTo(pixel.0, pixel.1));
        cmds
    }

    /// Takes the state of the filter, the velocity and the position that were
    /// computed for a relative frame, and the pixel it falls on.
    pub fn place_relative(
        &mut self,
        filter: F,
        velocity: (N, N),
        pos: (N, N),
        pixel: (i32, i32),
    ) -> (r: Vec<MouseCmd>)
        ensures
            *final(self) == (Processor {
                filter: Some(filter),
                velocity: Some(velocity),
                pos: Some(pos),
                ..*old(self)
            }),
            *final(self) == old(self).placed_relative(filter, velocity, pos),
            r@ == seq![MouseCmd::MoveTo(pixel.0, pixel.1)],
            r@ == pointer_commands(pixel),
    {
        self.filter = Some(filter);
        self.velocity = Some(velocity);
        self.place_absolute(pos, pixel)
    }
}

/// A step of one command.
fn one_command<N, F>(cmd: MouseCmd) -> (r: Step<N, F>)
    ensures
        r@ == StepView::<N, F>::Commands(seq![cmd]),
{
    let mut cmds: Vec<MouseCmd> = Vec::new();
    cmds.push(cmd);
    assert(cmds@ =~= seq![cmd]);
    Step::Commands(cmds)
}

/// What happens on a connection: a message comes at a moment, or a computed
/// position is handed back.
pub enum Input<N, F> {
    Message(ClientMsg<N>, u64),
    PlacedAbsolute((N, N)),
    PlacedRelative(F, (N, N), (N, N)),
}

/// The processor after one input.
pub open spec fn after_input<N: Copy, F: Copy>(
    p: Processor<N, F>,
    config: Config,
    input: Input<N, F>,
) -> Processor<N, F> {
    match input {
        Input::Message(msg, now) => p.next(config, msg, now),
        Input::PlacedAbsolute(pos) => p.placed_absolute(pos),
        Input::PlacedRelative(filter, velocity, pos) => p.placed_relative(filter, velocity, pos),
    }
}

/// The processor after inputs.
pub open spec fn after_inputs<N: Copy, F: Copy>(
    start: Processor<N, F>,
    config: Config,
    inputs: Seq<Input<N, F>>,
) -> Processor<N, F>
    decreases inputs.len(),
{
    if inputs.len() == 0 {
        start
    } else {
        after_input(after_inputs(start, config, inputs.drop_last()), config, inputs.last())
    }
}

/// The last orientation that was sent for a corner since the corners were last
/// forgotten; `before` is what was stored at the beginning.
pub open spec fn last_aim<N, F>(
    before: Option<Aim<N>>,
    inputs: Seq<Input<N, F>>,
    point: Corner,
) -> Option<Aim<N>>
    decreases inputs.len(),
{
    if inputs.len() == 0 {
        before
    } else {
        match inputs.last() {
            Input::Message(ClientMsg::ResetCalib, _) => None,
            Input::Message(ClientMsg::Calib { point: p, beta, alpha, gamma }, _) => if p == point {
                Some(Aim { beta, alpha })
            } else {
                last_aim(before, inputs.drop_last(), point)
            },
            _ => last_aim(before, inputs.drop_last(), point),
        }
    }
}

/// The last mode that was asked for.
pub open spec fn last_mode<N, F>(before: Mode, inputs: Seq<Input<N, F>>) -> Mode
    decreases inputs.len(),
{
    if inputs.len() == 0 {
        before
    } else {
        match inputs.last() {
            Input::Message(ClientMsg::Mode { mode }, _) => mode,
            _ => last_mode(before, inputs.drop_last()),
        }
    }
}

/// The last coefficients of a roll calibration that were sent since the
/// compensation was last switched off.
pub open spec fn last_roll<N, F>(before: Option<Roll<N>>, inputs: Seq<Input<N, F>>) -> Option<
    Roll<N>,
>
    decreases inputs.len(),
{
    if inputs.len() == 0 {
        before
    } else {
        match inputs.last() {
            Input::Message(ClientMsg::ResetGammaCalib, _) => None,
            Input::Message(ClientMsg::GammaCalib { alpha_coupling, beta_coupling }, _) => Some(
                Roll { alpha_coupling, beta_coupling },
            ),
            _ => last_roll(before, inputs.drop_last()),
        }
    }
}

/// Whatever happens on a connection, what is stored for a corner is the last
/// orientation sent for it since the corners were last forgotten, the mode is
/// the last one asked for, and the coefficients of the roll are the last ones
/// sent since the compensation was switched off.
pub proof fn state_follows_the_last_request<N: Copy, F: Copy>(
    start: Processor<N, F>,
    config: Config,
    inputs: Seq<Input<N, F>>,
    point: Corner,
)
    ensures
        after_inputs(start, config, inputs).corner(point) == last_aim(
            start.corner(point),
            inputs,
            point,
        ),
        after_inputs(start, config, inputs).mode == last_mode(start.mode, inputs),
        after_inputs(start, config, inputs).roll == last_roll(start.roll, inputs),
    decreases inputs.len(),
{
    if inputs.len() > 0 {
        state_follows_the_last_request(start, config, inputs.drop_last(), point);
    }
}

/// The last position that was handed back since the mode was last set.
pub open spec fn last_pos<N, F>(before: Option<(N, N)>, inputs: Seq<Input<N, F>>) -> Option<
    (N, N),
>
    decreases inputs.len(),
{
    if inputs.len() == 0 {
        before
    } else {
        match inputs.last() {
            Input::Message(ClientMsg::Mode { mode }, _) => None,
            Input::PlacedAbsolute(pos) => Some(pos),
            Input::PlacedRelative(_, _, pos) => Some(pos),
            _ => last_pos(before, inputs.drop_last()),
        }
    }
}

/// The last smoothing that was asked for.
pub open spec fn last_smoothing<N, F>(before: N, inputs: Seq<Input<N, F>>) -> N
    decreases inputs.len(),
{
    if inputs.len() == 0 {
        before
    } else {
        match inputs.last() {
            Input::Message(ClientMsg::Smoothing { value }, _) => value,
            _ => last_smoothing(before, inputs.drop_last()),
        }
    }
}

/// The last orientation that came in relative mode since the mode was last set,
/// and when it came.
pub open spec fn last_orientation<N, F>(
    before: Option<(Sample<N>, u64)>,
    mode: Mode,
    inputs: Seq<Input<N, F>>,
) -> Option<(Sample<N>, u64)>
    decreases inputs.len(),
{
    if inputs.len() == 0 {
        before
    } else {
        let rest = inputs.drop_last();
        match inputs.last() {
            Input::Message(ClientMsg::Mode { mode: _ }, _) => None,
            Input::Message(ClientMsg::Move { beta, alpha, gamma, rotation_delta }, now) => {
                if last_mode(mode, rest) == Mode::Relative {
                    Some((Sample { beta, alpha, gamma }, now))
                } else {
                    last_orientation(before, mode, rest)
                }
            },
            _ => last_orientation(before, mode, rest),
        }
    }
}

/// Whether so much time lies between two moments that tracking starts anew.
pub open spec fn is_gap(config: Config, at: u64, now: u64) -> bool {
    now - at >= config.tracking_gap_ms * 1000000 || config.tracking_gap_ms == 0
}

/// The last state of the filter and the last velocity that were handed back
/// since the mode was last set and since the last gap.
pub open spec fn last_motion<N, F>(
    before: (Option<F>, Option<(N, N)>),
    primed: Option<(Sample<N>, u64)>,
    mode: Mode,
    config: Config,
    inputs: Seq<Input<N, F>>,
) -> (Option<F>, Option<(N, N)>)
    decreases inputs.len(),
{
    if inputs.len() == 0 {
        before
    } else {
        let rest = inputs.drop_last();
        let kept = last_motion(before, primed, mode, config, rest);
        match inputs.last() {
            Input::Message(ClientMsg::Mode { mode: _ }, _) => (None, None),
            Input::PlacedRelative(filter, velocity, _) => (Some(filter), Some(velocity)),
            Input::Message(ClientMsg::Move { beta, alpha, gamma, rotation_delta }, now) => {
                match last_orientation(primed, mode, rest) {
                    Some((_, at)) => if last_mode(mode, rest) == Mode::Relative && is_gap(
                        config,
                        at,
                        now,
                    ) {
                        (None, None)
                    } else {
                        kept
                    },
                    None => kept,
                }
            },
            _ => kept,
        }
    }
}

/// Whatever happens on a connection, the pointer is where it was last put since
/// the mode was set, the smoothing is the last one asked for, and what is
/// tracked is the last orientation and the last motion.
pub proof fn state_follows_the_history<N: Copy, F: Copy>(
    start: Processor<N, F>,
    config: Config,
    inputs: Seq<Input<N, F>>,
)
    ensures
        ({
            let p = after_inputs(start, config, inputs);
            let motion = last_motion(
                (start.filter, start.velocity),
                start.previous,
                start.mode,
                config,
                inputs,
            );
            &&& p.pos == last_pos(start.pos, inputs)
            &&& p.smoothing == last_smoothing(start.smoothing, inputs)
            &&& p.previous == last_orientation(start.previous, start.mode, inputs)
            &&& p.filter == motion.0
            &&& p.velocity == motion.1
        }),
    decreases inputs.len(),
{
    if inputs.len() > 0 {
        state_follows_the_history(start, config, inputs.drop_last());
        state_follows_the_last_request(start, config, inputs.drop_last(), Corner::Tl);
    }
}

/// In relative mode, whatever happened before, an orientation asks for a motion
/// that goes on from where the pointer is: from the position that was last
/// handed back, with the filter as it was last handed back, the smoothing last
/// asked for and the time since the last orientation. The motion is the
/// rotation that came with the orientation, or else the way from the last
/// orientation to this one. Nothing follows where there is no last orientation,
/// nor after a gap.
pub proof fn relative_motion_goes_on<N: Copy, F: Copy>(
    start: Processor<N, F>,
    config: Config,
    inputs: Seq<Input<N, F>>,
    beta: N,
    alpha: N,
    gamma: N,
    rotation_delta: Option<RotationDelta<N>>,
    now: u64,
)
    requires
        last_mode(start.mode, inputs) == Mode::Relative,
    ensures
        ({
            let step = after_inputs(start, config, inputs).step(
                config,
                ClientMsg::Move { beta, alpha, gamma, rotation_delta },
                now,
            );
            match last_orientation(start.previous, start.mode, inputs) {
                None => step == nothing::<N, F>(),
                Some((from, at)) => if is_gap(config, at, now) {
                    step == nothing::<N, F>()
                } else {
                    &&& step matches StepView::Relative(frame)
                    &&& frame.pos == last_pos(start.pos, inputs)
                    &&& frame.filter == last_motion(
                        (start.filter, start.velocity),
                        start.previous,
                        start.mode,
                        config,
                        inputs,
                    ).0
                    &&& frame.smoothing == last_smoothing(start.smoothing, inputs)
                    &&& frame.roll == last_roll(start.roll, inputs)
                    &&& at <= now ==> frame.elapsed == now - at
                    &&& at > now ==> frame.elapsed == 0
                    &&& match rotation_delta {
                        Some(delta) => frame.motion == Motion::Gyro(delta),
                        None => frame.motion == (Motion::Euler {
                            from,
                            to: Sample { beta, alpha, gamma },
                        }),
                    }
                },
            }
        }),
{
    state_follows_the_history(start, config, inputs);
    state_follows_the_last_request(start, config, inputs, Corner::Tl);
}

/// In absolute mode with every corner calibrated, whatever happened before, an
/// orientation asks for the position of exactly its angles, between the
/// orientations last sent for the corners, smoothed as last asked for against
/// the position that was last handed back.
pub proof fn absolute_frame_holds_the_angles<N: Copy, F: Copy>(
    start: Processor<N, F>,
    config: Config,
    inputs: Seq<Input<N, F>>,
    beta: N,
    alpha: N,
    gamma: N,
    rotation_delta: Option<RotationDelta<N>>,
    now: u64,
)
    requires
        last_mode(start.mode, inputs) == Mode::Absolute,
        forall|point: Corner| #[trigger] last_aim(start.corner(point), inputs, point) is Some,
    ensures
        ({
            let step = after_inputs(start, config, inputs).step(
                config,
                ClientMsg::Move { beta, alpha, gamma, rotation_delta },
                now,
            );
            &&& step matches StepView::Absolute(frame)
            &&& frame.beta == beta
            &&& frame.alpha == alpha
            &&& Some(frame.corners.tl) == last_aim(start.tl, inputs, Corner::Tl)
            &&& Some(frame.corners.tr) == last_aim(start.tr, inputs, Corner::Tr)
            &&& Some(frame.corners.bl) == last_aim(start.bl, inputs, Corner::Bl)
            &&& Some(frame.corners.br) == last_aim(start.br, inputs, Corner::Br)
            &&& frame.smoothing == last_smoothing(start.smoothing, inputs)
            &&& frame.pos == last_pos(start.pos, inputs)
        }),
{
    state_follows_the_history(start, config, inputs);
    state_follows_the_last_request(start, config, inputs, Corner::Tl);
    state_follows_the_last_request(start, config, inputs, Corner::Tr);
    state_follows_the_last_request(start, config, inputs, Corner::Bl);
    state_follows_the_last_request(start, config, inputs, Corner::Br);
    assert(last_aim(start.corner(Corner::Tl), inputs, Corner::Tl) is Some);
    assert(last_aim(start.corner(Corner::Tr), inputs, Corner::Tr) is Some);
    assert(last_aim(start.corner(Corner::Bl), inputs, Corner::Bl) is Some);
    assert(last_aim(start.corner(Corner::Br), inputs, Corner::Br) is Some);
}

/// In every state, pressing a button presses exactly the button that the phone
/// names, and releasing it releases that one. Nothing else changes, and no two
/// buttons or directions are taken for one another.
pub proof fn named_button_is_moved<N: Copy, F: Copy>(
    p: Processor<N, F>,
    config: Config,
    button: Btn,
    other: Btn,
    now: u64,
)
    ensures
        p.step(config, ClientMsg::Down { button }, now) matches StepView::Commands(cmds)
            && cmds.len() == 1 && cmds[0] == MouseCmd::Press(button),
        p.step(config, ClientMsg::Up { button }, now) matches StepView::Commands(cmds)
            && cmds.len() == 1 && cmds[0] == MouseCmd::Release(button),
        p.next(config, ClientMsg::Down { button }, now) == p,
        p.next(config, ClientMsg::Up { button }, now) == p,
        button != other ==> p.step(config, ClientMsg::Down { button }, now) != p.step(
            config,
            ClientMsg::Down { button: other },
            now,
        ) && p.step(config, ClientMsg::Up { button }, now) != p.step(
            config,
            ClientMsg::Up { button: other },
            now,
        ),
        p.step(config, ClientMsg::Down { button }, now) != p.step(
            config,
            ClientMsg::Up { button: other },
            now,
        ),
{
    let down = p.step(config, ClientMsg::Down { button }, now)->Commands_0;
    let up = p.step(config, ClientMsg::Up { button }, now)->Commands_0;
    let down_other = p.step(config, ClientMsg::Down { button: other }, now)->Commands_0;
    let up_other = p.step(config, ClientMsg::Up { button: other }, now)->Commands_0;
    assert(down[0] == MouseCmd::Press(button));
    assert(up[0] == MouseCmd::Release(button));
    assert(down_other[0] == MouseCmd::Press(other));
    assert(up_other[0] == MouseCmd::Release(other));
}

/// In every state, the wheel turns by the ticks times the sensitivity, in the
/// direction that is set: one command where that is not zero, none where it is.
/// Nothing else changes.
pub proof fn wheel_turns_by_the_ticks<N: Copy, F: Copy>(
    p: Processor<N, F>,
    config: Config,
    dy: i32,
    now: u64,
)
    requires
        i32::MIN <= dy * config.scroll_sensitivity <= i32::MAX,
        i32::MIN <= dy * config.scroll_sensitivity * config.scroll_sign <= i32::MAX,
    ensures
        in_range(config, ClientMsg::<N>::Scroll { dy }),
        p.next(config, ClientMsg::Scroll { dy }, now) == p,
        p.step(config, ClientMsg::Scroll { dy }, now) matches StepView::Commands(cmds) && if dy
            * config.scroll_sensitivity * config.scroll_sign == 0 {
            cmds.len() == 0
        } else {
            cmds.len() == 1 && (cmds[0] matches MouseCmd::Scroll(steps) && steps == dy
                * config.scroll_sensitivity * config.scroll_sign)
        },
{
}

/// The wheel turns both ways alike: the opposite ticks turn it by as many steps
/// the other way.
pub proof fn wheel_turns_both_ways<N: Copy, F: Copy>(
    p: Processor<N, F>,
    config: Config,
    dy: i32,
    opposite: i32,
    now: u64,
)
    requires
        opposite == -dy,
        in_range(config, ClientMsg::<N>::Scroll { dy }),
        in_range(config, ClientMsg::<N>::Scroll { dy: opposite }),
    ensures
        ({
            let there = p.step(config, ClientMsg::Scroll { dy }, now);
            let back = p.step(config, ClientMsg::Scroll { dy: opposite }, now);
            match (there, back) {
                (StepView::Commands(a), StepView::Commands(b)) => {
                    &&& a.len() == b.len()
                    &&& dy != 0 && config.scroll_sensitivity != 0 && config.scroll_sign != 0
                        ==> a.len() == 1
                    &&& a.len() > 0 ==> (a[0] matches MouseCmd::Scroll(m) && (
                    b[0] matches MouseCmd::Scroll(n) && n == -m && m != 0))
                },
                _ => false,
            }
        }),
{
    let k = config.scroll_sensitivity as int;
    let d = config.scroll_sign as int;
    assert(opposite * k * d == -(dy * k * d)) by (nonlinear_arith)
        requires
            opposite == -dy,
    ;
    assert(dy != 0 && k != 0 && d != 0 ==> dy * k * d != 0) by (nonlinear_arith);
}

/// A message can be handled unless it turns the wheel by more steps than can be
/// counted.
pub proof fn only_the_wheel_has_a_range<N>(config: Config, msg: ClientMsg<N>)
    ensures
        in_range(config, msg) <==> (msg matches ClientMsg::Scroll { dy } ==> i32::MIN <= dy
            * config.scroll_sensitivity <= i32::MAX && i32::MIN <= dy * config.scroll_sensitivity
            * config.scroll_sign <= i32::MAX),
{
}

/// A message that sets something commands nothing, and what it sets is all that
/// changes: the mode, with what is tracked, or one of the settings.
pub proof fn settings_command_nothing<N: Copy, F: Copy>(
    p: Processor<N, F>,
    config: Config,
    msg: ClientMsg<N>,
    now: u64,
)
    requires
        !(msg is Move),
        !(msg is Down),
        !(msg is Up),
        !(msg is Scroll),
    ensures
        p.step(config, msg, now) matches StepView::Commands(cmds) && cmds.len() == 0,
        ({
            let q = p.next(config, msg, now);
            &&& !(msg is Mode) ==> q.mode == p.mode && q.pos == p.pos && q.previous == p.previous
                && q.filter == p.filter && q.velocity == p.velocity
            &&& !(msg is Smoothing) ==> q.smoothing == p.smoothing
            &&& !(msg is GammaCalib) && !(msg is ResetGammaCalib) ==> q.roll == p.roll
            &&& !(msg is Calib) && !(msg is ResetCalib) ==> q.tl == p.tl && q.tr == p.tr && q.bl
                == p.bl && q.br == p.br
        }),
{
}

/// An orientation changes nothing but what is tracked, and not the position.
pub proof fn orientation_keeps_the_settings<N: Copy, F: Copy>(
    p: Processor<N, F>,
    config: Config,
    beta: N,
    alpha: N,
    gamma: N,
    rotation_delta: Option<RotationDelta<N>>,
    now: u64,
)
    ensures
        ({
            let q = p.next(config, ClientMsg::Move { beta, alpha, gamma, rotation_delta }, now);
            &&& q.mode == p.mode && q.smoothing == p.smoothing && q.roll == p.roll
            &&& q.tl == p.tl && q.tr == p.tr && q.bl == p.bl && q.br == p.br
            &&& q.pos == p.pos
            &&& p.mode == Mode::Absolute ==> q == p
        }),
{
}

/// A position that is handed back is carried out: one command that puts the
/// pointer on the pixel, and the next frame of either mode starts from it.
pub proof fn placed_position_is_carried_out<N: Copy, F: Copy>(
    p: Processor<N, F>,
    config: Config,
    filter: F,
    velocity: (N, N),
    pos: (N, N),
    pixel: (i32, i32),
    beta: N,
    alpha: N,
    gamma: N,
    rotation_delta: Option<RotationDelta<N>>,
    now: u64,
)
    ensures
        pointer_commands(pixel).len() == 1,
        pointer_commands(pixel)[0] == MouseCmd::MoveTo(pixel.0, pixel.1),
        ({
            let msg = ClientMsg::Move { beta, alpha, gamma, rotation_delta };
            let q = p.placed_relative(filter, velocity, pos);
            let a = p.placed_absolute(pos);
            &&& a.step(config, msg, now) matches StepView::Absolute(frame) ==> frame.pos == Some(
                pos,
            )
            &&& a.step(config, msg, now) matches StepView::Relative(frame) ==> frame.pos == Some(
                pos,
            ) && frame.filter == p.filter
            &&& q.step(config, msg, now) matches StepView::Absolute(frame) ==> frame.pos == Some(
                pos,
            )
            &&& q.step(config, msg, now) matches StepView::Relative(frame) ==> frame.pos == Some(
                pos,
            ) && frame.filter == Some(filter)
            &&& q.velocity == Some(velocity)
            &&& a.mode == p.mode && q.mode == p.mode
            &&& a.previous == p.previous && q.previous == p.previous
        }),
{
}

/// A connection that has just been made is an air mouse without a position or a
/// corner, with the smoothing it was given; its first orientation moves
/// nothing.
pub proof fn fresh_connection_only_primes<N: Copy, F: Copy>(
    smoothing: N,
    config: Config,
    beta: N,
    alpha: N,
    gamma: N,
    rotation_delta: Option<RotationDelta<N>>,
    now: u64,
    point: Corner,
)
    ensures
        ({
            let p = Processor::<N, F>::fresh(smoothing);
            let msg = ClientMsg::Move { beta, alpha, gamma, rotation_delta };
            &&& p.mode == Mode::Relative
            &&& p.smoothing == smoothing
            &&& p.corner(point) is None
            &&& p.roll is None
            &&& p == p.untracked()
            &&& p.step(config, msg, now) == nothing::<N, F>()
            &&& p.next(config, msg, now).previous == Some((Sample { beta, alpha, gamma }, now))
            &&& p.next(config, msg, now).pos is None
        }),
{
}

/// What is forgotten when tracking is reset is exactly what is tracked.
pub proof fn reset_forgets_what_is_tracked<N: Copy, F: Copy>(p: Processor<N, F>, point: Corner)
    ensures
        p.untracked().pos is None,
        p.untracked().previous is None,
        p.untracked().filter is None,
        p.untracked().velocity is None,
        p.untracked().mode == p.mode,
        p.untracked().smoothing == p.smoothing,
        p.untracked().roll == p.roll,
        p.untracked().corner(point) == p.corner(point),
{
}

/// In absolute mode an orientation asks for a position exactly if an orientation
/// was sent for every corner since the corners were last forgotten; otherwise
/// nothing follows from it.
pub proof fn absolute_needs_every_corner<N: Copy, F: Copy>(
    start: Processor<N, F>,
    config: Config,
    inputs: Seq<Input<N, F>>,
    beta: N,
    alpha: N,
    gamma: N,
    rotation_delta: Option<RotationDelta<N>>,
    now: u64,
)
    requires
        last_mode(start.mode, inputs) == Mode::Absolute,
    ensures
        ({
            let step = after_inputs(start, config, inputs).step(
                config,
                ClientMsg::Move { beta, alpha, gamma, rotation_delta },
                now,
            );
            let calibrated = forall|point: Corner|
                #[trigger] last_aim(start.corner(point), inputs, point) is Some;
            &&& calibrated ==> step is Absolute
            &&& !calibrated ==> step == nothing::<N, F>()
        }),
{
    state_follows_the_last_request(start, config, inputs, Corner::Tl);
    state_follows_the_last_request(start, config, inputs, Corner::Tr);
    state_follows_the_last_request(start, config, inputs, Corner::Bl);
    state_follows_the_last_request(start, config, inputs, Corner::Br);
    let p = after_inputs(start, config, inputs);
    if p.calibration() is Some {
        assert forall|point: Corner| #[trigger]
            last_aim(start.corner(point), inputs, point) is Some by {
            match point {
                Corner::Tl => {},
                Corner::Tr => {},
                Corner::Bl => {},
                Corner::Br => {},
            }
        }
    }
}

/// Whether the inputs are messages, none of them an orientation.
pub open spec fn without_orientation<N, F>(inputs: Seq<Input<N, F>>) -> bool {
    forall|i: int|
        0 <= i < inputs.len() ==> ((#[trigger] inputs[i]) matches Input::Message(msg, _) && !(
        msg is Move))
}

/// After a switch of the mode the pointer does not jump, whatever other messages
/// come before the next orientation: that moves nothing in relative mode, and
/// in absolute mode its position is not smoothed against an old one.
pub proof fn mode_switch_starts_afresh<N: Copy, F: Copy>(
    p: Processor<N, F>,
    config: Config,
    mode: Mode,
    at: u64,
    inputs: Seq<Input<N, F>>,
    beta: N,
    alpha: N,
    gamma: N,
    rotation_delta: Option<RotationDelta<N>>,
    now: u64,
)
    requires
        without_orientation(inputs),
    ensures
        ({
            let switched = after_inputs(
                p.next(config, ClientMsg::Mode { mode }, at),
                config,
                inputs,
            );
            let step = switched.step(
                config,
                ClientMsg::Move { beta, alpha, gamma, rotation_delta },
                now,
            );
            &&& switched == switched.untracked()
            &&& match last_mode(mode, inputs) {
                Mode::Relative => step == nothing::<N, F>(),
                Mode::Absolute => step matches StepView::Absolute(frame) ==> frame.pos is None,
            }
        }),
    decreases inputs.len(),
{
    if inputs.len() > 0 {
        let rest = inputs.drop_last();
        assert forall|i: int| 0 <= i < rest.len() implies ((#[trigger] rest[i]) matches
            Input::Message(msg, _) && !(msg is Move)) by {
            assert(rest[i] == inputs[i]);
        }
        mode_switch_starts_afresh(
            p,
            config,
            mode,
            at,
            rest,
            beta,
            alpha,
            gamma,
            rotation_delta,
            now,
        );
        assert(inputs[inputs.len() - 1] == inputs.last());
    }
    state_follows_the_last_request(
        p.next(config, ClientMsg::Mode { mode }, at),
        config,
        inputs,
        Corner::Tl,
    );
}

/// In relative mode the pointer moves only by what the phone turned since the
/// last orientation: nothing follows from the first orientation, nor from the
/// first one after a gap, and after a gap the filter starts at rest. The next
/// one is compared with exactly this orientation.
pub proof fn relative_motion_has_a_baseline<N: Copy, F: Copy>(
    p: Processor<N, F>,
    config: Config,
    sample: Sample<N>,
    rotation_delta: Option<RotationDelta<N>>,
    now: u64,
    beta: N,
    alpha: N,
    gamma: N,
    later: u64,
)
    requires
        p.mode == Mode::Relative,
        match p.previous {
            Some((_, at)) => throttle::at_least_millis(
                at as int,
                now as int,
                config.tracking_gap_ms as int,
            ),
            None => true,
        },
    ensures
        ({
            let msg = ClientMsg::Move {
                beta: sample.beta,
                alpha: sample.alpha,
                gamma: sample.gamma,
                rotation_delta,
            };
            let second = ClientMsg::Move { beta, alpha, gamma, rotation_delta: None };
            let q = p.next(config, msg, now);
            &&& p.step(config, msg, now) == nothing::<N, F>()
            &&& p.previous is Some ==> q.filter is None && q.velocity is None
            &&& !throttle::at_least_millis(
                now as int,
                later as int,
                config.tracking_gap_ms as int,
            ) ==> (q.step(config, second, later) matches StepView::Relative(frame)
                && frame.motion == (Motion::Euler { from: sample, to: Sample { beta, alpha, gamma } }))
        }),
{
}

/// The rotation that the phone integrated takes the place of the angles: with
/// it, what follows from an orientation in relative mode is the same whatever
/// the angles are, now and at the last orientation.
pub proof fn rotation_replaces_the_angles<N: Copy, F: Copy>(
    p: Processor<N, F>,
    q: Processor<N, F>,
    config: Config,
    from: Sample<N>,
    other_from: Sample<N>,
    at: u64,
    sample: Sample<N>,
    other: Sample<N>,
    delta: RotationDelta<N>,
    now: u64,
)
    requires
        p.mode == Mode::Relative,
        p.previous == Some((from, at)),
        q == (Processor { previous: Some((other_from, at)), ..p }),
    ensures
        p.step(
            config,
            ClientMsg::Move {
                beta: sample.beta,
                alpha: sample.alpha,
                gamma: sample.gamma,
                rotation_delta: Some(delta),
            },
            now,
        ) == q.step(
            config,
            ClientMsg::Move {
                beta: other.beta,
                alpha: other.alpha,
                gamma: other.gamma,
                rotation_delta: Some(delta),
            },
            now,
        ),
        p.relative_step(config, sample, Some(delta), now) == p.relative_step(
            config,
            other,
            Some(delta),
            now,
        ),
        p.relative_step(config, sample, Some(delta), now) matches StepView::Relative(frame)
            ==> frame.motion == Motion::Gyro(delta),
{
}

/// No message moves the pointer by itself: only a computed position that is
/// handed back does.
pub proof fn messages_do_not_move_the_pointer<N: Copy, F: Copy>(
    p: Processor<N, F>,
    config: Config,
    msg: ClientMsg<N>,
    now: u64,
    i: int,
)
    ensures
        p.step(config, msg, now) matches StepView::Commands(cmds) ==> 0 <= i < cmds.len()
            ==> !(cmds[i] is MoveTo),
{
}

} // verus!
