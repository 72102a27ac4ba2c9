use mousee::layout::{clamp, Desktop, Monitor};
use mousee::processor::{check_wheel, Config, Motion, MouseCmd, Processor, Step};
use mousee::protocol::{Btn, ClientMsg, Corner, Mode, RotationDelta};
use mousee::throttle::{elapsed_nanos, millis_passed, LogCategory, LogThrottle};

const MS: u64 = 1_000_000;

const CONFIG: Config = Config {
    scroll_sensitivity: 3,
    scroll_sign: -1,
    tracking_gap_ms: 250,
};

type Hand = Processor<f64, u8>;

fn send(p: &mut Hand, msg: ClientMsg<f64>, now: u64) -> Step<f64, u8> {
    p.handle(&CONFIG, msg, now)
}

fn commands(step: Step<f64, u8>) -> Vec<MouseCmd> {
    match step {
        Step::Commands(cmds) => cmds,
        other => panic!("{other:?}"),
    }
}

fn orientation(beta: f64, alpha: f64) -> ClientMsg<f64> {
    ClientMsg::Move {
        beta,
        alpha,
        gamma: 0.5,
        rotation_delta: None,
    }
}

fn corner(point: Corner, beta: f64, alpha: f64) -> ClientMsg<f64> {
    ClientMsg::Calib {
        point,
        beta,
        alpha,
        gamma: 0.0,
    }
}

fn calibrate(p: &mut Hand) {
    for (point, beta, alpha) in [
        (Corner::Tl, 10.0, 20.0),
        (Corner::Tr, 11.0, 340.0),
        (Corner::Bl, -10.0, 21.0),
        (Corner::Br, -11.0, 341.0),
    ] {
        assert_eq!(commands(send(p, corner(point, beta, alpha), 0)), vec![]);
    }
}

#[test]
fn connection_starts_as_an_air_mouse() {
    let p = Hand::new(0.35);
    assert_eq!(p.mode, Mode::Relative);
    assert_eq!(p.smoothing, 0.35);
    assert!(p.pos.is_none() && p.previous.is_none() && p.filter.is_none());
    assert!(p.corners().is_none());
}

#[test]
fn buttons_press_and_release() {
    let mut p = Hand::new(0.35);
    let down = ClientMsg::Down { button: Btn::Left };
    let up = ClientMsg::Up { button: Btn::Right };
    assert_eq!(commands(send(&mut p, down, 1)), vec![MouseCmd::Press(Btn::Left)]);
    assert_eq!(commands(send(&mut p, up, 2)), vec![MouseCmd::Release(Btn::Right)]);
}

#[test]
fn wheel_turns_by_steps() {
    let mut p = Hand::new(0.35);
    assert_eq!(
        commands(send(&mut p, ClientMsg::Scroll { dy: 2 }, 1)),
        vec![MouseCmd::Scroll(-6)]
    );
    assert_eq!(commands(send(&mut p, ClientMsg::Scroll { dy: 0 }, 1)), vec![]);
    assert!(check_wheel(&CONFIG, 2));
    assert!(!check_wheel(&CONFIG, i32::MAX));
    let flip = Config { scroll_sensitivity: 1, ..CONFIG };
    assert!(!check_wheel(&flip, i32::MIN));
    assert!(check_wheel(&flip, i32::MAX));
}

#[test]
fn first_orientation_only_primes() {
    let mut p = Hand::new(0.35);
    assert_eq!(commands(send(&mut p, orientation(1.0, 2.0), 5 * MS)), vec![]);
    match send(&mut p, orientation(3.0, 4.0), 21 * MS) {
        Step::Relative(frame) => {
            assert_eq!(frame.elapsed, 16 * MS);
            assert_eq!(frame.smoothing, 0.35);
            assert!(frame.filter.is_none() && frame.pos.is_none());
            match frame.motion {
                Motion::Euler { from, to } => {
                    assert_eq!((from.beta, from.alpha, from.gamma), (1.0, 2.0, 0.5));
                    assert_eq!((to.beta, to.alpha, to.gamma), (3.0, 4.0, 0.5));
                }
                other => panic!("{other:?}"),
            }
        }
        other => panic!("{other:?}"),
    }
    let cmds = p.place_relative(9, (1.0, 1.5), (100.0, 200.0), (100, 200));
    assert_eq!(cmds, vec![MouseCmd::MoveTo(100, 200)]);
    assert_eq!(p.filter, Some(9));
    assert_eq!(p.velocity, Some((1.0, 1.5)));
    assert_eq!(p.pos, Some((100.0, 200.0)));
}

#[test]
fn rotation_of_the_phone_is_preferred() {
    let mut p = Hand::new(0.35);
    send(&mut p, orientation(1.0, 2.0), 0);
    let delta = RotationDelta {
        alpha: 1.0,
        beta: 2.0,
        gamma: 3.0,
        local_alpha: 4.0,
        local_beta: 5.0,
        local_gamma: 6.0,
        sample_ms: 16.0,
    };
    let msg = ClientMsg::Move {
        beta: 1.0,
        alpha: 2.0,
        gamma: 3.0,
        rotation_delta: Some(delta),
    };
    match send(&mut p, msg, MS) {
        Step::Relative(frame) => match frame.motion {
            Motion::Gyro(d) => assert_eq!((d.alpha, d.beta, d.sample_ms), (1.0, 2.0, 16.0)),
            other => panic!("{other:?}"),
        },
        other => panic!("{other:?}"),
    }
}

#[test]
fn angles_do_not_matter_beside_a_rotation() {
    let step = |first: f64, angle: f64| {
        let mut p = Hand::new(0.35);
        send(&mut p, orientation(first, -first), 0);
        let msg = ClientMsg::Move {
            beta: angle,
            alpha: 2.0 * angle,
            gamma: 3.0 * angle,
            rotation_delta: Some(RotationDelta {
                alpha: 1.0,
                beta: 2.0,
                gamma: 3.0,
                local_alpha: 4.0,
                local_beta: 5.0,
                local_gamma: 6.0,
                sample_ms: 16.0,
            }),
        };
        format!("{:?}", send(&mut p, msg, MS))
    };
    assert!(step(0.0, 0.0).starts_with("Relative"));
    assert_eq!(step(0.0, 0.0), step(40.0, -100.0));
}

#[test]
fn gap_starts_tracking_anew() {
    let mut p = Hand::new(0.35);
    send(&mut p, orientation(1.0, 2.0), 0);
    send(&mut p, orientation(1.0, 2.0), MS);
    p.place_relative(9, (1.0, 1.0), (5.0, 6.0), (5, 6));
    assert_eq!(commands(send(&mut p, orientation(9.0, 9.0), 251 * MS)), vec![]);
    assert!(p.filter.is_none() && p.velocity.is_none());
    assert_eq!(p.pos, Some((5.0, 6.0)));
    match send(&mut p, orientation(9.5, 9.0), 501 * MS - 1) {
        Step::Relative(frame) => match frame.motion {
            Motion::Euler { from, .. } => assert_eq!(from.beta, 9.0),
            other => panic!("{other:?}"),
        },
        other => panic!("{other:?}"),
    }
}

#[test]
fn switch_of_the_mode_forgets_what_was_tracked() {
    let mut p = Hand::new(0.35);
    send(&mut p, orientation(1.0, 2.0), 0);
    send(&mut p, orientation(1.0, 2.0), MS);
    p.place_relative(9, (1.0, 1.0), (5.0, 6.0), (5, 6));
    let again = ClientMsg::Mode { mode: Mode::Relative };
    assert_eq!(commands(send(&mut p, again, 2 * MS)), vec![]);
    assert!(p.pos.is_none() && p.previous.is_none() && p.filter.is_none());
    assert_eq!(commands(send(&mut p, orientation(1.0, 2.0), 3 * MS)), vec![]);
}

#[test]
fn absolute_mode_needs_all_corners() {
    let mut p = Hand::new(0.35);
    send(&mut p, ClientMsg::Mode { mode: Mode::Absolute }, 0);
    assert_eq!(commands(send(&mut p, orientation(1.0, 2.0), MS)), vec![]);
    calibrate(&mut p);
    send(&mut p, ClientMsg::Smoothing { value: 0.5 }, 2 * MS);
    match send(&mut p, orientation(1.0, 2.0), 3 * MS) {
        Step::Absolute(frame) => {
            assert_eq!((frame.corners.tl.beta, frame.corners.tl.alpha), (10.0, 20.0));
            assert_eq!((frame.corners.tr.beta, frame.corners.tr.alpha), (11.0, 340.0));
            assert_eq!((frame.corners.bl.beta, frame.corners.bl.alpha), (-10.0, 21.0));
            assert_eq!((frame.corners.br.beta, frame.corners.br.alpha), (-11.0, 341.0));
            assert_eq!((frame.beta, frame.alpha, frame.smoothing), (1.0, 2.0, 0.5));
            assert!(frame.pos.is_none());
        }
        other => panic!("{other:?}"),
    }
    assert_eq!(p.place_absolute((7.0, 8.0), (7, 8)), vec![MouseCmd::MoveTo(7, 8)]);
    match send(&mut p, orientation(1.0, 2.0), 4 * MS) {
        Step::Absolute(frame) => assert_eq!(frame.pos, Some((7.0, 8.0))),
        other => panic!("{other:?}"),
    }
}

#[test]
fn forgotten_corners_are_all_needed_again() {
    let mut p = Hand::new(0.35);
    send(&mut p, ClientMsg::Mode { mode: Mode::Absolute }, 0);
    calibrate(&mut p);
    assert_eq!(commands(send(&mut p, ClientMsg::ResetCalib, 0)), vec![]);
    for point in [Corner::Tl, Corner::Tr, Corner::Bl] {
        send(&mut p, corner(point, 1.0, 1.0), 0);
        assert_eq!(commands(send(&mut p, orientation(1.0, 2.0), MS)), vec![]);
    }
    send(&mut p, corner(Corner::Br, 1.0, 1.0), 0);
    assert!(p.corners().is_some());
}

#[test]
fn last_roll_calibration_is_handed_on() {
    let mut p = Hand::new(0.35);
    send(&mut p, orientation(1.0, 2.0), 0);
    let roll = |p: &mut Hand, now: u64| match send(p, orientation(1.0, 2.0), now) {
        Step::Relative(frame) => frame.roll.map(|r| (r.alpha_coupling, r.beta_coupling)),
        other => panic!("{other:?}"),
    };
    assert_eq!(roll(&mut p, MS), None);
    for (alpha_coupling, beta_coupling) in [(1.0, 2.0), (-0.25, 0.4)] {
        let msg = ClientMsg::GammaCalib {
            alpha_coupling,
            beta_coupling,
        };
        assert_eq!(commands(send(&mut p, msg, 2 * MS)), vec![]);
    }
    assert_eq!(roll(&mut p, 3 * MS), Some((-0.25, 0.4)));
    send(&mut p, ClientMsg::Mode { mode: Mode::Relative }, 4 * MS);
    send(&mut p, orientation(1.0, 2.0), 5 * MS);
    assert_eq!(roll(&mut p, 6 * MS), Some((-0.25, 0.4)));
    assert_eq!(commands(send(&mut p, ClientMsg::ResetGammaCalib, 7 * MS)), vec![]);
    assert_eq!(roll(&mut p, 8 * MS), None);
}

#[test]
fn messages_after_a_switch_keep_it_fresh() {
    let mut p = Hand::new(0.35);
    calibrate(&mut p);
    send(&mut p, orientation(1.0, 2.0), 0);
    send(&mut p, orientation(1.0, 2.0), MS);
    p.place_relative(9, (1.0, 1.0), (5.0, 6.0), (5, 6));
    send(&mut p, ClientMsg::Mode { mode: Mode::Absolute }, 2 * MS);
    send(&mut p, ClientMsg::Smoothing { value: 0.5 }, 2 * MS);
    send(&mut p, ClientMsg::Down { button: Btn::Left }, 2 * MS);
    match send(&mut p, orientation(1.0, 2.0), 3 * MS) {
        Step::Absolute(frame) => assert_eq!(frame.pos, None),
        other => panic!("{other:?}"),
    }
    send(&mut p, ClientMsg::Mode { mode: Mode::Relative }, 4 * MS);
    send(&mut p, ClientMsg::ResetCalib, 4 * MS);
    assert_eq!(commands(send(&mut p, orientation(1.0, 2.0), 5 * MS)), vec![]);
}

#[test]
fn point_is_brought_onto_the_monitor() {
    let monitor = Monitor { x: -1920, y: 100, w: 1920, h: 1080 };
    assert!(monitor.check());
    assert_eq!(monitor.nearest(5, 50), (-1, 100));
    assert_eq!(monitor.nearest(-3000, 5000), (-1920, 1179));
    assert_eq!(monitor.nearest(-7, 600), (-7, 600));
    assert!(!Monitor { w: 0, ..monitor }.check());
    assert!(!Monitor { x: i32::MAX, ..monitor }.check());
    assert_eq!(clamp(5, 1, 3), 3);
}

#[test]
fn desktop_has_limits() {
    let desktop = Desktop { origin_x: -1920, origin_y: 0, width: 3840, height: 1080 };
    assert!(desktop.check());
    let limits = desktop.limits();
    assert_eq!((limits.min_x, limits.max_x), (-1920, 1919));
    assert_eq!((limits.min_y, limits.max_y), (0, 1079));
    assert!(!Desktop { height: 0, ..desktop }.check());
    assert!(!Desktop { origin_y: i32::MAX, ..desktop }.check());
}

#[test]
fn log_lines_are_spaced() {
    let mut log = LogThrottle::new(true, 500);
    assert!(log.should_log(LogCategory::Sensor, 10 * MS));
    assert!(!log.should_log(LogCategory::Sensor, 510 * MS - 1));
    assert!(log.should_log(LogCategory::Gap, 20 * MS));
    assert!(log.should_log(LogCategory::Sensor, 510 * MS));
    assert!(!log.should_log(LogCategory::Sensor, 600 * MS));
    assert!(!log.should_log(LogCategory::Sensor, 0));
    assert!(log.should_log(LogCategory::Absolute, 0));
    assert!(log.should_log(LogCategory::Relative, 0));
}

#[test]
fn log_is_quiet_without_debug() {
    let mut log = LogThrottle::new(false, 500);
    assert!(!log.should_log(LogCategory::Relative, 0));
    assert!(!log.should_log(LogCategory::Relative, u64::MAX));
}

#[test]
fn clock_that_goes_back_counts_as_standing_still() {
    assert_eq!(elapsed_nanos(5, 3), 0);
    assert_eq!(elapsed_nanos(3, 5), 2);
    assert!(millis_passed(5, 3, 0));
    assert!(!millis_passed(5, 3, 1));
    assert!(!millis_passed(0, u64::MAX, u64::MAX));
}

#[test]
fn last_orientation_of_a_corner_counts() {
    let mut p = Hand::new(0.35);
    calibrate(&mut p);
    send(&mut p, corner(Corner::Tr, 5.0, 6.0), 0);
    let corners = p.corners().unwrap();
    assert_eq!((corners.tr.beta, corners.tr.alpha), (5.0, 6.0));
    assert_eq!((corners.tl.beta, corners.tl.alpha), (10.0, 20.0));
    send(&mut p, ClientMsg::Mode { mode: Mode::Absolute }, 0);
    send(&mut p, ClientMsg::Mode { mode: Mode::Relative }, 0);
    assert_eq!(p.mode, Mode::Relative);
    assert!(p.corners().is_some());
}
