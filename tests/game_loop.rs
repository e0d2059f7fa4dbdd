use anima_engine::{Duration, Game, GameLoop, Timestamp};

/// A game that records each `dt` and answers from a script; once the script
/// runs out it keeps answering `true`.
struct Scripted {
    answers: Vec<bool>,
    seen: Vec<Duration>,
}

impl Scripted {
    fn new(answers: Vec<bool>) -> Scripted {
        Scripted { answers, seen: Vec::new() }
    }
}

impl Game for Scripted {
    fn update(&mut self, dt: Duration) -> bool {
        let answer = self.answers.get(self.seen.len()).copied().unwrap_or(true);
        self.seen.push(dt);
        answer
    }
}

fn at_millis(ms: i64) -> Timestamp {
    Timestamp { sec: ms / 1000, nsec: ((ms % 1000) * 1_000_000) as i32 }
}

fn ms(n: i128) -> Duration {
    Duration { nanos: n * 1_000_000 }
}

/// Feeds `readings` to the loop until it stops; returns how many were taken.
fn drive(gl: &mut GameLoop<Scripted>, readings: &[Timestamp]) -> usize {
    let mut taken = 0;
    for t in readings {
        taken += 1;
        if !gl.step_at(*t) {
            break;
        }
    }
    taken
}

#[test]
fn since_counts_nanoseconds_across_seconds() {
    let a = Timestamp { sec: 10, nsec: 900_000_000 };
    let b = Timestamp { sec: 12, nsec: 100_000_000 };
    assert_eq!(b.since(&a), Duration { nanos: 1_200_000_000 });
    assert_eq!(a.since(&b), Duration { nanos: -1_200_000_000 });
}

#[test]
fn since_handles_extreme_readings() {
    let lo = Timestamp { sec: i64::MIN, nsec: 0 };
    let hi = Timestamp { sec: i64::MAX, nsec: 999_999_999 };
    let span = (i64::MAX as i128 - i64::MIN as i128) * 1_000_000_000 + 999_999_999;
    assert_eq!(hi.since(&lo), Duration { nanos: span });
    assert_eq!(lo.since(&hi), Duration { nanos: -span });
}

#[test]
fn updates_get_the_gaps_between_readings() {
    let readings = [at_millis(1000), at_millis(1005), at_millis(1025), at_millis(1026)];
    let mut gl = GameLoop::new(Scripted::new(vec![]));
    assert_eq!(drive(&mut gl, &readings), 4);
    assert_eq!(gl.game.seen, vec![ms(5), ms(20), ms(1)]);
}

#[test]
fn first_step_only_takes_the_baseline() {
    let mut gl = GameLoop::new(Scripted::new(vec![false]));
    assert!(gl.step_at(at_millis(500)));
    assert!(gl.game.seen.is_empty());
}

#[test]
fn false_on_the_second_update_stops_the_loop() {
    let readings = [at_millis(0), at_millis(10), at_millis(30), at_millis(60), at_millis(100)];
    let mut gl = GameLoop::new(Scripted::new(vec![true, false, true]));
    assert_eq!(drive(&mut gl, &readings), 3);
    assert_eq!(gl.game.seen, vec![ms(10), ms(20)]);
}

#[test]
fn a_stopped_loop_does_nothing() {
    let mut gl = GameLoop::new(Scripted::new(vec![false]));
    assert!(gl.step_at(at_millis(0)));
    assert!(!gl.step_at(at_millis(7)));
    assert!(!gl.step_at(at_millis(9)));
    assert!(!gl.step());
    assert_eq!(gl.game.seen, vec![ms(7)]);
}

#[test]
fn loop_keeps_going_while_updates_continue() {
    let mut gl = GameLoop::new(Scripted::new(vec![]));
    for i in 0..1000 {
        assert!(gl.step_at(at_millis(i)));
    }
    assert_eq!(gl.game.seen.len(), 999);
    assert!(gl.game.seen.iter().all(|d| *d == ms(1)));
}

#[test]
fn repeated_readings_give_zero() {
    let t = Timestamp { sec: 42, nsec: 123 };
    let mut gl = GameLoop::new(Scripted::new(vec![]));
    assert!(gl.step_at(t));
    assert!(gl.step_at(t));
    assert!(gl.step_at(t));
    assert_eq!(gl.game.seen, vec![Duration { nanos: 0 }, Duration { nanos: 0 }]);
}

#[test]
fn clock_going_back_gives_a_negative_frame() {
    let mut gl = GameLoop::new(Scripted::new(vec![]));
    assert!(gl.step_at(at_millis(2000)));
    assert!(gl.step_at(at_millis(1500)));
    assert_eq!(gl.game.seen, vec![ms(-500)]);
}

#[test]
fn stops_on_fourth_update_with_a_16ms_clock() {
    let readings: Vec<Timestamp> = (0..10).map(|i| at_millis(16 * i)).collect();
    let mut gl = GameLoop::new(Scripted::new(vec![true, true, true, false]));
    assert_eq!(drive(&mut gl, &readings), 5);
    assert_eq!(gl.game.seen, vec![ms(16), ms(16), ms(16), ms(16)]);
}

#[test]
fn step_reads_the_system_clock() {
    let mut gl = GameLoop::new(Scripted::new(vec![false]));
    assert!(gl.step());
    assert!(!gl.step());
    assert_eq!(gl.game.seen.len(), 1);
    let dt = gl.game.seen[0].nanos;
    assert!(dt >= 0 && dt < 10_000_000_000);
    assert!(!gl.step());
    assert_eq!(gl.game.seen.len(), 1);
}
