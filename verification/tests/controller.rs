use std::collections::HashSet;

use wluma::controller::PENDING_COOLDOWN_RESET;
use wluma::ramp::{ramp_params, ramp_steps};
use wluma::{Als, Brightness, Clock, Controller, Entry, Error, Kalman, Storage};

struct NoAls;

impl Als for NoAls {
    fn get(&mut self) -> Result<u64, ()> {
        Err(())
    }
}

struct FixedAls(u64);

impl Als for FixedAls {
    fn get(&mut self) -> Result<u64, ()> {
        Ok(self.0)
    }
}

struct NoBrightness;

impl Brightness for NoBrightness {
    fn get(&mut self) -> Result<u64, ()> {
        Err(())
    }

    fn set(&mut self, _value: u64) -> Result<(), ()> {
        Err(())
    }
}

struct FakeBrightness {
    value: u64,
    sets: Vec<u64>,
}

impl Brightness for FakeBrightness {
    fn get(&mut self) -> Result<u64, ()> {
        Ok(self.value)
    }

    fn set(&mut self, value: u64) -> Result<(), ()> {
        self.value = value;
        self.sets.push(value);
        Ok(())
    }
}

struct NoStorage;

impl Storage for NoStorage {
    fn load(&mut self) -> Result<Vec<Entry>, ()> {
        Err(())
    }

    fn save(&mut self, _entries: &Vec<Entry>) -> Result<(), ()> {
        Err(())
    }
}

struct BrokenSaveStorage;

impl Storage for BrokenSaveStorage {
    fn load(&mut self) -> Result<Vec<Entry>, ()> {
        Ok(Vec::new())
    }

    fn save(&mut self, _entries: &Vec<Entry>) -> Result<(), ()> {
        Err(())
    }
}

struct NoClock;

impl Clock for NoClock {
    fn sleep_units(&mut self, _units: u64) {}
}

fn setup_controller() -> Controller<NoAls, NoBrightness, NoStorage, NoClock> {
    Controller::new(NoBrightness, NoAls, NoStorage, NoClock, false)
}

#[test]
fn test_process_first_user_change() {
    let mut controller = setup_controller();

    // User changes brightness to value 33 for a given lux and luma
    controller.process(12345, Some(66), 33).unwrap();

    assert_eq!(33, controller.last_brightness);
    assert_eq!(Some(Entry::new(12345, Some(66), 33)), controller.pending);
    assert_eq!(PENDING_COOLDOWN_RESET, controller.pending_cooldown);
}

#[test]
fn test_process_several_continuous_user_changes() {
    let mut controller = setup_controller();

    // User initiates brightness change for a given lux and luma to value 33...
    controller.process(12345, Some(66), 33).unwrap();
    // then quickly continues increasing it to 34 (while lux and luma might already be different)...
    controller.process(23456, Some(36), 34).unwrap();
    // and once again increases to 35 (which is the intended brightness value they wish to learn for the initial lux and luma)
    controller.process(100, Some(16), 35).unwrap();

    assert_eq!(35, controller.last_brightness);
    assert_eq!(Some(Entry::new(12345, Some(66), 35)), controller.pending);
    assert_eq!(PENDING_COOLDOWN_RESET, controller.pending_cooldown);
}

#[test]
fn test_process_learns_user_change_after_cooldown() {
    let mut controller = setup_controller();

    // User changes brightness to a desired value
    controller.process(12345, Some(66), 33).unwrap();
    controller.process(23456, Some(36), 34).unwrap();
    controller.process(100, Some(16), 35).unwrap();

    for i in 1..=PENDING_COOLDOWN_RESET {
        // User doesn't change brightness anymore, so even if lux or luma change, we are in cooldown period
        controller.process(100 + i as u64, Some(i), 35).unwrap();
        assert_eq!(PENDING_COOLDOWN_RESET - i, controller.pending_cooldown);
        assert_eq!(Some(Entry::new(12345, Some(66), 35)), controller.pending);
    }

    // One final process will trigger the learning
    controller.process(200, Some(17), 35).unwrap();

    assert_eq!(None, controller.pending);
    assert_eq!(0, controller.pending_cooldown);
    assert_eq!(
        vec![Entry::new(12345, Some(66), 35)],
        controller.data.entries
    );
}

// If user configured brightness value in certain conditions (amount of light around, screen contents),
// how changes in environment or screen contents can affect the desired brightness level:
//
// |                 | darker env      | same env         | brighter env     |
// | darker screen   | any             | same or brighter | same or brighter |
// | same screen     | same or dimmer  | only same        | same or brighter |
// | brighter screen | same or dimmer  | same or dimmer   | any              |

#[test]
fn test_learn_data_cleanup() {
    let mut controller = setup_controller();

    let pending = Entry::new(10, Some(20), 30);

    let mut all_combinations: HashSet<Entry> = HashSet::new();
    for i in -1i32..=1 {
        for j in -1i32..=1 {
            for k in -1i32..=1 {
                all_combinations.insert(Entry::new(
                    (10 + i) as u64,
                    Some((20 + j) as u8),
                    (30 + k) as u64,
                ));
            }
        }
    }

    let to_be_deleted: HashSet<Entry> = vec![
        // darker env same screen
        Entry::new(9, Some(20), 31),
        // darker env brighter screen
        Entry::new(9, Some(21), 31),
        // same env darker screen
        Entry::new(10, Some(19), 29),
        // same env same screen
        Entry::new(10, Some(20), 29),
        Entry::new(10, Some(20), 31),
        // same env brighter screen
        Entry::new(10, Some(21), 31),
        // brighter env darker screen
        Entry::new(11, Some(19), 29),
        // brighter env same screen
        Entry::new(11, Some(20), 29),
    ]
    .into_iter()
    .collect();

    controller.data.entries = all_combinations.iter().cloned().collect();
    controller.pending = Some(pending);

    controller.learn().unwrap();

    let to_remain: HashSet<&Entry> = all_combinations.difference(&to_be_deleted).collect();
    let remained: HashSet<&Entry> = controller.data.entries.iter().collect();

    assert_eq!(
        Vec::<&&Entry>::new(),
        to_remain.difference(&remained).collect::<Vec<_>>(),
        "unexpected entries were removed"
    );

    assert_eq!(
        Vec::<&&Entry>::new(),
        remained.difference(&to_remain).collect::<Vec<_>>(),
        "some entries were not removed"
    );

    assert_eq!(
        to_remain.len(),
        controller.data.entries.len(),
        "duplicate entries remained"
    );
}

#[test]
fn test_predict_no_data_points() {
    let mut controller = setup_controller();
    controller.data.entries = vec![];
    // predict() should not be called with no data, but just in case confirm we don't panic
    assert_eq!(0, controller.predict(10, Some(20)));
}

#[test]
fn test_predict_one_data_point() {
    let mut controller = setup_controller();
    controller.data.entries = vec![Entry::new(5, Some(10), 15)];
    assert_eq!(15, controller.predict(10, Some(20)));
}

#[test]
fn test_predict_known_conditions() {
    let mut controller = setup_controller();
    controller.data.entries = vec![Entry::new(5, Some(10), 15), Entry::new(10, Some(20), 30)];
    assert_eq!(30, controller.predict(10, Some(20)));
}

#[test]
fn test_predict_approximate() {
    let mut controller = setup_controller();
    controller.data.entries = vec![
        Entry::new(5, Some(10), 15),
        Entry::new(10, Some(20), 30),
        Entry::new(100, Some(100), 100),
    ];

    // Approximated using weighted distance to all known points:
    // dist1 = sqrt((x1 - x2)^2 + (y1 - y2)^2)
    // weight1 = (1/dist1) / (1/dist1 + 1/dist2 + 1/dist3)
    // prediction = weight1*brightness1 + weight2*brightness2 + weight3*brightness
    assert_eq!(44, controller.predict(50, Some(50)));
}

#[test]
fn test_predict_two_exact_matches_is_degenerate() {
    let mut controller = setup_controller();
    // Both samples lie at distance zero from the query, because an absent
    // luminance counts as 0 for the distance: the weights cancel and the
    // defined fallback is 0.
    controller.data.entries = vec![Entry::new(10, Some(0), 40), Entry::new(10, None, 70)];
    assert_eq!(0, controller.predict(10, None));
}

#[test]
fn test_learn_supersedes_identical_conditions() {
    let mut controller = setup_controller();
    controller.data.entries = vec![Entry::new(10, Some(20), 30)];
    controller.pending = Some(Entry::new(10, Some(20), 30));

    controller.learn().unwrap();

    assert_eq!(vec![Entry::new(10, Some(20), 30)], controller.data.entries);
}

#[test]
fn test_learn_absent_luma_sorts_below_present() {
    let mut controller = setup_controller();
    // Same lux, absent luminance counts as darker screen: kept only with
    // the same or brighter preferred brightness.
    controller.data.entries = vec![Entry::new(10, None, 29), Entry::new(10, None, 31)];
    controller.pending = Some(Entry::new(10, Some(20), 30));

    controller.learn().unwrap();

    assert_eq!(
        vec![Entry::new(10, None, 31), Entry::new(10, Some(20), 30)],
        controller.data.entries
    );
}

#[test]
fn test_adjust_warm_up_gate() {
    let mut controller = Controller::new(
        FakeBrightness {
            value: 42,
            sets: Vec::new(),
        },
        FixedAls(100),
        NoStorage,
        NoClock,
        false,
    );

    // The first cycle only seeds the smoothing filter: no pending sample,
    // no commit, no ramp; only the observed brightness is recorded.
    controller.adjust(Some(50)).unwrap();
    assert_eq!(42, controller.last_brightness);
    assert_eq!(None, controller.pending);
    assert_eq!(0, controller.pending_cooldown);
    assert!(controller.data.entries.is_empty());
    assert!(controller.brightness.sets.is_empty());

    // From the second cycle on the filter is initialized; a changed
    // brightness now reads as a user edit and is captured.
    controller.brightness.value = 33;
    controller.adjust(Some(50)).unwrap();
    assert_eq!(33, controller.last_brightness);
    assert!(controller.pending.is_some());
    assert_eq!(33, controller.pending.unwrap().brightness);
    assert_eq!(PENDING_COOLDOWN_RESET, controller.pending_cooldown);
}

#[test]
fn test_adjust_reports_sensor_failure() {
    let mut controller = setup_controller();
    assert_eq!(Err(Error::Als), controller.adjust(None));
}

#[test]
fn test_adjust_reports_device_failure() {
    let mut controller = Controller::new(NoBrightness, FixedAls(100), NoStorage, NoClock, false);
    assert_eq!(Err(Error::Device), controller.adjust(None));
}

#[test]
fn test_learn_reports_save_failure() {
    let mut controller =
        Controller::new(NoBrightness, NoAls, BrokenSaveStorage, NoClock, true);
    controller.pending = Some(Entry::new(10, Some(20), 30));

    // The commit itself still happens; only persisting it failed.
    assert_eq!(Err(Error::Save), controller.learn());
    assert_eq!(vec![Entry::new(10, Some(20), 30)], controller.data.entries);
    assert_eq!(None, controller.pending);
}

#[test]
fn test_kalman_seeds_then_smooths() {
    let mut kalman = Kalman::new(1024, 20 * 1024, 10 * 1024);
    assert!(!kalman.initialized());

    // The first reading seeds the estimate exactly.
    assert_eq!(5, kalman.process(5));
    assert!(!kalman.initialized());

    // A second, identical reading leaves it in place and initializes.
    assert_eq!(5, kalman.process(5));
    assert!(kalman.initialized());

    // A divergent reading only pulls the estimate partway toward itself.
    assert_eq!(4, kalman.process(0));
}

#[test]
fn test_ramp_params_split_at_transition_speed() {
    // Large jumps: coarse steps, unit pause.
    assert_eq!((2, 1), ramp_params(450));
    // Small jumps: unit steps, proportionally longer pause.
    assert_eq!((1, 2), ramp_params(100));
    assert_eq!((1, 200), ramp_params(1));
}

#[test]
fn test_ramp_steps_reach_target_exactly() {
    assert_eq!(vec![11, 12, 13, 14, 15], ramp_steps(10, 15, 1));
    assert_eq!(vec![13, 11, 10], ramp_steps(15, 10, 2));
    assert_eq!(Vec::<u64>::new(), ramp_steps(7, 7, 1));

    let steps = ramp_steps(0, 451, 2);
    assert_eq!(226, steps.len());
    assert_eq!(451, *steps.last().unwrap());
}

#[test]
fn test_change_brightness_applies_every_step() {
    let mut controller = Controller::new(
        FakeBrightness {
            value: 10,
            sets: Vec::new(),
        },
        NoAls,
        NoStorage,
        NoClock,
        false,
    );

    controller.change_brightness(10, 13).unwrap();
    assert_eq!(vec![11, 12, 13], controller.brightness.sets);
    assert_eq!(13, controller.brightness.value);
}

#[test]
fn test_change_brightness_no_op_touches_nothing() {
    let mut controller = Controller::new(
        FakeBrightness {
            value: 10,
            sets: Vec::new(),
        },
        NoAls,
        NoStorage,
        NoClock,
        false,
    );

    controller.change_brightness(10, 10).unwrap();
    assert!(controller.brightness.sets.is_empty());
}

#[test]
fn test_process_predicts_and_ramps_in_steady_state() {
    let mut controller = Controller::new(
        FakeBrightness {
            value: 20,
            sets: Vec::new(),
        },
        NoAls,
        NoStorage,
        NoClock,
        false,
    );
    controller.data.entries = vec![Entry::new(5, Some(10), 15), Entry::new(10, Some(20), 30)];
    controller.last_brightness = 20;

    // No edit, no pending, no cooldown: the loop predicts 30 for known
    // conditions, ramps the device there, and remembers its own target.
    controller.process(10, Some(20), 20).unwrap();

    assert_eq!(30, controller.last_brightness);
    assert_eq!(30, controller.brightness.value);
    assert_eq!(Some(&30), controller.brightness.sets.last());
}
