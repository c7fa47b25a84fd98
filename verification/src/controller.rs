//! The per-output control loop: decides, once per sensing cycle, whether a
//! user is adjusting brightness, debounces such an edit, commits it as a
//! learned sample, or predicts and applies a brightness of its own.

use vstd::prelude::*;
use crate::data::{pruned, Data, Entry};
use crate::interp::{predict_brightness, predict_view};
use crate::kalman::{Kalman, SCALE};
use crate::ports::{Als, Brightness, Clock, Error, Storage};
use crate::ramp::{ramp_params, ramp_steps};

verus! {

/// Number of quiet cycles a captured edit must survive before it is
/// committed as a learned sample.
pub const PENDING_COOLDOWN_RESET: u8 = 15;

/// The observable decision state of a control loop: everything the state
/// machine reads and writes, apart from its collaborators.
#[verifier::ext_equal]
pub ghost struct State {
    pub last_brightness: u64,
    pub pending_cooldown: u8,
    pub pending: Option<Entry>,
    pub entries: Seq<Entry>,
}

/// The cycle observed a user edit, or nothing is known yet: capture or
/// extend the pending sample.
pub open spec fn takes_edit(pre: State, brightness: u64) -> bool {
    pre.last_brightness != brightness || (pre.entries.len() == 0 && pre.pending is None)
}

/// No further edit, but still within the debounce window.
pub open spec fn takes_cooldown(pre: State, brightness: u64) -> bool {
    !takes_edit(pre, brightness) && pre.pending_cooldown > 0
}

/// The debounce window just expired with an edit still pending: commit it.
pub open spec fn takes_commit(pre: State, brightness: u64) -> bool {
    !takes_edit(pre, brightness) && pre.pending_cooldown == 0 && pre.pending is Some
}

/// Steady state: predict a brightness and ramp toward it.
pub open spec fn takes_predict(pre: State, brightness: u64) -> bool {
    !takes_edit(pre, brightness) && pre.pending_cooldown == 0 && pre.pending is None
}

/// The commit of a pending sample: prune what it contradicts, append it.
pub open spec fn committed(pre: State) -> State {
    match pre.pending {
        Option::Some(p) => State {
            pending: Option::None,
            entries: pruned(pre.entries, p).push(p),
            ..pre
        },
        Option::None => pre,
    }
}

/// One step of the per-cycle state machine, as a function of the observed
/// inputs.  The first matching branch of the transition table wins.
pub open spec fn step(pre: State, lux: u64, luma: Option<u8>, brightness: u64) -> State {
    if takes_edit(pre, brightness) {
        let p = match pre.pending {
            Option::None => Entry { lux, luma, brightness },
            Option::Some(p0) => Entry { lux: p0.lux, luma: p0.luma, brightness },
        };
        State {
            last_brightness: brightness,
            pending_cooldown: PENDING_COOLDOWN_RESET,
            pending: Option::Some(p),
            entries: pre.entries,
        }
    } else if takes_cooldown(pre, brightness) {
        State {
            last_brightness: brightness,
            pending_cooldown: (pre.pending_cooldown - 1) as u8,
            ..pre
        }
    } else if takes_commit(pre, brightness) {
        State { last_brightness: brightness, ..committed(pre) }
    } else {
        State {
            last_brightness: predict_view(pre.entries, lux, luma) as u64,
            ..pre
        }
    }
}

/// The control loop for one output.  It owns the smoothing filter, the
/// learned samples and the per-cycle decision state; the sensor, device,
/// storage and clock are injected collaborators.
pub struct Controller<A: Als, B: Brightness, S: Storage, C: Clock> {
    pub brightness: B,
    pub als: A,
    pub storage: S,
    pub clock: C,
    pub kalman: Kalman,
    pub last_brightness: u64,
    pub pending_cooldown: u8,
    pub pending: Option<Entry>,
    pub data: Data,
    pub stateful: bool,
}

impl<A: Als, B: Brightness, S: Storage, C: Clock> Controller<A, B, S, C> {
    /// The decision state this loop currently holds.
    pub open spec fn state(&self) -> State {
        State {
            last_brightness: self.last_brightness,
            pending_cooldown: self.pending_cooldown,
            pending: self.pending,
            entries: self.data.entries@,
        }
    }

    pub open spec fn wf(&self) -> bool {
        self.kalman.wf()
    }

    /// Builds a loop around its collaborators.  With `stateful` set the
    /// samples come from storage, an unreadable store counting as empty;
    /// otherwise the loop starts empty and stays in memory only.
    pub fn new(brightness: B, als: A, storage: S, clock: C, stateful: bool) -> (c: Controller<
        A,
        B,
        S,
        C,
    >)
        ensures
            c.wf(),
            !c.kalman.is_initialized(),
            c.last_brightness == 0,
            c.pending_cooldown == 0,
            c.pending is None,
            c.stateful == stateful,
            !stateful ==> c.data.entries@ == Seq::<Entry>::empty(),
    {
        let mut storage = storage;
        let data = if stateful {
            match storage.load() {
                Result::Ok(entries) => Data { entries },
                Result::Err(_) => Data::empty(),
            }
        } else {
            Data::empty()
        };
        Controller {
            brightness,
            als,
            storage,
            clock,
            kalman: Kalman::new(SCALE, 20 * SCALE, 10 * SCALE),
            last_brightness: 0,
            pending_cooldown: 0,
            pending: Option::None,
            data,
            stateful,
        }
    }

    /// One sensing cycle: smooth the ambient reading, and while the filter
    /// is still warming up only record the observed brightness; afterwards
    /// run one step of the state machine on the smoothed value.
    pub fn adjust(&mut self, luma: Option<u8>) -> (r: Result<(), Error>)
        requires
            old(self).wf(),
        ensures
            final(self).wf(),
            final(self).stateful == old(self).stateful,
            // warm-up gate: before the filter is initialized a cycle never
            // captures an edit, commits, or ramps
            old(self).kalman.phase == 0 ==> final(self).pending == old(self).pending
                && final(self).pending_cooldown == old(self).pending_cooldown
                && final(self).data.entries@ == old(self).data.entries@,
            // a failed sensor read aborts the cycle before any decision
            r == Result::<(), Error>::Err(Error::Als) ==> final(self).state() == old(
                self,
            ).state() && final(self).kalman == old(self).kalman,
            // whatever was read, the loop did nothing, recorded the observed
            // brightness, or took exactly one step of the state machine
            exists|lux: u64, b: u64|
                {
                    ||| final(self).state() == old(self).state()
                    ||| final(self).state() == (State { last_brightness: b, ..old(self).state() })
                    ||| final(self).state() == #[trigger] step(old(self).state(), lux, luma, b)
                },
    {
        let ghost pre = *self;
        let lux_raw = match self.als.get() {
            Result::Ok(l) => l,
            Result::Err(_) => {
                proof {
                    assert(final(self).state() == pre.state() || final(self).state() == (State {
                        last_brightness: 0u64,
                        ..pre.state()
                    }) || final(self).state() == step(pre.state(), 0u64, luma, 0u64));
                }
                return Result::Err(Error::Als);
            },
        };
        let lux = self.kalman.process(lux_raw);
        let b = match self.brightness.get() {
            Result::Ok(v) => v,
            Result::Err(_) => {
                proof {
                    assert(final(self).state() == pre.state() || final(self).state() == (State {
                        last_brightness: 0u64,
                        ..pre.state()
                    }) || final(self).state() == step(pre.state(), 0u64, luma, 0u64));
                }
                return Result::Err(Error::Device);
            },
        };
        if !self.kalman.initialized() {
            self.last_brightness = b;
            proof {
                assert(final(self).state() == pre.state() || final(self).state() == (State {
                    last_brightness: b,
                    ..pre.state()
                }) || final(self).state() == step(pre.state(), lux, luma, b));
            }
            return Result::Ok(());
        }
        let r = self.process(lux, luma, b);
        proof {
            assert(final(self).state() == pre.state() || final(self).state() == (State {
                last_brightness: b,
                ..pre.state()
            }) || final(self).state() == step(pre.state(), lux, luma, b));
        }
        r
    }

    /// One step of the per-cycle state machine, exactly as `step` states:
    /// capture or extend a user edit, count the debounce window down,
    /// commit the pending sample, or predict and ramp.
    pub fn process(&mut self, lux: u64, luma: Option<u8>, brightness: u64) -> (r: Result<
        (),
        Error,
    >)
        ensures
            final(self).state() == step(old(self).state(), lux, luma, brightness),
            final(self).kalman == old(self).kalman,
            final(self).stateful == old(self).stateful,
            takes_edit(old(self).state(), brightness) || takes_cooldown(
                old(self).state(),
                brightness,
            ) ==> r is Ok,
            takes_commit(old(self).state(), brightness) ==> r is Ok || r
                == Result::<(), Error>::Err(Error::Save),
            takes_commit(old(self).state(), brightness) && !old(self).stateful ==> r is Ok,
            takes_predict(old(self).state(), brightness) ==> r is Ok || r == Result::<
                (),
                Error,
            >::Err(Error::Device),
    {
        let user_changed = self.last_brightness != brightness;
        let no_data = self.data.entries.len() == 0 && self.pending.is_none();

        self.last_brightness = brightness;

        if user_changed || no_data {
            match self.pending {
                Option::None => {
                    // the first edit of a streak freezes the conditions
                    self.pending = Option::Some(Entry::new(lux, luma, brightness));
                },
                Option::Some(p0) => {
                    // later edits only track the brightness the user is
                    // still settling on
                    self.pending = Option::Some(
                        Entry { lux: p0.lux, luma: p0.luma, brightness },
                    );
                },
            }
            self.pending_cooldown = PENDING_COOLDOWN_RESET;
            Result::Ok(())
        } else if self.pending_cooldown > 0 {
            self.pending_cooldown = self.pending_cooldown - 1;
            Result::Ok(())
        } else if self.pending.is_some() {
            self.learn()
        } else {
            let desired = self.predict(lux, luma);
            let r = self.change_brightness(brightness, desired);
            // the loop's own adjustment must not read as a user edit on the
            // next cycle
            self.last_brightness = desired;
            r
        }
    }

    /// Commits the pending sample: prunes every learned sample the pruning
    /// rule says it contradicts, appends it, and persists the store when the
    /// loop is stateful.  A failed save leaves the committed store in memory
    /// and reports `Error::Save`.
    pub fn learn(&mut self) -> (r: Result<(), Error>)
        requires
            old(self).pending is Some,
        ensures
            final(self).state() == committed(old(self).state()),
            final(self).kalman == old(self).kalman,
            final(self).stateful == old(self).stateful,
            r is Ok || r == Result::<(), Error>::Err(Error::Save),
            !old(self).stateful ==> r is Ok,
    {
        let p = match self.pending {
            Option::Some(p) => p,
            Option::None => vstd::pervasive::unreached(),
        };
        self.pending = Option::None;
        self.data.prune(&p);
        self.data.entries.push(p);
        if self.stateful {
            match self.storage.save(&self.data.entries) {
                Result::Ok(_) => Result::Ok(()),
                Result::Err(_) => Result::Err(Error::Save),
            }
        } else {
            Result::Ok(())
        }
    }

    /// The distance-weighted brightness prediction over the learned samples.
    pub fn predict(&self, lux: u64, luma: Option<u8>) -> (out: u64)
        ensures
            out == predict_view(self.data.entries@, lux, luma),
    {
        predict_brightness(&self.data.entries, lux, luma)
    }

    /// Ramps the physical brightness from `last_value` to `value` in bounded
    /// steps, pausing between them, so the transition takes about the fixed
    /// time budget.  With nothing to do the device is not touched.
    #[verifier::loop_isolation(false)]
    pub fn change_brightness(&mut self, last_value: u64, value: u64) -> (r: Result<(), Error>)
        ensures
            final(self).state() == old(self).state(),
            final(self).kalman == old(self).kalman,
            final(self).stateful == old(self).stateful,
            r is Ok || r == Result::<(), Error>::Err(Error::Device),
            last_value == value ==> r is Ok,
    {
        if last_value == value {
            return Result::Ok(());
        }
        let diff = if value > last_value {
            value - last_value
        } else {
            last_value - value
        };
        let (step_by, pause) = ramp_params(diff);
        let steps = ramp_steps(last_value, value, step_by);
        let ghost pre = *self;
        let n = steps.len();
        let mut i: usize = 0;
        while i < n
            invariant
                i <= n,
                n == steps.len(),
                self.state() == pre.state(),
                self.kalman == pre.kalman,
                self.stateful == pre.stateful,
            decreases n - i,
        {
            let next = steps[i];
            match self.brightness.set(next) {
                Result::Ok(_) => {},
                Result::Err(_) => {
                    return Result::Err(Error::Device);
                },
            }
            self.clock.sleep_units(pause);
            i += 1;
        }
        Result::Ok(())
    }
}

} // verus!
