//! Terminal bell: rate limiting and the visual flash.
//!
//! Times are nanoseconds on a monotonic clock counted from the moment the
//! bell was made. Each operation that reads the clock has a twin ending in
//! `_at` that takes the reading as an argument and holds the logic.

use vstd::prelude::*;

verus! {

#[verifier::external_type_specification]
#[verifier::external_body]
pub struct ExInstant(std::time::Instant);

/// `Instant::now`: the current reading of the monotonic clock.
#[verifier::external_body]
fn instant_now() -> std::time::Instant {
    std::time::Instant::now()
}

/// `Instant::elapsed` in nanoseconds (`Duration::as_nanos`): the time since
/// `epoch`. It depends on the clock, so nothing is promised of its value.
#[verifier::external_body]
fn nanos_since(epoch: &std::time::Instant) -> u128 {
    epoch.elapsed().as_nanos()
}

/// Bell configuration.
#[derive(Debug, Clone, Copy, PartialEq, Eq, Structural)]
pub struct BellConfig {
    /// Enable the audible bell.
    pub audible: bool,
    /// Enable the visual bell (flash).
    pub visual: bool,
    /// Duration of the visual flash in milliseconds.
    pub visual_duration_ms: u64,
    /// Minimum interval between bells in milliseconds (rate limiting).
    pub min_interval_ms: u64,
}

impl Default for BellConfig {
    fn default() -> (c: BellConfig)
        ensures
            c == (BellConfig { audible: true, visual: true, visual_duration_ms: 100, min_interval_ms: 100 }),
    {
        BellConfig { audible: true, visual: true, visual_duration_ms: 100, min_interval_ms: 100 }
    }
}

/// Nanoseconds in a number of milliseconds.
pub open spec fn ms_nanos(ms: u64) -> int {
    ms * 1_000_000
}

/// `Instant::duration_since`: the time from `earlier` to `later`, zero when
/// `earlier` is the later one.
pub open spec fn elapsed(later: u128, earlier: u128) -> int {
    if later >= earlier { later - earlier } else { 0 }
}

/// A time moved forward by a duration, held at the largest reading.
pub open spec fn later_by(t: u128, d: int) -> u128 {
    if t + d <= u128::MAX { (t + d) as u128 } else { u128::MAX }
}

/// Bell state.
pub struct Bell {
    pub config: BellConfig,
    /// The clock reading that times count from.
    pub epoch: std::time::Instant,
    /// When the bell last rang.
    pub last_bell: Option<u128>,
    /// The visual flash lasts until this time.
    pub visual_active_until: Option<u128>,
}

/// Whether a bell at `now` is swallowed by the rate limit.
pub open spec fn rate_limited(b: &Bell, now: u128) -> bool {
    match b.last_bell {
        Some(last) => elapsed(now, last) < ms_nanos(b.config.min_interval_ms),
        None => false,
    }
}

/// Whether the visual flash shows at `now`.
pub open spec fn visual_active_at(b: &Bell, now: u128) -> bool {
    match b.visual_active_until {
        Some(until) => now < until,
        None => false,
    }
}

/// What ringing at `now` does (`ring_at`): within the minimum interval of
/// the last bell nothing, and no sound; otherwise the bell is recorded, the
/// flash (when enabled) starts for its duration, and the sound is the
/// configured audible setting.
pub open spec fn rung_at(a: Bell, now: u128, b: Bell, sound: bool) -> bool {
    &&& b.config == a.config
    &&& b.epoch == a.epoch
    &&& rate_limited(&a, now) ==> {
        &&& !sound
        &&& b.last_bell == a.last_bell
        &&& b.visual_active_until == a.visual_active_until
    }
    &&& !rate_limited(&a, now) ==> {
        &&& sound == a.config.audible
        &&& b.last_bell == Some(now)
        &&& b.visual_active_until == if a.config.visual {
            Some(later_by(now, ms_nanos(a.config.visual_duration_ms)))
        } else {
            a.visual_active_until
        }
    }
}

/// What updating at `now` does (`update_at`): a flash that has run out by
/// then is cleared, anything else stays.
pub open spec fn updated_at(a: Bell, now: u128, b: Bell) -> bool {
    &&& b.config == a.config
    &&& b.epoch == a.epoch
    &&& b.last_bell == a.last_bell
    &&& b.visual_active_until == match a.visual_active_until {
        Some(until) => if now >= until { None } else { Some(until) },
        None => None,
    }
}

/// After a ring that is not rate limited with the visual bell on, the flash
/// shows exactly until the flash duration has passed (held at the largest
/// reading), and no longer.
pub proof fn law_flash_follows_ring(a: Bell, now: u128, b: Bell, sound: bool, later: u128)
    requires
        rung_at(a, now, b, sound),
        !rate_limited(&a, now),
        a.config.visual,
    ensures
        visual_active_at(&b, later) == (later < later_by(now, ms_nanos(a.config.visual_duration_ms))),
{
}

impl Default for Bell {
    fn default() -> (b: Bell)
        ensures
            b.config == (BellConfig { audible: true, visual: true, visual_duration_ms: 100, min_interval_ms: 100 }),
            b.last_bell.is_none(),
            b.visual_active_until.is_none(),
    {
        Bell::new(BellConfig::default())
    }
}

impl Bell {
    /// A bell that has not rung.
    pub fn new(config: BellConfig) -> (b: Bell)
        ensures
            b.config == config,
            b.last_bell.is_none(),
            b.visual_active_until.is_none(),
    {
        Bell { config, epoch: instant_now(), last_bell: None, visual_active_until: None }
    }

    /// The current time, counted from the bell's epoch.
    pub fn now(&self) -> u128 {
        nanos_since(&self.epoch)
    }

    /// Ring the bell now. Returns whether the audible bell should sound,
    /// which the caller plays.
    pub fn ring(&mut self) -> (sound: bool)
        ensures
            final(self).config == old(self).config,
            final(self).epoch == old(self).epoch,
            sound ==> final(self).config.audible,
            exists|now: u128| #[trigger] rung_at(*old(self), now, *final(self), sound),
    {
        let now = self.now();
        let sound = self.ring_at(now);
        assert(rung_at(*old(self), now, *self, sound));
        sound
    }

    /// Ring the bell at time `now`. Within the minimum interval of the last
    /// bell nothing happens; otherwise the bell is recorded, the flash starts
    /// (when enabled) for its duration, and the result says whether the
    /// audible bell should sound.
    pub fn ring_at(&mut self, now: u128) -> (sound: bool)
        ensures
            rung_at(*old(self), now, *final(self), sound),
            final(self).config == old(self).config,
            final(self).epoch == old(self).epoch,
            rate_limited(old(self), now) ==> {
                &&& !sound
                &&& final(self).last_bell == old(self).last_bell
                &&& final(self).visual_active_until == old(self).visual_active_until
            },
            !rate_limited(old(self), now) ==> {
                &&& sound == old(self).config.audible
                &&& final(self).last_bell == Some(now)
                &&& final(self).visual_active_until == if old(self).config.visual {
                    Some(later_by(now, ms_nanos(old(self).config.visual_duration_ms)))
                } else {
                    old(self).visual_active_until
                }
            },
    {
        if let Some(last) = self.last_bell {
            let since: u128 = if now >= last { now - last } else { 0 };
            if since < (self.config.min_interval_ms as u128) * 1_000_000 {
                return false;
            }
        }
        self.last_bell = Some(now);
        if self.config.visual {
            let d: u128 = (self.config.visual_duration_ms as u128) * 1_000_000;
            let until = if now <= u128::MAX - d { now + d } else { u128::MAX };
            self.visual_active_until = Some(until);
        }
        self.config.audible
    }

    /// Whether the visual flash shows now.
    pub fn is_visual_active(&self) -> (b: bool)
        ensures
            exists|now: u128| b == #[trigger] visual_active_at(self, now),
    {
        let now = self.now();
        self.is_visual_active_at(now)
    }

    /// Whether the visual flash shows at time `now`.
    pub fn is_visual_active_at(&self, now: u128) -> (b: bool)
        ensures
            b == visual_active_at(self, now),
    {
        match self.visual_active_until {
            Some(until) => now < until,
            None => false,
        }
    }

    /// Clear the flash once it has run out.
    pub fn update(&mut self)
        ensures
            final(self).config == old(self).config,
            final(self).last_bell == old(self).last_bell,
            exists|now: u128| #[trigger] updated_at(*old(self), now, *final(self)),
    {
        let now = self.now();
        self.update_at(now);
        assert(updated_at(*old(self), now, *self));
    }

    /// Clear the flash if it has run out by time `now`.
    pub fn update_at(&mut self, now: u128)
        ensures
            updated_at(*old(self), now, *final(self)),
            final(self).config == old(self).config,
            final(self).epoch == old(self).epoch,
            final(self).last_bell == old(self).last_bell,
            final(self).visual_active_until == match old(self).visual_active_until {
                Some(until) => if now >= until { None } else { Some(until) },
                None => None,
            },
    {
        if let Some(until) = self.visual_active_until {
            if now >= until {
                self.visual_active_until = None;
            }
        }
    }

    /// The flash intensity now, as a fraction (numerator, denominator).
    pub fn visual_intensity(&self) -> (r: (u128, u128))
        ensures
            r.1 > 0,
            r.0 >= r.1,
    {
        let now = self.now();
        self.visual_intensity_at(now)
    }

    /// The flash intensity at time `now` as a fraction: 1 when no flash
    /// shows, else `1 + 0.3 * remaining / duration`, starting near 1.3 and
    /// fading to 1 (a remainder longer than the configured duration, which
    /// only a later change of configuration makes, counts as the duration).
    pub fn visual_intensity_at(&self, now: u128) -> (r: (u128, u128))
        ensures
            r.1 > 0,
            !visual_active_at(self, now) ==> r == (1u128, 1u128),
            visual_active_at(self, now) && self.config.visual_duration_ms > 0 ==> {
                let until = self.visual_active_until.unwrap();
                let rem = until - now;
                let total = ms_nanos(self.config.visual_duration_ms);
                let shown = if rem <= total { rem } else { total };
                r.0 == 10 * total + 3 * shown && r.1 == 10 * total
            },
            r.0 >= r.1,
    {
        match self.visual_active_until {
            Some(until) => {
                if now < until {
                    let total: u128 = (self.config.visual_duration_ms as u128) * 1_000_000;
                    let rem: u128 = until - now;
                    if total == 0 {
                        (1, 1)
                    } else {
                        let shown: u128 = if rem <= total { rem } else { total };
                        (10 * total + 3 * shown, 10 * total)
                    }
                } else {
                    (1, 1)
                }
            },
            None => (1, 1),
        }
    }

    /// Replace the configuration.
    pub fn set_config(&mut self, config: BellConfig)
        ensures
            final(self).config == config,
            final(self).last_bell == old(self).last_bell,
            final(self).visual_active_until == old(self).visual_active_until,
    {
        self.config = config;
    }

    /// The configuration.
    pub fn config(&self) -> (c: &BellConfig)
        ensures
            *c == self.config,
    {
        &self.config
    }

    /// Enable or disable the audible bell.
    pub fn set_audible(&mut self, enabled: bool)
        ensures
            final(self).config == (BellConfig { audible: enabled, ..old(self).config }),
            final(self).last_bell == old(self).last_bell,
            final(self).visual_active_until == old(self).visual_active_until,
    {
        self.config.audible = enabled;
    }

    /// Enable or disable the visual bell.
    pub fn set_visual(&mut self, enabled: bool)
        ensures
            final(self).config == (BellConfig { visual: enabled, ..old(self).config }),
            final(self).last_bell == old(self).last_bell,
            final(self).visual_active_until == old(self).visual_active_until,
    {
        self.config.visual = enabled;
    }
}

} // verus!
