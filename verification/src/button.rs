//! The PWR button behind the TCA9554 port expander (input bit 4): the
//! debouncer that turns raw input samples into short-press events.
use vstd::prelude::*;

verus! {

/// I2C address of the port expander.
pub const ADDR: u8 = 0x20;
/// Input port register.
pub const REG_INPUT: u8 = 0x00;
/// Configuration register (a set bit makes the pin an input).
pub const REG_CONFIG: u8 = 0x03;
/// The PWR button's bit in the expander's registers.
pub const PWR_BIT: u8 = 0x10;
/// Number of consecutive differing samples that change the debounced state.
pub const DEBOUNCE: u8 = 2;
/// Longest hold, in milliseconds, that still counts as a short press.
pub const SHORT_MAX_MS: u64 = 1500;
/// Least time, in milliseconds, between two polls of the button.
pub const POLL_INTERVAL_MS: u64 = 25;

/// The debouncer's state.
pub struct ButtonView {
    /// Debounced state: pressed or not.
    pub stable: bool,
    /// Number of consecutive samples that differed from `stable`.
    pub agree: u8,
    /// When the current press became stable, in microseconds.
    pub press_start: u64,
    /// A short press waits to be reported.
    pub pending: bool,
}

impl ButtonView {
    /// Between two samples fewer than `DEBOUNCE` differing samples are
    /// counted and no press waits to be reported.
    pub open spec fn wf(self) -> bool {
        self.agree < DEBOUNCE && !self.pending
    }
}

/// The input byte shows the button pressed.
pub open spec fn is_pressed(input: u8) -> bool {
    input & PWR_BIT != 0
}

/// The sample completes a release: it shows the button up, the debounced
/// state is down, and it is the last differing sample needed.
pub open spec fn completes_release(s: ButtonView, input: Option<u8>) -> bool {
    match input {
        Some(byte) => !is_pressed(byte) && s.stable && s.agree + 1 >= DEBOUNCE,
        None => false,
    }
}

/// The debouncer's step on one poll: the new state and whether a short
/// press is reported. A failed read (`None`) changes nothing. A sample equal
/// to the debounced state resets the count; a differing one counts, and the
/// `DEBOUNCE`-th in a row flips the debounced state: pressing notes the
/// time, releasing makes a press of at most `SHORT_MAX_MS` pending. A
/// pending press is reported and cleared.
pub open spec fn button_step(s: ButtonView, input: Option<u8>, now: u64) -> (ButtonView, bool) {
    match input {
        None => (s, false),
        Some(byte) => {
            let pressed = is_pressed(byte);
            let s1 = if pressed == s.stable {
                ButtonView { agree: 0, ..s }
            } else if s.agree + 1 >= DEBOUNCE {
                if pressed {
                    ButtonView { stable: true, agree: 0, press_start: now, ..s }
                } else {
                    ButtonView {
                        stable: false,
                        agree: 0,
                        pending: s.pending || (now - s.press_start) / 1000 <= SHORT_MAX_MS,
                        ..s
                    }
                }
            } else {
                ButtonView { agree: (s.agree + 1) as u8, ..s }
            };
            (ButtonView { pending: false, ..s1 }, s1.pending)
        },
    }
}

/// Debouncer for the PWR button.
pub struct Button {
    stable: bool,
    agree: u8,
    press_start: u64,
    pending: bool,
}

impl View for Button {
    type V = ButtonView;

    closed spec fn view(&self) -> ButtonView {
        ButtonView {
            stable: self.stable,
            agree: self.agree,
            press_start: self.press_start,
            pending: self.pending,
        }
    }
}

impl Button {
    /// A released button with nothing counted or pending.
    pub fn new() -> (b: Button)
        ensures
            b@ == (ButtonView { stable: false, agree: 0, press_start: 0, pending: false }),
            b@.wf(),
    {
        Button { stable: false, agree: 0, press_start: 0, pending: false }
    }

    /// When the current press became stable, in microseconds.
    pub fn press_start(&self) -> (t: u64)
        ensures
            t == self@.press_start,
    {
        self.press_start
    }

    /// Whether the sample would complete a release (so that the hold time
    /// is measured from `press_start`).
    pub fn completes_release(&self, input: Option<u8>) -> (c: bool)
        ensures
            c == completes_release(self@, input),
    {
        match input {
            Some(byte) => (byte & PWR_BIT) == 0 && self.stable && self.agree >= DEBOUNCE - 1,
            None => false,
        }
    }

    /// Takes one sample of the expander's input register (`None` when the
    /// read failed) taken at `now` microseconds, and tells whether a short
    /// press just ended.
    pub fn take_short_press(&mut self, input: Option<u8>, now: u64) -> (r: bool)
        requires
            old(self)@.wf(),
            completes_release(old(self)@, input) ==> old(self)@.press_start <= now,
        ensures
            final(self)@.wf(),
            (final(self)@, r) == button_step(old(self)@, input, now),
    {
        let byte = match input {
            Some(b) => b,
            None => {
                return false;
            },
        };
        let pressed = (byte & PWR_BIT) != 0;
        if pressed == self.stable {
            self.agree = 0;
        } else {
            self.agree = self.agree + 1;
            if self.agree >= DEBOUNCE {
                self.agree = 0;
                self.stable = pressed;
                if pressed {
                    self.press_start = now;
                } else {
                    let held = (now - self.press_start) / 1000;
                    if held <= SHORT_MAX_MS {
                        self.pending = true;
                    }
                }
            }
        }
        if self.pending {
            self.pending = false;
            true
        } else {
            false
        }
    }
}

/// What to write to the expander's configuration register so that the PWR
/// pin is an input: nothing if its bit is already set, else the register
/// with the bit set. Other pins keep their configuration.
pub fn pwr_config_write(config: u8) -> (w: Option<u8>)
    ensures
        w == (if config & PWR_BIT == 0 {
            Some(config | PWR_BIT)
        } else {
            None::<u8>
        }),
        w matches Some(v) ==> v & PWR_BIT != 0 && v & !PWR_BIT == config & !PWR_BIT,
{
    if (config & PWR_BIT) == 0 {
        let v = config | PWR_BIT;
        assert(v & PWR_BIT != 0 && v & !PWR_BIT == config & !PWR_BIT) by (bit_vector)
            requires
                v == config | 0x10u8,
                PWR_BIT == 0x10u8,
        ;
        Some(v)
    } else {
        None
    }
}

/// The button is due for a poll: at least `POLL_INTERVAL_MS` whole
/// milliseconds have passed since the last poll (times in microseconds).
pub fn poll_due(now: u64, last: u64) -> (due: bool)
    requires
        last <= now,
    ensures
        due == ((now - last) / 1000 >= POLL_INTERVAL_MS),
{
    (now - last) / 1000 >= POLL_INTERVAL_MS
}

/// A press is reported exactly when a sample completes a release that ends
/// a press held for at most `SHORT_MAX_MS` milliseconds.
pub proof fn lemma_report_iff_short_release(s: ButtonView, input: Option<u8>, now: u64)
    requires
        s.wf(),
    ensures
        button_step(s, input, now).1 <==> (completes_release(s, input) && (now - s.press_start)
            / 1000 <= SHORT_MAX_MS),
        button_step(s, input, now).0.wf(),
{
}

/// Every step keeps the debouncer's invariant. The debounced state changes
/// only on a successful read that is the `DEBOUNCE`-th differing sample in
/// a row; the press time becomes the sample's time exactly when the state
/// turns from released to pressed, and stays otherwise.
pub proof fn lemma_button_step_state(s: ButtonView, input: Option<u8>, now: u64)
    requires
        s.wf(),
    ensures
        button_step(s, input, now).0.wf(),
        button_step(s, input, now).0.stable != s.stable ==> (input matches Some(byte) && is_pressed(
            byte,
        ) != s.stable && s.agree + 1 >= DEBOUNCE),
        button_step(s, input, now).0.press_start == if !s.stable && button_step(s, input, now).0.stable {
            now
        } else {
            s.press_start
        },
{
}

/// A step that changes the debounced state, in either direction, leaves no
/// differing sample counted.
pub proof fn lemma_flip_resets_count(s: ButtonView, input: Option<u8>, now: u64)
    requires
        s.wf(),
    ensures
        button_step(s, input, now).0.stable != s.stable ==> button_step(s, input, now).0.agree == 0,
{
}

/// After a short press has been reported, a single pressed sample followed
/// by a released one reports nothing and leaves the button released: no
/// second press is reported without a new debounced press.
pub proof fn lemma_no_phantom_press(
    s: ButtonView,
    input: Option<u8>,
    now: u64,
    glitch: u8,
    back: u8,
    t1: u64,
    t2: u64,
    t3: u64,
)
    requires
        s.wf(),
        button_step(s, input, now).1,
        glitch & 0x10 != 0,
        back & 0x10 == 0,
    ensures
        ({
            let (s1, _) = button_step(s, input, now);
            let (s2, r2) = button_step(s1, Some(glitch), t1);
            let (s3, r3) = button_step(s2, Some(back), t2);
            let (s4, r4) = button_step(s3, Some(back), t3);
            &&& !s1.stable && !s2.stable && !s3.stable && !s4.stable
            &&& !r2 && !r3 && !r4
        }),
{
}

/// A short press is reported exactly when a successful read shows bit 4
/// clear while the button is debounced as pressed and one released sample
/// is already counted, and the press has lasted at most 1500 whole
/// milliseconds (times in microseconds).
pub proof fn lemma_report_rule(s: ButtonView, input: Option<u8>, now: u64)
    requires
        s.wf(),
    ensures
        button_step(s, input, now).1 <==> (input matches Some(byte) && byte & 0x10 == 0 && s.stable
            && s.agree == 1 && (now - s.press_start) / 1000 <= 1500),
{
}

/// A single sample that differs from the debounced state, followed by one
/// that agrees with it again, changes nothing and reports nothing.
pub proof fn lemma_glitch_ignored(s: ButtonView, glitch: u8, back: u8, t1: u64, t2: u64)
    requires
        s.wf(),
        s.agree == 0,
        is_pressed(glitch) != s.stable,
        is_pressed(back) == s.stable,
    ensures
        ({
            let (s1, r1) = button_step(s, Some(glitch), t1);
            let (s2, r2) = button_step(s1, Some(back), t2);
            &&& !r1
            &&& !r2
            &&& s2 == s
        }),
{
}

/// A debounced press (two pressed samples) followed by a debounced
/// release (two released samples) is reported once, on the last sample,
/// if the button was held at most `SHORT_MAX_MS` milliseconds counted from
/// the second pressed sample; a further released sample reports nothing.
pub proof fn lemma_short_press_reported_once(
    s: ButtonView,
    down: u8,
    up: u8,
    t0: u64,
    t1: u64,
    t2: u64,
    t3: u64,
    t4: u64,
)
    requires
        s.wf(),
        !s.stable,
        s.agree == 0,
        is_pressed(down),
        !is_pressed(up),
        t1 <= t3,
    ensures
        ({
            let (s1, r1) = button_step(s, Some(down), t0);
            let (s2, r2) = button_step(s1, Some(down), t1);
            let (s3, r3) = button_step(s2, Some(up), t2);
            let (s4, r4) = button_step(s3, Some(up), t3);
            let (s5, r5) = button_step(s4, Some(up), t4);
            &&& !r1 && !r2 && !r3
            &&& s2.stable && s2.press_start == t1
            &&& r4 == ((t3 - t1) / 1000 <= SHORT_MAX_MS)
            &&& !s4.stable
            &&& !r5
        }),
{
}

} // verus!
