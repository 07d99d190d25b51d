//! Register protocol of the QMI8658 IMU: its addresses, the configuration
//! written at start-up, the data-ready test and the decoding of one
//! accelerometer and gyroscope sample.
use vstd::prelude::*;

verus! {

/// I2C address with the SA0 pin high (probed first).
pub const ADDR_HIGH: u8 = 0x6B;
/// I2C address with the SA0 pin low.
pub const ADDR_LOW: u8 = 0x6A;
/// WHO_AM_I register.
pub const REG_WHO: u8 = 0x00;
/// Interface configuration.
pub const REG_CTRL1: u8 = 0x02;
/// Accelerometer range and rate.
pub const REG_CTRL2: u8 = 0x03;
/// Gyroscope range and rate.
pub const REG_CTRL3: u8 = 0x04;
/// Sensor enable.
pub const REG_CTRL7: u8 = 0x08;
/// Data status register.
pub const REG_STATUS0: u8 = 0x2E;
/// First byte of the sample registers (accelerometer x, low byte).
pub const REG_AX_L: u8 = 0x35;
/// Soft reset register.
pub const REG_RESET: u8 = 0x60;
/// Soft reset command.
pub const RESET_CMD: u8 = 0xB0;
/// Address auto-increment, little-endian data.
pub const CTRL1_VALUE: u8 = 0x60;
/// Accelerometer ±8 g at 250 Hz.
pub const CTRL2_VALUE: u8 = 0x25;
/// Gyroscope ±512 dps at 250 Hz.
pub const CTRL3_VALUE: u8 = 0x45;
/// Accelerometer and gyroscope enabled.
pub const CTRL7_VALUE: u8 = 0x03;
/// Wait after the soft reset, in milliseconds.
pub const RESET_WAIT_MS: u64 = 20;
/// Bytes of one sample: three accelerometer and three gyroscope axes.
pub const SAMPLE_BYTES: usize = 12;

/// The configuration values are the register fields they stand for:
/// accelerometer range code 2 and rate code 5, gyroscope range code 4 and
/// rate code 5, accelerometer and gyroscope enable bits.
pub proof fn lemma_config_fields()
    ensures
        CTRL2_VALUE == (0x02u8 << 4u8) | 0x05u8,
        CTRL3_VALUE == (0x04u8 << 4u8) | 0x05u8,
        CTRL7_VALUE == 0x01u8 | 0x02u8,
{
    assert(CTRL2_VALUE == (0x02u8 << 4u8) | 0x05u8) by (bit_vector);
    assert(CTRL3_VALUE == (0x04u8 << 4u8) | 0x05u8) by (bit_vector);
    assert(CTRL7_VALUE == 0x01u8 | 0x02u8) by (bit_vector);
}

/// The register writes that configure the sensor after its soft reset, in
/// order: interface, accelerometer, gyroscope, enable.
pub fn config_writes() -> (w: Vec<(u8, u8)>)
    ensures
        w@ == seq![
            (REG_CTRL1, CTRL1_VALUE),
            (REG_CTRL2, CTRL2_VALUE),
            (REG_CTRL3, CTRL3_VALUE),
            (REG_CTRL7, CTRL7_VALUE),
        ],
{
    let mut w: Vec<(u8, u8)> = Vec::new();
    w.push((REG_CTRL1, CTRL1_VALUE));
    w.push((REG_CTRL2, CTRL2_VALUE));
    w.push((REG_CTRL3, CTRL3_VALUE));
    w.push((REG_CTRL7, CTRL7_VALUE));
    assert(w@ =~= seq![
        (REG_CTRL1, CTRL1_VALUE),
        (REG_CTRL2, CTRL2_VALUE),
        (REG_CTRL3, CTRL3_VALUE),
        (REG_CTRL7, CTRL7_VALUE),
    ]);
    w
}

/// Why bringing the sensor up failed.
#[derive(Clone, Copy, Debug, PartialEq, Eq)]
pub enum InitFailure {
    /// Neither address answered the probe.
    NotFound,
    /// The soft reset was not accepted.
    ResetFailed,
    /// A configuration write was not accepted.
    ConfigFailed,
}

/// Where the bring-up of the sensor stands.
#[derive(Clone, Copy, Debug, PartialEq, Eq)]
pub enum InitState {
    /// Probing the first address.
    ProbeHigh,
    /// Probing the second address.
    ProbeLow,
    /// Soft reset sent to the given address.
    Reset(u8),
    /// Waiting for the sensor to come out of reset.
    Settle(u8),
    /// Configuration write `i` sent to the given address.
    Configure(u8, usize),
    /// Finished, one way or the other.
    Done,
}

/// What the bring-up asks the bus or the clock to do next.
#[derive(Clone, Copy, Debug, PartialEq, Eq)]
pub enum InitAction {
    /// Read WHO_AM_I at the address.
    Probe(u8),
    /// Write `value` to register `reg` at address `addr`.
    Write(u8, u8, u8),
    /// Wait the given milliseconds.
    Wait(u64),
    /// The sensor answers at the address and is configured.
    Ready(u8),
    /// The bring-up failed.
    Fail(InitFailure),
}

/// Configuration write `i` as register and value.
pub open spec fn config_write_spec(i: int) -> (u8, u8) {
    if i == 0 {
        (REG_CTRL1, CTRL1_VALUE)
    } else if i == 1 {
        (REG_CTRL2, CTRL2_VALUE)
    } else if i == 2 {
        (REG_CTRL3, CTRL3_VALUE)
    } else {
        (REG_CTRL7, CTRL7_VALUE)
    }
}

/// The bring-up's step: given where it stands and whether the last action
/// succeeded, where it stands next and what to do. The first address is
/// probed, then the second; the first that answers is reset, given
/// `RESET_WAIT_MS` to settle and configured by the four writes in order.
/// A failed reset or write ends the bring-up; the wait cannot fail.
pub open spec fn init_step_spec(state: InitState, ok: bool) -> (InitState, InitAction) {
    match state {
        InitState::ProbeHigh => if ok {
            (InitState::Reset(ADDR_HIGH), InitAction::Write(ADDR_HIGH, REG_RESET, RESET_CMD))
        } else {
            (InitState::ProbeLow, InitAction::Probe(ADDR_LOW))
        },
        InitState::ProbeLow => if ok {
            (InitState::Reset(ADDR_LOW), InitAction::Write(ADDR_LOW, REG_RESET, RESET_CMD))
        } else {
            (InitState::Done, InitAction::Fail(InitFailure::NotFound))
        },
        InitState::Reset(a) => if ok {
            (InitState::Settle(a), InitAction::Wait(RESET_WAIT_MS))
        } else {
            (InitState::Done, InitAction::Fail(InitFailure::ResetFailed))
        },
        InitState::Settle(a) => (
            InitState::Configure(a, 0),
            InitAction::Write(a, config_write_spec(0).0, config_write_spec(0).1),
        ),
        InitState::Configure(a, i) => if !ok {
            (InitState::Done, InitAction::Fail(InitFailure::ConfigFailed))
        } else if i + 1 < 4 {
            (
                InitState::Configure(a, (i + 1) as usize),
                InitAction::Write(a, config_write_spec(i + 1).0, config_write_spec(i + 1).1),
            )
        } else {
            (InitState::Done, InitAction::Ready(a))
        },
        InitState::Done => (InitState::Done, InitAction::Fail(InitFailure::NotFound)),
    }
}

/// The first step of the bring-up: probe the first address.
pub fn init_start() -> (r: (InitState, InitAction))
    ensures
        r == (InitState::ProbeHigh, InitAction::Probe(ADDR_HIGH)),
{
    (InitState::ProbeHigh, InitAction::Probe(ADDR_HIGH))
}

fn config_write(i: usize) -> (w: (u8, u8))
    requires
        i < 4,
    ensures
        w == config_write_spec(i as int),
{
    if i == 0 {
        (REG_CTRL1, CTRL1_VALUE)
    } else if i == 1 {
        (REG_CTRL2, CTRL2_VALUE)
    } else if i == 2 {
        (REG_CTRL3, CTRL3_VALUE)
    } else {
        (REG_CTRL7, CTRL7_VALUE)
    }
}

/// One step of the bring-up (see `init_step_spec`); `ok` tells whether the
/// last action succeeded.
pub fn init_step(state: InitState, ok: bool) -> (r: (InitState, InitAction))
    requires
        state matches InitState::Configure(_, i) ==> i < 4,
    ensures
        r == init_step_spec(state, ok),
        r.0 matches InitState::Configure(_, i) ==> i < 4,
{
    match state {
        InitState::ProbeHigh => if ok {
            (InitState::Reset(ADDR_HIGH), InitAction::Write(ADDR_HIGH, REG_RESET, RESET_CMD))
        } else {
            (InitState::ProbeLow, InitAction::Probe(ADDR_LOW))
        },
        InitState::ProbeLow => if ok {
            (InitState::Reset(ADDR_LOW), InitAction::Write(ADDR_LOW, REG_RESET, RESET_CMD))
        } else {
            (InitState::Done, InitAction::Fail(InitFailure::NotFound))
        },
        InitState::Reset(a) => if ok {
            (InitState::Settle(a), InitAction::Wait(RESET_WAIT_MS))
        } else {
            (InitState::Done, InitAction::Fail(InitFailure::ResetFailed))
        },
        InitState::Settle(a) => {
            let (reg, value) = config_write(0);
            (InitState::Configure(a, 0), InitAction::Write(a, reg, value))
        },
        InitState::Configure(a, i) => if !ok {
            (InitState::Done, InitAction::Fail(InitFailure::ConfigFailed))
        } else if i + 1 < 4 {
            let (reg, value) = config_write(i + 1);
            (InitState::Configure(a, i + 1), InitAction::Write(a, reg, value))
        } else {
            (InitState::Done, InitAction::Ready(a))
        },
        InitState::Done => (InitState::Done, InitAction::Fail(InitFailure::NotFound)),
    }
}

/// With every bus transfer succeeding, the bring-up probes the first
/// address, resets the sensor there, waits, sends the four configuration
/// writes of `config_writes` in order and reports the sensor ready at that
/// address; when only the second address answers, the same happens there.
pub proof fn lemma_init_sequence(second: bool)
    ensures
        ({
            let a = if second {
                ADDR_LOW
            } else {
                ADDR_HIGH
            };
            let (s0, a0) = init_step_spec(InitState::ProbeHigh, !second);
            let (s1, a1) = if second {
                init_step_spec(s0, true)
            } else {
                (s0, a0)
            };
            let (s2, a2) = init_step_spec(s1, true);
            let (s3, a3) = init_step_spec(s2, true);
            let (s4, a4) = init_step_spec(s3, true);
            let (s5, a5) = init_step_spec(s4, true);
            let (s6, a6) = init_step_spec(s5, true);
            let (s7, a7) = init_step_spec(s6, true);
            &&& second ==> a0 == InitAction::Probe(ADDR_LOW)
            &&& a1 == InitAction::Write(a, REG_RESET, RESET_CMD)
            &&& a2 == InitAction::Wait(RESET_WAIT_MS)
            &&& a3 == InitAction::Write(a, REG_CTRL1, CTRL1_VALUE)
            &&& a4 == InitAction::Write(a, REG_CTRL2, CTRL2_VALUE)
            &&& a5 == InitAction::Write(a, REG_CTRL3, CTRL3_VALUE)
            &&& a6 == InitAction::Write(a, REG_CTRL7, CTRL7_VALUE)
            &&& a7 == InitAction::Ready(a)
            &&& s7 == InitState::Done
        }),
{
}

/// The status register reports a new accelerometer or gyroscope sample
/// (bit 0 or bit 1).
pub fn data_ready(status: u8) -> (ready: bool)
    ensures
        ready == (status % 4 != 0),
{
    let ready = (status & 0x03) != 0;
    assert(((status & 0x03) != 0) == (status % 4 != 0)) by (bit_vector);
    ready
}

/// The signed 16-bit value of two bytes, low byte first.
pub open spec fn le_i16(lo: u8, hi: u8) -> int {
    let v = lo + 256 * hi;
    if v >= 0x8000 {
        v - 0x10000
    } else {
        v
    }
}

/// One raw sample: accelerometer and gyroscope, three axes each, in sensor
/// counts.
#[derive(Clone, Copy, Debug, PartialEq, Eq)]
pub struct RawSample {
    pub ax: i16,
    pub ay: i16,
    pub az: i16,
    pub gx: i16,
    pub gy: i16,
    pub gz: i16,
}

fn i16_from_le(lo: u8, hi: u8) -> (v: i16)
    ensures
        v as int == le_i16(lo, hi),
{
    let u: u16 = ((hi as u16) << 8u16) | (lo as u16);
    assert(u == lo + 256 * hi) by (bit_vector)
        requires
            u == ((hi as u16) << 8u16) | (lo as u16),
    ;
    let v: i16 = u as i16;
    assert(v == (if u >= 0x8000 {
        u - 0x10000
    } else {
        u as int
    })) by (bit_vector)
        requires
            v == u as i16,
    ;
    v
}

/// Decodes the twelve sample bytes read from `REG_AX_L` onwards: six
/// little-endian signed 16-bit values, accelerometer x, y, z then
/// gyroscope x, y, z.
pub fn decode_sample(buf: &[u8]) -> (s: RawSample)
    requires
        buf@.len() == SAMPLE_BYTES,
    ensures
        s.ax as int == le_i16(buf@[0], buf@[1]),
        s.ay as int == le_i16(buf@[2], buf@[3]),
        s.az as int == le_i16(buf@[4], buf@[5]),
        s.gx as int == le_i16(buf@[6], buf@[7]),
        s.gy as int == le_i16(buf@[8], buf@[9]),
        s.gz as int == le_i16(buf@[10], buf@[11]),
{
    RawSample {
        ax: i16_from_le(buf[0], buf[1]),
        ay: i16_from_le(buf[2], buf[3]),
        az: i16_from_le(buf[4], buf[5]),
        gx: i16_from_le(buf[6], buf[7]),
        gy: i16_from_le(buf[8], buf[9]),
        gz: i16_from_le(buf[10], buf[11]),
    }
}

} // verus!
