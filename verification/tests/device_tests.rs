use fluidbox::config::{BAND_COUNT, BAND_ROWS, LCD_V_RES};
use fluidbox::display::{cmd_address, flush_plan, init_commands, payload_len, window_params};
use fluidbox::imu::{config_writes, data_ready, decode_sample, RawSample};
use fluidbox::sim::snapshot_limit;

#[test]
fn command_address_places_command_in_middle_byte() {
    assert_eq!(cmd_address(0x2A), 0x2A00);
    assert_eq!(cmd_address(0xFF), 0xFF00);
    assert_eq!(cmd_address(0), 0);
}

#[test]
fn payload_is_capped() {
    assert_eq!(payload_len(3, 32), 3);
    assert_eq!(payload_len(40, 32), 32);
    assert_eq!(payload_len(0, 32), 0);
}

#[test]
fn window_is_big_endian_with_column_offset() {
    let (cols, rows) = window_params(0, 22, 465, 43);
    assert_eq!(cols, vec![0x00, 0x06, 0x01, 0xD7]);
    assert_eq!(rows, vec![0x00, 22, 0x00, 43]);
}

#[test]
fn flush_plan_for_last_band() {
    assert!(flush_plan(0, 0).is_none());
    let plan = flush_plan(462, 4).unwrap();
    assert_eq!(plan.column_params, vec![0x00, 0x06, 0x01, 0xD7]);
    assert_eq!(plan.row_params, vec![0x01, 0xCE, 0x01, 0xD1]);
    assert_eq!(plan.bytes, 466 * 4 * 2);
    let full = flush_plan(0, 22).unwrap();
    assert_eq!(full.bytes, 20504);
}

#[test]
fn init_sequence() {
    let cmds = init_commands();
    let summary: Vec<(u8, Vec<u8>, u64)> =
        cmds.into_iter().map(|c| (c.cmd, c.data, c.delay_ms)).collect();
    assert_eq!(
        summary,
        vec![
            (0x36, vec![0x00], 0),
            (0x3A, vec![0x55], 0),
            (0xFE, vec![], 0),
            (0xC4, vec![0x80], 0),
            (0x35, vec![], 10),
            (0x53, vec![0x20], 10),
            (0x51, vec![0xFF], 10),
            (0x63, vec![0xFF], 10),
            (0x11, vec![], 60),
            (0x29, vec![], 0),
        ]
    );
}

#[test]
fn imu_configuration() {
    assert_eq!(config_writes(), vec![(0x02, 0x60), (0x03, 0x25), (0x04, 0x45), (0x08, 0x03)]);
}

#[test]
fn imu_data_ready_bits() {
    assert!(!data_ready(0x00));
    assert!(data_ready(0x01));
    assert!(data_ready(0x02));
    assert!(data_ready(0x03));
    assert!(!data_ready(0x04));
    assert!(!data_ready(0xFC));
}

#[test]
fn imu_sample_is_little_endian_signed() {
    let buf = [0x01, 0x00, 0xFF, 0xFF, 0x00, 0x80, 0xFF, 0x7F, 0x34, 0x12, 0x00, 0x00];
    assert_eq!(
        decode_sample(&buf),
        RawSample { ax: 1, ay: -1, az: -32768, gx: 32767, gy: 0x1234, gz: 0 }
    );
}

#[test]
fn snapshot_limit_caps_at_particle_max() {
    assert_eq!(snapshot_limit(5), 5);
    assert_eq!(snapshot_limit(1000), 1000);
    assert_eq!(snapshot_limit(5000), 1000);
    assert_eq!(snapshot_limit(0), 0);
}

#[test]
fn bands_cover_the_panel() {
    assert!((BAND_COUNT - 1) * BAND_ROWS < LCD_V_RES as usize);
    assert!(LCD_V_RES as usize <= BAND_COUNT * BAND_ROWS);
}

use fluidbox::imu::{init_start, init_step, InitAction, InitFailure, InitState};

fn run_init(answers: &[bool]) -> Vec<InitAction> {
    let (mut state, mut action) = init_start();
    let mut actions = vec![action];
    let mut k = 0;
    while !matches!(action, InitAction::Ready(_) | InitAction::Fail(_)) {
        let ok = answers[k];
        k += 1;
        let (s, a) = init_step(state, ok);
        state = s;
        action = a;
        actions.push(action);
    }
    assert_eq!(state, InitState::Done);
    actions
}

#[test]
fn imu_bring_up_at_first_address() {
    let actions = run_init(&[true; 8]);
    assert_eq!(
        actions,
        vec![
            InitAction::Probe(0x6B),
            InitAction::Write(0x6B, 0x60, 0xB0),
            InitAction::Wait(20),
            InitAction::Write(0x6B, 0x02, 0x60),
            InitAction::Write(0x6B, 0x03, 0x25),
            InitAction::Write(0x6B, 0x04, 0x45),
            InitAction::Write(0x6B, 0x08, 0x03),
            InitAction::Ready(0x6B),
        ]
    );
}

#[test]
fn imu_bring_up_falls_back_to_second_address() {
    let actions = run_init(&[false, true, true, true, true, true, true, true, true]);
    assert_eq!(actions[1], InitAction::Probe(0x6A));
    assert_eq!(actions[2], InitAction::Write(0x6A, 0x60, 0xB0));
    assert_eq!(*actions.last().unwrap(), InitAction::Ready(0x6A));
}

#[test]
fn imu_bring_up_failures() {
    assert_eq!(*run_init(&[false, false]).last().unwrap(), InitAction::Fail(InitFailure::NotFound));
    assert_eq!(
        *run_init(&[true, false]).last().unwrap(),
        InitAction::Fail(InitFailure::ResetFailed)
    );
    // The wait always succeeds; the second configuration write fails.
    assert_eq!(
        *run_init(&[true, true, false, true, false]).last().unwrap(),
        InitAction::Fail(InitFailure::ConfigFailed)
    );
}
