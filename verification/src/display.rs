//! Command framing for the CO5300 panel controller over quad SPI: the
//! address phase of a command, the column and row window of a band
//! transfer, and the power-on command sequence.
use vstd::prelude::*;

use crate::config::{BAND_ROWS, LCD_COL_OFFSET, LCD_H_RES};

verus! {

/// Opcode of a single-line register write.
pub const OP_CMD: u16 = 0x02;
/// Opcode of a quad-line pixel write.
pub const OP_COLOR: u16 = 0x32;
/// Column address set.
pub const CMD_CASET: u8 = 0x2A;
/// Row address set.
pub const CMD_RASET: u8 = 0x2B;
/// Memory write (pixel data follows).
pub const CMD_RAMWR: u8 = 0x2C;
/// Bytes of one full band of RGB565 pixels.
pub const BAND_BYTES: usize = 20504;
/// Time the reset line is held low, in milliseconds.
pub const RESET_LOW_MS: u64 = 10;
/// Time to wait after releasing reset, in milliseconds.
pub const RESET_WAIT_MS: u64 = 150;

/// A band buffer holds `BAND_ROWS` rows of `LCD_H_RES` two-byte pixels.
pub proof fn lemma_band_bytes()
    ensures
        BAND_BYTES == LCD_H_RES as int * BAND_ROWS as int * 2,
{
}

/// The two bytes of a 16-bit value, high byte first.
pub open spec fn be16(v: int) -> Seq<u8> {
    seq![(v / 256) as u8, (v % 256) as u8]
}

/// The 24-bit address phase of a command: the command byte in the middle.
pub fn cmd_address(lcd_cmd: u8) -> (a: u32)
    ensures
        a == lcd_cmd as int * 256,
{
    let a: u32 = (lcd_cmd as u32) << 8u32;
    assert(a == lcd_cmd as u32 * 256) by (bit_vector)
        requires
            a == (lcd_cmd as u32) << 8u32,
    ;
    a
}

/// Number of parameter bytes sent with a command: as many as given, at
/// most the capacity of the command buffer.
pub fn payload_len(data_len: usize, capacity: usize) -> (n: usize)
    ensures
        n == if data_len < capacity {
            data_len
        } else {
            capacity
        },
{
    if data_len < capacity {
        data_len
    } else {
        capacity
    }
}

fn split16(v: u16) -> (b: (u8, u8))
    ensures
        seq![b.0, b.1] == be16(v as int),
{
    let hi: u8 = (v >> 8u16) as u8;
    let lo: u8 = (v & 0xFF) as u8;
    assert(hi == (v / 256) as u8 && lo == (v % 256) as u8) by (bit_vector)
        requires
            hi == (v >> 8u16) as u8,
            lo == (v & 0xFF) as u8,
    ;
    (hi, lo)
}

/// Parameters of the column and row address commands for the window
/// `x0..=x1`, `y0..=y1`: the columns shifted by `LCD_COL_OFFSET`, each
/// bound as two bytes, high byte first.
pub fn window_params(x0: u16, y0: u16, x1: u16, y1: u16) -> (p: (Vec<u8>, Vec<u8>))
    requires
        x0 + LCD_COL_OFFSET <= u16::MAX,
        x1 + LCD_COL_OFFSET <= u16::MAX,
    ensures
        p.0@ == be16(x0 + LCD_COL_OFFSET) + be16(x1 + LCD_COL_OFFSET),
        p.1@ == be16(y0 as int) + be16(y1 as int),
{
    let xs: u16 = x0 + LCD_COL_OFFSET;
    let xe: u16 = x1 + LCD_COL_OFFSET;
    let (xs_hi, xs_lo) = split16(xs);
    let (xe_hi, xe_lo) = split16(xe);
    let (ys_hi, ys_lo) = split16(y0);
    let (ye_hi, ye_lo) = split16(y1);
    let cols: Vec<u8> = vec![xs_hi, xs_lo, xe_hi, xe_lo];
    let rows: Vec<u8> = vec![ys_hi, ys_lo, ye_hi, ye_lo];
    assert(cols@ =~= be16(xs as int) + be16(xe as int));
    assert(rows@ =~= be16(y0 as int) + be16(y1 as int));
    (cols, rows)
}

/// What sending a band of `rows` rows starting at panel row `y0` takes: the
/// column and row window parameters (all columns, the band's rows) and the
/// number of pixel bytes.
pub struct FlushPlan {
    pub column_params: Vec<u8>,
    pub row_params: Vec<u8>,
    pub bytes: usize,
}

/// The transfer of a band: nothing for an empty band, else the full-width
/// window over rows `y0..y0 + rows` and two bytes per pixel.
pub fn flush_plan(y0: u16, rows: u16) -> (p: Option<FlushPlan>)
    requires
        rows == 0 || y0 + rows - 1 <= u16::MAX,
    ensures
        rows == 0 ==> p is None,
        rows != 0 ==> (p matches Some(plan) && {
            &&& plan.column_params@ == be16(LCD_COL_OFFSET as int) + be16(
                LCD_H_RES - 1 + LCD_COL_OFFSET,
            )
            &&& plan.row_params@ == be16(y0 as int) + be16(y0 + rows - 1)
            &&& plan.bytes == LCD_H_RES as int * rows as int * 2
        }),
{
    if rows == 0 {
        return None;
    }
    let (column_params, row_params) = window_params(0, y0, LCD_H_RES - 1, y0 + (rows - 1));
    let bytes: usize = LCD_H_RES as usize * rows as usize * 2;
    Some(FlushPlan { column_params, row_params, bytes })
}

/// One command of the power-on sequence: command byte, parameters, and
/// the pause after it in milliseconds.
pub struct InitCommand {
    pub cmd: u8,
    pub data: Vec<u8>,
    pub delay_ms: u64,
}

/// The command is `cmd` with parameters `data` followed by a pause of
/// `delay_ms` milliseconds.
pub open spec fn is_command(c: InitCommand, cmd: u8, data: Seq<u8>, delay_ms: u64) -> bool {
    c.cmd == cmd && c.data@ == data && c.delay_ms == delay_ms
}

fn one_byte(b: u8) -> (v: Vec<u8>)
    ensures
        v@ == seq![b],
{
    let v: Vec<u8> = vec![b];
    assert(v@ =~= seq![b]);
    v
}

fn command(cmd: u8, data: Vec<u8>, delay_ms: u64) -> (c: InitCommand)
    ensures
        is_command(c, cmd, data@, delay_ms),
{
    InitCommand { cmd, data, delay_ms }
}

/// The panel's power-on sequence after reset: memory access order
/// (0x36: 0x00), pixel format RGB565 (0x3A: 0x55), page select (0xFE), SPI
/// mode (0xC4: 0x80), tearing effect on (0x35), then with 10 ms pauses
/// brightness control on (0x53: 0x20), brightness (0x51: 0xFF), high
/// brightness mode (0x63: 0xFF), sleep out (0x11) with 60 ms, display on
/// (0x29).
pub fn init_commands() -> (cmds: Vec<InitCommand>)
    ensures
        cmds@.len() == 10,
        is_command(cmds@[0], 0x36, seq![0x00u8], 0),
        is_command(cmds@[1], 0x3A, seq![0x55u8], 0),
        is_command(cmds@[2], 0xFE, Seq::empty(), 0),
        is_command(cmds@[3], 0xC4, seq![0x80u8], 0),
        is_command(cmds@[4], 0x35, Seq::empty(), 10),
        is_command(cmds@[5], 0x53, seq![0x20u8], 10),
        is_command(cmds@[6], 0x51, seq![0xFFu8], 10),
        is_command(cmds@[7], 0x63, seq![0xFFu8], 10),
        is_command(cmds@[8], 0x11, Seq::empty(), 60),
        is_command(cmds@[9], 0x29, Seq::empty(), 0),
{
    let mut cmds: Vec<InitCommand> = Vec::new();
    cmds.push(command(0x36, one_byte(0x00u8), 0));
    cmds.push(command(0x3A, one_byte(0x55u8), 0));
    cmds.push(command(0xFE, Vec::new(), 0));
    cmds.push(command(0xC4, one_byte(0x80u8), 0));
    cmds.push(command(0x35, Vec::new(), 10));
    cmds.push(command(0x53, one_byte(0x20u8), 10));
    cmds.push(command(0x51, one_byte(0xFFu8), 10));
    cmds.push(command(0x63, one_byte(0xFFu8), 10));
    cmds.push(command(0x11, Vec::new(), 60));
    cmds.push(command(0x29, Vec::new(), 0));
    cmds
}

} // verus!
