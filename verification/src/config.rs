//! Panel and renderer dimensions.
use vstd::prelude::*;

verus! {

/// Horizontal resolution of the panel in pixels.
pub const LCD_H_RES: u16 = 466;
/// Vertical resolution of the panel in pixels.
pub const LCD_V_RES: u16 = 466;
/// Column offset of the visible area inside the controller's frame memory.
pub const LCD_COL_OFFSET: u16 = 6;
/// Number of pixel rows in one display band.
pub const BAND_ROWS: usize = 22;
/// Number of bands that cover the panel (the last one is shorter).
pub const BAND_COUNT: usize = 22;

/// Upper bound on the number of particles the solver keeps.
pub const PARTICLE_MAX: usize = 1000;
/// Number of particles the solver starts with.
pub const PARTICLE_COUNT: usize = 900;
/// Solver substeps per step.
pub const SUBSTEPS: i32 = 1;

/// Cells of the neighbour grid along x.
pub const GRID_CX: i32 = 16;
/// Cells of the neighbour grid along y.
pub const GRID_CY: i32 = 16;
/// Cells of the neighbour grid along z.
pub const GRID_CZ: i32 = 2;
/// Total number of neighbour grid cells.
pub const GRID_CELLS: usize = 512;
/// Capacity of the neighbour pair list.
pub const PAIR_MAX: usize = 24576;

/// Largest disc radius the renderer draws, in pixels.
pub const DISC_MAX_R: usize = 10;
/// Whether each particle gets a small highlight disc.
pub const HIGHLIGHT_ENABLE: bool = true;
/// Number of speed steps in the colour table.
pub const SPEED_LEVELS: usize = 64;
/// Number of depth steps in the colour table.
pub const DEPTH_LEVELS: usize = 16;
/// Whether the picture is rotated a quarter turn clockwise.
pub const SCREEN_ROTATE_90_CW: bool = true;

/// The panel height divided into bands, rounded up.
pub open spec fn band_count_spec() -> int {
    (LCD_V_RES as int + BAND_ROWS as int - 1) / BAND_ROWS as int
}

/// The derived sizes agree with the quantities they are derived from:
/// the band count is the panel height over the band height rounded up,
/// so the bands cover every row and the last one is not empty, and the
/// grid has `GRID_CX * GRID_CY * GRID_CZ` cells.
pub proof fn lemma_derived_sizes()
    ensures
        BAND_COUNT as int == band_count_spec(),
        ((BAND_COUNT as int - 1) * (BAND_ROWS as int)) < (LCD_V_RES as int),
        LCD_V_RES as int <= BAND_COUNT as int * BAND_ROWS as int,
        GRID_CELLS as int == GRID_CX as int * GRID_CY as int * GRID_CZ as int,
{
}

} // verus!
