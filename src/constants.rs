//! Default settings of the contact sheet.
use vstd::prelude::*;

verus! {

/// Fast seek this long before the capture time in accurate mode, in milliseconds.
pub const DEFAULT_ACCURATE_DELAY_MILLIS: u64 = 1000;
/// Width of the sheet when none is asked for.
pub const DEFAULT_CONTACT_SHEET_WIDTH: u64 = 1500;
/// Spacing between columns when none is asked for.
pub const DEFAULT_GRID_HORIZONTAL_SPACING: u64 = 5;
/// The default grid, 4x4, which interval or manual sampling replaces.
pub const DEFAULT_GRID_COLUMNS: u64 = 4;
pub const DEFAULT_GRID_ROWS: u64 = 4;
/// A metadata margin other than this one sets both metadata margins.
pub const DEFAULT_METADATA_MARGIN: u64 = 10;
/// Number of temporal groups before the sample counts are reconciled.
pub const DEFAULT_NUM_GROUPS: u64 = 5;

} // verus!
