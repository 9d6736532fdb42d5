//! Geometry of the contact sheet: cell size, canvas size, frame placement
//! and timestamp badges. All sizes are in pixels.
use vstd::prelude::*;
use vstd::arithmetic::div_mod::lemma_fundamental_div_mod;
use crate::constants::{DEFAULT_CONTACT_SHEET_WIDTH, DEFAULT_GRID_HORIZONTAL_SPACING};
use crate::models::{Dimensions, Grid, MediaInfo, MetadataPosition, TimestampPosition};

verus! {

/// The display dimensions are both known and the width is positive.
pub open spec fn has_display_size(d: Dimensions) -> bool {
    &&& d.display_width is Some
    &&& d.display_height is Some
    &&& d.display_width->0 > 0
}

/// The height of a cell `width` wide that keeps the display aspect ratio, floored.
pub open spec fn scaled_height(d: Dimensions, width: nat) -> nat {
    (d.display_height->0 as nat * width) / (d.display_width->0 as nat)
}

/// The cell width of a grid: the total width less the spacing between
/// columns, shared evenly.
pub open spec fn cell_width(columns: nat, width: nat, margin: nat) -> nat
    recommends
        columns >= 1,
        (columns - 1) * margin <= width,
{
    ((width - (columns - 1) * margin) / columns as int) as nat
}

impl MediaInfo {
    /// A cell `width` pixels wide (1500 by default), with the height that
    /// keeps the display aspect ratio, floored.
    pub fn desired_size(dimensions: &Dimensions, width: Option<u64>) -> (r: Grid)
        requires
            has_display_size(*dimensions),
            scaled_height(*dimensions, width.unwrap_or(DEFAULT_CONTACT_SHEET_WIDTH) as nat)
                <= u64::MAX,
        ensures
            r.x == width.unwrap_or(DEFAULT_CONTACT_SHEET_WIDTH),
            r.y == scaled_height(*dimensions, r.x as nat),
    {
        let new_width = match width {
            Some(w) => w,
            None => DEFAULT_CONTACT_SHEET_WIDTH,
        };
        let dw = match dimensions.display_width {
            Some(w) => w,
            None => 1,
        };
        let dh = match dimensions.display_height {
            Some(h) => h,
            None => 0,
        };
        proof {
            assert(dh as int * new_width as int <= u32::MAX as int * u64::MAX as int) by (nonlinear_arith)
                requires dh <= u32::MAX, new_width <= u64::MAX;
        }
        let height = (dh as u128 * new_width as u128) / dw as u128;
        Grid { x: new_width, y: height as u64 }
    }
}

/// The size of one cell of `grid` on a sheet `width` wide (1500 by default)
/// with `horizontal_margin` between columns (5 by default).
pub fn grid_desired_size(
    grid: &Grid,
    dimensions: &Dimensions,
    width: Option<u64>,
    horizontal_margin: Option<u64>,
) -> (r: Grid)
    requires
        grid.x >= 1,
        (grid.x - 1) * horizontal_margin.unwrap_or(DEFAULT_GRID_HORIZONTAL_SPACING)
            <= width.unwrap_or(DEFAULT_CONTACT_SHEET_WIDTH),
        has_display_size(*dimensions),
        scaled_height(
            *dimensions,
            cell_width(
                grid.x as nat,
                width.unwrap_or(DEFAULT_CONTACT_SHEET_WIDTH) as nat,
                horizontal_margin.unwrap_or(DEFAULT_GRID_HORIZONTAL_SPACING) as nat,
            ),
        ) <= u64::MAX,
    ensures
        r.x == cell_width(
            grid.x as nat,
            width.unwrap_or(DEFAULT_CONTACT_SHEET_WIDTH) as nat,
            horizontal_margin.unwrap_or(DEFAULT_GRID_HORIZONTAL_SPACING) as nat,
        ),
        r.y == scaled_height(*dimensions, r.x as nat),
{
    let width = match width {
        Some(width) => width,
        None => DEFAULT_CONTACT_SHEET_WIDTH,
    };
    let horizontal_margin = match horizontal_margin {
        Some(m) => m,
        None => DEFAULT_GRID_HORIZONTAL_SPACING,
    };
    let desired_width = (width - (grid.x - 1) * horizontal_margin) / grid.x;
    MediaInfo::desired_size(dimensions, Some(desired_width))
}

/// The horizontal offset of a badge of `text_w` pixels within a cell.
pub open spec fn badge_x_offset(
    position: TimestampPosition,
    cell_w: nat,
    text_w: nat,
    margin: nat,
    padding: nat,
) -> int {
    match position {
        TimestampPosition::West | TimestampPosition::NW | TimestampPosition::SW => margin as int,
        TimestampPosition::North | TimestampPosition::Center | TimestampPosition::South => (cell_w
            / 2) - (text_w / 2) - padding,
        _ => cell_w - text_w - margin - 2 * padding,
    }
}

/// The vertical offset of a badge of `text_h` pixels within a cell.
pub open spec fn badge_y_offset(
    position: TimestampPosition,
    cell_h: nat,
    text_h: nat,
    margin: nat,
    padding: nat,
) -> int {
    match position {
        TimestampPosition::NW | TimestampPosition::North | TimestampPosition::NE => margin as int,
        TimestampPosition::West | TimestampPosition::Center | TimestampPosition::East => (cell_h
            / 2) - (text_h / 2) - padding,
        _ => cell_h - text_h - margin - 2 * padding,
    }
}

/// The horizontal offset of a badge does not fall left of the cell.
pub open spec fn badge_x_fits(position: TimestampPosition, cell_w: nat, text_w: nat, margin: nat, padding: nat) -> bool {
    match position {
        TimestampPosition::West | TimestampPosition::NW | TimestampPosition::SW => true,
        TimestampPosition::North | TimestampPosition::Center | TimestampPosition::South => text_w / 2 + padding
            <= cell_w / 2,
        _ => text_w + margin + 2 * padding <= cell_w,
    }
}

/// The vertical offset of a badge does not fall above the cell.
pub open spec fn badge_y_fits(position: TimestampPosition, cell_h: nat, text_h: nat, margin: nat, padding: nat) -> bool {
    match position {
        TimestampPosition::NW | TimestampPosition::North | TimestampPosition::NE => true,
        TimestampPosition::West | TimestampPosition::Center | TimestampPosition::East => text_h / 2 + padding
            <= cell_h / 2,
        _ => text_h + margin + 2 * padding <= cell_h,
    }
}

/// The upper left corner and the size of the timestamp badge of the cell
/// whose upper left corner is `(w, h)`. The badge is the text plus the
/// padding on each side, placed at one of nine positions, `margin` pixels
/// from the cell's edges.
pub fn compute_timestamp_position(
    position: TimestampPosition,
    horizontal_margin: u64,
    vertical_margin: u64,
    w: u64,
    h: u64,
    text_size: (u64, u64),
    desired_size: &Grid,
    rectangle_hpadding: u64,
    rectangle_vpadding: u64,
) -> (r: ((u64, u64), (u64, u64)))
    requires
        badge_x_fits(position, desired_size.x as nat, text_size.0 as nat, horizontal_margin as nat, rectangle_hpadding as nat),
        badge_y_fits(position, desired_size.y as nat, text_size.1 as nat, vertical_margin as nat, rectangle_vpadding as nat),
        text_size.0 + 2 * rectangle_hpadding <= u64::MAX,
        text_size.1 + 2 * rectangle_vpadding <= u64::MAX,
        w + desired_size.x + horizontal_margin <= u64::MAX,
        h + desired_size.y + vertical_margin <= u64::MAX,
    ensures
        r.0.0 == w + badge_x_offset(
            position,
            desired_size.x as nat,
            text_size.0 as nat,
            horizontal_margin as nat,
            rectangle_hpadding as nat,
        ),
        r.0.1 == h + badge_y_offset(
            position,
            desired_size.y as nat,
            text_size.1 as nat,
            vertical_margin as nat,
            rectangle_vpadding as nat,
        ),
        r.1.0 == text_size.0 + 2 * rectangle_hpadding,
        r.1.1 == text_size.1 + 2 * rectangle_vpadding,
{
    let x_offset = match position {
        TimestampPosition::West | TimestampPosition::NW | TimestampPosition::SW => horizontal_margin,
        TimestampPosition::North | TimestampPosition::Center | TimestampPosition::South => {
            (desired_size.x / 2) - (text_size.0 / 2) - rectangle_hpadding
        },
        _ => desired_size.x - text_size.0 - horizontal_margin - 2 * rectangle_hpadding,
    };
    let y_offset = match position {
        TimestampPosition::NW | TimestampPosition::North | TimestampPosition::NE => vertical_margin,
        TimestampPosition::West | TimestampPosition::Center | TimestampPosition::East => {
            (desired_size.y / 2) - (text_size.1 / 2) - rectangle_vpadding
        },
        _ => desired_size.y - text_size.1 - vertical_margin - 2 * rectangle_vpadding,
    };
    let upper_left = (w + x_offset, h + y_offset);
    let size = (text_size.0 + 2 * rectangle_hpadding, text_size.1 + 2 * rectangle_vpadding);
    (upper_left, size)
}

/// Where everything goes on a contact sheet.
#[derive(Debug)]
pub struct ContactSheetLayout {
    /// The size of one cell.
    pub cell: Grid,
    /// The width of the sheet.
    pub width: u64,
    /// The height of the sheet, header included.
    pub height: u64,
    /// The height of the metadata header (0 when hidden).
    pub header_height: u64,
    /// The upper left corner of each frame, in timestamp order.
    pub positions: Vec<(u64, u64)>,
    /// The top of the metadata header.
    pub metadata_y: u64,
}

/// `grid.x * (cell.x + spacing) + spacing`.
pub open spec fn sheet_width(grid: Grid, cell: Grid, h_spacing: nat) -> nat {
    (grid.x * (cell.x + h_spacing) + h_spacing) as nat
}

/// `grid.y * (cell.y + spacing) + spacing`.
pub open spec fn grid_height(grid: Grid, cell: Grid, v_spacing: nat) -> nat {
    (grid.y * (cell.y + v_spacing) + v_spacing) as nat
}

/// Two margins and the lines of text, or nothing when the header is hidden.
pub open spec fn header_height_spec(
    position: MetadataPosition,
    lines: nat,
    line_height: nat,
    margin: nat,
) -> nat {
    match position {
        MetadataPosition::Hidden => 0,
        _ => 2 * margin + lines * line_height,
    }
}

/// The top of the first row of frames.
pub open spec fn frames_top(position: MetadataPosition, header: nat, v_spacing: nat) -> nat {
    match position {
        MetadataPosition::Top => header + v_spacing,
        _ => v_spacing,
    }
}

/// Frames go left to right, then top to bottom.
pub open spec fn frame_x(i: nat, grid: Grid, cell: Grid, h_spacing: nat) -> nat {
    (h_spacing + (i % grid.x as nat) * (cell.x + h_spacing)) as nat
}

pub open spec fn frame_y(i: nat, grid: Grid, cell: Grid, v_spacing: nat, top: nat) -> nat {
    (top + (i / grid.x as nat) * (cell.y + v_spacing)) as nat
}

/// The header goes at the top, or one spacing below the row after the last frame.
pub open spec fn metadata_y_spec(
    position: MetadataPosition,
    n: nat,
    grid: Grid,
    cell: Grid,
    v_spacing: nat,
    top: nat,
) -> nat {
    match position {
        MetadataPosition::Bottom => frame_y(n, grid, cell, v_spacing, top) + v_spacing,
        _ => 0,
    }
}

/// Every pixel quantity fits the 32-bit coordinates of an image.
pub open spec fn fits_image(v: nat) -> bool {
    v <= u32::MAX
}

/// Lays out `num_frames` frames of size `cell` on `grid`, with the given
/// spacing and a metadata header of `lines` lines. Returns `None` when the
/// sheet would not fit 32-bit image coordinates.
pub fn contact_sheet_layout(
    grid: &Grid,
    cell: &Grid,
    h_spacing: u64,
    v_spacing: u64,
    position: MetadataPosition,
    lines: u64,
    line_height: u64,
    metadata_margin: u64,
    num_frames: u64,
) -> (r: Option<ContactSheetLayout>)
    requires
        grid.x >= 1,
        num_frames <= grid.x * grid.y,
        fits_image(grid.x as nat),
        fits_image(grid.y as nat),
        fits_image(cell.x as nat),
        fits_image(cell.y as nat),
        fits_image(h_spacing as nat),
        fits_image(v_spacing as nat),
        fits_image(lines as nat),
        fits_image(line_height as nat),
        fits_image(metadata_margin as nat),
    ensures
        ({
            let header = header_height_spec(position, lines as nat, line_height as nat, metadata_margin as nat);
            let width = sheet_width(*grid, *cell, h_spacing as nat);
            let height = grid_height(*grid, *cell, v_spacing as nat) + header;
            let top = frames_top(position, header, v_spacing as nat);
            &&& r is Some <==> (fits_image(width) && fits_image(height))
            &&& r is Some ==> {
                let l = r->0;
                &&& l.cell == *cell
                &&& l.width == width
                &&& l.height == height
                &&& l.header_height == header
                &&& l.positions@.len() == num_frames
                &&& forall|i: int| 0 <= i < num_frames ==> (#[trigger] l.positions@[i]).0 == frame_x(i as nat, *grid, *cell, h_spacing as nat)
                    && l.positions@[i].1 == frame_y(i as nat, *grid, *cell, v_spacing as nat, top)
                &&& l.metadata_y == metadata_y_spec(position, num_frames as nat, *grid, *cell, v_spacing as nat, top)
            }
        }),
{
    let gx = grid.x as u128;
    let gy = grid.y as u128;
    let cx = cell.x as u128;
    let cy = cell.y as u128;
    let hs = h_spacing as u128;
    let vs = v_spacing as u128;
    proof {
        assert(gx * (cx + hs) <= 0xffff_ffff * 0x1_ffff_fffe) by (nonlinear_arith)
            requires gx <= 0xffff_ffff, cx + hs <= 0x1_ffff_fffe;
        assert(gy * (cy + vs) <= 0xffff_ffff * 0x1_ffff_fffe) by (nonlinear_arith)
            requires gy <= 0xffff_ffff, cy + vs <= 0x1_ffff_fffe;
        assert(lines as int * line_height as int <= 0xffff_ffff * 0xffff_ffff) by (nonlinear_arith)
            requires lines <= 0xffff_ffff, line_height <= 0xffff_ffff;
    }
    let width = gx * (cx + hs) + hs;
    let header: u128 = match position {
        MetadataPosition::Hidden => 0,
        _ => 2 * metadata_margin as u128 + lines as u128 * line_height as u128,
    };
    let height = gy * (cy + vs) + vs + header;
    if width > u32::MAX as u128 || height > u32::MAX as u128 {
        return None;
    }
    let top: u128 = match position {
        MetadataPosition::Top => header + vs,
        _ => vs,
    };
    let mut positions: Vec<(u64, u64)> = Vec::new();
    let mut i: u64 = 0;
    while i < num_frames
        invariant
            i <= num_frames,
            num_frames <= grid.x * grid.y,
            gx == grid.x, gy == grid.y, cx == cell.x, cy == cell.y, hs == h_spacing, vs == v_spacing,
            gx >= 1,
            width == sheet_width(*grid, *cell, h_spacing as nat),
            height <= u32::MAX,
            height == grid_height(*grid, *cell, v_spacing as nat) + header,
            top <= header + vs,
            width <= u32::MAX,
            positions@.len() == i,
            forall|k: int| 0 <= k < i ==> (#[trigger] positions@[k]).0 == frame_x(k as nat, *grid, *cell, h_spacing as nat)
                && positions@[k].1 == frame_y(k as nat, *grid, *cell, v_spacing as nat, top as nat),
        decreases num_frames - i,
    {
        let col = i as u128 % gx;
        let row = i as u128 / gx;
        proof {
            assert(col * (cx + hs) <= gx * (cx + hs)) by (nonlinear_arith)
                requires col < gx;
            assert(row < gy) by (nonlinear_arith)
                requires row == i as int / gx as int, i < gx * gy, gx >= 1;
            assert(row * (cy + vs) <= gy * (cy + vs)) by (nonlinear_arith)
                requires row < gy;
        }
        let x = hs + col * (cx + hs);
        let y = top + row * (cy + vs);
        positions.push((x as u64, y as u64));
        i = i + 1;
    }
    let n = num_frames as u128;
    let metadata_y: u128 = match position {
        MetadataPosition::Bottom => {
            proof {
                assert(n / gx <= gy) by (nonlinear_arith)
                    requires n <= gx * gy, gx >= 1;
                assert((n / gx) * (cy + vs) <= gy * (cy + vs)) by (nonlinear_arith)
                    requires n / gx <= gy;
            }
            top + (n / gx) * (cy + vs) + vs
        },
        _ => 0,
    };
    Some(ContactSheetLayout {
        cell: *cell,
        width: width as u64,
        height: height as u64,
        header_height: header as u64,
        positions,
        metadata_y: metadata_y as u64,
    })
}

/// A rounded rectangle fits its corners: the corner diameter (twice the
/// radius, rounded up to a whole pixel) is at most its width and its height.
pub fn rounded_rect_fits(width: u32, height: u32, diameter: u32) -> (r: bool)
    ensures
        r == (diameter <= width && diameter <= height),
{
    diameter <= width && diameter <= height
}

/// The largest number of characters that fit a header line: the longest
/// prefix whose width is at most `width - 2 * header_margin` (0 when none
/// fits). `prefix_widths[i]` is the width in pixels of the first `i`
/// characters.
pub fn max_line_length(prefix_widths: &Vec<u64>, header_margin: u64, width: u64) -> (r: usize)
    requires
        prefix_widths@.len() >= 1,
        2 * header_margin <= width,
    ensures
        r < prefix_widths@.len(),
        prefix_widths@[r as int] <= width - 2 * header_margin || (r == 0 && forall|j: int|
            0 <= j < prefix_widths@.len() ==> prefix_widths@[j] > width - 2 * header_margin),
        forall|j: int| r < j < prefix_widths@.len() ==> prefix_widths@[j] > width - 2 * header_margin,
{
    let max_width = width - 2 * header_margin;
    let mut i: usize = prefix_widths.len();
    while i > 0
        invariant
            i <= prefix_widths@.len(),
            max_width == width - 2 * header_margin,
            forall|j: int| i <= j < prefix_widths@.len() ==> prefix_widths@[j] > max_width,
        decreases i,
    {
        if prefix_widths[i - 1] <= max_width {
            return i - 1;
        }
        i = i - 1;
    }
    0
}

/// Two different frames of a layout occupy cells that do not overlap: one
/// lies entirely to the left of, or entirely above, the other.
pub proof fn lemma_frames_disjoint(i: nat, j: nat, grid: Grid, cell: Grid, h_spacing: nat, v_spacing: nat, top: nat)
    requires
        grid.x >= 1,
        i != j,
    ensures
        frame_x(i, grid, cell, h_spacing) + cell.x <= frame_x(j, grid, cell, h_spacing)
            || frame_x(j, grid, cell, h_spacing) + cell.x <= frame_x(i, grid, cell, h_spacing)
            || frame_y(i, grid, cell, v_spacing, top) + cell.y <= frame_y(j, grid, cell, v_spacing, top)
            || frame_y(j, grid, cell, v_spacing, top) + cell.y <= frame_y(i, grid, cell, v_spacing, top),
{
    let gx = grid.x as int;
    let (ci, ri) = ((i as int) % gx, (i as int) / gx);
    let (cj, rj) = ((j as int) % gx, (j as int) / gx);
    lemma_fundamental_div_mod(i as int, gx);
    lemma_fundamental_div_mod(j as int, gx);
    let wx = cell.x + h_spacing;
    let wy = cell.y + v_spacing;
    if ri == rj {
        assert(ci != cj);
        if ci < cj {
            assert(ci * wx + wx <= cj * wx) by (nonlinear_arith)
                requires ci < cj, wx >= 0;
        } else {
            assert(cj * wx + wx <= ci * wx) by (nonlinear_arith)
                requires cj < ci, wx >= 0;
        }
    } else if ri < rj {
        assert(ri * wy + wy <= rj * wy) by (nonlinear_arith)
            requires ri < rj, wy >= 0;
    } else {
        assert(rj * wy + wy <= ri * wy) by (nonlinear_arith)
            requires rj < ri, wy >= 0;
    }
}

} // verus!
