//! Reconciles the requested grid, sampling mode and sample counts into the
//! parameters of one contact sheet, before any frame is captured.
use vstd::prelude::*;
use crate::constants::{
    DEFAULT_CONTACT_SHEET_WIDTH, DEFAULT_GRID_COLUMNS, DEFAULT_GRID_ROWS, DEFAULT_METADATA_MARGIN,
    DEFAULT_NUM_GROUPS,
};
use crate::error::VcsrError;
use crate::models::{Grid, MediaInfo};
use crate::timestamps::pretty_to_millis_spec;

verus! {

/// What was asked for one contact sheet. Delays are in hundredths of a
/// percent of the clip, the interval in whole seconds, sizes in pixels.
#[derive(Debug)]
pub struct SheetRequest {
    pub grid: Grid,
    pub interval_seconds: Option<u64>,
    pub manual_timestamps: Vec<String>,
    pub num_samples: Option<u64>,
    pub delay_percent: Option<u64>,
    pub start_delay_percent: u64,
    pub end_delay_percent: u64,
    pub vcs_width: u64,
    pub actual_size: bool,
    pub grid_spacing: Option<u64>,
    pub grid_horizontal_spacing: u64,
    pub grid_vertical_spacing: u64,
    pub metadata_margin: u64,
    pub metadata_horizontal_margin: u64,
    pub metadata_vertical_margin: u64,
}

/// The parameters of one contact sheet, once reconciled.
#[derive(Debug)]
pub struct SheetParameters {
    pub grid: Grid,
    /// Frames to capture.
    pub num_samples: u64,
    /// Frames on the sheet: `grid.x * grid.y`.
    pub num_selected: u64,
    /// Temporal groups of the selection.
    pub num_groups: u64,
    pub start_delay_percent: u64,
    pub end_delay_percent: u64,
    pub interval_millis: Option<u64>,
    /// The manual capture times inside the clip, in milliseconds, in the order given.
    pub manual_millis: Vec<u64>,
    pub vcs_width: u64,
    pub grid_horizontal_spacing: u64,
    pub grid_vertical_spacing: u64,
    pub metadata_horizontal_margin: u64,
    pub metadata_vertical_margin: u64,
}

/// `s` is the ceiling of the square root of `n`.
pub open spec fn is_ceil_sqrt(s: nat, n: nat) -> bool {
    s * s >= n && (s == 0 || (s - 1) * (s - 1) < n)
}

/// The manual times, in milliseconds, that lie before the end of the clip.
pub open spec fn manual_kept(ts: Seq<String>, duration: nat) -> Seq<u64>
    decreases ts.len(),
{
    if ts.len() == 0 {
        Seq::<u64>::empty()
    } else {
        let rest = manual_kept(ts.drop_last(), duration);
        match pretty_to_millis_spec(ts.last()@) {
            Ok(ms) => if ms < duration { rest.push(ms) } else { rest },
            Err(_) => rest,
        }
    }
}

pub open spec fn manual_all_parse(ts: Seq<String>) -> bool {
    forall|i: int| 0 <= i < ts.len() ==> pretty_to_millis_spec(#[trigger] ts[i]@) is Ok
}

pub open spec fn start_delay_of(r: SheetRequest) -> nat {
    match r.delay_percent { Some(d) => d as nat, None => r.start_delay_percent as nat }
}

pub open spec fn end_delay_of(r: SheetRequest) -> nat {
    match r.delay_percent { Some(d) => d as nat, None => r.end_delay_percent as nat }
}

/// The sample count that interval or manual sampling implies.
pub open spec fn implied_samples(r: SheetRequest, duration: nat) -> nat {
    match r.interval_seconds {
        Some(i) => {
            let delay = crate::timestamps::total_delay_spec(duration, start_delay_of(r), end_delay_of(r));
            ((duration - delay) / (i * 1000) as int) as nat
        },
        None => manual_kept(r.manual_timestamps@, duration).len(),
    }
}

pub open spec fn samples_driven(r: SheetRequest) -> bool {
    r.interval_seconds is Some || r.manual_timestamps@.len() > 0
}

/// With interval or manual sampling, the grid is deduced from the sample
/// count: a square (for the default grid, or when both dimensions are zero),
/// or the missing dimension.
pub open spec fn deduced_grid_ok(r: SheetRequest, n: nat, g: Grid) -> bool {
    if !samples_driven(r) {
        g == r.grid
    } else if (r.grid.x == DEFAULT_GRID_COLUMNS && r.grid.y == DEFAULT_GRID_ROWS) || (r.grid.x == 0 && r.grid.y == 0) {
        g.x == g.y && is_ceil_sqrt(g.x as nat, n)
    } else if r.grid.x == 0 {
        g.x == n / (r.grid.y as nat) && g.y == r.grid.y
    } else if r.grid.y == 0 {
        g.x == r.grid.x && g.y == n / (r.grid.x as nat)
    } else {
        g == r.grid
    }
}

pub open spec fn spacing_of(r: SheetRequest) -> nat {
    match r.grid_spacing { Some(s) => s as nat, None => r.grid_horizontal_spacing as nat }
}

/// A deduced grid that cannot be laid out: a zero dimension, or a cell count
/// or actual-size width beyond `u64`.
pub open spec fn grid_unusable(r: SheetRequest, g: Grid, display_width: nat) -> bool {
    g.x == 0 || g.y == 0 || g.x * g.y > u64::MAX
        || (r.actual_size && (g.x * display_width + (g.x - 1) * spacing_of(r) > u64::MAX))
}

/// Requests refused before the grid is deduced.
pub open spec fn request_refused(r: SheetRequest, duration: nat) -> Option<VcsrError> {
    if r.interval_seconds is Some && r.manual_timestamps@.len() > 0 {
        Some(VcsrError::ArgumentError)
    } else if r.vcs_width != DEFAULT_CONTACT_SHEET_WIDTH && r.actual_size {
        Some(VcsrError::ArgumentError)
    } else if start_delay_of(r) + end_delay_of(r) > 10_000 {
        Some(VcsrError::ArgumentError)
    } else if !samples_driven(r) && (r.grid.x == 0 || r.grid.y == 0) {
        Some(VcsrError::ArgumentError)
    } else if r.interval_seconds matches Some(i) && (i == 0 || i * 1000 > u64::MAX) {
        Some(VcsrError::ArgumentError)
    } else if r.manual_timestamps@.len() > 0 && !manual_all_parse(r.manual_timestamps@) {
        Some(VcsrError::FloatError)
    } else if r.manual_timestamps@.len() > 0 && manual_kept(r.manual_timestamps@, duration).len() == 0 {
        Some(VcsrError::TimestampError)
    } else {
        None
    }
}

fn ceil_sqrt(n: u64) -> (s: u64)
    ensures
        is_ceil_sqrt(s as nat, n as nat),
{
    let mut s: u64 = 0;
    let mut sq: u128 = 0;
    while sq < n as u128
        invariant
            s <= 0x1_0000_0000,
            sq == s * s,
            s == 0 || (s - 1) * (s - 1) < n,
        decreases 0x1_0000_0000 - s,
    {
        proof {
            assert(s < 0x1_0000_0000) by (nonlinear_arith)
                requires s * s < n, n <= 0xffff_ffff_ffff_ffff, s <= 0x1_0000_0000;
            assert((s + 1) * (s + 1) <= 0x1_0000_0000 * 0x1_0000_0000) by (nonlinear_arith)
                requires s < 0x1_0000_0000;
        }
        s = s + 1;
        sq = (s as u128) * (s as u128);
    }
    s
}

fn kept_manual(ts: &Vec<String>, duration: u64) -> (r: Result<Vec<u64>, VcsrError>)
    ensures
        r is Ok <==> manual_all_parse(ts@),
        r matches Ok(v) ==> v@ == manual_kept(ts@, duration as nat),
        r matches Err(e) ==> e == VcsrError::FloatError,
{
    let mut out: Vec<u64> = Vec::new();
    let mut i: usize = 0;
    while i < ts.len()
        invariant
            i <= ts@.len(),
            manual_all_parse(ts@.take(i as int)),
            out@ == manual_kept(ts@.take(i as int), duration as nat),
        decreases ts@.len() - i,
    {
        assert(ts@.take(i + 1).drop_last() =~= ts@.take(i as int));
        match MediaInfo::pretty_to_seconds(ts[i].as_str()) {
            Ok(ms) => {
                if ms < duration {
                    out.push(ms);
                }
            },
            Err(_) => {
                assert(!manual_all_parse(ts@)) by {
                    assert(pretty_to_millis_spec(ts@[i as int]@) is Err);
                }
                return Err(VcsrError::FloatError);
            },
        }
        assert(manual_all_parse(ts@.take(i + 1))) by {
            assert forall|k: int| 0 <= k < i + 1 implies pretty_to_millis_spec(#[trigger] ts@.take(i + 1)[k]@) is Ok by {
                if k < i {
                    assert(ts@.take(i + 1)[k] == ts@.take(i as int)[k]);
                }
            }
        }
        i = i + 1;
    }
    assert(ts@.take(i as int) =~= ts@);
    Ok(out)
}

/// Reconciles a request for a clip `duration_millis` long whose frames are
/// `display_width` pixels wide.
///
/// The requested `delay_percent` sets both delays, and a `grid_spacing`
/// both spacings; a metadata margin other than the default sets both
/// metadata margins. Interval sampling implies the samples that fit the
/// clip without its delays, manual sampling the manual times inside the
/// clip; both then deduce the grid (see `deduced_grid_ok`) and ask for one
/// group per sample. Otherwise at least as many samples as cells are taken,
/// and at least 5 groups, or one per cell, are asked for. The sheet then
/// shows as many frames as it has cells, but no more than were sampled, and
/// the groups are capped at that count, so that
/// `num_samples >= num_selected >= num_groups`. An actual-size sheet is as
/// wide as the frames side by side with their spacing.
pub fn derive_parameters(req: &SheetRequest, duration_millis: u64, display_width: u32) -> (r: Result<SheetParameters, VcsrError>)
    ensures
        request_refused(*req, duration_millis as nat) matches Some(e) ==> r == Err::<SheetParameters, VcsrError>(e),
        r is Ok ==> request_refused(*req, duration_millis as nat) is None,
        r is Err && request_refused(*req, duration_millis as nat) is None ==> r == Err::<SheetParameters, VcsrError>(VcsrError::ArgumentError)
            && exists|g: Grid| #[trigger] deduced_grid_ok(*req, implied_samples(*req, duration_millis as nat), g) && grid_unusable(*req, g, display_width as nat),
        r matches Ok(p) ==> ({
            let n = implied_samples(*req, duration_millis as nat);
            let cells = p.grid.x * p.grid.y;
            &&& deduced_grid_ok(*req, n, p.grid)
            &&& p.grid.x >= 1 && p.grid.y >= 1
            &&& p.num_samples >= p.num_selected >= p.num_groups
            &&& p.num_selected <= cells
            &&& p.start_delay_percent == start_delay_of(*req)
            &&& p.end_delay_percent == end_delay_of(*req)
            &&& p.interval_millis == match req.interval_seconds { Some(i) => Some((i * 1000) as u64), None => None }
            &&& p.manual_millis@ == if req.manual_timestamps@.len() > 0 { manual_kept(req.manual_timestamps@, duration_millis as nat) } else { Seq::<u64>::empty() }
            &&& p.num_samples == if samples_driven(*req) {
                n as int
            } else {
                match req.num_samples { Some(s) => if s > cells { s as int } else { cells }, None => cells }
            }
            &&& p.num_selected == if cells < p.num_samples { cells } else { p.num_samples as int }
            &&& p.num_groups == {
                let wanted = if samples_driven(*req) { n as int } else if cells > DEFAULT_NUM_GROUPS { cells } else { DEFAULT_NUM_GROUPS as int };
                if wanted < p.num_selected { wanted } else { p.num_selected as int }
            }
            &&& p.grid_horizontal_spacing == match req.grid_spacing { Some(s) => s, None => req.grid_horizontal_spacing }
            &&& p.grid_vertical_spacing == match req.grid_spacing { Some(s) => s, None => req.grid_vertical_spacing }
            &&& p.metadata_horizontal_margin == if req.metadata_margin != DEFAULT_METADATA_MARGIN { req.metadata_margin } else { req.metadata_horizontal_margin }
            &&& p.metadata_vertical_margin == if req.metadata_margin != DEFAULT_METADATA_MARGIN { req.metadata_margin } else { req.metadata_vertical_margin }
            &&& p.vcs_width == if req.actual_size {
                p.grid.x * display_width + (p.grid.x - 1) * p.grid_horizontal_spacing
            } else {
                req.vcs_width as int
            }
        }),
{
    if req.interval_seconds.is_some() && req.manual_timestamps.len() > 0 {
        return Err(VcsrError::ArgumentError);
    }
    if req.vcs_width != DEFAULT_CONTACT_SHEET_WIDTH && req.actual_size {
        return Err(VcsrError::ArgumentError);
    }
    let (start_delay, end_delay) = match req.delay_percent {
        Some(d) => (d, d),
        None => (req.start_delay_percent, req.end_delay_percent),
    };
    if start_delay as u128 + end_delay as u128 > 10_000 {
        return Err(VcsrError::ArgumentError);
    }
    let driven = req.interval_seconds.is_some() || req.manual_timestamps.len() > 0;
    if !driven && (req.grid.x == 0 || req.grid.y == 0) {
        return Err(VcsrError::ArgumentError);
    }
    let interval_millis: Option<u64> = match req.interval_seconds {
        Some(i) => {
            if i == 0 || i > u64::MAX / 1000 {
                return Err(VcsrError::ArgumentError);
            }
            Some(i * 1000)
        },
        None => None,
    };
    let manual_millis: Vec<u64> = if req.manual_timestamps.len() > 0 {
        let kept = kept_manual(&req.manual_timestamps, duration_millis)?;
        if kept.len() == 0 {
            return Err(VcsrError::TimestampError);
        }
        kept
    } else {
        Vec::new()
    };
    assert(request_refused(*req, duration_millis as nat) is None);
    // samples implied by interval or manual sampling
    let implied: u64 = match interval_millis {
        Some(iv) => {
            let delay = crate::timestamps::total_delay_seconds(duration_millis, start_delay, end_delay);
            proof {
                assert(delay <= duration_millis) by {
                    lemma_delays_fit(duration_millis as nat, start_delay as nat, end_delay as nat);
                }
            }
            ((duration_millis as u128 - delay) / iv as u128) as u64
        },
        None => manual_millis.len() as u64,
    };
    let grid = if !driven {
        req.grid
    } else if (req.grid.x == DEFAULT_GRID_COLUMNS && req.grid.y == DEFAULT_GRID_ROWS) || (req.grid.x == 0 && req.grid.y == 0) {
        let side = ceil_sqrt(implied);
        Grid { x: side, y: side }
    } else if req.grid.x == 0 {
        Grid { x: implied / req.grid.y, y: req.grid.y }
    } else if req.grid.y == 0 {
        Grid { x: req.grid.x, y: implied / req.grid.x }
    } else {
        req.grid
    };
    proof {
        assert(grid.x as int * grid.y as int <= 0xffff_ffff_ffff_ffff * 0xffff_ffff_ffff_ffff) by (nonlinear_arith)
            requires grid.x <= 0xffff_ffff_ffff_ffff, grid.y <= 0xffff_ffff_ffff_ffff;
    }
    assert(deduced_grid_ok(*req, implied_samples(*req, duration_millis as nat), grid));
    if grid.x == 0 || grid.y == 0 || grid.x as u128 * grid.y as u128 > u64::MAX as u128 {
        assert(grid_unusable(*req, grid, display_width as nat));
        return Err(VcsrError::ArgumentError);
    }
    let cells = grid.x * grid.y;
    let num_samples: u64 = if driven {
        implied
    } else {
        match req.num_samples {
            Some(s) => if s > cells { s } else { cells },
            None => cells,
        }
    };
    let wanted_groups: u64 = if driven {
        implied
    } else if cells > DEFAULT_NUM_GROUPS {
        cells
    } else {
        DEFAULT_NUM_GROUPS
    };
    // never more frames on the sheet than captured, nor more groups than frames on it
    let num_selected: u64 = if cells < num_samples { cells } else { num_samples };
    let num_groups: u64 = if wanted_groups < num_selected { wanted_groups } else { num_selected };
    let (h_spacing, v_spacing) = match req.grid_spacing {
        Some(s) => (s, s),
        None => (req.grid_horizontal_spacing, req.grid_vertical_spacing),
    };
    let (mh, mv) = if req.metadata_margin != DEFAULT_METADATA_MARGIN {
        (req.metadata_margin, req.metadata_margin)
    } else {
        (req.metadata_horizontal_margin, req.metadata_vertical_margin)
    };
    let vcs_width = if req.actual_size {
        proof {
            assert(grid.x as int * display_width as int <= 0xffff_ffff_ffff_ffff * 0xffff_ffff) by (nonlinear_arith)
                requires grid.x <= 0xffff_ffff_ffff_ffff, display_width <= 0xffff_ffff;
            assert((grid.x - 1) as int * h_spacing as int <= 0xffff_ffff_ffff_ffff * 0xffff_ffff_ffff_ffff) by (nonlinear_arith)
                requires grid.x <= 0xffff_ffff_ffff_ffff, h_spacing <= 0xffff_ffff_ffff_ffff, grid.x >= 1;
        }
        let spacing = (grid.x - 1) as u128 * h_spacing as u128;
        if spacing > u64::MAX as u128 {
            assert(grid_unusable(*req, grid, display_width as nat)) by (nonlinear_arith)
                requires
                    spacing > u64::MAX,
                    spacing == (grid.x - 1) * h_spacing,
                    h_spacing == spacing_of(*req),
                    req.actual_size,
                    display_width >= 0,
                    grid.x >= 1;
            return Err(VcsrError::ArgumentError);
        }
        let w = grid.x as u128 * display_width as u128 + spacing;
        if w > u64::MAX as u128 {
            assert(grid_unusable(*req, grid, display_width as nat));
            return Err(VcsrError::ArgumentError);
        }
        w as u64
    } else {
        req.vcs_width
    };
    Ok(SheetParameters {
        grid,
        num_samples,
        num_selected,
        num_groups,
        start_delay_percent: start_delay,
        end_delay_percent: end_delay,
        interval_millis,
        manual_millis,
        vcs_width,
        grid_horizontal_spacing: h_spacing,
        grid_vertical_spacing: v_spacing,
        metadata_horizontal_margin: mh,
        metadata_vertical_margin: mv,
    })
}

/// Delays of at most 100% together take no more than the clip.
pub proof fn lemma_delays_fit(duration: nat, start: nat, end: nat)
    requires
        start + end <= 10_000,
    ensures
        crate::timestamps::total_delay_spec(duration, start, end) <= duration,
{
    let a = duration * start;
    let b = duration * end;
    assert((a / 10_000_000) * 1000 * 10_000 <= a) by (nonlinear_arith)
        requires a >= 0;
    assert((b / 10_000_000) * 1000 * 10_000 <= b) by (nonlinear_arith)
        requires b >= 0;
    assert(a + b <= duration * 10_000) by (nonlinear_arith)
        requires a == duration * start, b == duration * end, start + end <= 10_000;
    assert(crate::timestamps::delay_spec(duration, start) == (a / 10_000_000) * 1000);
    assert(crate::timestamps::delay_spec(duration, end) == (b / 10_000_000) * 1000);
}

/// The capture times of a sheet, in milliseconds: the manual times when
/// there are any, else the generated ones. `None` when a generated time
/// would not fit in `u64`.
pub fn sample_times(p: &SheetParameters, duration_millis: u64) -> (r: Option<Vec<u64>>)
    ensures
        p.manual_millis@.len() > 0 ==> r is Some && r->0@ == p.manual_millis@,
        p.manual_millis@.len() == 0 ==> (r is Some <==> crate::timestamps::timestamps_fit(
            duration_millis as nat,
            p.start_delay_percent as nat,
            p.end_delay_percent as nat,
            p.interval_millis,
            p.num_samples as nat,
        )),
        p.manual_millis@.len() == 0 && r is Some ==> ({
            let v = r->0;
            &&& v@.len() == p.num_samples
            &&& forall|i: int| 0 <= i < p.num_samples ==> #[trigger] v@[i] == crate::timestamps::timestamp_spec(
                duration_millis as nat,
                p.start_delay_percent as nat,
                p.end_delay_percent as nat,
                p.interval_millis,
                p.num_samples as nat,
                i as nat,
            )
        }),
{
    if p.manual_millis.len() > 0 {
        return Some(p.manual_millis.clone());
    }
    crate::timestamps::timestamp_millis(
        duration_millis,
        p.start_delay_percent,
        p.end_delay_percent,
        p.interval_millis,
        p.num_samples,
    )
}

} // verus!
