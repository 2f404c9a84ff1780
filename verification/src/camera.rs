use vstd::prelude::*;

verus! {

/// One channel sample of a raw interleaved color image: three bytes per
/// pixel, rows in reading order. `c` picks the channel (0, 1 or 2).
pub open spec fn sample(data: Seq<u8>, width: int, x: int, y: int, c: int) -> int {
    data[3 * (y * width + x) + c] as int
}

/// Sum of channel `c` over the `w` pixels of row `y` starting at column `x`.
pub open spec fn row_sum(data: Seq<u8>, width: int, x: int, y: int, w: int, c: int) -> int
    decreases w,
{
    if w <= 0 {
        0
    } else {
        row_sum(data, width, x, y, w - 1, c) + sample(data, width, x + w - 1, y, c)
    }
}

/// Sum of channel `c` over the `w` by `h` pixel region at `(x, y)`.
pub open spec fn region_sum(data: Seq<u8>, width: int, x: int, y: int, w: int, h: int, c: int) -> int
    decreases h,
{
    if h <= 0 {
        0
    } else {
        region_sum(data, width, x, y, w, h - 1, c) + row_sum(data, width, x, y + h - 1, w, c)
    }
}

/// Integer mean of channel `c` over the `w` by `h` region at `(x, y)`.
pub open spec fn region_mean(data: Seq<u8>, width: int, x: int, y: int, w: int, h: int, c: int) -> int {
    region_sum(data, width, x, y, w, h, c) / (w * h)
}

/// The lamp in the region reads as lit: the mean of every channel strictly
/// exceeds its threshold. A mean exactly equal to a threshold reads as off.
pub open spec fn region_on(
    data: Seq<u8>,
    width: int,
    pos: (u32, u32, u32, u32),
    thresh: (u64, u64, u64),
) -> bool {
    &&& region_mean(data, width, pos.0 as int, pos.1 as int, pos.2 as int, pos.3 as int, 0)
        > thresh.0
    &&& region_mean(data, width, pos.0 as int, pos.1 as int, pos.2 as int, pos.3 as int, 1)
        > thresh.1
    &&& region_mean(data, width, pos.0 as int, pos.1 as int, pos.2 as int, pos.3 as int, 2)
        > thresh.2
}

/// Every channel sum over a row is between 0 and 255 per pixel.
proof fn lemma_row_sum_bounds(data: Seq<u8>, width: int, x: int, y: int, w: int, c: int)
    requires
        w >= 0,
    ensures
        0 <= row_sum(data, width, x, y, w, c),
        row_sum(data, width, x, y, w, c) <= 255 * w,
    decreases w,
{
    if w > 0 {
        lemma_row_sum_bounds(data, width, x, y, w - 1, c);
    }
}

/// Every channel sum over a region is between 0 and 255 per pixel.
proof fn lemma_region_sum_bounds(data: Seq<u8>, width: int, x: int, y: int, w: int, h: int, c: int)
    requires
        w >= 0,
        h >= 0,
    ensures
        0 <= region_sum(data, width, x, y, w, h, c),
        region_sum(data, width, x, y, w, h, c) <= 255 * (w * h),
    decreases h,
{
    if h > 0 {
        lemma_region_sum_bounds(data, width, x, y, w, h - 1, c);
        lemma_row_sum_bounds(data, width, x, y + h - 1, w, c);
        assert(255 * (w * (h - 1)) + 255 * w == 255 * (w * h)) by (nonlinear_arith);
    }
}

/// Calibration for one monitored panel: the expected frame size, the two
/// lamp regions as (x, y, width, height) in pixel coordinates, and the
/// per-channel strict lower thresholds for each lamp. Fixed at startup.
pub struct PanelConfig {
    pub width: u32,
    pub height: u32,
    pub yellow_pos: (u32, u32, u32, u32),
    pub green_pos: (u32, u32, u32, u32),
    pub yellow_threshold: (u64, u64, u64),
    pub green_threshold: (u64, u64, u64),
}

impl PanelConfig {
    /// A usable lamp region has pixels and lies inside the frame.
    pub open spec fn region_wf(&self, pos: (u32, u32, u32, u32)) -> bool {
        &&& pos.2 > 0
        &&& pos.3 > 0
        &&& pos.0 + pos.2 <= self.width
        &&& pos.1 + pos.3 <= self.height
    }

    /// Well-formed calibration: both lamp regions are non-empty and in
    /// bounds, and a full frame's byte count fits the machine.
    pub open spec fn wf(&self) -> bool {
        &&& self.region_wf(self.yellow_pos)
        &&& self.region_wf(self.green_pos)
        &&& 3 * self.width * self.height <= usize::MAX
    }

    /// Startup validation. A zero-area or out-of-bounds region is a
    /// configuration error, to be rejected before any analysis runs.
    pub fn check(&self) -> (r: bool)
        ensures
            r == self.wf(),
    {
        proof {
            assert(3 * (self.width as int) * (self.height as int) < u128::MAX)
                by (nonlinear_arith)
                requires
                    self.width as int <= u32::MAX,
                    self.height as int <= u32::MAX;
        }
        let frame_bytes: u128 = 3 * (self.width as u128) * (self.height as u128);
        self.check_region(self.yellow_pos) && self.check_region(self.green_pos) && frame_bytes
            <= usize::MAX as u128
    }

    fn check_region(&self, pos: (u32, u32, u32, u32)) -> (r: bool)
        ensures
            r == self.region_wf(pos),
    {
        pos.2 > 0 && pos.3 > 0 && (pos.0 as u64) + (pos.2 as u64) <= self.width as u64 && (
        pos.1 as u64) + (pos.3 as u64) <= self.height as u64
    }
}

/// Whether a raw capture decodes as a full frame for this calibration: it
/// must hold at least the frame's `3 * width * height` bytes.
pub open spec fn frame_ok(cfg: PanelConfig, raw: Seq<u8>) -> bool {
    3 * cfg.width * cfg.height <= raw.len()
}

/// Relies on image::RgbImage::from_raw and ImageBuffer::into_raw:
/// from_raw accepts the buffer exactly when the frame's byte count
/// 3 * width * height fits in usize and the buffer is at least that long,
/// and into_raw returns the accepted buffer unchanged.
#[verifier::external_body]
fn decode_rgb(width: u32, height: u32, raw: Vec<u8>) -> (r: Option<Vec<u8>>)
    ensures
        r is Some <==> (3 * width * height <= usize::MAX && 3 * width * height <= raw@.len()),
        r matches Some(data) ==> data@ == raw@,
{
    match image::RgbImage::from_raw(width, height, raw) {
        Some(img) => Some(img.into_raw()),
        None => None,
    }
}

/// Mean color of the `w` by `h` region of `data` at `(x, y)`: the
/// arithmetic integer mean of each channel across all pixels of the
/// region. The region must be non-empty and lie inside the decoded rows.
pub fn view_avg(data: &Vec<u8>, width: u32, x: u32, y: u32, w: u32, h: u32) -> (r: (u64, u64, u64))
    requires
        w > 0,
        h > 0,
        x + w <= width,
        3 * width * (y + h) <= data@.len(),
    ensures
        r.0 == region_mean(data@, width as int, x as int, y as int, w as int, h as int, 0),
        r.1 == region_mean(data@, width as int, x as int, y as int, w as int, h as int, 1),
        r.2 == region_mean(data@, width as int, x as int, y as int, w as int, h as int, 2),
{
    // Binding the length as a usize bounds data@.len() for the loops.
    let len: usize = data.len();
    let mut s0: u128 = 0;
    let mut s1: u128 = 0;
    let mut s2: u128 = 0;
    let mut j: u32 = 0;
    while j < h
        invariant
            j <= h,
            w > 0,
            h > 0,
            x + w <= width,
            3 * width * (y + h) <= data@.len(),
            data@.len() <= usize::MAX,
            s0 == region_sum(data@, width as int, x as int, y as int, w as int, j as int, 0),
            s1 == region_sum(data@, width as int, x as int, y as int, w as int, j as int, 1),
            s2 == region_sum(data@, width as int, x as int, y as int, w as int, j as int, 2),
        decreases h - j,
    {
        let mut i: u32 = 0;
        while i < w
            invariant
                i <= w,
                j < h,
                w > 0,
                h > 0,
                x + w <= width,
                3 * width * (y + h) <= data@.len(),
                data@.len() <= usize::MAX,
                s0 == region_sum(data@, width as int, x as int, y as int, w as int, j as int, 0)
                    + row_sum(data@, width as int, x as int, y as int + j as int, i as int, 0),
                s1 == region_sum(data@, width as int, x as int, y as int, w as int, j as int, 1)
                    + row_sum(data@, width as int, x as int, y as int + j as int, i as int, 1),
                s2 == region_sum(data@, width as int, x as int, y as int, w as int, j as int, 2)
                    + row_sum(data@, width as int, x as int, y as int + j as int, i as int, 2),
            decreases w - i,
        {
            proof {
                assert(3 * ((y as int + j as int) * width as int + (x as int + i as int)) + 2 < 3
                    * width as int * (y as int + h as int)) by (nonlinear_arith)
                    requires
                        0 <= x as int,
                        0 <= y as int,
                        0 <= i as int,
                        0 <= j as int,
                        (j as int) < h as int,
                        (i as int) < w as int,
                        0 < w as int,
                        x as int + w as int <= width as int;
                lemma_region_sum_bounds(
                    data@,
                    width as int,
                    x as int,
                    y as int,
                    w as int,
                    j as int,
                    0,
                );
                lemma_region_sum_bounds(
                    data@,
                    width as int,
                    x as int,
                    y as int,
                    w as int,
                    j as int,
                    1,
                );
                lemma_region_sum_bounds(
                    data@,
                    width as int,
                    x as int,
                    y as int,
                    w as int,
                    j as int,
                    2,
                );
                lemma_row_sum_bounds(
                    data@,
                    width as int,
                    x as int,
                    y as int + j as int,
                    i as int,
                    0,
                );
                lemma_row_sum_bounds(
                    data@,
                    width as int,
                    x as int,
                    y as int + j as int,
                    i as int,
                    1,
                );
                lemma_row_sum_bounds(
                    data@,
                    width as int,
                    x as int,
                    y as int + j as int,
                    i as int,
                    2,
                );
                assert(255 * (w as int * j as int) + 255 * i as int + 255 < u128::MAX)
                    by (nonlinear_arith)
                    requires
                        w as int <= u32::MAX,
                        j as int <= u32::MAX,
                        i as int <= u32::MAX;
            }
            let row: u64 = (y as u64) + (j as u64);
            let col: u64 = (x as u64) + (i as u64);
            let idx: usize = (3 * (row * (width as u64) + col)) as usize;
            s0 = s0 + (data[idx] as u128);
            s1 = s1 + (data[idx + 1] as u128);
            s2 = s2 + (data[idx + 2] as u128);
            i = i + 1;
        }
        proof {
            assert forall|c: int| 0 <= c < 3 implies region_sum(
                data@,
                width as int,
                x as int,
                y as int,
                w as int,
                j as int + 1,
                c,
            ) == region_sum(data@, width as int, x as int, y as int, w as int, j as int, c)
                + row_sum(data@, width as int, x as int, y as int + j as int, w as int, c) by {
                assert(region_sum(
                    data@,
                    width as int,
                    x as int,
                    y as int,
                    w as int,
                    j as int + 1,
                    c,
                ) == region_sum(data@, width as int, x as int, y as int, w as int, j as int, c)
                    + row_sum(data@, width as int, x as int, y as int + j as int, w as int, c));
            }
        }
        j = j + 1;
    }
    proof {
        assert(0 < w as int * h as int && w as int * h as int <= u128::MAX) by (nonlinear_arith)
            requires
                0 < w as int,
                0 < h as int,
                w as int <= u32::MAX,
                h as int <= u32::MAX;
        lemma_region_sum_bounds(data@, width as int, x as int, y as int, w as int, h as int, 0);
        lemma_region_sum_bounds(data@, width as int, x as int, y as int, w as int, h as int, 1);
        lemma_region_sum_bounds(data@, width as int, x as int, y as int, w as int, h as int, 2);
    }
    let count: u128 = (w as u128) * (h as u128);
    let m0: u128 = s0 / count;
    let m1: u128 = s1 / count;
    let m2: u128 = s2 / count;
    proof {
        lemma_mean_fits(s0 as int, count as int);
        lemma_mean_fits(s1 as int, count as int);
        lemma_mean_fits(s2 as int, count as int);
    }
    (m0 as u64, m1 as u64, m2 as u64)
}

/// A mean of byte samples fits a byte: a non-negative sum of at most 255
/// per pixel, divided by the pixel count, is at most 255.
proof fn lemma_mean_fits(sum: int, count: int)
    requires
        count > 0,
        0 <= sum,
        sum <= 255 * count,
    ensures
        0 <= sum / count,
        sum / count <= 255,
{
    assert(0 <= sum / count && sum / count <= 255) by (nonlinear_arith)
        requires
            count > 0,
            0 <= sum,
            sum <= 255 * count;
}

/// A mean color passes a threshold triple exactly when every channel's
/// value strictly exceeds its threshold; equality on any channel fails.
pub fn test(val: (u64, u64, u64), thresh: (u64, u64, u64)) -> (r: bool)
    ensures
        r == (val.0 > thresh.0 && val.1 > thresh.1 && val.2 > thresh.2),
{
    val.0 > thresh.0 && val.1 > thresh.1 && val.2 > thresh.2
}

/// Latest published sensing snapshot: both lamp states and the capture
/// time in whole seconds of the caller's clock. A successful update
/// replaces all three fields together; a failed one leaves all of them
/// untouched.
pub struct Camera {
    yellow: bool,
    green: bool,
    captured: u64,
}

impl Camera {
    /// Whether the yellow lamp read as lit in the latest snapshot.
    pub closed spec fn yellow_spec(&self) -> bool {
        self.yellow
    }

    /// Whether the green lamp read as lit in the latest snapshot.
    pub closed spec fn green_spec(&self) -> bool {
        self.green
    }

    /// The time the latest snapshot was captured at.
    pub closed spec fn captured_spec(&self) -> u64 {
        self.captured
    }

    /// Age of the snapshot at time `now`: seconds since it was captured.
    pub open spec fn spec_age(&self, now: u64) -> int {
        now - self.captured_spec()
    }

    /// A fresh sensor starts with both lamps off and a capture time of
    /// `now`, until the first successful capture replaces it.
    pub fn new(now: u64) -> (r: Camera)
        ensures
            r.yellow_spec() == false,
            r.green_spec() == false,
            r.captured_spec() == now,
    {
        Camera { yellow: false, green: false, captured: now }
    }

    pub fn yellow(&self) -> (r: bool)
        ensures
            r == self.yellow_spec(),
    {
        self.yellow
    }

    pub fn green(&self) -> (r: bool)
        ensures
            r == self.green_spec(),
    {
        self.green
    }

    /// The time the latest snapshot was captured at, on the caller's clock.
    pub fn captured_at(&self) -> (r: u64)
        ensures
            r == self.captured_spec(),
    {
        self.captured
    }

    /// Seconds since the snapshot was captured, by the caller's clock.
    /// The clock is monotone, so `now` never precedes the capture time.
    pub fn age(&self, now: u64) -> (r: u64)
        requires
            self.captured_spec() <= now,
        ensures
            r == self.spec_age(now),
    {
        now - self.captured
    }

    /// One poll cycle's publishing step. `capture` is the raw frame the
    /// capture source produced, or `None` when capture itself failed.
    /// A capture that decodes as a full frame replaces all three snapshot
    /// fields together with the two lamp analyses and the capture time;
    /// a failed capture or a malformed frame leaves the whole previous
    /// snapshot in place.
    pub fn update(&mut self, cfg: &PanelConfig, capture: Option<Vec<u8>>, now: u64)
        requires
            cfg.wf(),
        ensures
            capture matches Some(raw) ==> frame_ok(*cfg, raw@) ==> {
                &&& final(self).captured_spec() == now
                &&& final(self).yellow_spec() == region_on(
                    raw@,
                    cfg.width as int,
                    cfg.yellow_pos,
                    cfg.yellow_threshold,
                )
                &&& final(self).green_spec() == region_on(
                    raw@,
                    cfg.width as int,
                    cfg.green_pos,
                    cfg.green_threshold,
                )
            },
            (match capture {
                Some(raw) => !frame_ok(*cfg, raw@),
                None => true,
            }) ==> {
                &&& final(self).yellow_spec() == old(self).yellow_spec()
                &&& final(self).green_spec() == old(self).green_spec()
                &&& final(self).captured_spec() == old(self).captured_spec()
            },
    {
        let raw = match capture {
            Some(raw) => raw,
            None => {
                return ;
            },
        };
        let data = match decode_rgb(cfg.width, cfg.height, raw) {
            Some(data) => data,
            None => {
                return ;
            },
        };
        self.captured = now;
        proof {
            lemma_frame_covers_region(*cfg, cfg.yellow_pos, data@.len() as int);
            lemma_frame_covers_region(*cfg, cfg.green_pos, data@.len() as int);
        }
        let val = view_avg(
            &data,
            cfg.width,
            cfg.yellow_pos.0,
            cfg.yellow_pos.1,
            cfg.yellow_pos.2,
            cfg.yellow_pos.3,
        );
        self.yellow = test(val, cfg.yellow_threshold);
        let val = view_avg(
            &data,
            cfg.width,
            cfg.green_pos.0,
            cfg.green_pos.1,
            cfg.green_pos.2,
            cfg.green_pos.3,
        );
        self.green = test(val, cfg.green_threshold);
    }

    /// Development stand-in for a capture cycle on machines without the
    /// real capture source: publishes a fresh snapshot with arbitrary lamp
    /// states at the given time.
    pub fn update_mock(&mut self, now: u64)
        ensures
            final(self).captured_spec() == now,
    {
        self.captured = now;
        self.yellow = crate::gpio::random_bool();
        self.green = crate::gpio::random_bool();
    }
}

/// A buffer that holds a full well-formed frame covers every row a lamp
/// region touches.
proof fn lemma_frame_covers_region(cfg: PanelConfig, pos: (u32, u32, u32, u32), len: int)
    requires
        cfg.wf(),
        cfg.region_wf(pos),
        3 * cfg.width * cfg.height <= len,
    ensures
        3 * cfg.width * (pos.1 + pos.3) <= len,
{
    assert(3 * cfg.width as int * (pos.1 as int + pos.3 as int) <= 3 * cfg.width as int
        * cfg.height as int) by (nonlinear_arith)
        requires
            pos.1 as int + pos.3 as int <= cfg.height as int,
            0 <= cfg.width as int;
}

/// The age of one unchanged snapshot only grows: a reader at a later time
/// sees the same lamp values and an age at least as large as any earlier
/// reader saw.
pub proof fn lemma_stale_snapshot_ages(before: Camera, after: Camera, t1: u64, t2: u64)
    requires
        after.yellow_spec() == before.yellow_spec(),
        after.green_spec() == before.green_spec(),
        after.captured_spec() == before.captured_spec(),
        before.captured_spec() <= t1,
        t1 <= t2,
    ensures
        after.spec_age(t2) >= before.spec_age(t1),
        after.spec_age(t2) >= 0,
{
}

} // verus!
