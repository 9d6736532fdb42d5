//! Clock notation of durations and the capture timestamp generator.
//! All durations are whole milliseconds.
use vstd::prelude::*;
use vstd::arithmetic::div_mod::{
    lemma_div_is_ordered, lemma_div_multiples_vanish, lemma_div_plus_one, lemma_fundamental_div_mod,
    lemma_mod_mod,
};
use crate::error::VcsrError;
use crate::models::{MediaInfo, Time};
use crate::text::{
    chars_of, decimal, lemma_decimal, lemma_padded, lemma_split_join, lemma_split_none, padded,
    parse_u64, parse_unsigned, push_decimal, push_padded, split, split_chars, string_of, views,
    is_digit, all_digits,
};

verus! {

pub open spec fn hours_of(ms: nat) -> nat {
    ms / 3_600_000
}

pub open spec fn minutes_of(ms: nat) -> nat {
    (ms % 3_600_000) / 60_000
}

pub open spec fn seconds_of(ms: nat) -> nat {
    (ms % 60_000) / 1000
}

pub open spec fn millis_of(ms: nat) -> nat {
    ms % 1000
}

/// `H:MM:SS` when there are hours, else `MM:SS`; then `.mmm` when
/// `show_millis`, else `.cc` when `show_centis`. Fractions are truncated.
pub open spec fn pretty_spec(ms: nat, show_centis: bool, show_millis: bool) -> Seq<char> {
    let head = if hours_of(ms) > 0 {
        decimal(hours_of(ms)).push(':')
    } else {
        Seq::<char>::empty()
    };
    let body = head + padded(minutes_of(ms), 2).push(':') + padded(seconds_of(ms), 2);
    if show_millis {
        body.push('.') + padded(millis_of(ms), 3)
    } else if show_centis {
        body.push('.') + padded(millis_of(ms) / 10, 2)
    } else {
        body
    }
}

/// The milliseconds that a clock notation `[H:]M:S[.F]` denotes, where the
/// fraction `F` is read as a count of milliseconds. With more than two
/// colons, the pieces after the third are ignored.
pub open spec fn pretty_millis(s: Seq<char>) -> Option<nat> {
    let ds = split(s, '.');
    let frac = if ds.len() == 2 { parse_unsigned(ds[1]) } else { Some(0nat) };
    let left = if ds.len() == 2 { ds[0] } else { s };
    let ls = split(left, ':');
    if ls.len() < 2 {
        None
    } else {
        let h = if ls.len() < 3 { Some(0nat) } else { parse_unsigned(ls[0]) };
        let m = if ls.len() < 3 { parse_unsigned(ls[0]) } else { parse_unsigned(ls[1]) };
        let sec = if ls.len() < 3 { parse_unsigned(ls[1]) } else { parse_unsigned(ls[2]) };
        if frac is Some && h is Some && m is Some && sec is Some {
            Some(frac->0 + 1000 * sec->0 + 60_000 * m->0 + 3_600_000 * h->0)
        } else {
            None
        }
    }
}

pub open spec fn pretty_to_millis_spec(s: Seq<char>) -> Result<u64, VcsrError> {
    match pretty_millis(s) {
        Some(v) => if v <= u64::MAX { Ok(v as u64) } else { Err(VcsrError::FloatError) },
        None => Err(VcsrError::FloatError),
    }
}

proof fn lemma_no_sep(s: Seq<char>, sep: char)
    requires
        all_digits(s),
        !is_digit(sep),
    ensures
        split(s, sep) == seq![s],
{
    assert forall|i: int| 0 <= i < s.len() implies s[i] != sep by {
        assert(is_digit(s[i]));
    }
    lemma_split_none(s, sep);
}

/// A timestamp written with milliseconds reads back as the same number of
/// milliseconds.
pub proof fn lemma_pretty_round_trip(ms: u64)
    ensures
        pretty_to_millis_spec(pretty_spec(ms as nat, true, true)) == Ok::<u64, VcsrError>(ms),
{
    let n = ms as nat;
    let h = hours_of(n);
    let m = minutes_of(n);
    let sec = seconds_of(n);
    let f = millis_of(n);
    let pm = padded(m, 2);
    let ps = padded(sec, 2);
    let pf = padded(f, 3);
    lemma_padded(m, 2);
    lemma_padded(sec, 2);
    lemma_padded(f, 3);
    lemma_decimal(h);
    let tail = pm + seq![':'] + ps;
    let body = if h > 0 { decimal(h) + seq![':'] + tail } else { tail };
    assert(pretty_spec(n, true, true) =~= body + seq!['.'] + pf);
    // the body holds no '.'
    lemma_no_sep(pm, '.');
    lemma_no_sep(ps, '.');
    lemma_no_sep(pf, '.');
    assert forall|i: int| 0 <= i < tail.len() implies tail[i] != '.' by {
        if i < pm.len() {
            assert(is_digit(pm[i]));
        } else if i > pm.len() {
            assert(is_digit(ps[i - pm.len() - 1]));
        }
    }
    lemma_split_none(tail, '.');
    lemma_split_join(pm, ps, ':');
    lemma_no_sep(pm, ':');
    lemma_no_sep(ps, ':');
    if h > 0 {
        lemma_no_sep(decimal(h), '.');
        lemma_no_sep(decimal(h), ':');
        let dh = decimal(h);
        assert forall|i: int| 0 <= i < body.len() implies body[i] != '.' by {
            if i < dh.len() {
                assert(is_digit(dh[i]));
            } else if i > dh.len() {
                assert(tail[i - dh.len() - 1] != '.');
            }
        }
        lemma_split_none(body, '.');
        lemma_split_join(decimal(h), tail, ':');
        assert(split(body, ':') =~= seq![decimal(h), pm, ps]);
    } else {
        assert(split(body, ':') =~= seq![pm, ps]);
    }
    lemma_split_join(body, pf, '.');
    assert(split(body + seq!['.'] + pf, '.') =~= seq![body, pf]);
    // the components add back up to the whole
    lemma_fundamental_div_mod(n as int, 3_600_000);
    lemma_fundamental_div_mod((n % 3_600_000) as int, 60_000);
    lemma_fundamental_div_mod((n % 60_000) as int, 1000);
    lemma_mod_mod(n as int, 60_000, 60);
    lemma_mod_mod(n as int, 1000, 60);
    lemma_mod_mod(n as int, 1000, 3600);
    lemma_mod_mod((n % 60_000) as int, 1000, 60);
    assert(f + 1000 * sec + 60_000 * m + 3_600_000 * h == n);
}

impl MediaInfo {
    /// The clock notation of a duration in milliseconds.
    pub fn pretty_duration(millis: u64, show_centis: bool, show_millis: bool) -> (r: String)
        ensures
            r@ == pretty_spec(millis as nat, show_centis, show_millis),
    {
        let hours = millis / 3_600_000;
        let minutes = (millis % 3_600_000) / 60_000;
        let seconds = (millis % 60_000) / 1000;
        let fraction = millis % 1000;
        let mut out: Vec<char> = Vec::new();
        if hours > 0 {
            push_decimal(&mut out, hours);
            out.push(':');
        }
        push_padded(&mut out, minutes, 2);
        out.push(':');
        push_padded(&mut out, seconds, 2);
        let ghost body = out@;
        assert(body =~= pretty_spec(millis as nat, false, false));
        if show_millis {
            out.push('.');
            push_padded(&mut out, fraction, 3);
        } else if show_centis {
            out.push('.');
            push_padded(&mut out, fraction / 10, 2);
        }
        assert(out@ =~= pretty_spec(millis as nat, show_centis, show_millis));
        string_of(&out)
    }

    /// Reads a clock notation back into milliseconds.
    pub fn pretty_to_seconds(pretty_duration: &str) -> (r: Result<u64, VcsrError>)
        ensures
            r == pretty_to_millis_spec(pretty_duration@),
    {
        let s = chars_of(pretty_duration);
        let ds = split_chars(&s, '.');
        let mut frac: Option<u64> = Some(0);
        let left: Vec<char>;
        if ds.len() == 2 {
            assert(ds@[1]@ == views(ds@)[1]);
            assert(ds@[0]@ == views(ds@)[0]);
            frac = parse_u64(&ds[1]);
            left = ds[0].clone();
        } else {
            left = s;
        }
        let ls = split_chars(&left, ':');
        if ls.len() < 2 {
            return Err(VcsrError::FloatError);
        }
        assert(ls@[0]@ == views(ls@)[0]);
        assert(ls@[1]@ == views(ls@)[1]);
        let h: Option<u64>;
        let m: Option<u64>;
        let sec: Option<u64>;
        if ls.len() < 3 {
            h = Some(0);
            m = parse_u64(&ls[0]);
            sec = parse_u64(&ls[1]);
        } else {
            assert(ls@[2]@ == views(ls@)[2]);
            h = parse_u64(&ls[0]);
            m = parse_u64(&ls[1]);
            sec = parse_u64(&ls[2]);
        }
        match (frac, h, m, sec) {
            (Some(f), Some(h), Some(m), Some(sec)) => {
                let total: u128 = f as u128 + 1000 * (sec as u128) + 60_000 * (m as u128)
                    + 3_600_000 * (h as u128);
                if total <= u64::MAX as u128 {
                    Ok(total as u64)
                } else {
                    Err(VcsrError::FloatError)
                }
            },
            _ => Err(VcsrError::FloatError),
        }
    }

    /// The clock components of a duration in milliseconds.
    pub fn parse_duration(millis: u64) -> (r: Time)
        ensures
            r.hours == hours_of(millis as nat),
            r.minutes == minutes_of(millis as nat),
            r.seconds == seconds_of(millis as nat),
            r.millis == millis_of(millis as nat),
            r.centis == millis_of(millis as nat) / 10,
    {
        Time {
            hours: millis / 3_600_000,
            minutes: (millis % 3_600_000) / 60_000,
            seconds: (millis % 60_000) / 1000,
            centis: (millis % 1000) / 10,
            millis: millis % 1000,
        }
    }
}

/// The whole seconds skipped at one end of a clip `duration` milliseconds
/// long, for a delay of `hundredths` hundredths of a percent, in milliseconds:
/// `floor(duration_seconds * percent / 100)` seconds.
pub open spec fn delay_spec(duration: nat, hundredths: nat) -> nat {
    (duration * hundredths / 10_000_000) * 1000
}

/// The delays at both ends together.
pub open spec fn total_delay_spec(duration: nat, start: nat, end: nat) -> nat {
    delay_spec(duration, start) + delay_spec(duration, end)
}

/// The clip without its delays (nothing when the delays take it all).
pub open spec fn room_spec(duration: nat, start: nat, end: nat) -> nat {
    if duration >= total_delay_spec(duration, start, end) {
        (duration - total_delay_spec(duration, start, end)) as nat
    } else {
        0
    }
}

/// How long after the start delay the `i`-th capture comes: `i + 1` given
/// intervals, or `(i + 1) / (num_samples + 1)` of the clip without its
/// delays, floored to a millisecond once.
pub open spec fn capture_offset_spec(
    duration: nat,
    start: nat,
    end: nat,
    interval: Option<u64>,
    num_samples: nat,
    i: nat,
) -> nat {
    match interval {
        Some(iv) => ((i + 1) * iv) as nat,
        None => ((i + 1) * room_spec(duration, start, end)) / (num_samples + 1),
    }
}

/// The `i`-th capture time.
pub open spec fn timestamp_spec(
    duration: nat,
    start: nat,
    end: nat,
    interval: Option<u64>,
    num_samples: nat,
    i: nat,
) -> nat {
    delay_spec(duration, start) + capture_offset_spec(duration, start, end, interval, num_samples, i)
}

/// The last capture time, and so every one, fits in `u64`.
pub open spec fn timestamps_fit(
    duration: nat,
    start: nat,
    end: nat,
    interval: Option<u64>,
    num_samples: nat,
) -> bool {
    num_samples == 0 || timestamp_spec(duration, start, end, interval, num_samples, (num_samples - 1) as nat) <= u64::MAX
}

pub(crate) fn delay_millis(duration: u64, hundredths: u64) -> (r: u128)
    ensures
        r == delay_spec(duration as nat, hundredths as nat),
        r <= 0xffff_ffff_ffff_ffff * 0xffff_ffff_ffff_ffff / 10_000,
{
    proof {
        let x = duration as int * hundredths as int;
        assert(x <= 0xffff_ffff_ffff_ffff * 0xffff_ffff_ffff_ffff) by (nonlinear_arith)
            requires duration <= 0xffff_ffff_ffff_ffff, hundredths <= 0xffff_ffff_ffff_ffff, x == duration * hundredths;
        assert((x / 10_000_000) * 1000 <= 0xffff_ffff_ffff_ffff * 0xffff_ffff_ffff_ffff / 10_000) by (nonlinear_arith)
            requires x <= 0xffff_ffff_ffff_ffff * 0xffff_ffff_ffff_ffff, x >= 0;
    }
    (duration as u128 * hundredths as u128 / 10_000_000) * 1000
}

/// The delays at both ends of the clip together, in milliseconds, for
/// delays given in hundredths of a percent.
pub fn total_delay_seconds(duration_millis: u64, start_delay: u64, end_delay: u64) -> (r: u128)
    ensures
        r == total_delay_spec(duration_millis as nat, start_delay as nat, end_delay as nat),
{
    delay_millis(duration_millis, start_delay) + delay_millis(duration_millis, end_delay)
}

/// The capture times in milliseconds: `num_samples` times after the start
/// delay, spread evenly over the clip without its delays, or each a given
/// interval after the previous one. `None` when the last of them would not
/// fit in `u64`.
pub fn timestamp_millis(
    duration_millis: u64,
    start_delay: u64,
    end_delay: u64,
    interval: Option<u64>,
    num_samples: u64,
) -> (r: Option<Vec<u64>>)
    ensures
        r is Some <==> timestamps_fit(duration_millis as nat, start_delay as nat, end_delay as nat, interval, num_samples as nat),
        r matches Some(v) ==> v@.len() == num_samples,
        r matches Some(v) ==> forall|i: int| 0 <= i < num_samples ==> #[trigger] v@[i] == timestamp_spec(
            duration_millis as nat,
            start_delay as nat,
            end_delay as nat,
            interval,
            num_samples as nat,
            i as nat,
        ),
{
    let ghost d = duration_millis as nat;
    let ghost sd = start_delay as nat;
    let ghost ed = end_delay as nat;
    let ghost n = num_samples as nat;
    if num_samples == 0 {
        return Some(Vec::new());
    }
    let delay = total_delay_seconds(duration_millis, start_delay, end_delay);
    let room: u128 = if duration_millis as u128 >= delay { duration_millis as u128 - delay } else { 0 };
    assert(room == room_spec(d, sd, ed));
    let start = delay_millis(duration_millis, start_delay);
    let last = offset_of(room, interval, num_samples, num_samples - 1);
    if last > u64::MAX as u128 || start + last > u64::MAX as u128 {
        return None;
    }
    let mut out: Vec<u64> = Vec::new();
    let mut i: u64 = 0;
    while i < num_samples
        invariant
            i <= num_samples,
            d == duration_millis, sd == start_delay, ed == end_delay, n == num_samples,
            room == room_spec(d, sd, ed),
            room <= u64::MAX,
            start == delay_spec(d, sd),
            last == capture_offset_spec(d, sd, ed, interval, n, (n - 1) as nat),
            start + last <= u64::MAX,
            out@.len() == i,
            forall|k: int| 0 <= k < i ==> #[trigger] out@[k] == timestamp_spec(d, sd, ed, interval, n, k as nat),
        decreases num_samples - i,
    {
        let off = offset_of(room, interval, num_samples, i);
        proof {
            lemma_offset_ordered(room as nat, interval, n, i as nat, (n - 1) as nat);
        }
        out.push((start + off) as u64);
        i = i + 1;
    }
    Some(out)
}

proof fn lemma_offset_ordered(room: nat, interval: Option<u64>, n: nat, i: nat, j: nat)
    requires
        i <= j,
    ensures
        (match interval { Some(iv) => ((i + 1) * iv) as nat, None => ((i + 1) * room) / (n + 1) }) <= (match interval {
            Some(iv) => ((j + 1) * iv) as nat,
            None => ((j + 1) * room) / (n + 1),
        }),
{
    match interval {
        Some(iv) => {
            assert((i + 1) * iv <= (j + 1) * iv) by (nonlinear_arith)
                requires i <= j;
        },
        None => {
            assert((i + 1) * room <= (j + 1) * room) by (nonlinear_arith)
                requires i <= j;
            lemma_div_is_ordered(((i + 1) * room) as int, ((j + 1) * room) as int, (n + 1) as int);
        },
    }
}

/// The offset of the `i`-th capture after the start delay, for a clip of
/// `room` milliseconds without its delays.
fn offset_of(room: u128, interval: Option<u64>, num_samples: u64, i: u64) -> (r: u128)
    requires
        room <= u64::MAX,
    ensures
        r == match interval {
            Some(iv) => ((i + 1) * iv) as nat,
            None => (((i + 1) * room) / (num_samples + 1) as int) as nat,
        },
        r <= 0x1_0000_0000_0000_0000 * 0xffff_ffff_ffff_ffff,
{
    proof {
        assert((i as int + 1) * room <= 0x1_0000_0000_0000_0000 * 0xffff_ffff_ffff_ffff) by (nonlinear_arith)
            requires i <= 0xffff_ffff_ffff_ffff, room <= 0xffff_ffff_ffff_ffff;
    }
    match interval {
        Some(iv) => {
            proof {
                assert((i as int + 1) * iv <= 0x1_0000_0000_0000_0000 * 0xffff_ffff_ffff_ffff) by (nonlinear_arith)
                    requires i <= 0xffff_ffff_ffff_ffff, iv <= 0xffff_ffff_ffff_ffff;
            }
            (i as u128 + 1) * iv as u128
        },
        None => {
            proof {
                let x = (i as int + 1) * room;
                lemma_div_is_ordered(x, x, num_samples as int + 1);
                assert(x / (num_samples as int + 1) <= x) by (nonlinear_arith)
                    requires x >= 0, num_samples >= 0;
            }
            ((i as u128 + 1) * room) / (num_samples as u128 + 1)
        },
    }
}

/// The capture times in clock notation with milliseconds, or `None` as
/// for `timestamp_millis`.
pub fn timestamp_generator(
    duration_millis: u64,
    start_delay: u64,
    end_delay: u64,
    interval: Option<u64>,
    num_samples: u64,
) -> (r: Option<Vec<String>>)
    ensures
        r is Some <==> timestamps_fit(duration_millis as nat, start_delay as nat, end_delay as nat, interval, num_samples as nat),
        r matches Some(v) ==> v@.len() == num_samples,
        r matches Some(v) ==> forall|i: int| 0 <= i < num_samples ==> (#[trigger] v@[i])@ == pretty_spec(
            timestamp_spec(
                duration_millis as nat,
                start_delay as nat,
                end_delay as nat,
                interval,
                num_samples as nat,
                i as nat,
            ),
            false,
            true,
        ),
{
    let times = match timestamp_millis(duration_millis, start_delay, end_delay, interval, num_samples) {
        Some(t) => t,
        None => return None,
    };
    let mut out: Vec<String> = Vec::new();
    let mut i: usize = 0;
    while i < times.len()
        invariant
            i <= times@.len(),
            out@.len() == i,
            forall|k: int| 0 <= k < i ==> (#[trigger] out@[k])@ == pretty_spec(times@[k] as nat, false, true),
        decreases times@.len() - i,
    {
        out.push(MediaInfo::pretty_duration(times[i], false, true));
        i = i + 1;
    }
    Some(out)
}

/// With delays of at most 100% together, and a clip that leaves at least
/// one millisecond per interval (at least `num_samples + 1` milliseconds for
/// the even subdivision, at least `num_samples` whole intervals of at least a
/// millisecond otherwise), all `num_samples` capture times fit, are strictly
/// increasing, come no earlier than the start delay and no later than the end
/// delay.
pub proof fn lemma_timestamps_spread(duration: nat, start: nat, end: nat, interval: Option<u64>, num_samples: nat)
    requires
        start + end <= 10_000,
        duration <= u64::MAX,
        match interval {
            None => room_spec(duration, start, end) >= num_samples + 1,
            Some(iv) => iv >= 1 && num_samples * iv <= room_spec(duration, start, end),
        },
    ensures
        timestamps_fit(duration, start, end, interval, num_samples),
        forall|i: nat, j: nat| i < j < num_samples ==> #[trigger] timestamp_spec(duration, start, end, interval, num_samples, i)
            < #[trigger] timestamp_spec(duration, start, end, interval, num_samples, j),
        forall|i: nat| i < num_samples ==> delay_spec(duration, start) <= #[trigger] timestamp_spec(duration, start, end, interval, num_samples, i)
            && timestamp_spec(duration, start, end, interval, num_samples, i) <= duration - delay_spec(duration, end),
{
    crate::params::lemma_delays_fit(duration, start, end);
    let room = room_spec(duration, start, end);
    let k = num_samples + 1;
    assert(room + delay_spec(duration, start) + delay_spec(duration, end) == duration);
    assert forall|i: nat| i < num_samples implies capture_offset_spec(duration, start, end, interval, num_samples, i) <= room by {
        match interval {
            Some(iv) => {
                assert((i + 1) * iv <= num_samples * iv) by (nonlinear_arith)
                    requires i < num_samples;
            },
            None => {
                assert((i + 1) * room <= k * room) by (nonlinear_arith)
                    requires i + 1 <= k;
                lemma_div_is_ordered(((i + 1) * room) as int, (k * room) as int, k as int);
                lemma_div_multiples_vanish(room as int, k as int);
                assert(k * room == (k as int) * (room as int));
            },
        }
    }
    assert forall|i: nat, j: nat| i < j < num_samples implies #[trigger] timestamp_spec(duration, start, end, interval, num_samples, i)
        < #[trigger] timestamp_spec(duration, start, end, interval, num_samples, j) by {
        match interval {
            Some(iv) => {
                assert((i + 1) * iv < (j + 1) * iv) by (nonlinear_arith)
                    requires i < j, iv >= 1;
            },
            None => {
                let x = ((i + 1) * room) as int;
                let y = ((j + 1) * room) as int;
                assert(x + k <= y) by (nonlinear_arith)
                    requires x == (i + 1) * room, y == (j + 1) * room, i < j, room >= k;
                lemma_div_is_ordered(x + k, y, k as int);
                lemma_div_plus_one(x, k as int);
            },
        }
    }
    if num_samples > 0 {
        assert(capture_offset_spec(duration, start, end, interval, num_samples, (num_samples - 1) as nat) <= room);
    }
}

} // verus!
