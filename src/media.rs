//! Media attributes derived from a probe result.
use vstd::prelude::*;
use crate::error::VcsrError;
use crate::models::{
    parse_u64_spec, AudioStream, Dimensions, Ffprobe, MediaAttributes, MediaInfo, Stream,
    VideoStream,
};
use crate::text::{
    is_digit, lemma_value_push, parse_unsigned,
    chars_of, decimal, digit_char, digits_value, all_digits, parse_u64, push_decimal, split,
    split_chars, string_of, views,
};
use crate::timestamps::pretty_spec;

verus! {

pub open spec fn first_video(s: Seq<Stream>) -> Option<VideoStream>
    decreases s.len(),
{
    if s.len() == 0 {
        None
    } else {
        match s[0] {
            Stream::VideoStream(v) => Some(v),
            _ => first_video(s.skip(1)),
        }
    }
}

pub open spec fn first_audio(s: Seq<Stream>) -> Option<AudioStream>
    decreases s.len(),
{
    if s.len() == 0 {
        None
    } else {
        match s[0] {
            Stream::AudioStream(a) => Some(a),
            _ => first_audio(s.skip(1)),
        }
    }
}

pub open spec fn parse_u32_spec(s: Seq<char>) -> Option<u32> {
    match parse_u64_spec(s) {
        Some(v) => if v <= u32::MAX { Some(v as u32) } else { None },
        None => None,
    }
}

fn parse_u32(s: &Vec<char>) -> (r: Option<u32>)
    ensures
        r == parse_u32_spec(s@),
{
    match parse_u64(s) {
        Some(v) => if v <= u32::MAX as u64 { Some(v as u32) } else { None },
        None => None,
    }
}

/// Sample width and height, swapped for a rotation of 90 degrees.
pub open spec fn sample_size(v: VideoStream) -> (Option<u32>, Option<u32>) {
    if v.tags.rotate == Some(90u32) {
        (v.height, v.width)
    } else {
        (v.width, v.height)
    }
}

/// A zero display dimension falls back to the sample dimension.
pub open spec fn with_fallback(dw: Option<u32>, dh: Option<u32>, sw: Option<u32>, sh: Option<u32>) -> Dimensions {
    Dimensions {
        display_width: if dw == Some(0u32) { sw } else { dw },
        display_height: if dh == Some(0u32) { sh } else { dh },
        sample_width: sw,
        sample_height: sh,
    }
}

/// The display dimensions of a video stream: the sample width is scaled by
/// the sample aspect ratio `W:H` (unless it is `1:1`), and the height is kept.
pub open spec fn display_resolution_spec(v: VideoStream) -> Result<Dimensions, VcsrError> {
    let (sw, sh) = sample_size(v);
    let sar = v.sample_aspect_ratio@;
    if sar == seq!['1', ':', '1'] {
        Ok(with_fallback(sw, sh, sw, sh))
    } else {
        let p = split(sar, ':');
        if p.len() < 2 {
            Err(VcsrError::IntError)
        } else {
            match (parse_u32_spec(p[0]), parse_u32_spec(p[1])) {
                (Some(a), Some(b)) => if b == 0 {
                    Err(VcsrError::IntError)
                } else {
                    match sw {
                        None => Err(VcsrError::MediaError),
                        Some(w) => {
                            let dw = w as nat * a as nat / b as nat;
                            if dw > u32::MAX {
                                Err(VcsrError::IntError)
                            } else {
                                Ok(with_fallback(Some(dw as u32), sh, sw, sh))
                            }
                        },
                    }
                },
                _ => Err(VcsrError::IntError),
            }
        }
    }
}

/// The first three digits of a fraction, read as milliseconds.
pub open spec fn fraction_millis(f: Seq<char>) -> nat {
    digits_value((f + seq!['0', '0', '0']).take(3))
}

/// A decimal number of seconds, `S` or `S.F`, in whole milliseconds (the
/// fraction is truncated to three digits).
pub open spec fn seconds_text_millis(s: Seq<char>) -> Option<nat> {
    let p = split(s, '.');
    if p.len() == 1 && parse_unsigned(p[0]) is Some {
        Some(parse_unsigned(p[0])->0 * 1000)
    } else if p.len() == 2 && parse_unsigned(p[0]) is Some && all_digits(p[1]) {
        Some(parse_unsigned(p[0])->0 * 1000 + fraction_millis(p[1]))
    } else {
        None
    }
}

/// The duration of the video stream, or of the container when the stream
/// states none.
pub open spec fn duration_text(f: Ffprobe, v: VideoStream) -> Seq<char> {
    match v.duration {
        Some(d) => d@,
        None => f.format.duration@,
    }
}

pub open spec fn duration_spec(f: Ffprobe) -> Result<u64, VcsrError> {
    match first_video(f.streams@) {
        None => Err(VcsrError::VideoStreamError),
        Some(v) => match seconds_text_millis(duration_text(f, v)) {
            Some(ms) => if ms <= u64::MAX { Ok(ms as u64) } else { Err(VcsrError::FloatError) },
            None => Err(VcsrError::FloatError),
        },
    }
}

/// `A/B` frames per second as the integer quotient (0 when `B` is 0), or a
/// plain integer.
pub open spec fn frame_rate_spec(s: Seq<char>) -> Result<u32, VcsrError> {
    let p = split(s, '/');
    if p.len() == 2 {
        match (parse_u32_spec(p[0]), parse_u32_spec(p[1])) {
            (Some(a), Some(b)) => Ok(if b == 0 { 0 } else { a / b }),
            _ => Err(VcsrError::IntError),
        }
    } else {
        match parse_u32_spec(s) {
            Some(v) => Ok(v),
            None => Err(VcsrError::IntError),
        }
    }
}

pub open spec fn pow1024(k: nat) -> nat
    decreases k,
{
    if k == 0 { 1 } else { 1024 * pow1024((k - 1) as nat) }
}

/// The binary unit of a size: the first `k` (at most 7) with
/// `bytes < 1024^(k + 1)`.
pub open spec fn size_unit(bytes: nat, k: nat) -> nat
    decreases 7 - k,
{
    if k >= 7 || bytes < pow1024(k + 1) { k } else { size_unit(bytes, k + 1) }
}

pub open spec fn unit_name(k: nat) -> Seq<char> {
    if k == 0 { seq![] }
    else if k == 1 { seq!['K', 'i'] }
    else if k == 2 { seq!['M', 'i'] }
    else if k == 3 { seq!['G', 'i'] }
    else if k == 4 { seq!['T', 'i'] }
    else if k == 5 { seq!['P', 'i'] }
    else if k == 6 { seq!['E', 'i'] }
    else { seq!['Z', 'i'] }
}

/// `n / d` rounded to the nearest integer, ties to even.
pub open spec fn round_half_even(n: nat, d: nat) -> nat
    recommends
        d > 0,
{
    let q = n / d;
    let r = n % d;
    if 2 * r > d || (2 * r == d && q % 2 == 1) { q + 1 } else { q }
}

/// The size in the largest binary unit that keeps it under 1024, with one
/// decimal: `"1.5 KiB"`.
pub open spec fn human_size_spec(bytes: nat) -> Seq<char> {
    let k = size_unit(bytes, 0);
    let t = round_half_even(bytes * 10, pow1024(k));
    decimal(t / 10) + seq!['.', digit_char(t % 10), ' '] + unit_name(k) + seq!['B']
}

fn push_unit(out: &mut Vec<char>, k: u64)
    ensures
        final(out)@ == old(out)@ + unit_name(k as nat),
{
    let ghost pre = out@;
    if k == 1 { out.push('K'); }
    else if k == 2 { out.push('M'); }
    else if k == 3 { out.push('G'); }
    else if k == 4 { out.push('T'); }
    else if k == 5 { out.push('P'); }
    else if k == 6 { out.push('E'); }
    else if k >= 7 { out.push('Z'); }
    if k > 0 {
        out.push('i');
    }
    assert(out@ =~= pre + unit_name(k as nat));
}

impl MediaInfo {
    /// The first video stream of the probe.
    pub fn find_video_stream(ffprobe: &Ffprobe) -> (r: Option<&Stream>)
        ensures
            r matches Some(s) ==> (first_video(ffprobe.streams@) is Some
                && *s == Stream::VideoStream(first_video(ffprobe.streams@)->0)),
            r is None ==> first_video(ffprobe.streams@) is None,
    {
        let mut i: usize = 0;
        assert(ffprobe.streams@.skip(0) =~= ffprobe.streams@);
        while i < ffprobe.streams.len()
            invariant
                i <= ffprobe.streams@.len(),
                first_video(ffprobe.streams@) == first_video(ffprobe.streams@.skip(i as int)),
            decreases ffprobe.streams@.len() - i,
        {
            assert(ffprobe.streams@.skip(i as int).skip(1) =~= ffprobe.streams@.skip(i + 1));
            if let Stream::VideoStream(_) = &ffprobe.streams[i] {
                return Some(&ffprobe.streams[i]);
            }
            i = i + 1;
        }
        None
    }

    /// The first audio stream of the probe.
    pub fn find_audio_stream(ffprobe: &Ffprobe) -> (r: Option<&Stream>)
        ensures
            r matches Some(s) ==> (first_audio(ffprobe.streams@) is Some
                && *s == Stream::AudioStream(first_audio(ffprobe.streams@)->0)),
            r is None ==> first_audio(ffprobe.streams@) is None,
    {
        let mut i: usize = 0;
        assert(ffprobe.streams@.skip(0) =~= ffprobe.streams@);
        while i < ffprobe.streams.len()
            invariant
                i <= ffprobe.streams@.len(),
                first_audio(ffprobe.streams@) == first_audio(ffprobe.streams@.skip(i as int)),
            decreases ffprobe.streams@.len() - i,
        {
            assert(ffprobe.streams@.skip(i as int).skip(1) =~= ffprobe.streams@.skip(i + 1));
            if let Stream::AudioStream(_) = &ffprobe.streams[i] {
                return Some(&ffprobe.streams[i]);
            }
            i = i + 1;
        }
        None
    }

    /// The sample and display dimensions of the first video stream.
    pub fn compute_display_resolution(ffprobe: &Ffprobe) -> (r: Result<Dimensions, VcsrError>)
        ensures
            r == match first_video(ffprobe.streams@) {
                None => Err(VcsrError::VideoStreamError),
                Some(v) => display_resolution_spec(v),
            },
    {
        let video_stream = match Self::find_video_stream(ffprobe) {
            Some(Stream::VideoStream(v)) => v,
            _ => return Err(VcsrError::VideoStreamError),
        };
        let mut sample_width = video_stream.width;
        let mut sample_height = video_stream.height;
        if let Some(rotation) = video_stream.tags.rotate {
            if rotation == 90 {
                let w = sample_width;
                sample_width = sample_height;
                sample_height = w;
            }
        }
        let sar = chars_of(video_stream.sample_aspect_ratio.as_str());
        let display_width: Option<u32>;
        let display_height: Option<u32>;
        if sar.len() == 3 && sar[0] == '1' && sar[1] == ':' && sar[2] == '1' {
            assert(sar@ =~= seq!['1', ':', '1']);
            display_width = sample_width;
            display_height = sample_height;
        } else {
            assert(sar@ != seq!['1', ':', '1']);
            let parts = split_chars(&sar, ':');
            if parts.len() < 2 {
                return Err(VcsrError::IntError);
            }
            assert(parts@[0]@ == views(parts@)[0]);
            assert(parts@[1]@ == views(parts@)[1]);
            let (sw, sh) = match (parse_u32(&parts[0]), parse_u32(&parts[1])) {
                (Some(a), Some(b)) => (a, b),
                _ => return Err(VcsrError::IntError),
            };
            if sh == 0 {
                return Err(VcsrError::IntError);
            }
            let w = match sample_width {
                Some(w) => w,
                None => return Err(VcsrError::MediaError),
            };
            proof {
                assert(w as int * sw as int <= 0xffff_ffff * 0xffff_ffff) by (nonlinear_arith)
                    requires w <= 0xffff_ffff, sw <= 0xffff_ffff;
            }
            let new_width = (w as u64 * sw as u64) / sh as u64;
            if new_width > u32::MAX as u64 {
                return Err(VcsrError::IntError);
            }
            display_width = Some(new_width as u32);
            display_height = sample_height;
        }
        let display_width = match display_width {
            Some(0) => sample_width,
            other => other,
        };
        let display_height = match display_height {
            Some(0) => sample_height,
            other => other,
        };
        Ok(Dimensions { display_height, display_width, sample_height, sample_width })
    }
}

/// The name of the file that the probe reports, as `Path::file_name` gives it.
pub uninterp spec fn file_name_of(path: Seq<char>) -> Option<Seq<char>>;

/// Relies on `Path::file_name`: the final component of the path, if there
/// is one that names a file.
#[verifier::external_body]
fn path_file_name(path: &str) -> (r: Option<String>)
    ensures
        r is None <==> file_name_of(path@) is None,
        r matches Some(n) ==> n@ == file_name_of(path@)->0,
{
    std::path::Path::new(path).file_name().map(|n| n.to_string_lossy().into_owned())
}

fn fraction_to_millis(f: &Vec<char>) -> (r: Option<u64>)
    ensures
        r is Some <==> all_digits(f@),
        r matches Some(v) ==> v == fraction_millis(f@) && v < 1000,
{
    let mut j: usize = 0;
    while j < f.len()
        invariant
            j <= f@.len(),
            forall|k: int| 0 <= k < j ==> is_digit(#[trigger] f@[k]),
        decreases f@.len() - j,
    {
        if f[j] < '0' || f[j] > '9' {
            assert(!is_digit(f@[j as int]));
            return None;
        }
        j = j + 1;
    }
    let ghost t = f@ + seq!['0', '0', '0'];
    let mut v: u64 = 0;
    let mut k: usize = 0;
    assert(t.take(0) =~= Seq::<char>::empty());
    while k < 3
        invariant
            k <= 3,
            t == f@ + seq!['0', '0', '0'],
            all_digits(f@),
            v == digits_value(t.take(k as int)),
            v < 1000,
            k == 0 ==> v < 1,
            k == 1 ==> v < 10,
            k == 2 ==> v < 100,
        decreases 3 - k,
    {
        let c = if k < f.len() { f[k] } else { '0' };
        assert(c == t[k as int]);
        assert(t.take(k + 1) =~= t.take(k as int).push(c));
        proof {
            lemma_value_push(t.take(k as int), c);
            if k < f@.len() {
                assert(is_digit(f@[k as int]));
            }
        }
        v = v * 10 + (c as u32 - '0' as u32) as u64;
        k = k + 1;
    }
    Some(v)
}

fn seconds_to_millis(s: &Vec<char>) -> (r: Option<u64>)
    ensures
        r is Some <==> (seconds_text_millis(s@) is Some && seconds_text_millis(s@)->0 <= u64::MAX),
        r matches Some(v) ==> v == seconds_text_millis(s@)->0,
{
    let parts = split_chars(s, '.');
    if parts.len() != 1 && parts.len() != 2 {
        return None;
    }
    assert(parts@[0]@ == views(parts@)[0]);
    let whole = match parse_u64(&parts[0]) {
        Some(w) => w,
        None => return None,
    };
    let frac: u64 = if parts.len() == 2 {
        assert(parts@[1]@ == views(parts@)[1]);
        match fraction_to_millis(&parts[1]) {
            Some(f) => f,
            None => return None,
        }
    } else {
        0
    };
    let total = whole as u128 * 1000 + frac as u128;
    if total > u64::MAX as u128 {
        return None;
    }
    Some(total as u64)
}

/// The size in bytes that the probe reports.
pub open spec fn size_spec(f: Ffprobe) -> Result<u64, VcsrError> {
    match parse_u64_spec(f.format.size@) {
        Some(v) => Ok(v),
        None => Err(VcsrError::IntError),
    }
}

pub open spec fn frame_rate_of(v: VideoStream) -> Result<u32, VcsrError> {
    match v.avg_frame_rate {
        Some(s) => frame_rate_spec(s@),
        None => Ok(0),
    }
}

/// An optional numeric field: absent stays absent.
pub open spec fn optional_u32_spec(s: Option<String>) -> Result<Option<u32>, VcsrError> {
    match s {
        None => Ok(None),
        Some(t) => match parse_u32_spec(t@) {
            Some(v) => Ok(Some(v)),
            None => Err(VcsrError::IntError),
        },
    }
}

fn parse_optional_u32(s: &Option<String>) -> (r: Result<Option<u32>, VcsrError>)
    ensures
        r == optional_u32_spec(*s),
{
    match s {
        None => Ok(None),
        Some(t) => match parse_u32(&chars_of(t.as_str())) {
            Some(v) => Ok(Some(v)),
            None => Err(VcsrError::IntError),
        },
    }
}

fn clone_option(s: &Option<String>) -> (r: Option<String>)
    ensures
        r == *s,
{
    match s {
        Some(t) => Some(t.clone()),
        None => None,
    }
}

impl MediaInfo {
    /// The duration of the first video stream (or of the container) in
    /// milliseconds, and in clock notation.
    pub fn compute_duration(ffprobe: &Ffprobe) -> (r: Result<(u64, String), VcsrError>)
        ensures
            r matches Ok(p) ==> duration_spec(*ffprobe) == Ok::<u64, VcsrError>(p.0) && p.1@ == pretty_spec(p.0 as nat, true, true),
            r matches Err(e) ==> duration_spec(*ffprobe) == Err::<u64, VcsrError>(e),
    {
        let video_stream = match Self::find_video_stream(ffprobe) {
            Some(Stream::VideoStream(v)) => v,
            _ => return Err(VcsrError::VideoStreamError),
        };
        let text = match &video_stream.duration {
            Some(d) => chars_of(d.as_str()),
            None => chars_of(ffprobe.format.duration.as_str()),
        };
        match seconds_to_millis(&text) {
            Some(ms) => Ok((ms, MediaInfo::pretty_duration(ms, true, true))),
            None => Err(VcsrError::FloatError),
        }
    }

    /// The file name that the probe reports.
    pub fn compute_filename(ffprobe: &Ffprobe) -> (r: Result<String, VcsrError>)
        ensures
            r matches Ok(n) ==> file_name_of(ffprobe.format.filename@) == Some(n@),
            r matches Err(e) ==> file_name_of(ffprobe.format.filename@) is None && e == VcsrError::MediaError,
    {
        match path_file_name(ffprobe.format.filename.as_str()) {
            Some(n) => Ok(n),
            None => Err(VcsrError::MediaError),
        }
    }

    /// The size in bytes that the probe reports, and in human readable form.
    pub fn compute_size(ffprobe: &Ffprobe) -> (r: Result<(u64, String), VcsrError>)
        ensures
            r matches Ok(p) ==> size_spec(*ffprobe) == Ok::<u64, VcsrError>(p.0) && p.1@ == human_size_spec(p.0 as nat),
            r matches Err(e) ==> size_spec(*ffprobe) == Err::<u64, VcsrError>(e),
    {
        match parse_u64(&chars_of(ffprobe.format.size.as_str())) {
            Some(size_bytes) => Ok((size_bytes, MediaInfo::human_readable_size(size_bytes))),
            None => Err(VcsrError::IntError),
        }
    }

    /// A size in bytes with one decimal in the largest binary unit that
    /// keeps it under 1024, such as `"1.5 KiB"`.
    pub fn human_readable_size(num: u64) -> (r: String)
        ensures
            r@ == human_size_spec(num as nat),
    {
        let mut k: u64 = 0;
        let mut p: u128 = 1;
        proof {
            lemma_pow1024_values();
        }
        while k < 6 && num as u128 >= p * 1024
            invariant
                k <= 6,
                p == pow1024(k as nat),
                pow1024(6) == 0x1000_0000_0000_0000,
                pow1024(7) == 0x40_0000_0000_0000_0000,
                p >= 1,
                k > 0 ==> p <= num,
                p <= 0x1_0000_0000_0000_0000,
                size_unit(num as nat, 0) == size_unit(num as nat, k as nat),
            decreases 7 - k,
        {
            p = p * 1024;
            k = k + 1;
        }
        assert(num < p * 1024);
        assert(size_unit(num as nat, k as nat) == k);
        let scaled = num as u128 * 10;
        let q = scaled / p;
        let rem = scaled % p;
        let t = if 2 * rem > p || (2 * rem == p && q % 2 == 1) { q + 1 } else { q };
        assert(t == round_half_even(num as nat * 10, pow1024(k as nat)));
        assert(t <= 10240) by (nonlinear_arith)
            requires
                t <= q + 1,
                q == scaled / p,
                scaled == num * 10,
                num < p * 1024,
                p >= 1;
        let mut out: Vec<char> = Vec::new();
        push_decimal(&mut out, (t / 10) as u64);
        out.push('.');
        out.push(digit_for((t % 10) as u64));
        out.push(' ');
        push_unit(&mut out, k);
        out.push('B');
        assert(out@ =~= human_size_spec(num as nat));
        string_of(&out)
    }
}

proof fn lemma_pow1024_values()
    ensures
        pow1024(6) == 0x1000_0000_0000_0000,
        pow1024(7) == 0x40_0000_0000_0000_0000,
{
    reveal_with_fuel(pow1024, 8);
}

fn digit_for(d: u64) -> (c: char)
    requires
        d < 10,
    ensures
        c == digit_char(d as nat),
{
    let mut out: Vec<char> = Vec::new();
    push_decimal(&mut out, d);
    assert(decimal(d as nat) == seq![digit_char(d as nat)]);
    out[0]
}

fn frame_rate(s: &String) -> (r: Result<u32, VcsrError>)
    ensures
        r == frame_rate_spec(s@),
{
    let cs = chars_of(s.as_str());
    let parts = split_chars(&cs, '/');
    if parts.len() == 2 {
        assert(parts@[0]@ == views(parts@)[0]);
        assert(parts@[1]@ == views(parts@)[1]);
        match (parse_u32(&parts[0]), parse_u32(&parts[1])) {
            (Some(a), Some(b)) => Ok(if b == 0 { 0 } else { a / b }),
            _ => Err(VcsrError::IntError),
        }
    } else {
        match parse_u32(&cs) {
            Some(v) => Ok(v),
            None => Err(VcsrError::IntError),
        }
    }
}

/// The first field of the media attributes that cannot be derived, in the
/// order: dimensions, duration, file name, size, frame rate, audio rates.
pub open spec fn attributes_check(f: Ffprobe) -> Result<(), VcsrError> {
    match first_video(f.streams@) {
        None => Err(VcsrError::VideoStreamError),
        Some(v) => if display_resolution_spec(v) is Err {
            Err(display_resolution_spec(v)->Err_0)
        } else if duration_spec(f) is Err {
            Err(duration_spec(f)->Err_0)
        } else if file_name_of(f.format.filename@) is None {
            Err(VcsrError::MediaError)
        } else if size_spec(f) is Err {
            Err(size_spec(f)->Err_0)
        } else if frame_rate_of(v) is Err {
            Err(frame_rate_of(v)->Err_0)
        } else {
            match first_audio(f.streams@) {
                None => Ok(()),
                Some(a) => if optional_u32_spec(a.sample_rate) is Err {
                    Err(optional_u32_spec(a.sample_rate)->Err_0)
                } else if optional_u32_spec(a.bit_rate) is Err {
                    Err(optional_u32_spec(a.bit_rate)->Err_0)
                } else {
                    Ok(())
                },
            }
        },
    }
}

/// `a` holds what the probe `f` says, each field derived as its own
/// function states.
pub open spec fn attributes_of(f: Ffprobe, a: MediaAttributes) -> bool {
    &&& first_video(f.streams@) is Some
    &&& {
        let v = first_video(f.streams@)->0;
        &&& display_resolution_spec(v) == Ok::<Dimensions, VcsrError>(a.dimensions)
        &&& duration_spec(f) == Ok::<u64, VcsrError>(a.duration_millis)
        &&& a.duration@ == pretty_spec(a.duration_millis as nat, true, true)
        &&& file_name_of(f.format.filename@) == Some(a.filename@)
        &&& size_spec(f) == Ok::<u64, VcsrError>(a.size_bytes)
        &&& a.size@ == human_size_spec(a.size_bytes as nat)
        &&& frame_rate_of(v) == Ok::<u32, VcsrError>(a.frame_rate)
        &&& a.video_codec == v.codec_name
        &&& a.video_codec_long == v.codec_long_name
        &&& a.sample_aspect_ratio == Some(v.sample_aspect_ratio)
        &&& a.display_aspect_ratio == v.display_aspect_ratio
    }
    &&& match first_audio(f.streams@) {
        None => a.audio_codec is None && a.audio_codec_long is None && a.audio_sample_rate is None
            && a.audio_bit_rate is None,
        Some(au) => a.audio_codec == Some(au.codec_name) && a.audio_codec_long == au.codec_long_name
            && optional_u32_spec(au.sample_rate) == Ok::<Option<u32>, VcsrError>(a.audio_sample_rate)
            && optional_u32_spec(au.bit_rate) == Ok::<Option<u32>, VcsrError>(a.audio_bit_rate),
    }
}

impl MediaInfo {
    /// Derives the media attributes from a probe result.
    pub fn create_media_attributes(ffprobe: &Ffprobe) -> (r: Result<MediaAttributes, VcsrError>)
        ensures
            r matches Ok(a) ==> attributes_check(*ffprobe) is Ok && attributes_of(*ffprobe, a),
            r matches Err(e) ==> attributes_check(*ffprobe) == Err::<(), VcsrError>(e),
    {
        let dimensions = Self::compute_display_resolution(ffprobe)?;
        let (duration_millis, duration) = Self::compute_duration(ffprobe)?;
        let filename = Self::compute_filename(ffprobe)?;
        let (size_bytes, size) = Self::compute_size(ffprobe)?;
        let video_stream = match Self::find_video_stream(ffprobe) {
            Some(Stream::VideoStream(v)) => v,
            _ => return Err(VcsrError::VideoStreamError),
        };
        let frame_rate = match &video_stream.avg_frame_rate {
            Some(avg_frame_rate) => frame_rate(avg_frame_rate)?,
            None => 0,
        };
        let mut audio_codec = None;
        let mut audio_codec_long = None;
        let mut audio_sample_rate = None;
        let mut audio_bit_rate = None;
        if let Some(Stream::AudioStream(audio_stream)) = Self::find_audio_stream(ffprobe) {
            audio_sample_rate = parse_optional_u32(&audio_stream.sample_rate)?;
            audio_bit_rate = parse_optional_u32(&audio_stream.bit_rate)?;
            audio_codec = Some(audio_stream.codec_name.clone());
            audio_codec_long = clone_option(&audio_stream.codec_long_name);
        }
        Ok(MediaAttributes {
            dimensions,
            audio_codec,
            audio_codec_long,
            audio_bit_rate,
            audio_sample_rate,
            display_aspect_ratio: clone_option(&video_stream.display_aspect_ratio),
            duration,
            duration_millis,
            filename,
            frame_rate,
            sample_aspect_ratio: Some(video_stream.sample_aspect_ratio.clone()),
            size_bytes,
            size,
            video_codec: clone_option(&video_stream.codec_name),
            video_codec_long: clone_option(&video_stream.codec_long_name),
        })
    }

    /// A probe result together with the attributes derived from it.
    pub fn new(ffprobe: Ffprobe) -> (r: Result<MediaInfo, VcsrError>)
        ensures
            r matches Ok(m) ==> (m.ffprobe == ffprobe && m.media_attributes is Some
                && attributes_of(ffprobe, m.media_attributes->0)),
            r matches Err(e) ==> attributes_check(ffprobe) == Err::<(), VcsrError>(e),
    {
        let media_attributes = Self::create_media_attributes(&ffprobe)?;
        Ok(MediaInfo { ffprobe, media_attributes: Some(media_attributes) })
    }
}

} // verus!
