//! The data of the pipeline: grid shapes, dimensions, probe results, frames.
use vstd::prelude::*;
use crate::error::VcsrError;
use vstd::string::StringExecFns;
use crate::text::{chars_of, decimal, parse_u64, parse_unsigned, split, split_chars, views};

verus! {

/// A grid of `x` columns and `y` rows. A zero dimension is a placeholder
/// meaning "deduce from the sample count".
#[derive(Clone, Copy, Debug, Default, PartialEq, Eq, Structural)]
pub struct Grid {
    pub x: u64,
    pub y: u64,
}

pub open spec fn parse_u64_spec(s: Seq<char>) -> Option<u64> {
    match parse_unsigned(s) {
        Some(v) => if v <= u64::MAX { Some(v as u64) } else { None },
        None => None,
    }
}

/// `MxN`: more than two pieces is a shape error, as is a single piece;
/// a piece that is not a number is an integer error.
pub open spec fn grid_spec(s: Seq<char>) -> Result<Grid, VcsrError> {
    let p = split(s, 'x');
    if p.len() != 2 {
        Err(VcsrError::GridShape)
    } else {
        match (parse_u64_spec(p[0]), parse_u64_spec(p[1])) {
            (Some(x), Some(y)) => Ok(Grid { x, y }),
            _ => Err(VcsrError::IntError),
        }
    }
}

/// Raw sample dimensions and display-corrected dimensions of a video.
#[derive(Clone, Copy, Debug, Default, PartialEq, Eq, Structural)]
pub struct Dimensions {
    pub display_height: Option<u32>,
    pub display_width: Option<u32>,
    pub sample_height: Option<u32>,
    pub sample_width: Option<u32>,
}

/// A captured frame. Times are in milliseconds; `blurriness` is in units of
/// `BLUR_UNIT` (lower is sharper) and `avg_colour` in thousandths of an
/// intensity level on the 0..255 scale.
#[derive(Debug)]
pub struct Frame {
    pub avg_colour: u64,
    pub blurriness: u64,
    pub filename: String,
    pub timestamp: u64,
}

/// What the pipeline knows of a media file. Durations are in milliseconds.
#[derive(Debug, Default)]
pub struct MediaAttributes {
    pub dimensions: Dimensions,
    pub audio_codec: Option<String>,
    pub audio_codec_long: Option<String>,
    pub audio_bit_rate: Option<u32>,
    pub audio_sample_rate: Option<u32>,
    pub display_aspect_ratio: Option<String>,
    pub duration: String,
    pub duration_millis: u64,
    pub filename: String,
    pub frame_rate: u32,
    pub sample_aspect_ratio: Option<String>,
    pub size_bytes: u64,
    pub size: String,
    pub video_codec: Option<String>,
    pub video_codec_long: Option<String>,
}

/// A probe result together with the attributes derived from it.
#[derive(Debug, Default)]
pub struct MediaInfo {
    pub ffprobe: Ffprobe,
    pub media_attributes: Option<MediaAttributes>,
}

/// A duration broken into its clock components.
#[derive(Clone, Copy, Debug, PartialEq, Eq, Structural)]
pub struct Time {
    pub hours: u64,
    pub minutes: u64,
    pub seconds: u64,
    pub centis: u64,
    pub millis: u64,
}

/// A stream of a kind the pipeline does not read.
#[derive(Clone, Copy, Debug, Default, PartialEq, Eq, Structural)]
pub struct GenericStream {}

/// A stream of a probed file, told apart by its codec type.
#[derive(Debug)]
pub enum Stream {
    VideoStream(VideoStream),
    AudioStream(AudioStream),
}

/// Tags of a stream.
#[derive(Clone, Copy, Debug, Default, PartialEq, Eq, Structural)]
pub struct StreamTags {
    pub rotate: Option<u32>,
}

/// The fields of a video stream that the pipeline reads.
#[derive(Debug, Default)]
pub struct VideoStream {
    pub avg_frame_rate: Option<String>,
    pub codec_long_name: Option<String>,
    pub codec_name: Option<String>,
    pub display_aspect_ratio: Option<String>,
    pub duration: Option<String>,
    pub height: Option<u32>,
    pub sample_aspect_ratio: String,
    pub tags: StreamTags,
    pub width: Option<u32>,
}

/// The fields of an audio stream that the pipeline reads.
#[derive(Debug, Default)]
pub struct AudioStream {
    pub bit_rate: Option<String>,
    pub codec_long_name: Option<String>,
    pub codec_name: String,
    pub sample_rate: Option<String>,
}

/// The container format of a probed file.
#[derive(Debug, Default)]
pub struct Format {
    pub duration: String,
    pub filename: String,
    pub size: String,
}

/// The result of probing a media file.
#[derive(Debug, Default)]
pub struct Ffprobe {
    pub streams: Vec<Stream>,
    pub format: Format,
}

/// The sample aspect ratio assumed when a video stream states none.
pub fn default_sample_aspect_ratio() -> (r: String)
    ensures
        r@ == seq!['1', ':', '1'],
{
    let r = String::from_str("1:1");
    proof {
        reveal_strlit("1:1");
    }
    r
}

/// How frames are captured from a media file.
#[derive(Debug)]
pub struct MediaCapture {
    pub path: String,
    pub accurate: bool,
    pub skip_delay_millis: u64,
    pub frame_type: Option<String>,
}

/// A capture interval, as written on the command line.
#[derive(Debug)]
pub struct Interval {
    pub interval: String,
}

impl Interval {
    pub fn from_str(s: &str) -> (r: Interval)
        ensures
            r.interval@ == s@,
    {
        Interval { interval: String::from_str(s) }
    }
}

/// Where the metadata header goes.
#[derive(Clone, Copy, Debug, PartialEq, Eq, Structural)]
pub enum MetadataPosition {
    Top,
    Bottom,
    Hidden,
}

/// Where a timestamp badge goes within its cell.
#[derive(Clone, Copy, Debug, PartialEq, Eq, Structural)]
pub enum TimestampPosition {
    North,
    South,
    East,
    West,
    NE,
    NW,
    SE,
    SW,
    Center,
}

impl Grid {
    pub fn parse(s: &str) -> (r: Result<Grid, VcsrError>)
        ensures
            r == grid_spec(s@),
    {
        let cs = chars_of(s);
        let parts = split_chars(&cs, 'x');
        if parts.len() != 2 {
            return Err(VcsrError::GridShape);
        }
        assert(parts@[0]@ == views(parts@)[0]);
        assert(parts@[1]@ == views(parts@)[1]);
        let y = parse_u64(&parts[1]);
        let x = parse_u64(&parts[0]);
        match (x, y) {
            (Some(x), Some(y)) => Ok(Grid { x, y }),
            _ => Err(VcsrError::IntError),
        }
    }

    /// The grid written `MxN`.
    pub fn to_text(&self) -> (r: String)
        ensures
            r@ == decimal(self.x as nat) + seq!['x'] + decimal(self.y as nat),
    {
        let mut out: Vec<char> = Vec::new();
        crate::text::push_decimal(&mut out, self.x);
        out.push('x');
        crate::text::push_decimal(&mut out, self.y);
        assert(out@ =~= decimal(self.x as nat) + seq!['x'] + decimal(self.y as nat));
        crate::text::string_of(&out)
    }
}

} // verus!
