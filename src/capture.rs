//! The command line of a frame capture.
use vstd::prelude::*;
use vstd::string::StringExecFns;
use crate::constants::DEFAULT_ACCURATE_DELAY_MILLIS;
use crate::error::VcsrError;
use crate::models::{MediaCapture, MediaInfo};
use crate::text::{decimal, push_decimal, string_of};
use crate::timestamps::{pretty_spec, pretty_to_millis_spec};

verus! {

/// `WxH`.
pub open spec fn size_arg(width: nat, height: nat) -> Seq<char> {
    decimal(width) + seq!['x'] + decimal(height)
}

/// The frame filter: key frames, or frames of the given picture type.
pub open spec fn select_args(frame_type: Option<String>) -> Seq<Seq<char>> {
    match frame_type {
        None => Seq::<Seq<char>>::empty(),
        Some(t) => if t@ == "key"@ {
            seq!["-vf"@, "select=key"@]
        } else {
            seq!["-vf"@, "'select=eq(frame_type\\,"@ + t@ + ")'"@]
        },
    }
}

/// The arguments of the decoder for one capture at `time`, scaled to
/// `width` x `height` and written to `out` (`out.jpg` by default). In
/// accurate mode the decoder first seeks to `skip_delay` before the time
/// (not before the start), then decodes forward.
pub open spec fn capture_args_spec(
    c: MediaCapture,
    time: Seq<char>,
    width: nat,
    height: nat,
    out: Option<Seq<char>>,
) -> Result<Seq<Seq<char>>, VcsrError> {
    match pretty_to_millis_spec(time) {
        Err(e) => Err(e),
        Ok(t) => {
            let skip_time = if t >= c.skip_delay_millis { (t - c.skip_delay_millis) as nat } else { 0 };
            let seek = if !c.accurate {
                seq!["-ss"@, time]
            } else {
                seq!["-ss"@, pretty_spec(skip_time, false, true), "-ss"@, pretty_spec(c.skip_delay_millis as nat, false, true)]
            };
            let out_path = match out { Some(o) => o, None => "out.jpg"@ };
            Ok(seek + seq!["-i"@, c.path@, "-vframes"@, "1"@, "-s"@, size_arg(width, height)]
                + select_args(c.frame_type) + seq!["-y"@, out_path])
        },
    }
}

pub open spec fn string_views(v: Seq<String>) -> Seq<Seq<char>> {
    v.map_values(|s: String| s@)
}

/// The frame size argument, `WxH`.
pub fn size_arg_text(width: u64, height: u64) -> (r: String)
    ensures
        r@ == size_arg(width as nat, height as nat),
{
    let mut size: Vec<char> = Vec::new();
    push_decimal(&mut size, width);
    size.push('x');
    push_decimal(&mut size, height);
    assert(size@ =~= size_arg(width as nat, height as nat));
    string_of(&size)
}

fn push_str(args: &mut Vec<String>, s: &str)
    ensures
        string_views(final(args)@) == string_views(old(args)@).push(s@),
{
    args.push(String::from_str(s));
    assert(string_views(args@) =~= string_views(old(args)@).push(s@));
}

fn push_string(args: &mut Vec<String>, s: String)
    ensures
        string_views(final(args)@) == string_views(old(args)@).push(s@),
{
    args.push(s);
    assert(string_views(args@) =~= string_views(old(args)@).push(s@));
}

fn is_key(s: &String) -> (r: bool)
    ensures
        r == (s@ == "key"@),
{
    let key = String::from_str("key");
    *s == key
}

impl MediaCapture {
    /// Captures from `path`; in accurate mode the decoder seeks to
    /// `skip_delay_millis` (one second by default) before each capture time.
    pub fn new(path: String, accurate: bool, skip_delay_millis: Option<u64>, frame_type: Option<String>) -> (r: MediaCapture)
        ensures
            r.path == path,
            r.accurate == accurate,
            r.skip_delay_millis == skip_delay_millis.unwrap_or(DEFAULT_ACCURATE_DELAY_MILLIS),
            r.frame_type == frame_type,
    {
        let skip_delay_millis = match skip_delay_millis {
            Some(s) => s,
            None => DEFAULT_ACCURATE_DELAY_MILLIS,
        };
        MediaCapture { path, accurate, skip_delay_millis, frame_type }
    }

    /// The decoder arguments that capture the frame at `time`.
    pub fn capture_args(&self, time: &str, width: u64, height: u64, out_path: Option<&str>) -> (r: Result<Vec<String>, VcsrError>)
        ensures
            r matches Ok(v) ==> capture_args_spec(*self, time@, width as nat, height as nat, match out_path { Some(o) => Some(o@), None => None }) == Ok::<Seq<Seq<char>>, VcsrError>(string_views(v@)),
            r matches Err(e) ==> capture_args_spec(*self, time@, width as nat, height as nat, match out_path { Some(o) => Some(o@), None => None }) == Err::<Seq<Seq<char>>, VcsrError>(e),
    {
        let time_millis = MediaInfo::pretty_to_seconds(time)?;
        let skip_time = if time_millis >= self.skip_delay_millis { time_millis - self.skip_delay_millis } else { 0 };
        let mut args: Vec<String> = Vec::new();
        assert(string_views(args@) =~= Seq::<Seq<char>>::empty());
        if !self.accurate {
            push_str(&mut args, "-ss");
            push_str(&mut args, time);
        } else {
            push_str(&mut args, "-ss");
            push_string(&mut args, MediaInfo::pretty_duration(skip_time, false, true));
            push_str(&mut args, "-ss");
            push_string(&mut args, MediaInfo::pretty_duration(self.skip_delay_millis, false, true));
        }
        let ghost seek = string_views(args@);
        push_str(&mut args, "-i");
        push_string(&mut args, self.path.clone());
        push_str(&mut args, "-vframes");
        push_str(&mut args, "1");
        push_str(&mut args, "-s");
        push_string(&mut args, size_arg_text(width, height));
        let ghost before_select = string_views(args@);
        match &self.frame_type {
            Some(frame_type) => {
                push_str(&mut args, "-vf");
                if is_key(frame_type) {
                    push_str(&mut args, "select=key");
                } else {
                    let filter = String::from_str("'select=eq(frame_type\\,");
                    let filter = filter.concat(frame_type.as_str());
                    let filter = filter.concat(")'");
                    push_string(&mut args, filter);
                }
            },
            None => {},
        }
        assert(string_views(args@) =~= before_select + select_args(self.frame_type));
        push_str(&mut args, "-y");
        match out_path {
            Some(o) => push_str(&mut args, o),
            None => push_str(&mut args, "out.jpg"),
        }
        let ghost out_spec = match out_path { Some(o) => Some(o@), None => None::<Seq<char>> };
        assert(string_views(args@) =~= capture_args_spec(*self, time@, width as nat, height as nat, out_spec)->Ok_0);
        Ok(args)
    }
}

} // verus!
