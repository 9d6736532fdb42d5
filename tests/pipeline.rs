use vcsr::capture::size_arg_text;
use vcsr::colour::{decode_hex, putalpha};
use vcsr::error::VcsrError;
use vcsr::grid_from_str;
use vcsr::layout::{
    compute_timestamp_position, contact_sheet_layout, grid_desired_size, max_line_length,
    rounded_rect_fits,
};
use vcsr::metadata::{metadata_template, next_wrapped_line, prepare_metadata_text_lines, wrap_metadata_line};
use vcsr::models::{
    default_sample_aspect_ratio, AudioStream, Dimensions, Ffprobe, Format, Frame, Grid,
    MediaAttributes, MediaCapture, MediaInfo, MetadataPosition, Stream, StreamTags,
    TimestampPosition, VideoStream,
};
use vcsr::params::{derive_parameters, sample_times, SheetRequest};
use vcsr::scoring::BLUR_UNIT;
use vcsr::selection::{select_colour_variety, select_sharpest_images, sort_frames, FrameOrder};
use vcsr::timestamps::{timestamp_generator, timestamp_millis, total_delay_seconds};

fn frame(name: &str, timestamp: u64, blurriness: u64, avg_colour: u64) -> Frame {
    Frame { avg_colour, blurriness, filename: name.to_string(), timestamp }
}

fn hd() -> Dimensions {
    Dimensions {
        display_height: Some(1080),
        display_width: Some(1920),
        sample_height: Some(1080),
        sample_width: Some(1920),
    }
}

fn request() -> SheetRequest {
    SheetRequest {
        grid: Grid { x: 4, y: 4 },
        interval_seconds: None,
        manual_timestamps: vec![],
        num_samples: None,
        delay_percent: None,
        start_delay_percent: 700,
        end_delay_percent: 700,
        vcs_width: 1500,
        actual_size: false,
        grid_spacing: None,
        grid_horizontal_spacing: 15,
        grid_vertical_spacing: 15,
        metadata_margin: 15,
        metadata_horizontal_margin: 15,
        metadata_vertical_margin: 15,
    }
}

fn probe(streams: Vec<Stream>) -> Ffprobe {
    Ffprobe {
        streams,
        format: Format {
            duration: "120.500000".to_string(),
            filename: "/videos/holiday.mp4".to_string(),
            size: "1536".to_string(),
        },
    }
}

fn video() -> VideoStream {
    VideoStream {
        avg_frame_rate: Some("30000/1001".to_string()),
        codec_long_name: Some("H.264".to_string()),
        codec_name: Some("h264".to_string()),
        display_aspect_ratio: Some("16:9".to_string()),
        duration: None,
        height: Some(1080),
        sample_aspect_ratio: "1:1".to_string(),
        tags: StreamTags { rotate: None },
        width: Some(1920),
    }
}

// ---- grid shapes

#[test]
fn grid_parses_columns_and_rows() {
    assert_eq!(grid_from_str("4x5"), Ok(Grid { x: 4, y: 5 }));
    assert_eq!(grid_from_str("0x3"), Ok(Grid { x: 0, y: 3 }));
    assert_eq!(Grid { x: 4, y: 5 }.to_text(), "4x5");
}

#[test]
fn grid_shape_errors() {
    assert_eq!(grid_from_str("4x5x6"), Err(VcsrError::GridShape));
    assert_eq!(grid_from_str("45"), Err(VcsrError::GridShape));
    assert_eq!(grid_from_str("ax5"), Err(VcsrError::IntError));
    assert_eq!(grid_from_str("4x"), Err(VcsrError::IntError));
}

// ---- clock notation

#[test]
fn pretty_duration_formats() {
    assert_eq!(MediaInfo::pretty_duration(3_723_456, true, true), "1:02:03.456");
    assert_eq!(MediaInfo::pretty_duration(65_123, false, false), "01:05");
    assert_eq!(MediaInfo::pretty_duration(65_123, true, false), "01:05.12");
    assert_eq!(MediaInfo::pretty_duration(65_007, false, true), "01:05.007");
    assert_eq!(MediaInfo::pretty_duration(0, true, true), "00:00.000");
}

#[test]
fn pretty_to_seconds_reads_clock_notation() {
    assert_eq!(MediaInfo::pretty_to_seconds("1:02:03.456"), Ok(3_723_456));
    assert_eq!(MediaInfo::pretty_to_seconds("01:05.500"), Ok(65_500));
    assert_eq!(MediaInfo::pretty_to_seconds("01:05"), Ok(65_000));
    assert_eq!(MediaInfo::pretty_to_seconds("bad"), Err(VcsrError::FloatError));
    assert_eq!(MediaInfo::pretty_to_seconds("12"), Err(VcsrError::FloatError));
}

#[test]
fn pretty_round_trip_values() {
    for ms in [0u64, 1, 999, 59_999, 60_000, 3_599_999, 3_600_000, 359_999_000, 359_999_999] {
        let text = MediaInfo::pretty_duration(ms, true, true);
        assert_eq!(MediaInfo::pretty_to_seconds(&text), Ok(ms), "{}", text);
    }
}

#[test]
fn parse_duration_components() {
    let t = MediaInfo::parse_duration(3_723_456);
    assert_eq!((t.hours, t.minutes, t.seconds, t.millis, t.centis), (1, 2, 3, 456, 45));
}

// ---- timestamps

#[test]
fn timestamps_even_subdivision() {
    // 120 s clip, 10% delays: captures between 12 s and 108 s
    assert_eq!(total_delay_seconds(120_000, 1000, 1000), 24_000);
    let ts = timestamp_millis(120_000, 1000, 1000, None, 4).unwrap();
    assert_eq!(ts, vec![31_200, 50_400, 69_600, 88_800]);
    let text = timestamp_generator(120_000, 1000, 1000, None, 4).unwrap();
    assert_eq!(text, vec!["00:31.200", "00:50.400", "01:09.600", "01:28.800"]);
}

#[test]
fn timestamps_floor_once() {
    // an 11.010 s clip in 11 parts: the 10th time is 10/11 of it, 10.009 s
    let ts = timestamp_millis(11_010, 0, 0, None, 10).unwrap();
    assert_eq!(ts[0], 1_000);
    assert_eq!(ts[9], 10_009);
    let text = timestamp_generator(11_010, 0, 0, None, 10).unwrap();
    assert_eq!(text[9], "00:10.009");
}

#[test]
fn timestamps_count_and_order() {
    for n in [0u64, 1, 7, 16, 100] {
        let ts = timestamp_millis(600_000, 700, 700, None, n).unwrap();
        assert_eq!(ts.len() as u64, n);
        for w in ts.windows(2) {
            assert!(w[0] < w[1]);
        }
        for t in &ts {
            assert!(*t >= 42_000 && *t <= 600_000 - 42_000);
        }
    }
}

#[test]
fn timestamps_with_interval() {
    assert_eq!(timestamp_millis(60_000, 0, 0, Some(10_000), 3), Some(vec![10_000, 20_000, 30_000]));
    assert_eq!(timestamp_millis(60_000, 0, 0, Some(u64::MAX), 3), None);
    assert_eq!(timestamp_millis(60_000, 0, 0, Some(u64::MAX), 0), Some(vec![]));
    assert_eq!(timestamp_millis(60_000, 0, 0, Some(u64::MAX / 2), 1), Some(vec![u64::MAX / 2]));
}

// ---- scoring

#[test]
fn avg9x_even_length() {
    let desc: Vec<u64> = (1..=20).rev().collect();
    // the mean of 11 and 10, truncated
    assert_eq!(MediaCapture::avg9x(desc, Some(100)), 10);
    let scaled: Vec<u64> = (1..=20).rev().map(|v| v * 1000).collect();
    assert_eq!(MediaCapture::avg9x(scaled, Some(100)), 10_500);
}

#[test]
fn avg9x_odd_length() {
    let desc: Vec<u64> = (1..=19).rev().map(|v| v * 1000).collect();
    // the central value, 10, halved
    assert_eq!(MediaCapture::avg9x(desc, Some(100)), 5000);
    let desc: Vec<u64> = (1..=20).rev().map(|v| v * 1000).collect();
    // 5% of 20 values is one value, halved
    assert_eq!(MediaCapture::avg9x(desc, None), 10_000);
}

#[test]
fn blurriness_from_magnitudes() {
    // distinct values 40000, 39000, ..., 1000: 5% of 40 is 2, mean of 40000 and 39000
    let mut mags: Vec<u64> = (1..=40).map(|v| v * 1000).collect();
    mags.extend((1..=40).map(|v| v * 1000));
    assert_eq!(MediaCapture::compute_blurrines(mags), BLUR_UNIT * 1000 / 39_500);
    assert_eq!(MediaCapture::compute_blurrines(vec![5, 5, 5]), BLUR_UNIT);
    assert_eq!(MediaCapture::compute_blurrines(vec![0; 100]), BLUR_UNIT);
}

#[test]
fn average_colour_of_pixels() {
    let pixels = vec![255, 0, 0, 255, 0, 0, 255, 7];
    // (255 + 255) / 2 pixels / 3 channels = 85
    assert_eq!(MediaCapture::compute_avg_colour(&pixels), 85_000);
    assert_eq!(MediaCapture::compute_avg_colour(&vec![]), 0);
    assert_eq!(MediaCapture::compute_avg_colour(&vec![10, 20, 31, 0]), 20_333);
}

// ---- selection

#[test]
fn sort_frames_by_key() {
    let mut frames = vec![frame("b", 20, 3, 0), frame("a", 10, 5, 0), frame("c", 30, 1, 0)];
    let by_time = sort_frames(&mut frames, FrameOrder::Timestamp);
    assert!(frames.is_empty());
    let names: Vec<&str> = by_time.iter().map(|f| f.filename.as_str()).collect();
    assert_eq!(names, vec!["a", "b", "c"]);
}

#[test]
fn colour_variety_keeps_sharpest() {
    let mut frames = vec![
        frame("a", 1, 30, 100),
        frame("b", 2, 10, 200),
        frame("c", 3, 20, 50),
        frame("d", 4, 40, 10),
    ];
    let selected = select_colour_variety(&mut frames, 2);
    assert!(frames.is_empty());
    let names: Vec<&str> = selected.iter().map(|f| f.filename.as_str()).collect();
    assert_eq!(names, vec!["b", "c"]);
}

#[test]
fn colour_variety_equal_colours() {
    let mut frames = vec![frame("a", 1, 3, 7), frame("b", 2, 1, 7), frame("c", 3, 2, 7)];
    let selected = select_colour_variety(&mut frames, 5);
    let names: Vec<&str> = selected.iter().map(|f| f.filename.as_str()).collect();
    assert_eq!(names, vec!["b", "c", "a"]);
    let mut none: Vec<Frame> = vec![];
    assert!(select_colour_variety(&mut none, 3).is_empty());
}

#[test]
fn selector_returns_distinct_input_frames() {
    for k in 0..=6u64 {
        let mut frames: Vec<Frame> = (0..6)
            .map(|i| frame(&format!("f{}", i), i * 10, (i * 7) % 5, (i * 13) % 4))
            .collect();
        let selected = select_colour_variety(&mut frames, k);
        assert_eq!(selected.len() as u64, k);
        let mut names: Vec<String> = selected.iter().map(|f| f.filename.clone()).collect();
        names.sort();
        names.dedup();
        assert_eq!(names.len() as u64, k);
        assert!(names.iter().all(|n| n.starts_with('f')));
    }
}

#[test]
fn sharpest_images_buckets_by_time() {
    let frames: Vec<Frame> = (0..6).rev().map(|i| frame(&format!("f{}", i), i * 1000, 10 - i, 0)).collect();
    let (selected, all) = select_sharpest_images(frames, 3, 3);
    let times: Vec<u64> = all.iter().map(|f| f.timestamp).collect();
    assert_eq!(times, vec![0, 1000, 2000, 3000, 4000, 5000]);
    // chunks of two; the last frame of each chunk: f1, f3, f5
    let mut names: Vec<String> = selected.iter().map(|f| f.filename.clone()).collect();
    names.sort();
    assert_eq!(names, vec!["f1", "f3", "f5"]);
}

#[test]
fn sharpest_images_single_group() {
    let frames: Vec<Frame> = (0..4).map(|i| frame(&format!("f{}", i), i, 4 - i, 0)).collect();
    let (selected, all) = select_sharpest_images(frames, 1, 1);
    assert_eq!(all.len(), 4);
    assert_eq!(selected.len(), 1);
    assert_eq!(selected[0].filename, "f3");
}

// ---- layout

#[test]
fn grid_sizing_of_default_sheet() {
    let cell = grid_desired_size(&Grid { x: 4, y: 4 }, &hd(), Some(1500), Some(15));
    assert_eq!(cell.x, 363);
    assert_eq!(cell.y, 204);
    let cell = grid_desired_size(&Grid { x: 4, y: 4 }, &hd(), None, None);
    assert_eq!(cell.x, (1500 - 3 * 5) / 4);
    assert_eq!(MediaInfo::desired_size(&hd(), None), Grid { x: 1500, y: 843 });
}

#[test]
fn end_to_end_two_by_two() {
    let mut req = request();
    req.grid = Grid { x: 2, y: 2 };
    req.start_delay_percent = 1000;
    req.end_delay_percent = 1000;
    let p = derive_parameters(&req, 120_000, 1920).unwrap();
    assert_eq!(p.num_selected, 4);
    assert_eq!(p.num_samples, 4);
    let ts = sample_times(&p, 120_000).unwrap();
    assert_eq!(ts.len(), 4);
    assert!(ts.iter().all(|t| *t > 12_000 && *t < 108_000));
    let gaps: Vec<u64> = ts.windows(2).map(|w| w[1] - w[0]).collect();
    assert!(gaps.iter().all(|g| *g == gaps[0]));
    let cell = grid_desired_size(&p.grid, &hd(), Some(p.vcs_width), Some(p.grid_horizontal_spacing));
    let layout = contact_sheet_layout(&p.grid, &cell, 15, 15, MetadataPosition::Hidden, 0, 0, 15, 4).unwrap();
    assert_eq!(layout.width, 2 * (cell.x + 15) + 15);
    assert_eq!(layout.positions, vec![
        (15, 15),
        (15 + cell.x + 15, 15),
        (15, 15 + cell.y + 15),
        (15 + cell.x + 15, 15 + cell.y + 15),
    ]);
    for (i, a) in layout.positions.iter().enumerate() {
        for b in layout.positions.iter().skip(i + 1) {
            let apart = a.0 + cell.x <= b.0 || b.0 + cell.x <= a.0 || a.1 + cell.y <= b.1 || b.1 + cell.y <= a.1;
            assert!(apart);
        }
    }
}

#[test]
fn layout_with_header() {
    let cell = Grid { x: 100, y: 50 };
    let grid = Grid { x: 3, y: 2 };
    let top = contact_sheet_layout(&grid, &cell, 5, 5, MetadataPosition::Top, 4, 19, 10, 5).unwrap();
    assert_eq!(top.header_height, 2 * 10 + 4 * 19);
    assert_eq!(top.height, 2 * 55 + 5 + 96);
    assert_eq!(top.positions[0], (5, 96 + 5));
    assert_eq!(top.positions[4], (5 + 105, 96 + 5 + 55));
    assert_eq!(top.metadata_y, 0);
    let bottom = contact_sheet_layout(&grid, &cell, 5, 5, MetadataPosition::Bottom, 4, 19, 10, 6).unwrap();
    assert_eq!(bottom.positions[0], (5, 5));
    assert_eq!(bottom.metadata_y, 5 + 2 * 55 + 5);
    assert!(contact_sheet_layout(&grid, &Grid { x: 2_000_000_000, y: 1 }, 5, 5, MetadataPosition::Hidden, 0, 0, 0, 1).is_none());
}

#[test]
fn timestamp_badge_positions() {
    let cell = Grid { x: 363, y: 204 };
    let (ul, size) = compute_timestamp_position(TimestampPosition::SE, 5, 5, 15, 15, (60, 12), &cell, 3, 1);
    assert_eq!(size, (66, 14));
    assert_eq!(ul, (15 + 363 - 60 - 5 - 6, 15 + 204 - 12 - 5 - 2));
    let (ul, _) = compute_timestamp_position(TimestampPosition::NW, 5, 5, 0, 0, (60, 12), &cell, 3, 1);
    assert_eq!(ul, (5, 5));
    let (ul, _) = compute_timestamp_position(TimestampPosition::Center, 5, 5, 0, 0, (60, 12), &cell, 3, 1);
    assert_eq!(ul, (181 - 30 - 3, 102 - 6 - 1));
    // a West badge wider than its cell still has a position
    let small = Grid { x: 40, y: 30 };
    let (ul, size) = compute_timestamp_position(TimestampPosition::West, 5, 5, 10, 10, (60, 12), &small, 3, 1);
    assert_eq!(ul, (15, 10 + 15 - 6 - 1));
    assert_eq!(size, (66, 14));
}

#[test]
fn rounded_rectangle_radius() {
    assert!(rounded_rect_fits(10, 6, 6));
    assert!(!rounded_rect_fits(10, 6, 7));
    assert!(!rounded_rect_fits(2, 2, 3));
}

#[test]
fn line_length_from_prefix_widths() {
    assert_eq!(max_line_length(&vec![0, 10, 20, 30, 40], 5, 35), 2);
    assert_eq!(max_line_length(&vec![0, 5, 10, 20], 0, 15), 2);
    assert_eq!(max_line_length(&vec![0, 10, 20], 5, 100), 2);
    assert_eq!(max_line_length(&vec![30, 40], 0, 5), 0);
}

// ---- colours

#[test]
fn hex_decoding() {
    assert_eq!(decode_hex("ff0000"), Ok((255, 0, 0, 255)));
    assert_eq!(decode_hex("ff0000aa"), Ok((255, 0, 0, 170)));
    assert_eq!(decode_hex("39897eFF"), Ok((0x39, 0x89, 0x7e, 255)));
    assert_eq!(decode_hex("abc"), Err(VcsrError::ColourError));
    assert_eq!(decode_hex("abcd"), Err(VcsrError::ColourError));
    assert_eq!(decode_hex("gg0000"), Err(VcsrError::ColourError));
}

#[test]
fn alpha_channel_replaced() {
    let mut pixels = vec![1, 2, 3, 4, 5, 6, 7, 8];
    putalpha(&mut pixels, 200);
    assert_eq!(pixels, vec![1, 2, 3, 200, 5, 6, 7, 200]);
}

// ---- media attributes

#[test]
fn sizes_in_binary_units() {
    assert_eq!(MediaInfo::human_readable_size(0), "0.0 B");
    assert_eq!(MediaInfo::human_readable_size(1023), "1023.0 B");
    assert_eq!(MediaInfo::human_readable_size(1536), "1.5 KiB");
    assert_eq!(MediaInfo::human_readable_size(1_048_576), "1.0 MiB");
    assert_eq!(MediaInfo::human_readable_size(u64::MAX), "16.0 EiB");
    for n in [1u64, 1000, 1024, 1100, 123_456_789, 5_000_000_000, u64::MAX] {
        let mut v = n as f64;
        let mut expected = String::new();
        for unit in ["", "Ki", "Mi", "Gi", "Ti", "Pi", "Ei", "Zi"] {
            if v.abs() < 1024.0 {
                expected = format!("{:3.1} {}B", v, unit);
                break;
            }
            v /= 1024.0;
        }
        if n < (1u64 << 53) {
            assert_eq!(MediaInfo::human_readable_size(n), expected);
        }
    }
}

#[test]
fn display_resolution_square_pixels() {
    let f = probe(vec![Stream::VideoStream(video())]);
    let d = MediaInfo::compute_display_resolution(&f).unwrap();
    assert_eq!(d, hd());
}

#[test]
fn display_resolution_anamorphic_and_rotated() {
    let mut v = video();
    v.width = Some(720);
    v.height = Some(576);
    v.sample_aspect_ratio = "16:15".to_string();
    let d = MediaInfo::compute_display_resolution(&probe(vec![Stream::VideoStream(v)])).unwrap();
    assert_eq!((d.display_width, d.display_height), (Some(768), Some(576)));
    let mut v = video();
    v.tags = StreamTags { rotate: Some(90) };
    let d = MediaInfo::compute_display_resolution(&probe(vec![Stream::VideoStream(v)])).unwrap();
    assert_eq!((d.sample_width, d.sample_height), (Some(1080), Some(1920)));
    let mut v = video();
    v.sample_aspect_ratio = "0:1".to_string();
    let d = MediaInfo::compute_display_resolution(&probe(vec![Stream::VideoStream(v)])).unwrap();
    assert_eq!(d.display_width, Some(1920));
}

#[test]
fn display_resolution_errors() {
    assert_eq!(MediaInfo::compute_display_resolution(&probe(vec![])), Err(VcsrError::VideoStreamError));
    let mut v = video();
    v.sample_aspect_ratio = "4:0".to_string();
    assert_eq!(MediaInfo::compute_display_resolution(&probe(vec![Stream::VideoStream(v)])), Err(VcsrError::IntError));
    let mut v = video();
    v.sample_aspect_ratio = "4:3".to_string();
    v.width = None;
    assert_eq!(MediaInfo::compute_display_resolution(&probe(vec![Stream::VideoStream(v)])), Err(VcsrError::MediaError));
}

#[test]
fn media_attributes_from_probe() {
    let audio = AudioStream {
        bit_rate: Some("128000".to_string()),
        codec_long_name: None,
        codec_name: "aac".to_string(),
        sample_rate: Some("48000".to_string()),
    };
    let f = probe(vec![Stream::AudioStream(audio), Stream::VideoStream(video())]);
    assert!(MediaInfo::find_video_stream(&f).is_some());
    assert!(MediaInfo::find_audio_stream(&f).is_some());
    let a = MediaInfo::create_media_attributes(&f).unwrap();
    assert_eq!(a.duration_millis, 120_500);
    assert_eq!(a.duration, "02:00.500");
    assert_eq!(a.filename, "holiday.mp4");
    assert_eq!(a.size_bytes, 1536);
    assert_eq!(a.size, "1.5 KiB");
    assert_eq!(a.frame_rate, 29);
    assert_eq!(a.audio_sample_rate, Some(48000));
    assert_eq!(a.audio_bit_rate, Some(128000));
    assert_eq!(a.audio_codec.as_deref(), Some("aac"));
    let info = MediaInfo::new(f).unwrap();
    assert!(info.media_attributes.is_some());
}

#[test]
fn media_attribute_errors() {
    let mut f = probe(vec![Stream::VideoStream(video())]);
    f.format.size = "big".to_string();
    assert_eq!(MediaInfo::create_media_attributes(&f).err(), Some(VcsrError::IntError));
    let mut f = probe(vec![Stream::VideoStream(video())]);
    f.format.duration = "N/A".to_string();
    assert_eq!(MediaInfo::compute_duration(&f).err(), Some(VcsrError::FloatError));
    let mut f = probe(vec![Stream::VideoStream(video())]);
    f.format.filename = "/".to_string();
    assert_eq!(MediaInfo::compute_filename(&f), Err(VcsrError::MediaError));
    assert_eq!(MediaInfo::new(probe(vec![])).err(), Some(VcsrError::VideoStreamError));
}

#[test]
fn stream_duration_preferred() {
    let mut v = video();
    v.duration = Some("10.25".to_string());
    let (ms, text) = MediaInfo::compute_duration(&probe(vec![Stream::VideoStream(v)])).unwrap();
    assert_eq!(ms, 10_250);
    assert_eq!(text, "00:10.250");
    assert_eq!(default_sample_aspect_ratio(), "1:1");
}

// ---- capture arguments

#[test]
fn capture_arguments_fast_and_accurate() {
    let fast = MediaCapture::new("in.mp4".to_string(), false, None, None);
    let args = fast.capture_args("00:31.200", 363, 204, Some("/tmp/a.png")).unwrap();
    assert_eq!(args, vec!["-ss", "00:31.200", "-i", "in.mp4", "-vframes", "1", "-s", "363x204", "-y", "/tmp/a.png"]);
    let accurate = MediaCapture::new("in.mp4".to_string(), true, None, Some("key".to_string()));
    let args = accurate.capture_args("00:31.200", 363, 204, None).unwrap();
    assert_eq!(args, vec!["-ss", "00:30.200", "-ss", "00:01.000", "-i", "in.mp4", "-vframes", "1", "-s", "363x204", "-vf", "select=key", "-y", "out.jpg"]);
    let typed = MediaCapture::new("in.mp4".to_string(), false, Some(500), Some("I".to_string()));
    let args = typed.capture_args("00:00.100", 10, 10, None).unwrap();
    assert_eq!(args[8], "-vf");
    assert_eq!(args[9], "'select=eq(frame_type\\,I)'");
    assert_eq!(typed.capture_args("soon", 10, 10, None), Err(VcsrError::FloatError));
    assert_eq!(size_arg_text(363, 204), "363x204");
}

// ---- parameters

#[test]
fn parameters_default_grid() {
    let p = derive_parameters(&request(), 600_000, 1920).unwrap();
    assert_eq!(p.grid, Grid { x: 4, y: 4 });
    assert_eq!((p.num_selected, p.num_samples, p.num_groups), (16, 16, 16));
    assert_eq!(p.manual_millis, Vec::<u64>::new());
}

#[test]
fn parameters_interval_deduces_square_grid() {
    let mut req = request();
    req.interval_seconds = Some(60);
    req.start_delay_percent = 0;
    req.end_delay_percent = 0;
    let p = derive_parameters(&req, 600_000, 1920).unwrap();
    assert_eq!(p.num_samples, 10);
    assert_eq!(p.grid, Grid { x: 4, y: 4 });
    assert_eq!((p.num_selected, p.num_groups), (10, 10));
    req.grid = Grid { x: 5, y: 0 };
    let p = derive_parameters(&req, 600_000, 1920).unwrap();
    assert_eq!(p.grid, Grid { x: 5, y: 2 });
    assert_eq!(sample_times(&p, 600_000).unwrap().len(), 10);
}

#[test]
fn parameters_keep_groups_within_selection() {
    let mut req = request();
    req.grid = Grid { x: 2, y: 2 };
    req.num_samples = Some(10);
    let p = derive_parameters(&req, 600_000, 1920).unwrap();
    assert_eq!((p.num_samples, p.num_selected, p.num_groups), (10, 4, 4));
    let frames: Vec<Frame> = (0..10).map(|i| frame(&format!("f{}", i), i * 1000, i, 0)).collect();
    let (selected, all) = select_sharpest_images(frames, p.num_groups, p.num_selected);
    assert_eq!(all.len(), 10);
    assert_eq!(selected.len(), 4);
}

#[test]
fn parameters_manual_timestamps() {
    let mut req = request();
    req.manual_timestamps = vec!["00:10.000".to_string(), "09:00.000".to_string(), "00:20.500".to_string()];
    let p = derive_parameters(&req, 60_000, 1920).unwrap();
    assert_eq!(p.manual_millis, vec![10_000, 20_500]);
    assert_eq!(p.num_samples, 2);
    assert_eq!(p.grid, Grid { x: 2, y: 2 });
    assert_eq!(sample_times(&p, 60_000), Some(vec![10_000, 20_500]));
}

#[test]
fn parameters_errors() {
    let mut req = request();
    req.interval_seconds = Some(5);
    req.manual_timestamps = vec!["00:01.000".to_string()];
    assert_eq!(derive_parameters(&req, 60_000, 1920).err(), Some(VcsrError::ArgumentError));
    let mut req = request();
    req.vcs_width = 900;
    req.actual_size = true;
    assert_eq!(derive_parameters(&req, 60_000, 1920).err(), Some(VcsrError::ArgumentError));
    let mut req = request();
    req.grid = Grid { x: 0, y: 3 };
    assert_eq!(derive_parameters(&req, 60_000, 1920).err(), Some(VcsrError::ArgumentError));
    let mut req = request();
    req.manual_timestamps = vec!["02:00.000".to_string()];
    assert_eq!(derive_parameters(&req, 60_000, 1920).err(), Some(VcsrError::TimestampError));
    let mut req = request();
    req.manual_timestamps = vec!["later".to_string()];
    assert_eq!(derive_parameters(&req, 60_000, 1920).err(), Some(VcsrError::FloatError));
}

#[test]
fn parameters_actual_size_and_spacing() {
    let mut req = request();
    req.actual_size = true;
    req.grid_spacing = Some(4);
    req.metadata_margin = 10;
    let p = derive_parameters(&req, 60_000, 640).unwrap();
    assert_eq!(p.vcs_width, 4 * 640 + 3 * 4);
    assert_eq!((p.grid_horizontal_spacing, p.grid_vertical_spacing), (4, 4));
    assert_eq!((p.metadata_horizontal_margin, p.metadata_vertical_margin), (15, 15));
}

// ---- metadata text

#[test]
fn metadata_lines_and_wrapping() {
    let a = MediaAttributes {
        dimensions: hd(),
        duration: "02:00.500".to_string(),
        filename: "holiday.mp4".to_string(),
        size: "1.5 KiB".to_string(),
        ..Default::default()
    };
    let lines = metadata_template(&a);
    assert_eq!(lines, vec!["holiday.mp4", "File size: 1.5 KiB", "Duration: 02:00.500", "Dimensions: 1920x1080"]);
    let wrapped = wrap_metadata_line("Dimensions: 1920x1080", 12);
    assert_eq!(wrapped, vec!["Dimensions:", " 1920x1080"]);
    assert_eq!(wrap_metadata_line("short", 80), vec!["short"]);
    let rest: Vec<char> = "abc def".chars().collect();
    let (kept, left) = next_wrapped_line(rest.clone(), Some("abc".to_string()));
    assert_eq!(kept, "abc");
    assert_eq!(left, vec![' ', 'd', 'e', 'f']);
    let (kept, left) = next_wrapped_line(rest.clone(), Some(String::new()));
    assert_eq!(kept, "");
    assert_eq!(left.len(), 6);
    let (kept, left) = next_wrapped_line(rest, None);
    assert_eq!(kept, "abc def");
    assert!(left.is_empty());
    let all = prepare_metadata_text_lines(&lines, &vec![80, 80, 80, 12]);
    assert_eq!(all.len(), 5);
}
