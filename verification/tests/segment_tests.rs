use rumble::playlist::{render_media_playlist, ContentType, Track};
use rumble::segment::{
    audio_segment_handler, get_audio_segment, get_subtitle_segment, get_video_segment,
    parse_segment_name, segment_number, subtitle_segment_handler, video_segment_handler,
    SegmentKind, SegmentRejection,
};

#[test]
fn video_segment_job() {
    let job = video_segment_handler("movie.mkv", 720, "0003.ts").unwrap();
    assert_eq!(job.content_type, ContentType::MpegTs);
    assert_eq!(
        job.args,
        vec![
            "-timelimit", "45", "-ss", "18.0000", "-i", "movie.mkv", "-muxdelay", "0", "-t",
            "6.0000", "-vf", "scale=-2:720", "-vcodec", "libx264", "-preset", "veryfast", "-c:a",
            "aac", "-b:a", "128k", "-ac", "2", "-pix_fmt", "yuv420p", "-force_key_frames",
            "expr:gte(t,n_forced*6.0000)", "-f", "ssegment", "-segment_time", "6.0000",
            "-initial_offset", "18.0000", "pipe:%04d.ts"
        ]
    );
}

#[test]
fn audio_segment_job() {
    let job = audio_segment_handler("movie.mkv", 2, "0010.aac").unwrap();
    assert_eq!(job.content_type, ContentType::Aac);
    assert_eq!(
        job.args,
        vec![
            "-timelimit", "45", "-ss", "60.0000", "-i", "movie.mkv", "-muxdelay", "0", "-t",
            "6.0000", "-map", "0:a:2", "-c:a", "aac", "-b:a", "128k", "-ac", "2",
            "-force_key_frames", "expr:gte(t,n_forced*6.0000)", "-f", "ssegment",
            "-segment_time", "6.0000", "-initial_offset", "60.0000", "pipe:%04d.ts"
        ]
    );
}

#[test]
fn subtitle_job_takes_the_whole_track() {
    let job = subtitle_segment_handler("movie.mkv", 1, "0007.webvtt").unwrap();
    assert_eq!(job.content_type, ContentType::WebVtt);
    assert_eq!(
        job.args,
        vec![
            "-timelimit", "45", "-i", "movie.mkv", "-muxdelay", "0", "-map", "0:s:1", "-c:s",
            "webvtt", "pipe:sub.vtt"
        ]
    );
    assert_eq!(get_subtitle_segment("movie.mkv", 1, 0).args, job.args);
}

#[test]
fn segment_names_are_checked() {
    assert_eq!(parse_segment_name(SegmentKind::Video, "0042.ts"), Ok(42));
    assert_eq!(parse_segment_name(SegmentKind::Video, "9999.ts"), Ok(9999));
    assert_eq!(parse_segment_name(SegmentKind::Audio, "0000.aac"), Ok(0));
    assert_eq!(parse_segment_name(SegmentKind::Subtitle, "0001.webvtt"), Ok(1));
    // Any character may stand between the number and the extension.
    assert_eq!(parse_segment_name(SegmentKind::Video, "0005xts"), Ok(5));
    for bad in ["042.ts", "00042.ts", "0042.ts.bak", "abcd.ts", "0042.aac", "", "0042.t"] {
        assert_eq!(parse_segment_name(SegmentKind::Video, bad), Err(SegmentRejection::NotFound), "{:?}", bad);
    }
    assert_eq!(video_segment_handler("m", 360, "x.ts").unwrap_err(), SegmentRejection::NotFound);
    assert_eq!(audio_segment_handler("m", 0, "0001.ts").unwrap_err(), SegmentRejection::NotFound);
    assert_eq!(subtitle_segment_handler("m", 0, "0001.vtt").unwrap_err(), SegmentRejection::NotFound);
}

#[test]
fn unicode_digits_match_but_do_not_parse() {
    // `\d` matches any Unicode decimal digit; `str::parse` reads only ASCII ones.
    assert_eq!(
        parse_segment_name(SegmentKind::Video, "\u{661}\u{662}\u{663}\u{664}.ts"),
        Err(SegmentRejection::InvalidNumber)
    );
}

#[test]
fn segment_number_errors() {
    assert_eq!(segment_number(None), Err(SegmentRejection::MissingNumber));
    assert_eq!(segment_number(Some("12a4")), Err(SegmentRejection::InvalidNumber));
    assert_eq!(segment_number(Some("12345")), Err(SegmentRejection::NumberTooLarge));
    assert_eq!(segment_number(Some("0042")), Ok(42));
}

#[test]
fn playlist_segment_names_read_back() {
    let body = render_media_playlist(Track::Video { resolution: 720 }, "m.mkv", 60000 * 12 + 1);
    let names: Vec<&str> = body
        .lines()
        .filter(|l| l.starts_with("/video/"))
        .map(|l| l.rsplit('/').next().unwrap())
        .collect();
    assert_eq!(names.len(), 13);
    for (i, name) in names.iter().enumerate() {
        assert_eq!(parse_segment_name(SegmentKind::Video, name), Ok(i));
    }
}

#[test]
fn jobs_start_where_playlist_segments_start() {
    for i in [0usize, 1, 2, 100, 9999] {
        let start = format!("{:.4}", 6.0f32 * i as f32);
        let v = get_video_segment("m", 720, i);
        assert_eq!(v.args[3], start);
        assert_eq!(v.args[31], start);
        let a = get_audio_segment("m", 0, i);
        assert_eq!(a.args[3], start);
        assert_eq!(a.args[25], start);
    }
}

#[test]
fn patterns_that_do_not_compile_are_refused() {
    assert!(rumble::segment::Pattern::compile("(").is_none());
    assert!(rumble::segment::Pattern::compile("^\\d{4}").is_some());
}
