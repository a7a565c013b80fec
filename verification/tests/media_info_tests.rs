use rumble::media_info::{
    ffprobe_duration_args, ffprobe_resolution_args, ffprobe_stream_info_args, get_resolution,
    Resolution, ResolutionError, Stream, StreamType,
};

fn stream(tags: &[(&str, &str)], disposition: &[(&str, isize)]) -> Stream {
    Stream {
        index: 1,
        tags: tags.iter().map(|(k, v)| (k.to_string(), v.to_string())).collect(),
        disposition: disposition.iter().map(|(k, v)| (k.to_string(), *v)).collect(),
    }
}

#[test]
fn resolution_is_read_from_two_lines() {
    assert_eq!(get_resolution("1920\n1080\n"), Ok(Resolution { width: 1920, height: 1080 }));
    assert_eq!(get_resolution("  640\r\n360  "), Ok(Resolution { width: 640, height: 360 }));
}

#[test]
fn resolution_takes_the_first_stream() {
    assert_eq!(
        get_resolution("1280\n720\n\n\n1920\n1080\n"),
        Ok(Resolution { width: 1280, height: 720 })
    );
}

#[test]
fn resolution_reads_back_what_ffprobe_prints() {
    for (w, h) in [(0usize, 0usize), (640, 360), (3840, 2160)] {
        let out = format!("{}\n{}\n", w, h);
        assert_eq!(get_resolution(&out), Ok(Resolution { width: w, height: h }));
    }
}

#[test]
fn resolution_errors() {
    assert_eq!(get_resolution(""), Err(ResolutionError::MissingWidth));
    assert_eq!(get_resolution(" \n \t"), Err(ResolutionError::MissingWidth));
    assert_eq!(get_resolution("1920"), Err(ResolutionError::MissingHeight));
    assert_eq!(get_resolution("1920\n"), Err(ResolutionError::MissingHeight));
    assert_eq!(get_resolution("wide\n1080"), Err(ResolutionError::InvalidWidth));
    assert_eq!(get_resolution("1920\n\n1080"), Err(ResolutionError::InvalidHeight));
    assert_eq!(get_resolution("1920\n-1"), Err(ResolutionError::InvalidHeight));
}

#[test]
fn stream_info_arguments() {
    assert_eq!(
        ffprobe_stream_info_args("a.mkv", StreamType::Audio),
        vec!["-i", "a.mkv", "-v", "quiet", "-select_streams", "a", "-show_entries", "stream", "-of", "json"]
    );
    assert_eq!(ffprobe_stream_info_args("a.mkv", StreamType::Video)[5], "v");
    assert_eq!(ffprobe_stream_info_args("a.mkv", StreamType::Subtitle)[5], "s");
}

#[test]
fn duration_and_resolution_arguments() {
    assert_eq!(
        ffprobe_duration_args("m.mp4"),
        vec![
            "-i", "m.mp4", "-v", "quiet", "-show_entries", "format=duration", "-of",
            "default=noprint_wrappers=1:nokey=1"
        ]
    );
    assert_eq!(
        ffprobe_resolution_args("m.mp4"),
        vec![
            "-i", "m.mp4", "-v", "quiet", "-show_entries", "stream=width,height", "-of",
            "default=noprint_wrappers=1:nokey=1"
        ]
    );
}

#[test]
fn tags_and_disposition_lookup() {
    let s = stream(&[("language", "eng"), ("title", "Commentary")], &[("default", 1), ("dub", 0)]);
    assert_eq!(s.tag("language").map(|t| t.as_str()), Some("eng"));
    assert_eq!(s.tag("title").map(|t| t.as_str()), Some("Commentary"));
    assert_eq!(s.tag("LANGUAGE"), None);
    assert_eq!(s.disposition_flag("default"), Some(1));
    assert_eq!(s.disposition_flag("dub"), Some(0));
    assert_eq!(s.disposition_flag("forced"), None);
}
