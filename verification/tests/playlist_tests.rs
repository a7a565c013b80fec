use rumble::media_info::{Stream, StreamArray};
use rumble::playlist::{
    get_audio_playlist, get_master_playlist, get_res_playlist, push_seconds, render_master_playlist,
    render_media_playlist, ContentType, Rejection, Track,
};
use rumble::media_info::Resolution;

/// The video playlist as a six-second segmenter with float durations writes it.
fn float_video_playlist(media_file: &str, resolution: usize, duration: f32) -> String {
    let mut p = String::new();
    p.push_str("#EXTM3U\n#EXT-X-VERSION:4\n");
    p.push_str(&format!("#EXT-X-TARGETDURATION:{:.4}\n", 6.0f32));
    p.push_str("#EXT-X-MEDIA-SEQUENCE:0\n#EXT-X-PLAYLIST-TYPE:VOD\n");
    let mut leftover = duration;
    let mut i = 0;
    while leftover > 0.0 {
        let d = if leftover > 6.0 { 6.0 } else { leftover };
        p.push_str(&format!("#EXTINF:{:.4},\n", d));
        p.push_str(&format!("/video/{}/{}/{:04}.ts\n", media_file.trim(), resolution, i));
        i += 1;
        leftover -= 6.0;
    }
    p.push_str("#EXT-X-ENDLIST\n");
    p
}

fn audio_stream(pos_tags: &[(&str, &str)], default: Option<isize>) -> Stream {
    Stream {
        index: 0,
        tags: pos_tags.iter().map(|(k, v)| (k.to_string(), v.to_string())).collect(),
        disposition: default.map(|d| vec![("default".to_string(), d)]).unwrap_or_default(),
    }
}

#[test]
fn seconds_are_written_with_four_decimals() {
    let mut s = String::new();
    push_seconds(&mut s, 60000);
    assert_eq!(s, "6.0000");
    let mut s = String::new();
    push_seconds(&mut s, 12345);
    assert_eq!(s, "1.2345");
    let mut s = String::new();
    push_seconds(&mut s, 7);
    assert_eq!(s, "0.0007");
}

#[test]
fn video_playlist_of_thirteen_seconds() {
    let body = render_media_playlist(Track::Video { resolution: 720 }, "movie.mkv", 130000);
    assert_eq!(
        body,
        "#EXTM3U\n#EXT-X-VERSION:4\n#EXT-X-TARGETDURATION:6.0000\n#EXT-X-MEDIA-SEQUENCE:0\n\
         #EXT-X-PLAYLIST-TYPE:VOD\n\
         #EXTINF:6.0000,\n/video/movie.mkv/720/0000.ts\n\
         #EXTINF:6.0000,\n/video/movie.mkv/720/0001.ts\n\
         #EXTINF:1.0000,\n/video/movie.mkv/720/0002.ts\n\
         #EXT-X-ENDLIST\n"
    );
}

#[test]
fn video_playlist_trims_the_media_name() {
    let body = render_media_playlist(Track::Video { resolution: 480 }, " a.mkv ", 60000);
    assert!(body.contains("\n/video/a.mkv/480/0000.ts\n"));
    assert_eq!(body.matches("#EXTINF:").count(), 1);
}

#[test]
fn video_playlist_agrees_with_float_segmenting() {
    for (ticks, secs) in [(0u64, 0.0f32), (60000, 6.0), (65000, 6.5), (132500, 13.25), (70625, 7.0625), (36000000, 3600.0), (1, 0.0001)] {
        let body = render_media_playlist(Track::Video { resolution: 1080 }, "x.mp4", ticks);
        assert_eq!(body, float_video_playlist("x.mp4", 1080, secs), "{}", ticks);
    }
}

#[test]
fn segments_cover_the_media() {
    // 13.25 s: two full segments and 1.25 s.
    let body = render_media_playlist(Track::Video { resolution: 360 }, "m", 132500);
    let durations: Vec<&str> = body
        .lines()
        .filter_map(|l| l.strip_prefix("#EXTINF:"))
        .map(|l| l.trim_end_matches(','))
        .collect();
    assert_eq!(durations, vec!["6.0000", "6.0000", "1.2500"]);
}

#[test]
fn empty_media_has_no_segments() {
    let body = render_media_playlist(Track::Video { resolution: 360 }, "m", 0);
    assert!(!body.contains("#EXTINF"));
    assert!(body.ends_with("#EXT-X-PLAYLIST-TYPE:VOD\n#EXT-X-ENDLIST\n"));
}

#[test]
fn audio_playlist_allows_cache_and_pads_the_index() {
    let body = render_media_playlist(Track::Audio { index: 3 }, "song.mkv", 70000);
    assert_eq!(
        body,
        "#EXTM3U\n#EXT-X-VERSION:4\n#EXT-X-TARGETDURATION:6.0000\n#EXT-X-MEDIA-SEQUENCE:0\n\
         #EXT-X-PLAYLIST-TYPE:VOD\n#EXT-X-ALLOW-CACHE:YES\n\
         #EXTINF:6.0000,\n/audio/song.mkv/03/0000.aac\n\
         #EXTINF:1.0000,\n/audio/song.mkv/03/0001.aac\n\
         #EXT-X-ENDLIST\n"
    );
}

#[test]
fn media_playlists_need_a_duration() {
    assert_eq!(get_res_playlist("a", 720, None).unwrap_err(), Rejection::NotFound);
    assert_eq!(get_audio_playlist("a", 0, None).unwrap_err(), Rejection::NotFound);
    let reply = get_res_playlist("a", 720, Some(10)).unwrap();
    assert_eq!(reply.content_type, ContentType::M3u8);
    assert_eq!(reply.body, render_media_playlist(Track::Video { resolution: 720 }, "a", 10));
    let reply = get_audio_playlist("a", 1, Some(10)).unwrap();
    assert_eq!(reply.body, render_media_playlist(Track::Audio { index: 1 }, "a", 10));
}

#[test]
fn content_types() {
    assert_eq!(ContentType::M3u8.header_value(), "application/x-mpegURL");
    assert_eq!(ContentType::MpegTs.header_value(), "video/MP2T");
    assert_eq!(ContentType::Aac.header_value(), "audio/aac");
    assert_eq!(ContentType::WebVtt.header_value(), "text/vtt");
}

#[test]
fn master_playlist_lists_audio_and_variants() {
    let audio = StreamArray {
        streams: vec![
            audio_stream(&[("language", "eng"), ("title", "Main")], Some(1)),
            audio_stream(&[("language", "fra")], Some(0)),
            audio_stream(&[], None),
        ],
    };
    let body = render_master_playlist("film.mkv", &audio);
    assert_eq!(
        body,
        "#EXTM3U\n#EXT-X-VERSION:4\n\n\
         #EXT-X-MEDIA:TYPE=AUDIO,GROUP-ID=\"bipbop_audio\",LANGUAGE=\"eng\",NAME=\"Main1\",AUTOSELECT=YES,DEFAULT=YES\n\
         #EXT-X-MEDIA:TYPE=AUDIO,GROUP-ID=\"bipbop_audio\",LANGUAGE=\"fra\",NAME=\"Track2\",AUTOSELECT=NO,DEFAULT=NO,URI=\"/audio/film.mkv/01/\"\n\
         #EXT-X-MEDIA:TYPE=AUDIO,GROUP-ID=\"bipbop_audio\",NAME=\"Track3\",AUTOSELECT=NO,DEFAULT=NO,URI=\"/audio/film.mkv/02/\"\n\
         \n\
         #EXT-X-STREAM-INF:BANDWIDTH=800000,RESOLUTION=640x360,AUDIO=\"bipbop_audio\"\n/playlist/film.mkv/360/\n\
         #EXT-X-STREAM-INF:BANDWIDTH=1400000,RESOLUTION=842x480,AUDIO=\"bipbop_audio\"\n/playlist/film.mkv/480/\n\
         #EXT-X-STREAM-INF:BANDWIDTH=2800000,RESOLUTION=1280x720,AUDIO=\"bipbop_audio\"\n/playlist/film.mkv/720/\n\
         #EXT-X-STREAM-INF:BANDWIDTH=5000000,RESOLUTION=1920x1080,AUDIO=\"bipbop_audio\"\n/playlist/film.mkv/1080/\n"
    );
}

#[test]
fn master_playlist_without_audio() {
    let body = render_master_playlist("v", &StreamArray { streams: vec![] });
    assert!(body.starts_with("#EXTM3U\n#EXT-X-VERSION:4\n\n\n#EXT-X-STREAM-INF:BANDWIDTH=800000"));
    assert_eq!(body.matches("#EXT-X-STREAM-INF").count(), 4);
}

#[test]
fn master_playlist_needs_every_probe() {
    let audio = StreamArray { streams: vec![] };
    let res = Some(Resolution { width: 1920, height: 1080 });
    assert_eq!(get_master_playlist("v", None, res, Some(&audio)).unwrap_err(), Rejection::NotFound);
    assert_eq!(get_master_playlist("v", Some(1), None, Some(&audio)).unwrap_err(), Rejection::NotFound);
    assert_eq!(get_master_playlist("v", Some(1), res, None).unwrap_err(), Rejection::NotFound);
    let reply = get_master_playlist("v", Some(1), res, Some(&audio)).unwrap();
    assert_eq!(reply.content_type, ContentType::M3u8);
    assert_eq!(reply.body, render_master_playlist("v", &audio));
}
