//! HLS playlists: the master playlist that lists the audio tracks and the
//! video variants of a media file, and the media playlists that cut a video
//! or an audio track into segments of six seconds.
//!
//! Durations are counted in ticks of a ten-thousandth of a second, the
//! precision at which playlists print them.

use vstd::prelude::*;
use crate::text::{lemma_zero_padded_digits, pow10, lemma_parse_zero_padded, parse_usize_spec, all_ascii_digits, digits_value, lemma_decimal_digits, decimal, push_char, push_decimal, push_zero_padded, trim, trim_str, zero_padded};
use crate::media_info::{lookup, Stream, StreamArray, Resolution};

verus! {

/// Ticks in one second.
pub const TICKS_PER_SECOND: u64 = 10000;

/// The length of a full segment: six seconds, as Apple recommends.
pub const SEGMENT_TICKS: u64 = 60000;

/// The content types that the server answers with.
#[derive(Debug, Clone, Copy, PartialEq, Eq, Structural)]
pub enum ContentType {
    /// An HLS playlist.
    M3u8,
    /// An MPEG transport stream segment.
    MpegTs,
    /// An AAC audio segment.
    Aac,
    /// A WebVTT subtitle track.
    WebVtt,
}

impl ContentType {
    /// The value of the `Content-Type` header for this type.
    pub open spec fn mime(self) -> Seq<char> {
        match self {
            ContentType::M3u8 => "application/x-mpegURL"@,
            ContentType::MpegTs => "video/MP2T"@,
            ContentType::Aac => "audio/aac"@,
            ContentType::WebVtt => "text/vtt"@,
        }
    }

    /// The value of the `Content-Type` header for this type.
    pub fn header_value(&self) -> (r: &'static str)
        ensures
            r@ == self.mime(),
    {
        match self {
            ContentType::M3u8 => "application/x-mpegURL",
            ContentType::MpegTs => "video/MP2T",
            ContentType::Aac => "audio/aac",
            ContentType::WebVtt => "text/vtt",
        }
    }
}

/// A successful answer: a body and its content type.
#[derive(Debug)]
pub struct Reply {
    pub content_type: ContentType,
    pub body: String,
}

/// A refused request.
#[derive(Debug, Clone, Copy, PartialEq, Eq, Structural)]
pub enum Rejection {
    /// The media could not be probed: answered with 404.
    NotFound,
}

/// `t` ticks written in seconds with four decimals, as `format!("{:.4}", secs)`.
pub open spec fn seconds_text(t: nat) -> Seq<char> {
    decimal(t / 10000) + seq!['.'] + zero_padded(t % 10000, 4)
}

/// Appends `t` ticks written in seconds with four decimals.
pub fn push_seconds(s: &mut String, t: u64)
    ensures
        final(s)@ == old(s)@ + seconds_text(t as nat),
{
    push_decimal(s, t / TICKS_PER_SECOND);
    push_char(s, '.');
    push_zero_padded(s, t % TICKS_PER_SECOND, 4);
    assert(s@ =~= old(s)@ + seconds_text(t as nat));
}

// ---------------------------------------------------------------------------
// Media playlists
// ---------------------------------------------------------------------------

/// The durations of the segments that a media of `d` ticks is cut into:
/// full segments of six seconds, then what is left, if anything.
pub open spec fn segment_durations(d: nat) -> Seq<nat>
    decreases d,
{
    if d == 0 {
        seq![]
    } else if d > SEGMENT_TICKS {
        seq![SEGMENT_TICKS as nat] + segment_durations((d - SEGMENT_TICKS) as nat)
    } else {
        seq![d]
    }
}

/// The track that a media playlist lists the segments of.
#[derive(Debug, Clone, Copy, PartialEq, Eq, Structural)]
pub enum Track {
    /// The video scaled to the given height.
    Video { resolution: usize },
    /// The audio stream with the given index among the audio streams.
    Audio { index: u8 },
}

/// The URI of segment `i` of a track.
pub open spec fn segment_uri(track: Track, media_file: Seq<char>, i: nat) -> Seq<char> {
    match track {
        Track::Video { resolution } => "/video/"@ + trim(media_file) + "/"@ + decimal(
            resolution as nat,
        ) + "/"@ + zero_padded(i, 4) + ".ts"@,
        Track::Audio { index } => "/audio/"@ + media_file + "/"@ + zero_padded(index as nat, 2)
            + "/"@ + zero_padded(i, 4) + ".aac"@,
    }
}

/// The entry of one segment: its duration and its URI.
pub open spec fn segment_entry(track: Track, media_file: Seq<char>, i: nat, dur: nat) -> Seq<
    char,
> {
    "#EXTINF:"@ + seconds_text(dur) + ",\n"@ + segment_uri(track, media_file, i) + "\n"@
}

/// The entries of the segments that cover `left` ticks, numbered from `first`.
pub open spec fn segment_entries(track: Track, media_file: Seq<char>, left: nat, first: nat) -> Seq<
    char,
>
    decreases left,
{
    if left == 0 {
        seq![]
    } else if left > SEGMENT_TICKS {
        segment_entry(track, media_file, first, SEGMENT_TICKS as nat) + segment_entries(
            track,
            media_file,
            (left - SEGMENT_TICKS) as nat,
            first + 1,
        )
    } else {
        segment_entry(track, media_file, first, left)
    }
}

/// The lines that open a media playlist.
pub open spec fn media_playlist_header(track: Track) -> Seq<char> {
    let common = "#EXTM3U\n"@ + "#EXT-X-VERSION:4\n"@ + "#EXT-X-TARGETDURATION:"@ + seconds_text(
        SEGMENT_TICKS as nat,
    ) + "\n"@ + "#EXT-X-MEDIA-SEQUENCE:0\n"@ + "#EXT-X-PLAYLIST-TYPE:VOD\n"@;
    match track {
        Track::Video { .. } => common,
        Track::Audio { .. } => common + "#EXT-X-ALLOW-CACHE:YES\n"@,
    }
}

/// The media playlist of a track of a media that lasts `d` ticks.
pub open spec fn media_playlist(track: Track, media_file: Seq<char>, d: nat) -> Seq<char> {
    media_playlist_header(track) + segment_entries(track, media_file, d, 0)
        + "#EXT-X-ENDLIST\n"@
}

/// Appends the URI of segment `i` of a track.
fn push_segment_uri(s: &mut String, track: Track, media_file: &str, i: u64)
    ensures
        final(s)@ == old(s)@ + segment_uri(track, media_file@, i as nat),
{
    match track {
        Track::Video { resolution } => {
            s.append("/video/");
            s.append(trim_str(media_file));
            s.append("/");
            push_decimal(s, resolution as u64);
            s.append("/");
            push_zero_padded(s, i, 4);
            s.append(".ts");
        },
        Track::Audio { index } => {
            s.append("/audio/");
            s.append(media_file);
            s.append("/");
            push_zero_padded(s, index as u64, 2);
            s.append("/");
            push_zero_padded(s, i, 4);
            s.append(".aac");
        },
    }
    assert(s@ =~= old(s)@ + segment_uri(track, media_file@, i as nat));
}

/// Renders the media playlist of a track of a media that lasts `duration` ticks.
pub fn render_media_playlist(track: Track, media_file: &str, duration: u64) -> (r: String)
    ensures
        r@ == media_playlist(track, media_file@, duration as nat),
{
    let mut playlist = String::new();
    playlist.append("#EXTM3U\n");
    playlist.append("#EXT-X-VERSION:4\n");
    playlist.append("#EXT-X-TARGETDURATION:");
    push_seconds(&mut playlist, SEGMENT_TICKS);
    playlist.append("\n");
    playlist.append("#EXT-X-MEDIA-SEQUENCE:0\n");
    playlist.append("#EXT-X-PLAYLIST-TYPE:VOD\n");
    match track {
        Track::Audio { .. } => playlist.append("#EXT-X-ALLOW-CACHE:YES\n"),
        Track::Video { .. } => {},
    }
    let ghost header = media_playlist_header(track);
    assert(playlist@ =~= header);
    let mut leftover: u64 = duration;
    let mut index: u64 = 0;
    while leftover > 0
        invariant
            index * SEGMENT_TICKS + leftover == duration || leftover == 0,
            index <= duration,
            header + segment_entries(track, media_file@, duration as nat, 0) == playlist@
                + segment_entries(track, media_file@, leftover as nat, index as nat),
        decreases leftover,
    {
        let ghost before = playlist@;
        playlist.append("#EXTINF:");
        if leftover > SEGMENT_TICKS {
            push_seconds(&mut playlist, SEGMENT_TICKS);
        } else {
            push_seconds(&mut playlist, leftover);
        }
        playlist.append(",\n");
        push_segment_uri(&mut playlist, track, media_file, index);
        playlist.append("\n");
        let ghost dur = if leftover > SEGMENT_TICKS { SEGMENT_TICKS as nat } else { leftover as nat };
        assert(playlist@ =~= before + segment_entry(track, media_file@, index as nat, dur));
        let ghost next = if leftover > SEGMENT_TICKS { (leftover - SEGMENT_TICKS) as nat } else { 0nat };
        assert(segment_entries(track, media_file@, leftover as nat, index as nat)
            == segment_entry(track, media_file@, index as nat, dur)
                + segment_entries(track, media_file@, next, (index + 1) as nat));
        assert(playlist@ + segment_entries(track, media_file@, next, (index + 1) as nat)
            =~= before + segment_entries(track, media_file@, leftover as nat, index as nat));
        if leftover > SEGMENT_TICKS {
            leftover = leftover - SEGMENT_TICKS;
        } else {
            leftover = 0;
        }
        index = index + 1;
    }
    let ghost body = playlist@;
    playlist.append("#EXT-X-ENDLIST\n");
    assert(body =~= header + segment_entries(track, media_file@, duration as nat, 0));
    assert(playlist@ =~= media_playlist(track, media_file@, duration as nat));
    playlist
}


/// The answer to a request for a media playlist, given the duration that
/// probing the media gave (`None` when probing failed).
pub open spec fn media_playlist_reply(track: Track, media_file: Seq<char>, duration: Option<u64>) -> Result<
    (ContentType, Seq<char>),
    Rejection,
> {
    match duration {
        None => Err(Rejection::NotFound),
        Some(d) => Ok((ContentType::M3u8, media_playlist(track, media_file, d as nat))),
    }
}

/// The view of an answer: its content type and its body.
pub open spec fn reply_view(r: Result<Reply, Rejection>) -> Result<(ContentType, Seq<char>), Rejection> {
    match r {
        Ok(reply) => Ok((reply.content_type, reply.body@)),
        Err(e) => Err(e),
    }
}

/// The playlist of the video of `media_file` scaled to height `resolution`,
/// for a media that lasts `duration` ticks; refused when the duration is unknown.
pub fn get_res_playlist(media_file: &str, resolution: usize, duration: Option<u64>) -> (r: Result<
    Reply,
    Rejection,
>)
    ensures
        reply_view(r) == media_playlist_reply(Track::Video { resolution }, media_file@, duration),
{
    match duration {
        None => Err(Rejection::NotFound),
        Some(d) => Ok(
            Reply {
                content_type: ContentType::M3u8,
                body: render_media_playlist(Track::Video { resolution }, media_file, d),
            },
        ),
    }
}

/// The playlist of audio stream `index` of `media_file`, for a media that
/// lasts `duration` ticks; refused when the duration is unknown.
pub fn get_audio_playlist(media_file: &str, index: u8, duration: Option<u64>) -> (r: Result<
    Reply,
    Rejection,
>)
    ensures
        reply_view(r) == media_playlist_reply(Track::Audio { index }, media_file@, duration),
{
    match duration {
        None => Err(Rejection::NotFound),
        Some(d) => Ok(
            Reply {
                content_type: ContentType::M3u8,
                body: render_media_playlist(Track::Audio { index }, media_file, d),
            },
        ),
    }
}

// ---------------------------------------------------------------------------
// Master playlist
// ---------------------------------------------------------------------------

/// The `LANGUAGE` attribute of an audio stream, when it has a `language` tag.
pub open spec fn language_attribute(s: Stream) -> Seq<char> {
    match lookup(s.tag_entries(), "language"@) {
        Some(l) => "LANGUAGE=\""@ + l + "\","@,
        None => seq![],
    }
}

/// The `NAME` attribute of the audio stream at position `pos`: its `title`
/// tag followed by `pos + 1`, or `Track` followed by `pos + 1`.
pub open spec fn name_attribute(s: Stream, pos: nat) -> Seq<char> {
    match lookup(s.tag_entries(), "title"@) {
        Some(t) => "NAME=\""@ + t + decimal(pos + 1) + "\","@,
        None => "NAME=\"Track"@ + decimal(pos + 1) + "\","@,
    }
}

/// Whether players select the audio stream by default: its `default`
/// disposition is 1. Otherwise the line gives the URI of its own playlist.
pub open spec fn selection_attributes(media_file: Seq<char>, s: Stream, pos: nat) -> Seq<char> {
    if lookup(s.disposition_entries(), "default"@) == Some(1isize) {
        "AUTOSELECT=YES,DEFAULT=YES\n"@
    } else {
        "AUTOSELECT=NO,DEFAULT=NO,URI=\"/audio/"@ + media_file + "/"@ + zero_padded(pos, 2)
            + "/\"\n"@
    }
}

/// The `#EXT-X-MEDIA` line of the audio stream at position `pos` among the
/// audio streams.
pub open spec fn audio_media_line(media_file: Seq<char>, s: Stream, pos: nat) -> Seq<char> {
    "#EXT-X-MEDIA:TYPE=AUDIO,GROUP-ID=\"bipbop_audio\","@ + language_attribute(s)
        + name_attribute(s, pos) + selection_attributes(media_file, s, pos)
}

/// The `#EXT-X-MEDIA` lines of the audio streams, in order.
pub open spec fn audio_media_lines(media_file: Seq<char>, streams: Seq<Stream>) -> Seq<char>
    decreases streams.len(),
{
    if streams.len() == 0 {
        seq![]
    } else {
        audio_media_lines(media_file, streams.drop_last()) + audio_media_line(
            media_file,
            streams.last(),
            (streams.len() - 1) as nat,
        )
    }
}

/// The four video variants, from 360 to 1080 lines, with their bandwidths.
pub open spec fn variant_lines(media_file: Seq<char>) -> Seq<char> {
    "#EXT-X-STREAM-INF:BANDWIDTH=800000,RESOLUTION=640x360,AUDIO=\"bipbop_audio\"\n"@
        + "/playlist/"@ + media_file + "/360/\n"@
        + "#EXT-X-STREAM-INF:BANDWIDTH=1400000,RESOLUTION=842x480,AUDIO=\"bipbop_audio\"\n"@
        + "/playlist/"@ + media_file + "/480/\n"@
        + "#EXT-X-STREAM-INF:BANDWIDTH=2800000,RESOLUTION=1280x720,AUDIO=\"bipbop_audio\"\n"@
        + "/playlist/"@ + media_file + "/720/\n"@
        + "#EXT-X-STREAM-INF:BANDWIDTH=5000000,RESOLUTION=1920x1080,AUDIO=\"bipbop_audio\"\n"@
        + "/playlist/"@ + media_file + "/1080/\n"@
}

/// The master playlist of a media with the given audio streams.
pub open spec fn master_playlist(media_file: Seq<char>, audio: Seq<Stream>) -> Seq<char> {
    "#EXTM3U\n"@ + "#EXT-X-VERSION:4\n"@ + "\n"@ + audio_media_lines(media_file, audio) + "\n"@
        + variant_lines(media_file)
}

fn push_language_attribute(s: &mut String, stream: &Stream)
    ensures
        final(s)@ == old(s)@ + language_attribute(*stream),
{
    match stream.tag("language") {
        Some(lang) => {
            s.append("LANGUAGE=\"");
            s.append(lang.as_str());
            s.append("\",");
        },
        None => {},
    }
    assert(s@ =~= old(s)@ + language_attribute(*stream));
}

fn push_name_attribute(s: &mut String, stream: &Stream, pos: usize)
    requires
        pos < usize::MAX,
    ensures
        final(s)@ == old(s)@ + name_attribute(*stream, pos as nat),
{
    match stream.tag("title") {
        Some(title) => {
            s.append("NAME=\"");
            s.append(title.as_str());
            push_decimal(s, (pos + 1) as u64);
            s.append("\",");
        },
        None => {
            s.append("NAME=\"Track");
            push_decimal(s, (pos + 1) as u64);
            s.append("\",");
        },
    }
    assert(s@ =~= old(s)@ + name_attribute(*stream, pos as nat));
}

fn push_selection_attributes(s: &mut String, media_file: &str, stream: &Stream, pos: usize)
    ensures
        final(s)@ == old(s)@ + selection_attributes(media_file@, *stream, pos as nat),
{
    let selected = match stream.disposition_flag("default") {
        Some(default) => default == 1,
        None => false,
    };
    if selected {
        s.append("AUTOSELECT=YES,DEFAULT=YES\n");
    } else {
        s.append("AUTOSELECT=NO,DEFAULT=NO,URI=\"/audio/");
        s.append(media_file);
        s.append("/");
        push_zero_padded(s, pos as u64, 2);
        s.append("/\"\n");
    }
    assert(s@ =~= old(s)@ + selection_attributes(media_file@, *stream, pos as nat));
}

/// Appends the `#EXT-X-MEDIA` line of one audio stream.
fn push_audio_media_line(s: &mut String, media_file: &str, stream: &Stream, pos: usize)
    requires
        pos < usize::MAX,
    ensures
        final(s)@ == old(s)@ + audio_media_line(media_file@, *stream, pos as nat),
{
    s.append("#EXT-X-MEDIA:TYPE=AUDIO,GROUP-ID=\"bipbop_audio\",");
    push_language_attribute(s, stream);
    push_name_attribute(s, stream, pos);
    push_selection_attributes(s, media_file, stream, pos);
    assert(s@ =~= old(s)@ + audio_media_line(media_file@, *stream, pos as nat));
}

/// Renders the master playlist of a media with the given audio streams.
pub fn render_master_playlist(media_file: &str, audio: &StreamArray) -> (r: String)
    ensures
        r@ == master_playlist(media_file@, audio.streams@),
{
    let mut playlist = String::new();
    playlist.append("#EXTM3U\n");
    playlist.append("#EXT-X-VERSION:4\n");
    playlist.append("\n");
    let ghost head = playlist@;
    let mut pos: usize = 0;
    assert(audio.streams@.take(0) =~= Seq::<Stream>::empty());
    while pos < audio.streams.len()
        invariant
            pos <= audio.streams.len(),
            playlist@ == head + audio_media_lines(media_file@, audio.streams@.take(pos as int)),
        decreases audio.streams.len() - pos,
    {
        push_audio_media_line(&mut playlist, media_file, &audio.streams[pos], pos);
        assert(audio.streams@.take(pos + 1).drop_last() =~= audio.streams@.take(pos as int));
        pos = pos + 1;
    }
    assert(audio.streams@.take(pos as int) =~= audio.streams@);
    playlist.append("\n");
    playlist.append(
        "#EXT-X-STREAM-INF:BANDWIDTH=800000,RESOLUTION=640x360,AUDIO=\"bipbop_audio\"\n",
    );
    playlist.append("/playlist/");
    playlist.append(media_file);
    playlist.append("/360/\n");
    playlist.append(
        "#EXT-X-STREAM-INF:BANDWIDTH=1400000,RESOLUTION=842x480,AUDIO=\"bipbop_audio\"\n",
    );
    playlist.append("/playlist/");
    playlist.append(media_file);
    playlist.append("/480/\n");
    playlist.append(
        "#EXT-X-STREAM-INF:BANDWIDTH=2800000,RESOLUTION=1280x720,AUDIO=\"bipbop_audio\"\n",
    );
    playlist.append("/playlist/");
    playlist.append(media_file);
    playlist.append("/720/\n");
    playlist.append(
        "#EXT-X-STREAM-INF:BANDWIDTH=5000000,RESOLUTION=1920x1080,AUDIO=\"bipbop_audio\"\n",
    );
    playlist.append("/playlist/");
    playlist.append(media_file);
    playlist.append("/1080/\n");
    assert(playlist@ =~= master_playlist(media_file@, audio.streams@));
    playlist
}

/// The answer to a request for the master playlist, given what probing the
/// media gave: its duration, its resolution and its audio streams (each
/// `None` when that probe failed). Any failed probe refuses the request.
pub open spec fn master_playlist_reply(
    media_file: Seq<char>,
    duration: Option<u64>,
    resolution: Option<Resolution>,
    audio: Option<&StreamArray>,
) -> Result<(ContentType, Seq<char>), Rejection> {
    if duration is None || resolution is None {
        Err(Rejection::NotFound)
    } else {
        match audio {
            None => Err(Rejection::NotFound),
            Some(a) => Ok((ContentType::M3u8, master_playlist(media_file, a.streams@))),
        }
    }
}

/// The master playlist of `media_file`: its audio tracks and its four video
/// variants; refused when any of the probes of the media failed.
pub fn get_master_playlist(
    media_file: &str,
    duration: Option<u64>,
    resolution: Option<Resolution>,
    audio: Option<&StreamArray>,
) -> (r: Result<Reply, Rejection>)
    ensures
        reply_view(r) == master_playlist_reply(media_file@, duration, resolution, audio),
{
    if duration.is_none() {
        return Err(Rejection::NotFound);
    }
    if resolution.is_none() {
        return Err(Rejection::NotFound);
    }
    match audio {
        None => Err(Rejection::NotFound),
        Some(a) => Ok(
            Reply { content_type: ContentType::M3u8, body: render_master_playlist(media_file, a) },
        ),
    }
}


// ---------------------------------------------------------------------------
// Laws of media playlists
// ---------------------------------------------------------------------------

/// The sum of a sequence of durations.
pub open spec fn total(durations: Seq<nat>) -> nat
    decreases durations.len(),
{
    if durations.len() == 0 {
        0
    } else {
        durations[0] + total(durations.drop_first())
    }
}

/// The entries of segments of the given durations, numbered from `first`.
pub open spec fn entries_of(track: Track, media_file: Seq<char>, durations: Seq<nat>, first: nat) -> Seq<
    char,
>
    decreases durations.len(),
{
    if durations.len() == 0 {
        seq![]
    } else {
        segment_entry(track, media_file, first, durations[0]) + entries_of(
            track,
            media_file,
            durations.drop_first(),
            first + 1,
        )
    }
}

/// The segments cover the media exactly: their durations add up to the
/// media's, there are as many as six-second slots the media starts, each
/// lasts at most six seconds and more than nothing, and all but the last
/// last six seconds.
pub proof fn law_segments_cover_media(d: nat)
    ensures
        total(segment_durations(d)) == d,
        segment_durations(d).len() == (d + SEGMENT_TICKS - 1) / (SEGMENT_TICKS as int),
        forall|i: int|
            0 <= i < segment_durations(d).len() ==> 0 < #[trigger] segment_durations(d)[i]
                <= SEGMENT_TICKS,
        forall|i: int|
            0 <= i < segment_durations(d).len() - 1 ==> #[trigger] segment_durations(d)[i]
                == SEGMENT_TICKS,
    decreases d,
{
    let s = segment_durations(d);
    if d > SEGMENT_TICKS {
        let rest = segment_durations((d - SEGMENT_TICKS) as nat);
        law_segments_cover_media((d - SEGMENT_TICKS) as nat);
        assert(s == seq![SEGMENT_TICKS as nat] + rest);
        assert(s.drop_first() =~= rest);
        assert(s[0] == SEGMENT_TICKS);
        assert(total(s) == s[0] + total(s.drop_first()));
        assert forall|i: int| 0 <= i < s.len() implies 0 < #[trigger] s[i] <= SEGMENT_TICKS by {
            if i > 0 {
                assert(s[i] == rest[i - 1]);
            }
        }
        assert forall|i: int| 0 <= i < s.len() - 1 implies #[trigger] s[i] == SEGMENT_TICKS by {
            if i > 0 {
                assert(s[i] == rest[i - 1]);
            }
        }
    } else if d > 0 {
        assert(s.drop_first() =~= Seq::<nat>::empty());
        assert(total(Seq::<nat>::empty()) == 0);
        assert(total(s) == s[0] + total(s.drop_first()));
    }
}

/// Segment `i` starts `i` six-second slots into the media: the durations
/// before it add up to `i * 6` seconds.
pub proof fn law_segment_starts(d: nat, i: nat)
    requires
        i < segment_durations(d).len(),
    ensures
        total(segment_durations(d).take(i as int)) == i * (SEGMENT_TICKS as nat),
    decreases i,
{
    let s = segment_durations(d);
    if i == 0 {
        assert(s.take(0) =~= Seq::<nat>::empty());
    } else {
        assert(d > SEGMENT_TICKS) by {
            if d <= SEGMENT_TICKS {
                assert(s.len() <= 1);
            }
        }
        let rest = segment_durations((d - SEGMENT_TICKS) as nat);
        law_segment_starts((d - SEGMENT_TICKS) as nat, (i - 1) as nat);
        assert(s.take(i as int).drop_first() =~= rest.take(i - 1));
        assert(s.take(i as int)[0] == SEGMENT_TICKS);
        assert(i * (SEGMENT_TICKS as nat) == SEGMENT_TICKS + (i - 1) * (SEGMENT_TICKS as nat))
            by (nonlinear_arith)
            requires
                i >= 1,
        ;
    }
}

/// A media playlist lists one entry per segment, in order, numbered from
/// zero, between the header and the end tag.
pub proof fn law_media_playlist_lists_segments(track: Track, media_file: Seq<char>, d: nat)
    ensures
        media_playlist(track, media_file, d) == media_playlist_header(track) + entries_of(
            track,
            media_file,
            segment_durations(d),
            0,
        ) + "#EXT-X-ENDLIST\n"@,
{
    lemma_entries_of_durations(track, media_file, d, 0);
}

proof fn lemma_entries_of_durations(track: Track, media_file: Seq<char>, d: nat, first: nat)
    ensures
        segment_entries(track, media_file, d, first) == entries_of(
            track,
            media_file,
            segment_durations(d),
            first,
        ),
    decreases d,
{
    let s = segment_durations(d);
    if d > SEGMENT_TICKS {
        lemma_entries_of_durations(track, media_file, (d - SEGMENT_TICKS) as nat, first + 1);
        assert(s.drop_first() =~= segment_durations((d - SEGMENT_TICKS) as nat));
    } else if d > 0 {
        assert(s.drop_first() =~= Seq::<nat>::empty());
        assert(entries_of(track, media_file, s.drop_first(), first + 1) == Seq::<char>::empty());
        assert(segment_entry(track, media_file, first, d) + Seq::<char>::empty() =~= segment_entry(
            track,
            media_file,
            first,
            d,
        ));
    }
}


// ---------------------------------------------------------------------------
// Laws of the master playlist
// ---------------------------------------------------------------------------

proof fn lemma_audio_lines_prefix(m: Seq<char>, ss: Seq<Stream>, k: int)
    requires
        0 <= k <= ss.len(),
    ensures
        audio_media_lines(m, ss) == audio_media_lines(m, ss.take(k)) + audio_media_lines(m, ss).skip(
            audio_media_lines(m, ss.take(k)).len() as int,
        ),
        audio_media_lines(m, ss.take(k)).len() <= audio_media_lines(m, ss).len(),
    decreases ss.len() - k,
{
    if k == ss.len() {
        assert(ss.take(k) =~= ss);
        assert(audio_media_lines(m, ss).skip(audio_media_lines(m, ss).len() as int) =~= Seq::<
            char,
        >::empty());
        assert(audio_media_lines(m, ss) + Seq::<char>::empty() =~= audio_media_lines(m, ss));
    } else {
        lemma_audio_lines_prefix(m, ss, k + 1);
        let a = audio_media_lines(m, ss.take(k));
        let b = audio_media_lines(m, ss.take(k + 1));
        assert(ss.take(k + 1).drop_last() =~= ss.take(k));
        assert(b == a + audio_media_line(m, ss[k], k as nat));
        let full = audio_media_lines(m, ss);
        assert(full =~= a + full.skip(a.len() as int));
    }
}

/// In the master playlist, the audio line of the stream at position `p`
/// among the audio streams comes after the lines of the streams before it
/// and is made for position `p`: nothing else about the stream (such as its
/// index in the file) decides where it stands.
pub proof fn law_master_playlist_audio_line_at(m: Seq<char>, ss: Seq<Stream>, p: int)
    requires
        0 <= p < ss.len(),
    ensures
        ({
            let head = "#EXTM3U\n"@ + "#EXT-X-VERSION:4\n"@ + "\n"@ + audio_media_lines(m, ss.take(p))
                + audio_media_line(m, ss[p], p as nat);
            master_playlist(m, ss).take(head.len() as int) == head
        }),
{
    lemma_audio_lines_prefix(m, ss, p + 1);
    assert(ss.take(p + 1).drop_last() =~= ss.take(p));
    let b = audio_media_lines(m, ss.take(p + 1));
    assert(b == audio_media_lines(m, ss.take(p)) + audio_media_line(m, ss[p], p as nat));
    let head = "#EXTM3U\n"@ + "#EXT-X-VERSION:4\n"@ + "\n"@ + audio_media_lines(m, ss.take(p))
        + audio_media_line(m, ss[p], p as nat);
    let full = audio_media_lines(m, ss);
    assert(full =~= b + full.skip(b.len() as int));
    assert(master_playlist(m, ss).take(head.len() as int) =~= head);
}

/// The audio line of a stream at position `p` does not depend on the
/// stream's index in the file, only on its tags, its disposition and `p`;
/// its `NAME` is the stream's title (or `Track`) followed by the digits of
/// `p + 1`, and then the closing quote.
pub proof fn law_audio_line_name(m: Seq<char>, s: Stream, other: Stream, p: nat)
    requires
        other.tags@ == s.tags@,
        other.disposition@ == s.disposition@,
    ensures
        audio_media_line(m, s, p) == audio_media_line(m, other, p),
        ({
            let line = audio_media_line(m, s, p);
            let pre = "#EXT-X-MEDIA:TYPE=AUDIO,GROUP-ID=\"bipbop_audio\","@ + match lookup(
                s.tag_entries(),
                "language"@,
            ) {
                Some(l) => "LANGUAGE=\""@ + l + "\","@,
                None => seq![],
            };
            let label = match lookup(s.tag_entries(), "title"@) {
                Some(t) => "NAME=\""@ + t,
                None => "NAME=\"Track"@,
            };
            let a = (pre.len() + label.len()) as int;
            let digits = decimal(p + 1);
            let e = a + digits.len();
            &&& line.take(pre.len() as int) == pre
            &&& line.subrange(pre.len() as int, a) == label
            &&& all_ascii_digits(line.subrange(a, e))
            &&& digits_value(line.subrange(a, e)) == p + 1
            &&& line.subrange(e, e + "\","@.len()) == "\","@
        }),
{
    assert(s.tag_entries() =~= other.tag_entries());
    assert(s.disposition_entries() =~= other.disposition_entries());
    lemma_decimal_digits(p + 1);
    let line = audio_media_line(m, s, p);
    let pre = "#EXT-X-MEDIA:TYPE=AUDIO,GROUP-ID=\"bipbop_audio\","@ + language_attribute(s);
    let label = match lookup(s.tag_entries(), "title"@) {
        Some(t) => "NAME=\""@ + t,
        None => "NAME=\"Track"@,
    };
    let digits = decimal(p + 1);
    let q = "\","@;
    let rest = selection_attributes(m, s, p);
    assert(name_attribute(s, p) =~= label + digits + q);
    assert(line =~= pre + label + digits + q + rest);
    let a = (pre.len() + label.len()) as int;
    assert(line.take(pre.len() as int) =~= pre);
    assert(line.subrange(pre.len() as int, a) =~= label);
    let e = a + digits.len();
    assert(line.subrange(a, e) =~= digits);
    assert(line.subrange(e, e + q.len()) =~= q);
}


/// An audio line selects its stream by default exactly when the stream's
/// `default` disposition is 1; otherwise it ends with the URI
/// `/audio/<media>/<digits>/`, whose digits read back as the stream's
/// position among the audio streams.
pub proof fn law_audio_line_selection(m: Seq<char>, s: Stream, p: usize)
    ensures
        ({
            let line = audio_media_line(m, s, p as nat);
            let yes = "AUTOSELECT=YES,DEFAULT=YES\n"@;
            let tail = "/\"\n"@;
            let z = zero_padded(p as nat, 2);
            let dir = "AUTOSELECT=NO,DEFAULT=NO,URI=\"/audio/"@ + m + "/"@;
            let e = line.len() - tail.len();
            if lookup(s.disposition_entries(), "default"@) == Some(1isize) {
                line.skip(line.len() - yes.len()) == yes
            } else {
                &&& line.len() >= dir.len() + z.len() + tail.len()
                &&& line.skip(e) == tail
                &&& parse_usize_spec(line.subrange(e - z.len(), e)) == Some(p)
                &&& line.subrange(e - z.len() - dir.len(), e - z.len()) == dir
            }
        }),
{
    let line = audio_media_line(m, s, p as nat);
    let front = "#EXT-X-MEDIA:TYPE=AUDIO,GROUP-ID=\"bipbop_audio\","@ + language_attribute(s)
        + name_attribute(s, p as nat);
    lemma_parse_zero_padded(p, 2);
    if lookup(s.disposition_entries(), "default"@) == Some(1isize) {
        let yes = "AUTOSELECT=YES,DEFAULT=YES\n"@;
        assert(line =~= front + yes);
        assert(line.skip(line.len() - yes.len()) =~= yes);
    } else {
        let tail = "/\"\n"@;
        let z = zero_padded(p as nat, 2);
        let dir = "AUTOSELECT=NO,DEFAULT=NO,URI=\"/audio/"@ + m + "/"@;
        assert(line =~= front + dir + z + tail);
        let e = line.len() - tail.len();
        assert(line.skip(e) =~= tail);
        assert(line.subrange(e - z.len(), e) =~= z);
        assert(line.subrange(e - z.len() - dir.len(), e - z.len()) =~= dir);
    }
}


/// A duration printed in seconds reads back as the same number of ticks:
/// whole seconds, a point, then exactly four digits of ten-thousandths.
pub proof fn law_seconds_text_reads_back(t: nat)
    ensures
        ({
            let s = seconds_text(t);
            let n = s.len();
            &&& n >= 6
            &&& s[n - 5] == '.'
            &&& all_ascii_digits(s.take(n - 5))
            &&& all_ascii_digits(s.skip(n - 4))
            &&& digits_value(s.take(n - 5)) * 10000 + digits_value(s.skip(n - 4)) == t
        }),
{
    assert(pow10(4) == 10000) by { reveal_with_fuel(pow10, 5); }
    lemma_decimal_digits(t / 10000);
    lemma_zero_padded_digits(t % 10000, 4);
    let w = decimal(t / 10000);
    let f = zero_padded(t % 10000, 4);
    let s = seconds_text(t);
    assert(s == w + seq!['.'] + f);
    let n = s.len();
    assert(s.take(n - 5) =~= w);
    assert(s.skip(n - 4) =~= f);
    assert(s[n - 5] == '.');
}

/// Each entry of a media playlist is `#EXTINF:`, the duration in seconds,
/// `,` and a line break, then the segment's URI and a line break.
pub proof fn law_segment_entry_shape(track: Track, media_file: Seq<char>, i: nat, dur: nat)
    ensures
        ({
            let entry = segment_entry(track, media_file, i, dur);
            let a = "#EXTINF:"@.len() as int;
            let b = a + seconds_text(dur).len();
            let c = b + ",\n"@.len();
            let e = c + segment_uri(track, media_file, i).len();
            &&& entry.len() == e + "\n"@.len()
            &&& entry.take(a) == "#EXTINF:"@
            &&& entry.subrange(a, b) == seconds_text(dur)
            &&& entry.subrange(b, c) == ",\n"@
            &&& entry.subrange(c, e) == segment_uri(track, media_file, i)
            &&& entry.skip(e) == "\n"@
        }),
{
    let entry = segment_entry(track, media_file, i, dur);
    let a = "#EXTINF:"@.len() as int;
    let b = a + seconds_text(dur).len();
    let c = b + ",\n"@.len();
    let e = c + segment_uri(track, media_file, i).len();
    assert(entry.take(a) =~= "#EXTINF:"@);
    assert(entry.subrange(a, b) =~= seconds_text(dur));
    assert(entry.subrange(b, c) =~= ",\n"@);
    assert(entry.subrange(c, e) =~= segment_uri(track, media_file, i));
    assert(entry.skip(e) =~= "\n"@);
}

} // verus!
