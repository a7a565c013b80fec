//! Media segments: which segment a request names, and the `ffmpeg` command
//! line that cuts that segment (or the whole subtitle track) out of the media.

use vstd::prelude::*;
use crate::text::{decimal, parse_usize, parse_usize_spec, push_decimal};
use crate::media_info::strings_view;
use crate::playlist::{law_segment_starts, push_seconds, seconds_text, segment_durations, total, ContentType, SEGMENT_TICKS};
use crate::text::{all_ascii_digits, digits_value, lemma_parse_decimal, lemma_zero_padded_digits, lemma_parse_zero_padded, pow10, trim, zero_padded};
use crate::playlist::{segment_uri, Track};

verus! {

#[verifier::external_type_specification]
#[verifier::external_body]
pub struct ExRegex(regex::Regex);

#[verifier::external_type_specification]
#[verifier::external_body]
pub struct ExRegexError(regex::Error);

/// Whether `regex::Regex::new` accepts `pattern`.
pub uninterp spec fn regex_compiles(pattern: Seq<char>) -> bool;

/// What `regex::Regex::is_match` answers for the expression compiled from
/// `pattern` on `haystack`: whether it matches anywhere in it.
pub uninterp spec fn regex_is_match(pattern: Seq<char>, haystack: Seq<char>) -> bool;

/// The text of the leftmost-first match of the expression compiled from
/// `pattern` in `haystack` (capture group 0 of `regex::Regex::captures`),
/// if it matches.
pub uninterp spec fn regex_first_match(pattern: Seq<char>, haystack: Seq<char>) -> Option<Seq<char>>;

/// Compiles a regular expression with `regex::Regex::new`. The contract
/// claims that whether it succeeds depends on the pattern alone; it says
/// nothing of the compiled value, which only the methods below read.
#[verifier::external_body]
fn regex_new(pattern: &str) -> (r: Result<regex::Regex, regex::Error>)
    ensures
        r is Ok <==> regex_compiles(pattern@),
{
    regex::Regex::new(pattern)
}

/// A compiled regular expression together with the pattern it was compiled
/// from. Its fields are private and set only by `Pattern::compile`, so the
/// expression is always the one that `source` compiles to.
pub struct Pattern {
    regex: regex::Regex,
    source: String,
}

impl View for Pattern {
    type V = Seq<char>;

    /// The pattern the expression was compiled from.
    closed spec fn view(&self) -> Seq<char> {
        self.source@
    }
}

/// The view of an optional string.
pub open spec fn opt_string_view(o: Option<String>) -> Option<Seq<char>> {
    match o {
        Some(s) => Some(s@),
        None => None,
    }
}

impl Pattern {
    /// Compiles `pattern`; `None` when the regex crate refuses it.
    pub fn compile(pattern: &str) -> (r: Option<Pattern>)
        ensures
            r is Some <==> regex_compiles(pattern@),
            r matches Some(p) ==> p@ == pattern@,
    {
        match regex_new(pattern) {
            Ok(regex) => Some(Pattern { regex, source: pattern.to_owned() }),
            Err(_) => None,
        }
    }

    /// Whether the expression matches anywhere in `haystack`
    /// (`regex::Regex::is_match`). The contract claims the answer is the
    /// named one for the pattern this expression was compiled from.
    #[verifier::external_body]
    fn is_match(&self, haystack: &str) -> (b: bool)
        ensures
            b == regex_is_match(self@, haystack@),
    {
        self.regex.is_match(haystack)
    }

    /// The text of the whole leftmost-first match in `haystack`, if any
    /// (capture group 0 of `regex::Regex::captures`). The contract claims
    /// the answer is the named one for the pattern this expression was
    /// compiled from.
    #[verifier::external_body]
    fn first_match(&self, haystack: &str) -> (m: Option<String>)
        ensures
            opt_string_view(m) == regex_first_match(self@, haystack@),
    {
        self.regex.captures(haystack).and_then(|c| c.get(0)).map(|m| m.as_str().to_owned())
    }
}

/// The highest segment number that a four-digit segment name can give.
pub const MAX_SEGMENT_NUMBER: usize = 9999;

/// The kinds of segment that the server cuts.
#[derive(Debug, Clone, Copy, PartialEq, Eq, Structural)]
pub enum SegmentKind {
    /// A video segment, `NNNN.ts`.
    Video,
    /// An audio segment, `NNNN.aac`.
    Audio,
    /// The subtitle track, `NNNN.webvtt`.
    Subtitle,
}

/// The pattern that a segment name of a kind must match.
pub open spec fn segment_name_pattern(kind: SegmentKind) -> Seq<char> {
    match kind {
        SegmentKind::Video => "^\\d{4}.ts$"@,
        SegmentKind::Audio => "^\\d{4}.aac$"@,
        SegmentKind::Subtitle => "^\\d{4}.webvtt$"@,
    }
}

/// The pattern of the segment number at the start of a segment name.
pub open spec fn segment_number_pattern() -> Seq<char> {
    "^\\d{4}"@
}

/// Why a segment request was not served.
#[derive(Debug, Clone, Copy, PartialEq, Eq, Structural)]
pub enum SegmentRejection {
    /// The segment name does not have the form of the requested kind: 404.
    NotFound,
    /// The regex crate refused one of the fixed patterns.
    InvalidPattern,
    /// The number pattern did not match the segment name.
    MissingNumber,
    /// The matched digits are not a number that `str::parse` reads.
    InvalidNumber,
    /// The number is above `MAX_SEGMENT_NUMBER`.
    NumberTooLarge,
}

/// The segment number that the text matched at the start of a segment name gives.
pub open spec fn segment_number_of(matched: Option<Seq<char>>) -> Result<usize, SegmentRejection> {
    match matched {
        None => Err(SegmentRejection::MissingNumber),
        Some(digits) => match parse_usize_spec(digits) {
            None => Err(SegmentRejection::InvalidNumber),
            Some(n) => if n > MAX_SEGMENT_NUMBER {
                Err(SegmentRejection::NumberTooLarge)
            } else {
                Ok(n)
            },
        },
    }
}

/// Reads the segment number out of the text that the number pattern matched.
pub fn segment_number(matched: Option<&str>) -> (r: Result<usize, SegmentRejection>)
    ensures
        r == segment_number_of(
            match matched {
                Some(s) => Some(s@),
                None => None,
            },
        ),
{
    match matched {
        None => Err(SegmentRejection::MissingNumber),
        Some(digits) => match parse_usize(digits) {
            None => Err(SegmentRejection::InvalidNumber),
            Some(n) => if n > MAX_SEGMENT_NUMBER {
                Err(SegmentRejection::NumberTooLarge)
            } else {
                Ok(n)
            },
        },
    }
}

/// The segment number that a request for `segment` of a kind names: the
/// name must match the kind's pattern, and its leading four digits give
/// the number.
pub open spec fn requested_segment(kind: SegmentKind, segment: Seq<char>) -> Result<
    usize,
    SegmentRejection,
> {
    if !regex_compiles(segment_name_pattern(kind)) {
        Err(SegmentRejection::InvalidPattern)
    } else if !regex_is_match(segment_name_pattern(kind), segment) {
        Err(SegmentRejection::NotFound)
    } else if !regex_compiles(segment_number_pattern()) {
        Err(SegmentRejection::InvalidPattern)
    } else {
        segment_number_of(regex_first_match(segment_number_pattern(), segment))
    }
}

/// Checks a segment name against the pattern of its kind and reads its number.
pub fn parse_segment_name(kind: SegmentKind, segment_str: &str) -> (r: Result<
    usize,
    SegmentRejection,
>)
    ensures
        r == requested_segment(kind, segment_str@),
{
    let name_pattern = match kind {
        SegmentKind::Video => "^\\d{4}.ts$",
        SegmentKind::Audio => "^\\d{4}.aac$",
        SegmentKind::Subtitle => "^\\d{4}.webvtt$",
    };
    let valid = match Pattern::compile(name_pattern) {
        None => return Err(SegmentRejection::InvalidPattern),
        Some(p) => p,
    };
    if !valid.is_match(segment_str) {
        return Err(SegmentRejection::NotFound);
    }
    let number = match Pattern::compile("^\\d{4}") {
        None => return Err(SegmentRejection::InvalidPattern),
        Some(p) => p,
    };
    let matched = number.first_match(segment_str);
    match matched {
        None => segment_number(None),
        Some(digits) => segment_number(Some(digits.as_str())),
    }
}


// ---------------------------------------------------------------------------
// ffmpeg command lines
// ---------------------------------------------------------------------------

/// An `ffmpeg` run that produces a segment: its arguments, and the content
/// type of what it writes to standard output.
#[derive(Debug)]
pub struct SegmentJob {
    pub args: Vec<String>,
    pub content_type: ContentType,
}

/// The view of a job: its arguments and its content type.
pub open spec fn job_view(j: SegmentJob) -> (Seq<Seq<char>>, ContentType) {
    (strings_view(j.args@), j.content_type)
}

/// When segment `n` starts: `n` full segments into the media.
pub open spec fn segment_start_text(n: nat) -> Seq<char> {
    seconds_text(n * (SEGMENT_TICKS as nat))
}

/// The length of a segment, as `ffmpeg` is told it.
pub open spec fn segment_length_text() -> Seq<char> {
    seconds_text(SEGMENT_TICKS as nat)
}

/// The `ffmpeg` arguments that cut video segment `n`, scaled to height
/// `resolution`, with stereo AAC audio.
pub open spec fn video_segment_args(media_file: Seq<char>, resolution: u16, n: nat) -> Seq<Seq<char>> {
    seq![
        "-timelimit"@, "45"@,
        "-ss"@, segment_start_text(n),
        "-i"@, media_file,
        "-muxdelay"@, "0"@,
        "-t"@, segment_length_text(),
        "-vf"@, "scale=-2:"@ + decimal(resolution as nat),
        "-vcodec"@, "libx264"@,
        "-preset"@, "veryfast"@,
        "-c:a"@, "aac"@,
        "-b:a"@, "128k"@,
        "-ac"@, "2"@,
        "-pix_fmt"@, "yuv420p"@,
        "-force_key_frames"@, "expr:gte(t,n_forced*"@ + segment_length_text() + ")"@,
        "-f"@, "ssegment"@,
        "-segment_time"@, segment_length_text(),
        "-initial_offset"@, segment_start_text(n),
        "pipe:%04d.ts"@,
    ]
}

/// The `ffmpeg` arguments that cut segment `n` of audio stream `stream_index`
/// as stereo AAC.
pub open spec fn audio_segment_args(media_file: Seq<char>, stream_index: u8, n: nat) -> Seq<Seq<char>> {
    seq![
        "-timelimit"@, "45"@,
        "-ss"@, segment_start_text(n),
        "-i"@, media_file,
        "-muxdelay"@, "0"@,
        "-t"@, segment_length_text(),
        "-map"@, "0:a:"@ + decimal(stream_index as nat),
        "-c:a"@, "aac"@,
        "-b:a"@, "128k"@,
        "-ac"@, "2"@,
        "-force_key_frames"@, "expr:gte(t,n_forced*"@ + segment_length_text() + ")"@,
        "-f"@, "ssegment"@,
        "-segment_time"@, segment_length_text(),
        "-initial_offset"@, segment_start_text(n),
        "pipe:%04d.ts"@,
    ]
}

/// The `ffmpeg` arguments that extract the whole subtitle stream
/// `stream_index` as WebVTT: subtitles are small, so they are not cut.
pub open spec fn subtitle_args(media_file: Seq<char>, stream_index: u8) -> Seq<Seq<char>> {
    seq![
        "-timelimit"@, "45"@,
        "-i"@, media_file,
        "-muxdelay"@, "0"@,
        "-map"@, "0:s:"@ + decimal(stream_index as nat),
        "-c:s"@, "webvtt"@,
        "pipe:sub.vtt"@,
    ]
}

fn push_arg(args: &mut Vec<String>, a: &str)
    ensures
        strings_view(final(args)@) == strings_view(old(args)@).push(a@),
{
    args.push(a.to_owned());
    assert(strings_view(args@) =~= strings_view(old(args)@).push(a@));
}

fn push_owned_arg(args: &mut Vec<String>, a: String)
    ensures
        strings_view(final(args)@) == strings_view(old(args)@).push(a@),
{
    let ghost v = a@;
    args.push(a);
    assert(strings_view(args@) =~= strings_view(old(args)@).push(v));
}

/// The text of a number of ticks in seconds, as a new string.
fn seconds_string(t: u64) -> (r: String)
    ensures
        r@ == seconds_text(t as nat),
{
    let mut s = String::new();
    push_seconds(&mut s, t);
    s
}

/// A literal followed by a number in decimal, as a new string.
fn prefixed_decimal(prefix: &str, n: u64) -> (r: String)
    ensures
        r@ == prefix@ + decimal(n as nat),
{
    let mut s = String::new();
    s.append(prefix);
    push_decimal(&mut s, n);
    s
}

/// The `-force_key_frames` expression that puts a key frame at every segment start.
fn key_frames_expression() -> (r: String)
    ensures
        r@ == "expr:gte(t,n_forced*"@ + segment_length_text() + ")"@,
{
    let mut s = String::new();
    s.append("expr:gte(t,n_forced*");
    push_seconds(&mut s, SEGMENT_TICKS);
    s.append(")");
    s
}

/// The `ffmpeg` run that cuts video segment `segment_number` scaled to height `resolution`.
pub fn get_video_segment(media_file: &str, resolution: u16, segment_number: usize) -> (r: SegmentJob)
    requires
        segment_number <= MAX_SEGMENT_NUMBER,
    ensures
        job_view(r) == (video_segment_args(media_file@, resolution, segment_number as nat), ContentType::MpegTs),
{
    let start = segment_number as u64 * SEGMENT_TICKS;
    let mut args: Vec<String> = Vec::new();
    push_arg(&mut args, "-timelimit");
    push_arg(&mut args, "45");
    push_arg(&mut args, "-ss");
    push_owned_arg(&mut args, seconds_string(start));
    push_arg(&mut args, "-i");
    push_arg(&mut args, media_file);
    push_arg(&mut args, "-muxdelay");
    push_arg(&mut args, "0");
    push_arg(&mut args, "-t");
    push_owned_arg(&mut args, seconds_string(SEGMENT_TICKS));
    push_arg(&mut args, "-vf");
    push_owned_arg(&mut args, prefixed_decimal("scale=-2:", resolution as u64));
    push_arg(&mut args, "-vcodec");
    push_arg(&mut args, "libx264");
    push_arg(&mut args, "-preset");
    push_arg(&mut args, "veryfast");
    push_arg(&mut args, "-c:a");
    push_arg(&mut args, "aac");
    push_arg(&mut args, "-b:a");
    push_arg(&mut args, "128k");
    push_arg(&mut args, "-ac");
    push_arg(&mut args, "2");
    push_arg(&mut args, "-pix_fmt");
    push_arg(&mut args, "yuv420p");
    push_arg(&mut args, "-force_key_frames");
    push_owned_arg(&mut args, key_frames_expression());
    push_arg(&mut args, "-f");
    push_arg(&mut args, "ssegment");
    push_arg(&mut args, "-segment_time");
    push_owned_arg(&mut args, seconds_string(SEGMENT_TICKS));
    push_arg(&mut args, "-initial_offset");
    push_owned_arg(&mut args, seconds_string(start));
    push_arg(&mut args, "pipe:%04d.ts");
    assert(strings_view(args@) =~= video_segment_args(media_file@, resolution, segment_number as nat));
    SegmentJob { args, content_type: ContentType::MpegTs }
}

/// The `ffmpeg` run that cuts segment `segment_number` of audio stream `stream_index`.
pub fn get_audio_segment(media_file: &str, stream_index: u8, segment_number: usize) -> (r: SegmentJob)
    requires
        segment_number <= MAX_SEGMENT_NUMBER,
    ensures
        job_view(r) == (audio_segment_args(media_file@, stream_index, segment_number as nat), ContentType::Aac),
{
    let start = segment_number as u64 * SEGMENT_TICKS;
    let mut args: Vec<String> = Vec::new();
    push_arg(&mut args, "-timelimit");
    push_arg(&mut args, "45");
    push_arg(&mut args, "-ss");
    push_owned_arg(&mut args, seconds_string(start));
    push_arg(&mut args, "-i");
    push_arg(&mut args, media_file);
    push_arg(&mut args, "-muxdelay");
    push_arg(&mut args, "0");
    push_arg(&mut args, "-t");
    push_owned_arg(&mut args, seconds_string(SEGMENT_TICKS));
    push_arg(&mut args, "-map");
    push_owned_arg(&mut args, prefixed_decimal("0:a:", stream_index as u64));
    push_arg(&mut args, "-c:a");
    push_arg(&mut args, "aac");
    push_arg(&mut args, "-b:a");
    push_arg(&mut args, "128k");
    push_arg(&mut args, "-ac");
    push_arg(&mut args, "2");
    push_arg(&mut args, "-force_key_frames");
    push_owned_arg(&mut args, key_frames_expression());
    push_arg(&mut args, "-f");
    push_arg(&mut args, "ssegment");
    push_arg(&mut args, "-segment_time");
    push_owned_arg(&mut args, seconds_string(SEGMENT_TICKS));
    push_arg(&mut args, "-initial_offset");
    push_owned_arg(&mut args, seconds_string(start));
    push_arg(&mut args, "pipe:%04d.ts");
    assert(strings_view(args@) =~= audio_segment_args(media_file@, stream_index, segment_number as nat));
    SegmentJob { args, content_type: ContentType::Aac }
}

/// The `ffmpeg` run that extracts subtitle stream `stream_index` whole; the
/// segment number plays no part.
pub fn get_subtitle_segment(media_file: &str, stream_index: u8, segment_number: usize) -> (r: SegmentJob)
    ensures
        job_view(r) == (subtitle_args(media_file@, stream_index), ContentType::WebVtt),
{
    let mut args: Vec<String> = Vec::new();
    push_arg(&mut args, "-timelimit");
    push_arg(&mut args, "45");
    push_arg(&mut args, "-i");
    push_arg(&mut args, media_file);
    push_arg(&mut args, "-muxdelay");
    push_arg(&mut args, "0");
    push_arg(&mut args, "-map");
    push_owned_arg(&mut args, prefixed_decimal("0:s:", stream_index as u64));
    push_arg(&mut args, "-c:s");
    push_arg(&mut args, "webvtt");
    push_arg(&mut args, "pipe:sub.vtt");
    assert(strings_view(args@) =~= subtitle_args(media_file@, stream_index));
    SegmentJob { args, content_type: ContentType::WebVtt }
}

// ---------------------------------------------------------------------------
// Requests
// ---------------------------------------------------------------------------

/// The view of the answer to a segment request.
pub open spec fn job_result_view(r: Result<SegmentJob, SegmentRejection>) -> Result<
    (Seq<Seq<char>>, ContentType),
    SegmentRejection,
> {
    match r {
        Ok(j) => Ok(job_view(j)),
        Err(e) => Err(e),
    }
}

/// What a request for a segment of a kind is answered: the job for the
/// named segment number, or why there is none.
pub open spec fn segment_reply(
    kind: SegmentKind,
    media_file: Seq<char>,
    param: nat,
    segment: Seq<char>,
) -> Result<(Seq<Seq<char>>, ContentType), SegmentRejection> {
    match requested_segment(kind, segment) {
        Err(e) => Err(e),
        Ok(n) => Ok(
            match kind {
                SegmentKind::Video => (
                    video_segment_args(media_file, param as u16, n as nat),
                    ContentType::MpegTs,
                ),
                SegmentKind::Audio => (
                    audio_segment_args(media_file, param as u8, n as nat),
                    ContentType::Aac,
                ),
                SegmentKind::Subtitle => (subtitle_args(media_file, param as u8), ContentType::WebVtt),
            },
        ),
    }
}

/// A request for video segment `segment_str` (`NNNN.ts`) of `media_file`
/// scaled to height `resolution`.
pub fn video_segment_handler(media_file: &str, resolution: u16, segment_str: &str) -> (r: Result<
    SegmentJob,
    SegmentRejection,
>)
    ensures
        job_result_view(r) == segment_reply(SegmentKind::Video, media_file@, resolution as nat, segment_str@),
{
    let n = parse_segment_name(SegmentKind::Video, segment_str)?;
    Ok(get_video_segment(media_file, resolution, n))
}

/// A request for segment `segment_str` (`NNNN.aac`) of audio stream
/// `stream_index` of `media_file`.
pub fn audio_segment_handler(media_file: &str, stream_index: u8, segment_str: &str) -> (r: Result<
    SegmentJob,
    SegmentRejection,
>)
    ensures
        job_result_view(r) == segment_reply(SegmentKind::Audio, media_file@, stream_index as nat, segment_str@),
{
    let n = parse_segment_name(SegmentKind::Audio, segment_str)?;
    Ok(get_audio_segment(media_file, stream_index, n))
}

/// A request for the subtitle track `segment_str` (`NNNN.webvtt`) of
/// subtitle stream `stream_index` of `media_file`.
pub fn subtitle_segment_handler(media_file: &str, stream_index: u8, segment_str: &str) -> (r: Result<
    SegmentJob,
    SegmentRejection,
>)
    ensures
        job_result_view(r) == segment_reply(SegmentKind::Subtitle, media_file@, stream_index as nat, segment_str@),
{
    let n = parse_segment_name(SegmentKind::Subtitle, segment_str)?;
    Ok(get_subtitle_segment(media_file, stream_index, n))
}


// ---------------------------------------------------------------------------
// Laws that tie segments to playlists
// ---------------------------------------------------------------------------

/// The file name that a media playlist gives segment `i` (`{:04}` of `i`)
/// reads back as segment number `i`.
pub proof fn law_segment_name_reads_back(i: usize)
    requires
        i <= MAX_SEGMENT_NUMBER,
    ensures
        segment_number_of(Some(zero_padded(i as nat, 4))) == Ok::<usize, SegmentRejection>(i),
{
    lemma_parse_zero_padded(i, 4);
}

/// The job for segment `i` of a video or an audio track seeks to where a
/// media playlist of a media of `d` ticks starts segment `i`, and tells the
/// segmenter the same offset.
pub proof fn law_jobs_start_where_segments_start(
    media_file: Seq<char>,
    resolution: u16,
    stream_index: u8,
    d: nat,
    i: nat,
)
    requires
        i < segment_durations(d).len(),
    ensures
        video_segment_args(media_file, resolution, i)[3] == seconds_text(
            total(segment_durations(d).take(i as int)),
        ),
        video_segment_args(media_file, resolution, i)[31] == seconds_text(
            total(segment_durations(d).take(i as int)),
        ),
        audio_segment_args(media_file, stream_index, i)[3] == seconds_text(
            total(segment_durations(d).take(i as int)),
        ),
        audio_segment_args(media_file, stream_index, i)[25] == seconds_text(
            total(segment_durations(d).take(i as int)),
        ),
{
    law_segment_starts(d, i);
}


/// The file extension of the segments of a track.
pub open spec fn segment_extension(track: Track) -> Seq<char> {
    match track {
        Track::Video { .. } => ".ts"@,
        Track::Audio { .. } => ".aac"@,
    }
}

/// The file name that a media playlist gives segment `i` is the last path
/// component of its URI: exactly four digits that read back as `i`, then the
/// track's extension.
pub proof fn law_segment_file_names(track: Track, media_file: Seq<char>, i: usize)
    requires
        i <= MAX_SEGMENT_NUMBER,
    ensures
        ({
            let u = segment_uri(track, media_file, i as nat);
            let x = segment_extension(track);
            let end = u.len() - x.len();
            &&& u.len() >= x.len() + 5
            &&& u.skip(end) == x
            &&& u[end - 5] == '/'
            &&& all_ascii_digits(u.subrange(end - 4, end))
            &&& digits_value(u.subrange(end - 4, end)) == i
            &&& segment_number_of(Some(u.subrange(end - 4, end))) == Ok::<usize, SegmentRejection>(i)
        }),
{
    reveal_strlit("/");
    assert(pow10(4) == 10000) by { reveal_with_fuel(pow10, 5); }
    lemma_zero_padded_digits(i as nat, 4);
    lemma_parse_zero_padded(i, 4);
    let z = zero_padded(i as nat, 4);
    let x = segment_extension(track);
    let u = segment_uri(track, media_file, i as nat);
    let pre = match track {
        Track::Video { resolution } => "/video/"@ + trim(media_file) + "/"@ + decimal(
            resolution as nat,
        ) + "/"@,
        Track::Audio { index } => "/audio/"@ + media_file + "/"@ + zero_padded(index as nat, 2)
            + "/"@,
    };
    assert(u =~= pre + z + x);
    assert(pre.last() == '/');
    let end = u.len() - x.len();
    assert(u.skip(end) =~= x);
    assert(u.subrange(end - 4, end) =~= z);
    assert(u[end - 5] == pre.last());
}

/// The video segment job scales to exactly the requested height: the
/// argument after `-vf` is `scale=-2:` followed by digits that read back as
/// the height.
pub proof fn law_video_job_scales_to_requested_height(media_file: Seq<char>, resolution: u16, n: nat)
    ensures
        ({
            let args = video_segment_args(media_file, resolution, n);
            &&& args[10] == "-vf"@
            &&& args[11].take("scale=-2:"@.len() as int) == "scale=-2:"@
            &&& parse_usize_spec(args[11].skip("scale=-2:"@.len() as int)) == Some(resolution as usize)
        }),
{
    let args = video_segment_args(media_file, resolution, n);
    lemma_parse_decimal(resolution as usize);
    assert(args[11] == "scale=-2:"@ + decimal(resolution as nat));
    assert(args[11].take("scale=-2:"@.len() as int) =~= "scale=-2:"@);
    assert(args[11].skip("scale=-2:"@.len() as int) =~= decimal(resolution as nat));
}

/// The audio segment job maps exactly the requested audio stream: the
/// argument after `-map` is `0:a:` followed by digits that read back as the
/// stream index.
pub proof fn law_audio_job_maps_requested_stream(media_file: Seq<char>, stream_index: u8, n: nat)
    ensures
        ({
            let args = audio_segment_args(media_file, stream_index, n);
            &&& args[10] == "-map"@
            &&& args[11].take("0:a:"@.len() as int) == "0:a:"@
            &&& parse_usize_spec(args[11].skip("0:a:"@.len() as int)) == Some(stream_index as usize)
        }),
{
    let args = audio_segment_args(media_file, stream_index, n);
    lemma_parse_decimal(stream_index as usize);
    assert(args[11] == "0:a:"@ + decimal(stream_index as nat));
    assert(args[11].take("0:a:"@.len() as int) =~= "0:a:"@);
    assert(args[11].skip("0:a:"@.len() as int) =~= decimal(stream_index as nat));
}

/// The subtitle job maps exactly the requested subtitle stream: the
/// argument after `-map` is `0:s:` followed by digits that read back as the
/// stream index.
pub proof fn law_subtitle_job_maps_requested_stream(media_file: Seq<char>, stream_index: u8)
    ensures
        ({
            let args = subtitle_args(media_file, stream_index);
            &&& args[6] == "-map"@
            &&& args[7].take("0:s:"@.len() as int) == "0:s:"@
            &&& parse_usize_spec(args[7].skip("0:s:"@.len() as int)) == Some(stream_index as usize)
        }),
{
    let args = subtitle_args(media_file, stream_index);
    lemma_parse_decimal(stream_index as usize);
    assert(args[7] == "0:s:"@ + decimal(stream_index as nat));
    assert(args[7].take("0:s:"@.len() as int) =~= "0:s:"@);
    assert(args[7].skip("0:s:"@.len() as int) =~= decimal(stream_index as nat));
}


/// The directory of a segment URI names the media and the track exactly:
/// after `/video/` and the trimmed media name come digits that read back as
/// the height; after `/audio/` and the media name come digits that read
/// back as the audio stream index. A `/` follows them.
pub proof fn law_segment_uri_names_track(track: Track, media_file: Seq<char>, i: nat)
    ensures
        ({
            let u = segment_uri(track, media_file, i);
            match track {
                Track::Video { resolution } => {
                    let p = "/video/"@ + trim(media_file) + "/"@;
                    let e = (p.len() + decimal(resolution as nat).len()) as int;
                    &&& u.take(p.len() as int) == p
                    &&& parse_usize_spec(u.subrange(p.len() as int, e)) == Some(resolution)
                    &&& u[e] == '/'
                },
                Track::Audio { index } => {
                    let p = "/audio/"@ + media_file + "/"@;
                    let e = (p.len() + zero_padded(index as nat, 2).len()) as int;
                    &&& u.take(p.len() as int) == p
                    &&& parse_usize_spec(u.subrange(p.len() as int, e)) == Some(index as usize)
                    &&& u[e] == '/'
                },
            }
        }),
{
    reveal_strlit("/");
    let u = segment_uri(track, media_file, i);
    match track {
        Track::Video { resolution } => {
            let p = "/video/"@ + trim(media_file) + "/"@;
            let d = decimal(resolution as nat);
            lemma_parse_decimal(resolution);
            let rest = "/"@ + zero_padded(i, 4) + ".ts"@;
            assert(u =~= p + d + rest);
            assert(u.take(p.len() as int) =~= p);
            assert(u.subrange(p.len() as int, (p.len() + d.len()) as int) =~= d);
            assert(u[(p.len() + d.len()) as int] == rest[0]);
        },
        Track::Audio { index } => {
            let p = "/audio/"@ + media_file + "/"@;
            let d = zero_padded(index as nat, 2);
            lemma_parse_zero_padded(index as usize, 2);
            let rest = "/"@ + zero_padded(i, 4) + ".aac"@;
            assert(u =~= p + d + rest);
            assert(u.take(p.len() as int) =~= p);
            assert(u.subrange(p.len() as int, (p.len() + d.len()) as int) =~= d);
            assert(u[(p.len() + d.len()) as int] == rest[0]);
        },
    }
}

} // verus!
