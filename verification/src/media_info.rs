//! What the server learns of a media file from `ffprobe`: the command lines
//! that ask for it, and what is read back from its answers.

use vstd::prelude::*;
use crate::text::{is_white_space, lemma_lines_first, lemma_trim_end_append, lemma_trim_end_prefix, lemma_trim_start_append, lemma_trim_start_suffix, decimal, lemma_decimal_digits, lemma_digit_not_space, lemma_line_end_append, lemma_parse_decimal, line_end, trim_end, trim_start, chars_of, lines, parse_usize_chars, parse_usize_spec, str_eq, strip_carriage_return, trim, trim_bounds, find_line_end};

verus! {

/// The frame size of a video stream, in pixels.
#[derive(Debug, Clone, Copy, PartialEq, Eq, Structural)]
pub struct Resolution {
    pub width: usize,
    pub height: usize,
}

/// One stream of a media file as `ffprobe` describes it: its index in the
/// file, its tags (such as `language` and `title`) and its disposition flags
/// (such as `default`). Each list holds a key at most once, as the maps of
/// `ffprobe`'s JSON do; a lookup takes the first entry with the key.
#[derive(Debug)]
pub struct Stream {
    pub index: usize,
    pub tags: Vec<(String, String)>,
    pub disposition: Vec<(String, isize)>,
}

/// The streams of one kind that `ffprobe` found in a media file.
#[derive(Debug)]
pub struct StreamArray {
    pub streams: Vec<Stream>,
}

/// The kinds of stream that `ffprobe` can be asked about.
#[derive(Debug, Clone, Copy, PartialEq, Eq, Structural)]
pub enum StreamType {
    Video,
    Audio,
    Subtitle,
}

/// Why `ffprobe`'s answer to a resolution query could not be read.
#[derive(Debug, Clone, Copy, PartialEq, Eq, Structural)]
pub enum ResolutionError {
    /// The answer holds no line for the width.
    MissingWidth,
    /// The answer holds no line for the height.
    MissingHeight,
    /// The width line is not an unsigned number.
    InvalidWidth,
    /// The height line is not an unsigned number.
    InvalidHeight,
}

/// The value of the first entry whose key is `key`.
pub open spec fn lookup<V>(entries: Seq<(Seq<char>, V)>, key: Seq<char>) -> Option<V>
    decreases entries.len(),
{
    if entries.len() == 0 {
        None
    } else if entries[0].0 == key {
        Some(entries[0].1)
    } else {
        lookup(entries.drop_first(), key)
    }
}

/// The views of a list of strings.
pub open spec fn strings_view(v: Seq<String>) -> Seq<Seq<char>> {
    v.map_values(|a: String| a@)
}

impl Stream {
    /// The tags, as pairs of character sequences.
    pub open spec fn tag_entries(&self) -> Seq<(Seq<char>, Seq<char>)> {
        self.tags@.map_values(|e: (String, String)| (e.0@, e.1@))
    }

    /// The disposition flags, keyed by character sequences.
    pub open spec fn disposition_entries(&self) -> Seq<(Seq<char>, isize)> {
        self.disposition@.map_values(|e: (String, isize)| (e.0@, e.1))
    }

    /// The tag `key` of this stream.
    pub fn tag(&self, key: &str) -> (r: Option<&String>)
        ensures
            match r {
                Some(v) => lookup(self.tag_entries(), key@) == Some(v@),
                None => lookup(self.tag_entries(), key@) is None,
            },
    {
        let ghost e = self.tag_entries();
        let mut i: usize = 0;
        assert(e.skip(0) =~= e);
        while i < self.tags.len()
            invariant
                i <= self.tags.len() == e.len(),
                e == self.tag_entries(),
                lookup(e, key@) == lookup(e.skip(i as int), key@),
            decreases self.tags.len() - i,
        {
            let entry = &self.tags[i];
            assert(e[i as int] == (entry.0@, entry.1@));
            if str_eq(entry.0.as_str(), key) {
                return Some(&entry.1);
            }
            assert(e.skip(i as int).drop_first() =~= e.skip(i + 1));
            i = i + 1;
        }
        None
    }

    /// The disposition flag `key` of this stream.
    pub fn disposition_flag(&self, key: &str) -> (r: Option<isize>)
        ensures
            r == lookup(self.disposition_entries(), key@),
    {
        let ghost e = self.disposition_entries();
        let mut i: usize = 0;
        assert(e.skip(0) =~= e);
        while i < self.disposition.len()
            invariant
                i <= self.disposition.len() == e.len(),
                e == self.disposition_entries(),
                lookup(e, key@) == lookup(e.skip(i as int), key@),
            decreases self.disposition.len() - i,
        {
            let entry = &self.disposition[i];
            assert(e[i as int] == (entry.0@, entry.1));
            if str_eq(entry.0.as_str(), key) {
                return Some(entry.1);
            }
            assert(e.skip(i as int).drop_first() =~= e.skip(i + 1));
            i = i + 1;
        }
        None
    }
}

/// The selector that `ffprobe -select_streams` takes for a kind of stream.
pub open spec fn stream_selector(t: StreamType) -> Seq<char> {
    match t {
        StreamType::Video => "v"@,
        StreamType::Audio => "a"@,
        StreamType::Subtitle => "s"@,
    }
}

/// The arguments of the `ffprobe` run that lists the streams of one kind, as JSON.
pub open spec fn stream_info_args(media_file: Seq<char>, t: StreamType) -> Seq<Seq<char>> {
    seq![
        "-i"@, media_file, "-v"@, "quiet"@, "-select_streams"@, stream_selector(t),
        "-show_entries"@, "stream"@, "-of"@, "json"@,
    ]
}

/// The arguments of the `ffprobe` run that prints the duration in seconds.
pub open spec fn duration_args(media_file: Seq<char>) -> Seq<Seq<char>> {
    seq![
        "-i"@, media_file, "-v"@, "quiet"@, "-show_entries"@, "format=duration"@,
        "-of"@, "default=noprint_wrappers=1:nokey=1"@,
    ]
}

/// The arguments of the `ffprobe` run that prints each stream's width and height.
pub open spec fn resolution_args(media_file: Seq<char>) -> Seq<Seq<char>> {
    seq![
        "-i"@, media_file, "-v"@, "quiet"@, "-show_entries"@, "stream=width,height"@,
        "-of"@, "default=noprint_wrappers=1:nokey=1"@,
    ]
}

fn push_arg(args: &mut Vec<String>, a: &str)
    ensures
        strings_view(final(args)@) == strings_view(old(args)@).push(a@),
{
    args.push(a.to_owned());
    assert(strings_view(args@) =~= strings_view(old(args)@).push(a@));
}

/// The `ffprobe` arguments that ask for the streams of kind `stream_type`.
pub fn ffprobe_stream_info_args(media_file: &str, stream_type: StreamType) -> (r: Vec<String>)
    ensures
        strings_view(r@) == stream_info_args(media_file@, stream_type),
{
    let selector = match stream_type {
        StreamType::Video => "v",
        StreamType::Audio => "a",
        StreamType::Subtitle => "s",
    };
    let mut args: Vec<String> = Vec::new();
    push_arg(&mut args, "-i");
    push_arg(&mut args, media_file);
    push_arg(&mut args, "-v");
    push_arg(&mut args, "quiet");
    push_arg(&mut args, "-select_streams");
    push_arg(&mut args, selector);
    push_arg(&mut args, "-show_entries");
    push_arg(&mut args, "stream");
    push_arg(&mut args, "-of");
    push_arg(&mut args, "json");
    assert(strings_view(args@) =~= stream_info_args(media_file@, stream_type));
    args
}

/// The `ffprobe` arguments that ask for the duration of the media.
pub fn ffprobe_duration_args(media_file: &str) -> (r: Vec<String>)
    ensures
        strings_view(r@) == duration_args(media_file@),
{
    let mut args: Vec<String> = Vec::new();
    push_arg(&mut args, "-i");
    push_arg(&mut args, media_file);
    push_arg(&mut args, "-v");
    push_arg(&mut args, "quiet");
    push_arg(&mut args, "-show_entries");
    push_arg(&mut args, "format=duration");
    push_arg(&mut args, "-of");
    push_arg(&mut args, "default=noprint_wrappers=1:nokey=1");
    assert(strings_view(args@) =~= duration_args(media_file@));
    args
}

/// The `ffprobe` arguments that ask for the frame size of the streams.
pub fn ffprobe_resolution_args(media_file: &str) -> (r: Vec<String>)
    ensures
        strings_view(r@) == resolution_args(media_file@),
{
    let mut args: Vec<String> = Vec::new();
    push_arg(&mut args, "-i");
    push_arg(&mut args, media_file);
    push_arg(&mut args, "-v");
    push_arg(&mut args, "quiet");
    push_arg(&mut args, "-show_entries");
    push_arg(&mut args, "stream=width,height");
    push_arg(&mut args, "-of");
    push_arg(&mut args, "default=noprint_wrappers=1:nokey=1");
    assert(strings_view(args@) =~= resolution_args(media_file@));
    args
}

/// What `ffprobe`'s answer to the resolution query means: after trimming,
/// the first line is the width and the second the height.
pub open spec fn resolution_from_output(out: Seq<char>) -> Result<Resolution, ResolutionError> {
    let ls = lines(trim(out));
    if ls.len() == 0 {
        Err(ResolutionError::MissingWidth)
    } else if ls.len() == 1 {
        Err(ResolutionError::MissingHeight)
    } else {
        match parse_usize_spec(ls[0]) {
            None => Err(ResolutionError::InvalidWidth),
            Some(w) => match parse_usize_spec(ls[1]) {
                None => Err(ResolutionError::InvalidHeight),
                Some(h) => Ok(Resolution { width: w, height: h }),
            },
        }
    }
}

/// The line that starts at `a` in `v[..end]` (where `a < end`): its end
/// without the line break, and where the next line starts (`end` if none).
fn next_line(v: &Vec<char>, a: usize, end: usize) -> (r: (usize, usize))
    requires
        a < end <= v.len(),
    ensures
        ({
            let s = v@.subrange(a as int, end as int);
            &&& a <= r.0 <= r.1 <= end
            &&& lines(s).len() >= 1
            &&& lines(s)[0] == v@.subrange(a as int, r.0 as int)
            &&& lines(s).drop_first() == lines(v@.subrange(r.1 as int, end as int))
        }),
{
    let ghost s = v@.subrange(a as int, end as int);
    let k = find_line_end(v, a, end);
    proof {
        assert(s.len() > 0);
    }
    if k < end {
        let mut e = k;
        if k > a && v[k - 1] == '\r' {
            e = k - 1;
        }
        proof {
            let kk = (k - a) as int;
            assert(lines(s) == seq![strip_carriage_return(s.take(kk))] + lines(s.skip(kk + 1)));
            assert(s.skip(kk + 1) =~= v@.subrange(k + 1, end as int));
            if k > a && v@[k - 1] == '\r' {
                assert(s.take(kk).last() == v@[k - 1]);
                assert(s.take(kk).drop_last() =~= v@.subrange(a as int, e as int));
            } else {
                assert(s.take(kk) =~= v@.subrange(a as int, e as int));
            }
            assert(lines(s).drop_first() =~= lines(s.skip(kk + 1)));
        }
        (e, k + 1)
    } else {
        proof {
            assert(lines(s) == seq![s]);
            assert(v@.subrange(end as int, end as int) =~= Seq::<char>::empty());
            assert(lines(v@.subrange(end as int, end as int)) =~= Seq::<Seq<char>>::empty());
            assert(lines(s).drop_first() =~= Seq::<Seq<char>>::empty());
        }
        (end, end)
    }
}

/// Reads `ffprobe`'s answer to the resolution query (`ffprobe_resolution_args`):
/// the width and the height, each on its own line.
pub fn get_resolution(ffprobe_output: &str) -> (r: Result<Resolution, ResolutionError>)
    ensures
        r == resolution_from_output(ffprobe_output@),
{
    let v = chars_of(ffprobe_output);
    let (a, b) = trim_bounds(&v);
    let ghost t = v@.subrange(a as int, b as int);
    if a == b {
        assert(t.len() == 0);
        assert(lines(t) =~= Seq::<Seq<char>>::empty());
        return Err(ResolutionError::MissingWidth);
    }
    let (e0, n1) = next_line(&v, a, b);
    if n1 == b {
        assert(v@.subrange(b as int, b as int) =~= Seq::<char>::empty());
        assert(lines(v@.subrange(b as int, b as int)) =~= Seq::<Seq<char>>::empty());
        assert(lines(t).len() == 1);
        return Err(ResolutionError::MissingHeight);
    }
    let (e1, _n2) = next_line(&v, n1, b);
    assert(lines(t)[1] == lines(v@.subrange(n1 as int, b as int))[0]);
    let width = parse_usize_chars(&v, a, e0);
    match width {
        None => Err(ResolutionError::InvalidWidth),
        Some(w) => {
            let height = parse_usize_chars(&v, n1, e1);
            match height {
                None => Err(ResolutionError::InvalidHeight),
                Some(h) => Ok(Resolution { width: w, height: h }),
            }
        },
    }
}


/// What `ffprobe` prints for a stream of `width` by `height` pixels (the
/// width and the height, each on its own line) reads back as that
/// resolution.
pub proof fn law_resolution_reads_back(width: usize, height: usize)
    ensures
        resolution_from_output(decimal(width as nat) + seq!['\n'] + decimal(height as nat) + seq![
            '\n',
        ]) == Ok::<Resolution, ResolutionError>(Resolution { width, height }),
{
    let dw = decimal(width as nat);
    let dh = decimal(height as nat);
    lemma_decimal_digits(width as nat);
    lemma_decimal_digits(height as nat);
    lemma_parse_decimal(width);
    lemma_parse_decimal(height);
    let out = dw + seq!['\n'] + dh + seq!['\n'];
    let t = dw + seq!['\n'] + dh;
    assert(out[0] == dw[0]);
    lemma_digit_not_space(dw[0]);
    assert(trim_start(out) == out);
    assert(out.drop_last() =~= t);
    assert(out.last() == '\n');
    assert(trim_end(out) == trim_end(t));
    assert(t.last() == dh.last());
    lemma_digit_not_space(dh.last());
    assert(trim_end(t) == t);
    assert(trim(out) == t);
    assert forall|i: int| 0 <= i < dw.len() implies dw[i] != '\n' by {
        lemma_digit_not_space(dw[i]);
    }
    assert forall|i: int| 0 <= i < dh.len() implies dh[i] != '\n' by {
        lemma_digit_not_space(dh[i]);
    }
    lemma_line_end_append(dw, seq!['\n'] + dh);
    assert(dw + (seq!['\n'] + dh) =~= t);
    assert(line_end(seq!['\n'] + dh) == 0);
    let k = dw.len() as int;
    assert(line_end(t) == k);
    assert(t.take(k) =~= dw);
    lemma_digit_not_space(dw.last());
    assert(strip_carriage_return(dw) == dw);
    assert(t.skip(k + 1) =~= dh);
    lemma_line_end_append(dh, Seq::<char>::empty());
    assert(dh + Seq::<char>::empty() =~= dh);
    assert(line_end(dh) == dh.len());
    assert(lines(dh) == seq![dh]);
    assert(lines(t) == seq![dw] + seq![dh]);
    assert(lines(t)[0] == dw);
    assert(lines(t)[1] == dh);
}


/// Only the first two lines of `ffprobe`'s answer count: what follows them
/// (such as the size of a second stream) changes nothing. This holds when
/// the width line is not all white space and the height line is not empty
/// and does not end in white space (which trimming would otherwise remove
/// from the shorter answer only).
pub proof fn law_resolution_reads_first_two_lines(w: Seq<char>, h: Seq<char>, rest: Seq<char>)
    requires
        trim_start(w).len() > 0,
        h.len() > 0,
        !is_white_space(h.last()),
        forall|i: int| 0 <= i < w.len() ==> w[i] != '\n',
        forall|i: int| 0 <= i < h.len() ==> h[i] != '\n',
    ensures
        resolution_from_output(w + seq!['\n'] + h + seq!['\n'] + rest) == resolution_from_output(
            w + seq!['\n'] + h,
        ),
{
    let out1 = w + seq!['\n'] + h + seq!['\n'] + rest;
    let out2 = w + seq!['\n'] + h;
    let ws = trim_start(w);
    let y1 = seq!['\n'] + h + seq!['\n'] + rest;
    let y2 = seq!['\n'] + h;
    assert(out1 =~= w + y1);
    assert(out2 =~= w + y2);
    lemma_trim_start_append(w, y1);
    lemma_trim_start_append(w, y2);
    lemma_trim_start_suffix(w);
    assert forall|i: int| 0 <= i < ws.len() implies ws[i] != '\n' by {
        assert(ws[i] == w[w.len() - ws.len() + i]);
    }
    let x = ws + seq!['\n'] + h;
    let r = seq!['\n'] + rest;
    assert(x.last() == h.last());
    assert(ws + y1 =~= x + r);
    assert(ws + y2 =~= x);
    lemma_trim_end_append(x, r);
    lemma_trim_end_append(x, Seq::<char>::empty());
    assert(x + Seq::<char>::empty() =~= x);
    assert(trim_end(Seq::<char>::empty()) =~= Seq::<char>::empty());
    let z = trim_end(r);
    lemma_trim_end_prefix(r);
    assert(z.len() == 0 || z[0] == '\n') by {
        if z.len() > 0 {
            assert(z[0] == r[0]);
        }
    }
    let t1 = x + z;
    let t2 = x;
    assert(trim(out1) == t1);
    assert(trim(out2) == t2);
    // The first lines.
    let b1 = seq!['\n'] + h + z;
    let b2 = seq!['\n'] + h;
    assert(t1 =~= ws + b1);
    assert(t2 =~= ws + b2);
    lemma_lines_first(ws, b1);
    lemma_lines_first(ws, b2);
    assert(b1.drop_first() =~= h + z);
    assert(b2.drop_first() =~= h + Seq::<char>::empty());
    // The second lines.
    assert(h.last() != '\r');
    lemma_lines_first(h, z);
    lemma_lines_first(h, Seq::<char>::empty());
    assert(strip_carriage_return(h) == h);
    let l1 = lines(t1);
    let l2 = lines(t2);
    assert(l1.drop_first() == lines(h + z));
    assert(l2.drop_first() == lines(h + Seq::<char>::empty()));
    assert(l1.len() >= 2);
    assert(l2.len() >= 2);
    assert(l1[0] == l2[0]);
    assert(l1[1] == l1.drop_first()[0]);
    assert(l2[1] == l2.drop_first()[0]);
    assert(l1[1] == h);
    assert(l2[1] == h);
}

} // verus!
