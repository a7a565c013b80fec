//! An HLS media server core: playlist rendering, ffprobe/ffmpeg command
//! construction and the parsing of what those tools print.

pub mod text;
pub mod media_info;
pub mod playlist;
pub mod segment;
