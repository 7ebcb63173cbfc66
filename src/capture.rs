//! The command lines of the two capture tools: the media recorder and the
//! chat downloader. Running them is left to the caller.

use vstd::prelude::*;
use vstd::string::*;
use crate::live_state::CaptureKind;

verus! {

pub open spec fn watch_url_of(video_id: Seq<char>) -> Seq<char> {
    "https://www.youtube.com/watch?v="@ + video_id
}

/// The page of broadcast `video_id`.
pub fn watch_url(video_id: &str) -> (r: String)
    ensures
        r@ == watch_url_of(video_id@),
{
    let mut s = String::from_str("https://www.youtube.com/watch?v=");
    s.append(video_id);
    s
}

pub open spec fn tool_of(kind: CaptureKind) -> Seq<char> {
    match kind {
        CaptureKind::Media => "yt-dlp"@,
        CaptureKind::Transcript => "chat_downloader"@,
    }
}

/// The program that performs a capture of `kind`.
pub fn capture_tool(kind: CaptureKind) -> (r: &'static str)
    ensures
        r@ == tool_of(kind),
{
    match kind {
        CaptureKind::Media => "yt-dlp",
        CaptureKind::Transcript => "chat_downloader",
    }
}

pub open spec fn args_of(kind: CaptureKind, video_id: Seq<char>, output_path: Seq<char>) -> Seq<
    Seq<char>,
> {
    match kind {
        CaptureKind::Media => seq![
            "--format"@,
            "best"@,
            "--output"@,
            output_path,
            watch_url_of(video_id),
        ],
        CaptureKind::Transcript => seq![watch_url_of(video_id), "--output"@, output_path],
    }
}

/// The arguments of the capture tool of `kind` for broadcast `video_id`
/// written to `output_path`.
pub fn capture_args(kind: CaptureKind, video_id: &str, output_path: &str) -> (r: Vec<String>)
    ensures
        r@.map_values(|a: String| a@) == args_of(kind, video_id@, output_path@),
{
    let url = watch_url(video_id);
    let mut v: Vec<String> = Vec::new();
    match kind {
        CaptureKind::Media => {
            v.push(String::from_str("--format"));
            v.push(String::from_str("best"));
            v.push(String::from_str("--output"));
            v.push(String::from_str(output_path));
            v.push(url);
        },
        CaptureKind::Transcript => {
            v.push(url);
            v.push(String::from_str("--output"));
            v.push(String::from_str(output_path));
        },
    }
    assert(v@.map_values(|a: String| a@) =~= args_of(kind, video_id@, output_path@));
    v
}

} // verus!
