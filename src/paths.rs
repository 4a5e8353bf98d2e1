//! File paths of a dual-stream download: the two part files and the output.

use vstd::prelude::*;
use vstd::string::{StringExecFns, StringSliceAdditionalSpecFns};
use crate::report::{file_name, file_name_text};

verus! {

/// The path with its extension replaced by (or extended with) `ext`.
pub uninterp spec fn with_ext_text(path: Seq<char>, ext: Seq<char>) -> Seq<char>;

/// The path with its last component replaced by `name`.
pub uninterp spec fn with_name_text(path: Seq<char>, name: Seq<char>) -> Seq<char>;

/// `s` holds a `/` or a `\\`.
pub open spec fn has_separator(s: Seq<u8>) -> bool {
    s.contains(47u8) || s.contains(92u8)
}

/// Relies on `std::path::Path::with_extension`: the path with the extension
/// `ext`. It panics on an extension that holds a path separator, which
/// `requires` leaves out.
#[verifier::external_body]
fn with_extension(path: &str, ext: &str) -> (r: String)
    requires
        !has_separator(ext.spec_bytes()),
    ensures
        r@ == with_ext_text(path@, ext@),
{
    std::path::Path::new(path).with_extension(ext).to_string_lossy().into_owned()
}

/// Relies on `std::path::Path::with_file_name`: the path with its last
/// component replaced by `name`.
#[verifier::external_body]
fn with_file_name(path: &str, name: &str) -> (r: String)
    ensures
        r@ == with_name_text(path@, name@),
{
    std::path::Path::new(path).with_file_name(name).to_string_lossy().into_owned()
}

/// Whether `s` holds a path separator.
pub fn holds_separator(s: &str) -> (r: bool)
    ensures
        r == has_separator(s.spec_bytes()),
{
    let b = s.as_bytes();
    let mut i: usize = 0;
    while i < b.len()
        invariant
            i <= b@.len(),
            b@ == s.spec_bytes(),
            forall|j: int| 0 <= j < i ==> b@[j] != 47u8 && b@[j] != 92u8,
        decreases b@.len() - i,
    {
        if b[i] == 47 || b[i] == 92 {
            proof {
                assert(b@[i as int] == b[i as int]);
            }
            return true;
        }
        i = i + 1;
    }
    false
}

/// Where the parts of a dual-stream download go, and the muxed output.
#[derive(Debug, Clone)]
pub struct PairPaths {
    pub output: String,
    pub video: Option<String>,
    pub audio: Option<String>,
}

/// Where the part with extension `ext` goes: with both streams, beside the
/// destination as `<name>_part.<ext>`; otherwise the destination with the
/// extension `ext`.
pub open spec fn part_path(dest: Seq<char>, ext: Seq<char>, both: bool) -> Seq<char> {
    if both && file_name_text(dest).len() > 0 {
        with_name_text(dest, file_name_text(dest) + "_part."@ + ext)
    } else {
        with_ext_text(dest, ext)
    }
}

/// The paths of a download of a video stream with extension `video_ext` and
/// an audio stream with extension `audio_ext` (each when requested) into
/// `dest`: each part as `part_path` says, and the muxed output at `dest`.
/// `None` when an extension holds a path separator.
pub fn pair_paths(dest: &String, video_ext: Option<&str>, audio_ext: Option<&str>) -> (r: Option<PairPaths>)
    ensures
        (video_ext matches Some(e) && has_separator(e.spec_bytes()))
            || (audio_ext matches Some(e) && has_separator(e.spec_bytes())) <==> r is None,
        r matches Some(p) ==> {
            let both = video_ext is Some && audio_ext is Some;
            &&& p.output@ == dest@
            &&& (video_ext matches Some(e) ==> p.video matches Some(v) && v@ == part_path(dest@, e@, both))
            &&& (video_ext is None ==> p.video is None)
            &&& (audio_ext matches Some(e) ==> p.audio matches Some(x) && x@ == part_path(dest@, e@, both))
            &&& (audio_ext is None ==> p.audio is None)
        },
{
    let bad_video = match video_ext { Some(e) => holds_separator(e), None => false };
    let bad_audio = match audio_ext { Some(e) => holds_separator(e), None => false };
    if bad_video || bad_audio {
        return None;
    }
    let both = video_ext.is_some() && audio_ext.is_some();
    let video = match video_ext {
        Some(e) => Some(part(dest, e, both)),
        None => None,
    };
    let audio = match audio_ext {
        Some(e) => Some(part(dest, e, both)),
        None => None,
    };
    Some(PairPaths { output: dest.clone(), video, audio })
}

fn part(dest: &String, ext: &str, both: bool) -> (r: String)
    requires
        !has_separator(ext.spec_bytes()),
    ensures
        r@ == part_path(dest@, ext@, both),
{
    let name = file_name(dest);
    if both && !name.as_str().is_empty() {
        let n = name.concat("_part.").concat(ext);
        with_file_name(dest.as_str(), n.as_str())
    } else {
        with_extension(dest.as_str(), ext)
    }
}

} // verus!
