//! Video-extension classifier: a pure predicate deciding whether a file
//! extension names a recognized video container format.

use vstd::prelude::*;

verus! {

/// The fixed allow-list of recognized video container extensions,
/// matched case-sensitively and without a leading separator.
pub open spec fn is_video_ext(ext: Seq<char>) -> bool {
    ||| ext == "mp4"@
    ||| ext == "avi"@
    ||| ext == "mov"@
    ||| ext == "mkv"@
    ||| ext == "wmv"@
    ||| ext == "flv"@
    ||| ext == "webm"@
    ||| ext == "vob"@
    ||| ext == "ogv"@
    ||| ext == "m4v"@
    ||| ext == "3gp"@
    ||| ext == "3g2"@
}

/// Returns whether `extension` (the part of a file name after the last dot)
/// is on the recognized-video allow-list. Pure; no failure mode.
pub fn is_video_file(extension: &str) -> (r: bool)
    ensures
        r == is_video_ext(extension@),
{
    let e: String = extension.to_owned();
    let r = e == "mp4".to_owned() || e == "avi".to_owned() || e == "mov".to_owned()
        || e == "mkv".to_owned() || e == "wmv".to_owned() || e == "flv".to_owned()
        || e == "webm".to_owned() || e == "vob".to_owned() || e == "ogv".to_owned()
        || e == "m4v".to_owned() || e == "3gp".to_owned() || e == "3g2".to_owned();
    r
}

} // verus!
