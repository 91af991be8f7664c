use anime_library::classifier::is_video_file;
use anime_library::paths::basename;
use anime_library::paths::extension;
use anime_library::paths::parent;
use anime_library::paths::starts_with_dot;

#[test]
fn recognizes_every_listed_extension() {
    for ext in ["mp4", "avi", "mov", "mkv", "wmv", "flv", "webm", "vob", "ogv", "m4v", "3gp", "3g2"]
    {
        assert!(is_video_file(ext), "{ext} must be recognized");
    }
}

#[test]
fn rejects_other_extensions() {
    for ext in ["srt", "txt", "ME", "jpg", "", "mp", "mp41"] {
        assert!(!is_video_file(ext), "{ext} must not be recognized");
    }
}

#[test]
fn matching_is_case_sensitive() {
    assert!(!is_video_file("MP4"));
    assert!(!is_video_file("Mkv"));
}

#[test]
fn basename_takes_last_component() {
    assert_eq!(basename("/a/b/c.mp4"), "c.mp4");
    assert_eq!(basename("plain"), "plain");
    assert_eq!(basename("/"), "");
}

#[test]
fn parent_drops_last_component() {
    assert_eq!(parent("/a/b/c"), "/a/b");
    assert_eq!(parent("/a"), "/");
    assert_eq!(parent("plain"), "");
}

#[test]
fn extension_is_after_last_dot() {
    assert_eq!(extension("x.tar.gz"), Some("gz".to_string()));
    assert_eq!(extension("show.mkv"), Some("mkv".to_string()));
    assert_eq!(extension("noext"), None);
    assert_eq!(extension(".bashrc"), None);
    assert_eq!(extension("trailing."), Some("".to_string()));
}

#[test]
fn hidden_marker_is_a_leading_dot() {
    assert!(starts_with_dot(".trash"));
    assert!(!starts_with_dot("visible"));
    assert!(!starts_with_dot(""));
}
