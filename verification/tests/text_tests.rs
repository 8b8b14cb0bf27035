use trellis_sounds::provision::zip_entry_is_dir;
use trellis_sounds::text::is_container_dir;
use trellis_sounds::text::is_wav_file;
use trellis_sounds::text::path_join;
use trellis_sounds::text::str_eq;

#[test]
fn wav_extension_accepted() {
    assert!(is_wav_file("a.wav"));
    assert!(is_wav_file("clip01.wav"));
    assert!(is_wav_file("a.tar.wav"));
}

#[test]
fn wav_extension_rejected() {
    assert!(!is_wav_file("a.mp3"));
    assert!(!is_wav_file("wav"));
    assert!(!is_wav_file(".wav"));
    assert!(!is_wav_file("a.WAV"));
    assert!(!is_wav_file("a.wavx"));
    assert!(!is_wav_file(""));
    assert!(!is_wav_file("awav"));
}

#[test]
fn container_naming_convention() {
    assert!(is_container_dir("packs"));
    assert!(is_container_dir("sound_packs"));
    assert!(is_container_dir("mypackshere"));
    assert!(is_container_dir("groupA_packs"));
    assert!(!is_container_dir("pack"));
    assert!(!is_container_dir("y"));
    assert!(!is_container_dir(""));
    assert!(!is_container_dir("Packs"));
    assert!(!is_container_dir("pack_s"));
}

#[test]
fn path_join_concatenates_with_slash() {
    assert_eq!(path_join("root", "y"), "root/y");
    assert_eq!(path_join("", "y"), "/y");
    assert_eq!(path_join("a/b", "c.wav"), "a/b/c.wav");
}

#[test]
fn str_eq_matches_equality() {
    assert!(str_eq("abc", "abc"));
    assert!(!str_eq("abc", "abd"));
    assert!(!str_eq("abc", "ab"));
    assert!(str_eq("", ""));
}

#[test]
fn zip_entry_directory_mark() {
    assert!(zip_entry_is_dir("sound_packs/"));
    assert!(zip_entry_is_dir("a/b/"));
    assert!(!zip_entry_is_dir("a/b"));
    assert!(!zip_entry_is_dir("a.wav"));
    assert!(!zip_entry_is_dir(""));
}
