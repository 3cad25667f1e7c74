use duga::telegram::send_file::{get_send_method, send_method_name, SendMethod};

#[test]
fn test_get_send_method_document() {
    assert_eq!(get_send_method("image.jpg", false), SendMethod::Document);
    assert_eq!(get_send_method("doc.pdf", false), SendMethod::Document);
    assert_eq!(get_send_method("code.rs", false), SendMethod::Document);
    assert_eq!(get_send_method("data.json", false), SendMethod::Document);
    assert_eq!(get_send_method("diagram.svg", false), SendMethod::Document);
}

#[test]
fn test_get_send_method_photo() {
    assert_eq!(get_send_method("photo.jpg", true), SendMethod::Photo);
    assert_eq!(get_send_method("image.png", true), SendMethod::Photo);
    assert_eq!(get_send_method("pic.webp", true), SendMethod::Photo);
    assert_eq!(get_send_method("photo.JPEG", true), SendMethod::Photo);
}

#[test]
fn test_get_send_method_audio() {
    assert_eq!(get_send_method("song.mp3", false), SendMethod::Audio);
    assert_eq!(get_send_method("track.flac", false), SendMethod::Audio);
    assert_eq!(get_send_method("recording.m4a", false), SendMethod::Audio);
    assert_eq!(get_send_method("audio.wav", false), SendMethod::Audio);
}

#[test]
fn test_get_send_method_video() {
    assert_eq!(get_send_method("video.mp4", false), SendMethod::Video);
    assert_eq!(get_send_method("movie.mov", false), SendMethod::Video);
    assert_eq!(get_send_method("clip.webm", false), SendMethod::Video);
    assert_eq!(get_send_method("vid.avi", false), SendMethod::Video);
    assert_eq!(get_send_method("vid.mkv", false), SendMethod::Video);
}

#[test]
fn test_get_send_method_animation() {
    assert_eq!(get_send_method("animation.gif", false), SendMethod::Animation);
    assert_eq!(get_send_method("animated.GIF", false), SendMethod::Animation);
}

#[test]
fn test_get_send_method_voice() {
    assert_eq!(get_send_method("voice.ogg", false), SendMethod::Voice);
}

#[test]
fn test_send_method_name() {
    assert_eq!(send_method_name(SendMethod::Document), "document");
    assert_eq!(send_method_name(SendMethod::Photo), "photo");
    assert_eq!(send_method_name(SendMethod::Audio), "audio");
    assert_eq!(send_method_name(SendMethod::Video), "video");
    assert_eq!(send_method_name(SendMethod::Animation), "animation");
    assert_eq!(send_method_name(SendMethod::Voice), "voice");
}
