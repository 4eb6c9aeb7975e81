use std::path::Path;
use webshot::path::file_name;
use webshot::{default_file_name, image_type_from_file_name, resolve_output_path};
use webshot::{ImageFormat, OutputTarget};

#[test]
fn default_name_is_host_and_size() {
    assert_eq!(default_file_name("https://example.com", 1920, 1080), "example.com-1920x1080.png");
    assert_eq!(
        default_file_name("https://example.com/page?x=1", 800, 600),
        "example.com-800x600.png"
    );
    assert_eq!(default_file_name("http://localhost:3000/", 1, 2), "localhost:3000-1x2.png");
}

#[test]
fn default_name_of_odd_inputs() {
    assert_eq!(default_file_name("", 0, 0), "-0x0.png");
    assert_eq!(default_file_name("/path", 10, 20), "-10x20.png");
    assert_eq!(
        default_file_name("example.com", u32::MAX, u32::MAX),
        "example.com-4294967295x4294967295.png"
    );
}

#[test]
fn no_output_gives_default_name_in_working_directory() {
    let path = resolve_output_path(OutputTarget::Unspecified, "https://example.com", 1920, 1080);
    assert_eq!(path, "example.com-1920x1080.png");
    assert_eq!(Path::new(&path).parent(), Some(Path::new("")));
    assert_eq!(image_type_from_file_name(&path), ImageFormat::Png);
}

#[test]
fn directory_output_gets_default_name() {
    let target = OutputTarget::Directory(String::from("shots"));
    let path = resolve_output_path(target, "https://example.com/a", 1024, 768);
    assert_eq!(path, "shots/example.com-1024x768.png");
    assert_eq!(file_name(&path), Some("example.com-1024x768.png"));
}

#[test]
fn directory_output_with_trailing_slash() {
    let target = OutputTarget::Directory(String::from("/var/shots/"));
    let path = resolve_output_path(target, "http://example.com", 1920, 1080);
    assert_eq!(path, "/var/shots/example.com-1920x1080.png");
}

#[test]
fn directory_output_agrees_with_std_join() {
    for dir in ["", ".", "..", "/", "a", "a/", "a//", "a/b", "/a/b/", "./"] {
        for url in ["https://example.com/x", "", "/", "http://h", "ü.de/ü"] {
            let name = default_file_name(url, 640, 480);
            let expected = Path::new(dir).join(&name);
            let target = OutputTarget::Directory(String::from(dir));
            let path = resolve_output_path(target, url, 640, 480);
            assert_eq!(Some(path.as_str()), expected.to_str());
            assert_eq!(file_name(&path), Some(name.as_str()));
            assert_eq!(image_type_from_file_name(&path), ImageFormat::Png);
        }
    }
}

#[test]
fn file_output_is_used_as_it_is() {
    let target = OutputTarget::File(String::from("out/page.jpeg"));
    assert_eq!(resolve_output_path(target, "https://example.com", 1920, 1080), "out/page.jpeg");
    let target = OutputTarget::File(String::new());
    assert_eq!(resolve_output_path(target, "https://example.com", 1920, 1080), "");
}

#[test]
fn classify_sorts_the_three_cases() {
    assert!(matches!(OutputTarget::classify(None, false), OutputTarget::Unspecified));
    assert!(matches!(OutputTarget::classify(None, true), OutputTarget::Unspecified));
    let target = OutputTarget::classify(Some(String::from("shots")), true);
    assert!(matches!(target, OutputTarget::Directory(dir) if dir == "shots"));
    let target = OutputTarget::classify(Some(String::from("shot.webp")), false);
    assert!(matches!(target, OutputTarget::File(path) if path == "shot.webp"));
}
