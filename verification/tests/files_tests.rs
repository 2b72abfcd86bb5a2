use walrust::files::is_image_file;

#[test]
fn supported_extensions_lower_case() {
    assert!(is_image_file("photo.jpg"));
    assert!(is_image_file("photo.jpeg"));
    assert!(is_image_file("photo.png"));
    assert!(is_image_file("photo.webp"));
}

#[test]
fn extensions_are_case_insensitive() {
    assert!(is_image_file("photo.JPG"));
    assert!(is_image_file("photo.PnG"));
    assert!(is_image_file("photo.WEBP"));
    assert!(is_image_file("photo.Jpeg"));
}

#[test]
fn unsupported_extensions_are_rejected() {
    assert!(!is_image_file("archive.gif"));
    assert!(!is_image_file("archive.txt"));
    assert!(!is_image_file("movie.mp4"));
    assert!(!is_image_file("photo.jpgg"));
    assert!(!is_image_file("photo.jp"));
}

#[test]
fn names_without_extension_are_rejected() {
    assert!(!is_image_file("README"));
    assert!(!is_image_file(""));
    assert!(!is_image_file("photo."));
}

#[test]
fn leading_dot_is_not_an_extension() {
    assert!(!is_image_file(".jpg"));
    assert!(!is_image_file(".hidden"));
}

#[test]
fn last_dot_decides() {
    assert!(is_image_file("a.tar.png"));
    assert!(!is_image_file("a.png.tar"));
    assert!(is_image_file("version.2.jpg"));
}
