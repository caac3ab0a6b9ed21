use imtlib::digest::{sha256_hex, Hasher};
use imtlib::fileinfo::{FileInfo, Files};
use imtlib::image_type::{is_gif, is_png, ImageType};
use imtlib::paths::{file_name, has_extension, is_hidden, with_extension};

#[test]
fn extension_detection() {
    assert!(has_extension("foo.jpg"));
    assert!(has_extension("dir/a.b"));
    assert!(has_extension("a.tar.gz"));
    assert!(!has_extension("foo"));
    assert!(!has_extension("dir/foo"));
    assert!(!has_extension(".hidden"));
    assert!(!has_extension("trailing."));
    assert!(!has_extension(".."));
    assert!(!has_extension("dir.with.dots/plain"));
}

#[test]
fn hidden_detection() {
    assert!(is_hidden(".git"));
    assert!(is_hidden("root/.hid"));
    assert!(is_hidden("a/.b.c"));
    assert!(!is_hidden("visible"));
    assert!(!is_hidden("root/visible"));
    assert!(!is_hidden("."));
    assert!(!is_hidden(".."));
    assert!(!is_hidden("a/.."));
}

#[test]
fn non_ascii_paths() {
    assert!(has_extension("стол/фото.jpg"));
    assert!(!has_extension("стол/фото"));
    assert!(is_hidden("стол/.скрытый"));
    assert_eq!(
        Some("стол/фото.jpg".to_string()),
        with_extension("стол/фото", "jpg")
    );
    assert_eq!("фото", file_name("стол/фото"));
}

#[test]
fn file_name_extraction() {
    assert_eq!("bar", file_name("/foo/bar"));
    assert_eq!("bar", file_name("bar"));
    assert_eq!("", file_name("/foo/"));
    assert_eq!(".hid", file_name("a/.hid"));
}

#[test]
fn extension_replacement() {
    assert_eq!(Some("dir/b.jpg".to_string()), with_extension("dir/b", "jpg"));
    assert_eq!(Some("b.png".to_string()), with_extension("b", "png"));
    // a trailing dot carries an empty extension, which is replaced
    assert_eq!(Some("b.png".to_string()), with_extension("b.", "png"));
    // a hidden file has no extension; the new one is appended
    assert_eq!(
        Some(".hid.png".to_string()),
        with_extension(".hid", "png")
    );
    // an existing extension is replaced
    assert_eq!(Some("a.gif".to_string()), with_extension("a.jpg", "gif"));
    // "." and ".." name no file
    assert_eq!(None, with_extension(".", "jpg"));
    assert_eq!(None, with_extension("a/..", "jpg"));
    assert_eq!(None, with_extension("dir/", "jpg"));
}

#[test]
fn classification_by_magic_bytes() {
    let jpeg_head = [0xff, 0xd8, 0xff, 0xe0, 0x00, 0x10, 0x4a, 0x46, 0x49, 0x46];
    let jpeg_tail = [0xff, 0xd9];
    let png_head = [0x89, 0x50, 0x4e, 0x47, 0x0d, 0x0a, 0x1a, 0x0a, 0x00, 0x0d];
    let gif_head = [0x47, 0x49, 0x46, 0x38, 0x37, 0x61, 0x00, 0x00, 0x00, 0x00];
    let text_head = [b'h', b'e', b'l', b'l', b'o', b' ', b'y', b'o', b'u', b'!'];
    let other_tail = [0x00, 0x00];

    assert_eq!(ImageType::JPEG, ImageType::classify(&jpeg_head, &jpeg_tail));
    assert_eq!(ImageType::PNG, ImageType::classify(&png_head, &other_tail));
    assert_eq!(ImageType::GIF, ImageType::classify(&gif_head, &other_tail));
    assert_eq!(
        ImageType::UNKNOWN,
        ImageType::classify(&text_head, &other_tail)
    );
    // JPEG needs its trailer too
    assert_eq!(
        ImageType::UNKNOWN,
        ImageType::classify(&jpeg_head, &other_tail)
    );

    assert!(is_png(&png_head));
    assert!(!is_png(&gif_head));
    assert!(is_gif(&gif_head));
    assert!(!is_gif(&png_head));
}

#[test]
fn preferred_extensions() {
    assert_eq!("jpg", ImageType::JPEG.preferred_extension());
    assert_eq!("gif", ImageType::GIF.preferred_extension());
    assert_eq!("png", ImageType::PNG.preferred_extension());
    assert_eq!("", ImageType::UNKNOWN.preferred_extension());
}

#[test]
fn sha256_of_known_input() {
    // the well-known SHA-256 test vector
    assert_eq!(
        "ba7816bf8f01cfea414140de5dae2223b00361a396177a9cb410ff61f20015ad",
        sha256_hex(b"abc")
    );
    // streaming in chunks gives the digest of the concatenation
    let mut h = Hasher::new();
    h.update(b"a");
    h.update(b"bc");
    assert_eq!(
        "ba7816bf8f01cfea414140de5dae2223b00361a396177a9cb410ff61f20015ad",
        h.finish_hex()
    );
    // the empty input
    assert_eq!(
        "e3b0c44298fc1c149afbf4c8996fb92427ae41e4649b934ca495991b7852b855",
        sha256_hex(b"")
    );
}

#[test]
fn snapshot_records() {
    let mut fi = FileInfo::new("first/bar/baz".to_string());
    assert!(!fi.contains_hash("foo"));
    fi.add_hash("foo".to_string(), "foovalueofthehash".to_string());
    fi.add_hash("bar".to_string(), "barvalueofthehash".to_string());
    assert!(fi.contains_hash("foo"));
    assert!(fi.contains_hash("bar"));
    assert_eq!("first/bar/baz", fi.path_str());

    let mut files = Files::default();
    files.add_file(fi);
    let fi2 = FileInfo::new("second/quux.jpg".to_string());
    files.add_file(fi2);
    // replacing a record for a path it already holds
    let fi3 = FileInfo::new("first/bar/baz".to_string());
    files.add_file(fi3);
}
