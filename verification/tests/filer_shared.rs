use imtlib::filer::base::Base;
use imtlib::filer::fileinfo::Timestamp;
use imtlib::filer::shared::SharedFiler;
use imtlib::image_type::ImageType;

fn setup() -> SharedFiler {
    SharedFiler::new(Base::default())
}

#[test]
fn test_startup() {
    let filer = setup();

    assert_eq!(false, filer.mod_flag());
}

#[test]
fn test_no_mods() {
    let filer = setup();
    let path = "/foo/bar";

    filer.file_known(path);
    filer.mod_time(path);
    filer.image_type(path);
    filer.hash_for_name(path, "FAKE");
    filer.contains_hash_for_name(path, "FAKE");

    assert_eq!(false, filer.mod_flag());
}

#[test]
fn test_add_file() {
    let mut filer = setup();
    let path = "/foo/bar";

    filer.add_file(path);

    assert_eq!(true, filer.mod_flag());
}

#[test]
fn test_set_mod_time() {
    let mut filer = setup();
    let path = "/foo/bar";
    let now: Timestamp = 1_700_000_000_000_000_000;

    filer.set_mod_time(path, now);

    assert_eq!(true, filer.mod_flag());
}

#[test]
fn test_set_image_type() {
    let mut filer = setup();
    let path = "/foo/bar";

    filer.set_image_type(path, ImageType::PNG);

    assert_eq!(true, filer.mod_flag());
}

#[test]
fn test_set_hash_for_name() {
    let mut filer = setup();
    let path = "/foo/bar";

    filer.set_hash_for_name(path, "FAKE", "VALUE");

    assert_eq!(true, filer.mod_flag());
}
