use imtlib::filer::base::Base;
use imtlib::filer::fileinfo::Timestamp;
use imtlib::image_type::ImageType;

#[test]
fn test_default() {
    let _base = Base::default();
}

#[test]
fn test_add_files() {
    let mut base = Base::default();
    let name = "/foo/bar";

    assert!(!base.file_known(name));
    base.add_file(name);
    assert!(base.file_known(name))
}

#[test]
fn test_add_files_doesnt_overwrite() {
    let mut base = Base::default();
    let name = "/foo/bar";

    base.add_file(name);
    base.set_image_type(name, ImageType::PNG);
    assert_eq!(ImageType::PNG, base.image_type(name).unwrap());

    // Add it again.
    base.add_file(name);

    // Make sure that the image type is still there.
    assert_eq!(ImageType::PNG, base.image_type(name).unwrap());
}

#[test]
fn test_add_hash() {
    let mut base = Base::default();
    let name = "/foo/bar";
    let hash_name = "FAKE";
    let hash_value = "VALUE";

    base.add_file(name);
    assert!(!base.contains_hash_for_name(name, hash_name));
    assert_eq!(None, base.hash_for_name(name, hash_name));

    base.set_hash_for_name(name, hash_name, hash_value);
    assert!(base.contains_hash_for_name(name, hash_name));
    assert_eq!("VALUE", base.hash_for_name(name, hash_name).unwrap());
}

#[test]
fn test_reset_values() {
    let mut base = Base::default();
    let name = "/foo/bar";
    let mod_time: Timestamp = 1_700_000_000_000_000_000;
    let hash_name = "FAKE";
    let hash_value = "VALUE1";

    base.add_file(name);
    base.set_image_type(name, ImageType::PNG);
    base.set_mod_time(name, mod_time);
    base.set_hash_for_name(name, hash_name, hash_value);

    // Don't test mod time, since that will clear the values.
    let new_hash_value = "VALUE2";
    base.set_image_type(name, ImageType::GIF);
    base.set_hash_for_name(name, hash_name, new_hash_value);
    assert_eq!(ImageType::GIF, base.image_type(name).unwrap());
    assert_eq!(new_hash_value, base.hash_for_name(name, hash_name).unwrap());
}

#[test]
fn base_test_mod_time() {
    let mut base = Base::default();
    let name = "/foo/bar";
    let mod_time: Timestamp = 1_700_000_000_000_000_000;

    base.add_file(name);
    assert_eq!(None, base.mod_time(name));

    base.set_mod_time(name, mod_time);
    assert_eq!(mod_time, base.mod_time(name).unwrap());
}

#[test]
fn test_multiple_files() {
    let mut base = Base::default();
    let name1 = "/foo/bar";
    let name2 = "/foo/quux";

    base.set_image_type(name1, ImageType::GIF);
    base.set_image_type(name2, ImageType::PNG);

    assert_eq!(ImageType::GIF, base.image_type(name1).unwrap());
    assert_eq!(ImageType::PNG, base.image_type(name2).unwrap());
}

#[test]
fn test_multiple_hashes() {
    let mut base = Base::default();
    let name = "/foo/bar";
    let hash_name1 = "FAKE1";
    let hash_value1 = "VALUE1";
    let hash_name2 = "FAKE2";
    let hash_value2 = "VALUE2";

    assert_eq!(None, base.hash_for_name(name, hash_name1));
    assert_eq!(None, base.hash_for_name(name, hash_name2));

    base.set_hash_for_name(name, hash_name1, hash_value1);
    base.set_hash_for_name(name, hash_name2, hash_value2);

    assert_eq!(hash_value1, base.hash_for_name(name, hash_name1).unwrap());
    assert_eq!(hash_value2, base.hash_for_name(name, hash_name2).unwrap());
}

#[test]
fn test_adding_data_adds_files() {
    let mut base = Base::default();
    let now: Timestamp = 1_700_000_000_000_000_000;
    let name1 = "/foo/bar1";
    let name2 = "/foo/bar2";
    let name3 = "/foo/bar3";
    let hash_name = "FAKE";
    let hash_value = "VALUE";

    base.set_mod_time(name1, now);
    base.set_image_type(name2, ImageType::PNG);
    base.set_hash_for_name(name3, hash_name, hash_value);

    assert!(base.file_known(name1));
    assert!(base.file_known(name2));
    assert!(base.file_known(name3));
}

#[test]
fn test_reading_data_doesnt_add_files() {
    let mut base = Base::default();
    let name = "/foo/bar";

    assert!(!base.file_known(name));

    assert_eq!(None, base.image_type(name));
    assert_eq!(None, base.mod_time(name));
    assert_eq!(None, base.hash_for_name(name, "FAKE"));

    assert!(!base.file_known(name));
}

#[test]
fn test_iterator() {
    let mut base = Base::default();
    let name1 = "/foo/bar1";
    let name2 = "/foo/bar2";
    let name3 = "/foo/bar3";

    base.add_file(name1);
    base.add_file(name2);
    base.add_file(name3);

    let mut foo = base.files_iter();
    foo.sort();
    assert_eq!(
        vec![name1.to_string(), name2.to_string(), name3.to_string()],
        foo
    );
}
