use imtlib::filer::base::Base;
use imtlib::filer::fileinfo::Timestamp;
use imtlib::filer::filer::{Filer, FilerMessage};
use imtlib::image_type::ImageType;

/// Setting a new modification time clears both derived fields, whatever
/// was recorded under the old time.
#[test]
fn invalidation_on_mod_time_change() {
    let mut base = Base::default();
    let p = "/pics/one";
    let t1: Timestamp = 100;
    let t2: Timestamp = 200;

    base.set_mod_time(p, t1);
    base.set_image_type(p, ImageType::JPEG);
    base.set_hash_for_name(p, "H", "d1");

    base.set_mod_time(p, t2);

    assert_eq!(None, base.image_type(p));
    assert_eq!(None, base.hash_for_name(p, "H"));
    assert_eq!(Some(t2), base.mod_time(p));
}

/// Registering a path twice, with a digest recorded in between, leaves
/// the digest intact.
#[test]
fn registration_is_idempotent() {
    let mut base = Base::default();
    let p = "/pics/one";

    base.add_file(p);
    base.set_hash_for_name(p, "H", "d1");
    base.add_file(p);

    assert_eq!(Some("d1".to_string()), base.hash_for_name(p, "H"));
}

/// Recording a digest never clears the classification, and vice versa.
#[test]
fn classification_and_digest_are_independent() {
    let mut base = Base::default();
    let p = "/pics/one";

    base.set_image_type(p, ImageType::PNG);
    base.set_hash_for_name(p, "H", "d1");
    assert_eq!(Some(ImageType::PNG), base.image_type(p));

    base.set_image_type(p, ImageType::GIF);
    assert_eq!(Some("d1".to_string()), base.hash_for_name(p, "H"));
    assert_eq!(Some(ImageType::GIF), base.image_type(p));
}

/// The message-passing owner applies operations in send order, with the
/// same effect as calling them directly.
#[test]
fn filer_messages_apply_in_order() {
    let mut filer = Filer::new();
    let p = "/pics/one".to_string();

    filer.send(FilerMessage::SetModTime {
        path: p.clone(),
        time: 7,
    });
    filer.send(FilerMessage::SetImageType {
        path: p.clone(),
        image_type: ImageType::PNG,
    });
    filer.send(FilerMessage::SetHashForName {
        path: p.clone(),
        hash_name: "H".to_string(),
        value: "d1".to_string(),
    });
    filer.send(FilerMessage::AddFile { path: p.clone() });

    let state = filer.into_state();
    assert!(state.mod_flag());
    assert_eq!(Some(7), state.mod_time(&p));
    assert_eq!(Some(ImageType::PNG), state.image_type(&p));
    assert_eq!(Some("d1".to_string()), state.hash_for_name(&p, "H"));

    // a new modification time invalidates what the messages recorded
    let mut filer = Filer::with_state(state);
    filer.send(FilerMessage::SetModTime {
        path: p.clone(),
        time: 8,
    });
    let state = filer.into_state();
    assert_eq!(None, state.image_type(&p));
    assert_eq!(None, state.hash_for_name(&p, "H"));
}

/// The dirty flag can be cleared and reads leave it clear.
#[test]
fn dirty_flag_round_trip() {
    let mut filer = imtlib::filer::shared::SharedFiler::new_basic();
    filer.add_file("/a");
    assert!(filer.mod_flag());
    filer.set_mod_flag(false);
    assert!(!filer.mod_flag());
    filer.file_known("/a");
    assert!(!filer.mod_flag());
}
