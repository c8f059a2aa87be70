use px_deltas::error::DeltaError;
use px_deltas::path::validate_image_path;

#[test]
fn main_not_png() {
    let validated = validate_image_path("test_data/does_not_exist.jpg", false);
    assert!(validated.is_err());
}

#[test]
fn main_bad_path() {
    let validated = validate_image_path("test_data/does_not_exist.png", false);
    assert!(validated.is_err());
}

#[test]
fn main_good_validation() {
    let validated = validate_image_path("test_data/gray.png", true);
    assert!(validated.is_ok());
}

#[test]
fn processing_not_png() {
    let validated = validate_image_path("test_data/does_not_exist.jpg", false);
    assert!(validated.is_err());
}

#[test]
fn processing_bad_path() {
    let validated = validate_image_path("test_data/does_not_exist.png", false);
    assert!(validated.is_err());
}

#[test]
fn processing_good_validation() {
    let validated = validate_image_path("test_data/gray.png", true);
    assert!(validated.is_ok());
}

#[test]
fn extension_is_checked_before_existence() {
    let validated = validate_image_path("test_data/gray.jpg", true);
    match validated {
        Err(DeltaError::InvalidFormat { path }) => assert_eq!(path, "test_data/gray.jpg"),
        other => panic!("unexpected {:?}", other),
    }
}

#[test]
fn missing_file_is_not_found() {
    match validate_image_path("test_data/does_not_exist.png", false) {
        Err(e) => {
            assert!(matches!(e, DeltaError::NotFound { .. }));
            assert_eq!(e.message(), "Image path does not exist: test_data/does_not_exist.png");
        }
        Ok(()) => panic!("a missing file was accepted"),
    }
}

#[test]
fn invalid_format_message_names_the_path() {
    let e = validate_image_path("scan.jpeg", true).unwrap_err();
    assert_eq!(e.message(), "Non-PNG input: scan.jpeg");
}

#[test]
fn short_paths_are_not_png() {
    assert!(validate_image_path("png", true).is_err());
    assert!(validate_image_path("", true).is_err());
    assert!(validate_image_path(".png", true).is_ok());
    assert!(validate_image_path("a.PNG", true).is_err());
}
