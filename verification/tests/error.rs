use bento::error::BentoError;

#[test]
fn message_of_no_images() {
    assert_eq!(BentoError::NoImages.message(), "No valid images found in input");
}

#[test]
fn message_of_sprite_too_large() {
    let e = BentoError::SpriteTooLarge {
        name: "hero.png".to_string(),
        width: 5000,
        height: 12,
        max_width: 4096,
        max_height: 2048,
    };
    assert_eq!(
        e.message(),
        "Sprite 'hero.png' (5000x12) exceeds maximum atlas size (4096x2048)"
    );
}

#[test]
fn message_of_cancelled() {
    assert_eq!(BentoError::Cancelled.message(), "Operation cancelled");
    assert!(BentoError::Cancelled.message().contains("cancelled"));
}
