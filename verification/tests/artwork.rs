use dotfiles_tools::artwork::{
    artwork_source, cache_key, cache_within_limits, ensure_size, prefer_artwork_candidate,
    result_is_current, ArtworkCommand, ArtworkController, ArtworkError, ArtworkLoad, ArtworkSource,
    MAX_ARTWORK_BYTES, MAX_CACHE_FILES,
};
use dotfiles_tools::control_spec::MediaControlSpec;

#[test]
fn cache_key_is_stable_and_uri_specific() {
    assert_eq!(cache_key("https://example.test/art.jpg"), "7adf2053ac8c2119");
    assert_ne!(
        cache_key("https://example.test/art.jpg"),
        cache_key("https://example.test/other.jpg")
    );
}

#[test]
fn stale_results_do_not_match_the_current_artwork_request() {
    assert!(result_is_current(4, 4));
    assert!(!result_is_current(4, 3));
}

#[test]
fn artwork_only_upgrades_to_a_larger_pixel_area() {
    assert!(prefer_artwork_candidate(0, 160_000));
    assert!(prefer_artwork_candidate(160_000, 1_000_000));
    assert!(!prefer_artwork_candidate(1_000_000, 160_000));
    assert!(!prefer_artwork_candidate(1_000_000, 1_000_000));
}

#[test]
fn cache_key_of_the_empty_uri_is_the_offset_basis() {
    assert_eq!(cache_key(""), "cbf29ce484222325");
    assert_eq!(cache_key("a").len(), 16);
}

#[test]
fn artwork_size_limits_reject_empty_and_oversized_images() {
    assert_eq!(ensure_size(&[]), Err(ArtworkError::Empty));
    assert_eq!(ensure_size(&[1, 2, 3]), Ok(()));
    let big = vec![0u8; (MAX_ARTWORK_BYTES + 1) as usize];
    assert_eq!(ensure_size(&big), Err(ArtworkError::TooLarge));
    let exact = vec![0u8; MAX_ARTWORK_BYTES as usize];
    assert_eq!(ensure_size(&exact), Ok(()));
}

#[test]
fn artwork_sources_follow_the_uri_scheme() {
    assert_eq!(artwork_source("file:///tmp/cover%20art.png"), ArtworkSource::LocalFile);
    assert_eq!(artwork_source("https://example.test/a.jpg"), ArtworkSource::Remote);
    assert_eq!(artwork_source("http://example.test/a.jpg"), ArtworkSource::Unsupported);
}

#[test]
fn cache_limits_count_files_and_bytes() {
    assert!(cache_within_limits(MAX_CACHE_FILES, 0));
    assert!(!cache_within_limits(MAX_CACHE_FILES + 1, 0));
}

fn media(title: &str, art: Option<&str>) -> MediaControlSpec {
    MediaControlSpec {
        player: "spotify".to_string(),
        title: title.to_string(),
        artist: "Band".to_string(),
        playing: true,
        art_url: art.map(str::to_string),
    }
}

#[test]
fn artwork_controller_asks_once_per_track_and_uri() {
    let mut controller = ArtworkController::new();
    let first = media("Song", Some("https://art/1.jpg"));
    let commands = controller.show(Some(&first));
    assert_eq!(
        commands,
        vec![
            ArtworkCommand::ClearArtwork,
            ArtworkCommand::Request { uri: "https://art/1.jpg".to_string(), generation: 1 },
        ]
    );
    assert!(controller.show(Some(&first)).is_empty());

    assert!(controller.loaded(1, "https://art/1.jpg", ArtworkLoad::Decoded { pixels: 100 }));
    assert!(!controller.loaded(1, "https://art/1.jpg", ArtworkLoad::Decoded { pixels: 50 }));
    assert!(!controller.loaded(0, "https://art/old.jpg", ArtworkLoad::Decoded { pixels: 9000 }));

    let better = media("Song", Some("https://art/1-large.jpg"));
    let later = controller.show(Some(&better));
    assert_eq!(
        later,
        vec![ArtworkCommand::RequestLater { uri: "https://art/1-large.jpg".to_string(), generation: 1 }]
    );
    assert_eq!(
        controller.fire_pending("https://art/1-large.jpg", 1),
        Some(ArtworkCommand::Request { uri: "https://art/1-large.jpg".to_string(), generation: 1 })
    );
}

#[test]
fn artwork_controller_restarts_for_a_new_track() {
    let mut controller = ArtworkController::new();
    controller.show(Some(&media("Song", Some("https://art/1.jpg"))));
    controller.loaded(1, "https://art/1.jpg", ArtworkLoad::Decoded { pixels: 100 });
    controller.show(Some(&media("Song", Some("https://art/2.jpg"))));
    let next = controller.show(Some(&media("Other", None)));
    assert_eq!(next, vec![ArtworkCommand::CancelPending, ArtworkCommand::ClearArtwork]);
    assert_eq!(controller.generation(), 2);
    assert_eq!(controller.fire_pending("https://art/2.jpg", 1), None);
    assert!(controller.show(None).contains(&ArtworkCommand::ClearArtwork));
}

#[test]
fn failed_artwork_is_asked_for_again() {
    let mut controller = ArtworkController::new();
    let song = media("Song", Some("https://art/1.jpg"));
    controller.show(Some(&song));
    assert!(!controller.loaded(1, "https://art/1.jpg", ArtworkLoad::Failed));
    assert_eq!(
        controller.show(Some(&song)),
        vec![ArtworkCommand::Request { uri: "https://art/1.jpg".to_string(), generation: 1 }]
    );
}
