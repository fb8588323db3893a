use powerusd::thumbs::{take_another, ThumbnailAction, ThumbnailTracker};

#[test]
fn thumbnails_load_once() {
    let mut t = ThumbnailTracker::new();
    let a = "/lib/a.jpg".to_string();
    assert_eq!(t.request(&a), ThumbnailAction::Load);
    assert_eq!(t.request(&a), ThumbnailAction::Wait);
    assert_eq!(t.loading, vec![a.clone()]);
    t.finish(&a, true);
    assert!(t.loading.is_empty());
    assert_eq!(t.loaded, vec![a.clone()]);
    assert_eq!(t.request(&a), ThumbnailAction::Show);
}

#[test]
fn failed_thumbnails_are_not_retried() {
    let mut t = ThumbnailTracker::new();
    let b = "/lib/b.png".to_string();
    assert_eq!(t.request(&b), ThumbnailAction::Load);
    t.finish(&b, false);
    assert_eq!(t.failed, vec![b.clone()]);
    assert!(t.loaded.is_empty());
    assert_eq!(t.request(&b), ThumbnailAction::Wait);
    assert_eq!(t.request(&"/lib//b.png".to_string()), ThumbnailAction::Wait);
    t.finish(&b, false);
    assert_eq!(t.failed.len(), 1);
}

#[test]
fn loads_are_independent() {
    let mut t = ThumbnailTracker::new();
    let a = "/a.jpg".to_string();
    let b = "/b.jpg".to_string();
    assert_eq!(t.request(&a), ThumbnailAction::Load);
    assert_eq!(t.request(&b), ThumbnailAction::Load);
    t.finish(&b, true);
    assert_eq!(t.loading, vec![a.clone()]);
    assert_eq!(t.request(&b), ThumbnailAction::Show);
    assert_eq!(t.request(&a), ThumbnailAction::Wait);
}

#[test]
fn results_per_frame() {
    assert!(take_another(0));
    assert!(take_another(20));
    assert!(!take_another(21));
}
