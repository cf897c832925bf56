use not_news::platform::{
    external_url_command, linux_data_directory, nonzero_extent, resolve_hermes_root, rgba_to_xrgb, PathStyle,
    PlatformPathError, RecoveryBudget, SurfaceErrorKind,
};

#[test]
fn lib_explicit_hermes_home_resolves_a_root_without_discovery() {
    let native = "/home/researcher/.hermes";
    assert_eq!(resolve_hermes_root(None, native, PathStyle::Unix).unwrap(), native);
    assert_eq!(
        resolve_hermes_root(Some("/srv/hermes"), native, PathStyle::Unix).unwrap(),
        "/srv/hermes"
    );
    assert_eq!(
        resolve_hermes_root(Some("/srv/hermes/profiles/not-news"), native, PathStyle::Unix).unwrap(),
        "/srv/hermes"
    );
    assert!(resolve_hermes_root(Some("relative"), native, PathStyle::Unix).is_err());
}

#[test]
fn explicit_hermes_home_resolves_a_root_without_discovery() {
    let native = r"C:\Users\researcher\AppData\Local\hermes";
    assert_eq!(resolve_hermes_root(None, native, PathStyle::Windows).unwrap(), native);
    assert_eq!(
        resolve_hermes_root(Some(r"D:\Hermes"), native, PathStyle::Windows).unwrap(),
        r"D:\Hermes"
    );
    assert_eq!(
        resolve_hermes_root(Some(r"D:\Hermes\profiles\not-news"), native, PathStyle::Windows).unwrap(),
        r"D:\Hermes"
    );
}

#[test]
fn software_presenter_converts_skia_rgba_to_softbuffer_xrgb() {
    assert_eq!(rgba_to_xrgb(&[0x12, 0x34, 0x56, 0xff]), 0x0012_3456);
    assert_eq!(rgba_to_xrgb(&[0xff, 0x00, 0x00, 0x40]), 0x00ff_0000);
}

#[test]
fn external_sources_are_http_only_and_remain_one_process_argument() {
    let url = "https://example.test/a?literal=$(touch%20forbidden)&x=;rm";
    let command = external_url_command(url, PathStyle::Unix).unwrap();
    assert_eq!(command.last().unwrap(), url);
    assert!(external_url_command("file:///etc/passwd", PathStyle::Unix).is_err());
    assert!(external_url_command("$(touch /tmp/forbidden)", PathStyle::Unix).is_err());
}

#[test]
fn external_urls_open_through_the_platform_handler() {
    assert_eq!(
        external_url_command("HTTP://example.test", PathStyle::Unix).unwrap(),
        vec!["xdg-open".to_owned(), "HTTP://example.test".to_owned()]
    );
    assert_eq!(
        external_url_command("https://example.test", PathStyle::Windows).unwrap(),
        vec![
            "rundll32".to_owned(),
            "url.dll,FileProtocolHandler".to_owned(),
            "https://example.test".to_owned()
        ]
    );
    assert_eq!(
        external_url_command("mailto:someone@example.test", PathStyle::Unix),
        Err(PlatformPathError::UnsupportedUrlScheme)
    );
}

#[test]
fn linux_data_path_obeys_absolute_xdg_then_home_fallback() {
    assert_eq!(
        linux_data_directory("not-news-canvas", Some("/var/data"), None).unwrap(),
        "/var/data/not-news-canvas"
    );
    assert_eq!(
        linux_data_directory("not-news-canvas", Some("relative"), Some("/home/researcher")).unwrap(),
        "/home/researcher/.local/share/not-news-canvas"
    );
    assert!(linux_data_directory("not-news-canvas", None, None).is_err());
}

#[test]
fn context_and_surface_loss_rebuild_twice_without_masking_fatal_errors() {
    let mut budget = RecoveryBudget::new();
    assert!(budget.permits(SurfaceErrorKind::ContextLost));
    assert!(budget.permits(SurfaceErrorKind::BadSurface));
    assert!(!budget.permits(SurfaceErrorKind::BadCurrentSurface));
    budget.presented();
    assert!(budget.permits(SurfaceErrorKind::BadContextState));
    assert!(!budget.permits(SurfaceErrorKind::Fatal));
    assert!(!budget.permits(SurfaceErrorKind::Fatal));
}

#[test]
fn zero_extents_are_raised_to_one_pixel() {
    assert_eq!(nonzero_extent(0), 1);
    assert_eq!(nonzero_extent(640), 640);
}

#[test]
fn current_directory_components_are_skipped_as_path_components_are() {
    let native = "/home/researcher/.hermes";
    assert_eq!(
        resolve_hermes_root(Some("/srv/hermes/profiles/not-news/."), native, PathStyle::Unix).unwrap(),
        "/srv/hermes"
    );
    assert_eq!(
        resolve_hermes_root(Some("/srv/hermes/profiles/./not-news"), native, PathStyle::Unix).unwrap(),
        "/srv/hermes"
    );
    assert_eq!(
        resolve_hermes_root(Some("/srv/hermes/."), native, PathStyle::Unix).unwrap(),
        "/srv/hermes/."
    );
}
