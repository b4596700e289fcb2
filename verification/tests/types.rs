use dimicon::{Icon, IconSource};

#[test]
fn test_url() {
    let source = IconSource::DockerHubLogo {
        url: "https://example.com/logo.png".to_string(),
    };
    assert_eq!(source.url(), "https://example.com/logo.png");
}

#[test]
fn test_devicon() {
    let icon = IconSource::Devicon {
        url: "https://cdn.jsdelivr.net/gh/devicons/devicon@latest/icons/nginx/nginx-original.svg".to_string(),
    };
    assert_eq!(
        icon.url(),
        "https://cdn.jsdelivr.net/gh/devicons/devicon@latest/icons/nginx/nginx-original.svg"
    );
}

#[test]
fn test_custom() {
    let icon = IconSource::custom("https://example.com/icon.png");
    assert_eq!(icon.url(), "https://example.com/icon.png");
}

#[test]
fn every_variant_gives_its_url() {
    let sources = vec![
        IconSource::DockerHubOrgGravatar { url: "a".to_string() },
        IconSource::DockerOfficialImage { url: "b".to_string() },
        IconSource::GhcrAvatar { url: "c".to_string() },
        IconSource::Custom { url: "d".to_string() },
    ];
    let urls: Vec<&str> = sources.iter().map(|s| s.url()).collect();
    assert_eq!(urls, vec!["a", "b", "c", "d"]);
    assert!(matches!(IconSource::custom("x"), IconSource::Custom { .. }));
}

#[test]
fn icon_keeps_what_it_was_made_with() {
    let source = IconSource::GhcrAvatar { url: "https://avatars.githubusercontent.com/o".to_string() };
    let icon = Icon::new(source.clone(), vec![1, 2, 3], Some("image/png".to_string()));
    assert_eq!(icon.source(), &source);
    assert_eq!(icon.url(), "https://avatars.githubusercontent.com/o");
    assert_eq!(icon.data(), &[1u8, 2, 3][..]);
    assert_eq!(icon.content_type(), Some("image/png"));
    assert_eq!(icon.into_data(), vec![1, 2, 3]);

    let bare = Icon::new(IconSource::custom("u"), Vec::new(), None);
    assert!(bare.content_type().is_none());
    assert!(bare.data().is_empty());
}
