use dimicon::service::{
    devicon_url, ghcr_avatar_url, hub_logo_url, official_logo_url, org_info_url, plan_lookup,
    read_head_answer, read_logo_answer, read_org_answer, IconLookup, LookupStep, Probe, ProbeAnswer,
    ProbeKind,
};
use dimicon::{Error, IconSource, ImageReference};

fn plan_of(image: &str, devicon: bool) -> Vec<(ProbeKind, String)> {
    let r = ImageReference::parse(image).unwrap();
    plan_lookup(&r, devicon).into_iter().map(|p| (p.kind, p.url)).collect()
}

#[test]
fn urls_of_each_source() {
    assert_eq!(
        official_logo_url("nginx"),
        "https://cdn.jsdelivr.net/gh/docker-library/docs@master/nginx/logo.png"
    );
    assert_eq!(ghcr_avatar_url("astral-sh"), "https://avatars.githubusercontent.com/astral-sh");
    assert_eq!(
        devicon_url("nginx"),
        "https://cdn.jsdelivr.net/gh/devicons/devicon@latest/icons/nginx/nginx-original.svg"
    );
    assert_eq!(org_info_url("localstack"), "https://hub.docker.com/v2/orgs/localstack/");
}

#[test]
fn hub_logo_url_percent_encodes_the_repository() {
    assert_eq!(
        hub_logo_url("redis"),
        "https://hub.docker.com/api/media/repos_logo/v1/redis?type=logo"
    );
    assert_eq!(
        hub_logo_url("localstack/localstack"),
        "https://hub.docker.com/api/media/repos_logo/v1/localstack%2Flocalstack?type=logo"
    );
    assert_eq!(
        hub_logo_url("a b~c_d.e-f"),
        "https://hub.docker.com/api/media/repos_logo/v1/a%20b~c_d.e-f?type=logo"
    );
    assert_eq!(
        hub_logo_url("é"),
        "https://hub.docker.com/api/media/repos_logo/v1/%C3%A9?type=logo"
    );
}

#[test]
fn official_images_are_looked_up_in_priority_order() {
    assert_eq!(
        plan_of("nginx", false),
        vec![
            (
                ProbeKind::DockerOfficialLogo,
                "https://cdn.jsdelivr.net/gh/docker-library/docs@master/nginx/logo.png".to_string()
            ),
            (
                ProbeKind::DockerHubLogo,
                "https://hub.docker.com/api/media/repos_logo/v1/nginx?type=logo".to_string()
            ),
        ]
    );
    let with_devicon = plan_of("nginx", true);
    assert_eq!(with_devicon.len(), 3);
    assert_eq!(with_devicon[1].0, ProbeKind::Devicon);
}

#[test]
fn user_images_ask_the_hub_logo_then_the_org_gravatar() {
    assert_eq!(
        plan_of("localstack/localstack", false),
        vec![
            (
                ProbeKind::DockerHubLogo,
                "https://hub.docker.com/api/media/repos_logo/v1/localstack%2Flocalstack?type=logo"
                    .to_string()
            ),
            (
                ProbeKind::DockerHubOrgGravatar,
                "https://hub.docker.com/v2/orgs/localstack/".to_string()
            ),
        ]
    );
}

#[test]
fn ghcr_images_ask_the_owner_avatar() {
    assert_eq!(
        plan_of("ghcr.io/astral-sh/uv", false),
        vec![(
            ProbeKind::GhcrAvatar,
            "https://avatars.githubusercontent.com/astral-sh".to_string()
        )]
    );
}

#[test]
fn other_registries_have_no_source() {
    assert!(plan_of("registry.example.com/ns/image", false).is_empty());
    assert_eq!(plan_of("registry.example.com/ns/image", true).len(), 1);
}

fn probe(kind: ProbeKind, url: &str) -> Probe {
    Probe { kind, url: url.to_string() }
}

#[test]
fn head_answers() {
    let found = read_head_answer(probe(ProbeKind::GhcrAvatar, "u"), 204);
    assert_eq!(found, Some(IconSource::GhcrAvatar { url: "u".to_string() }));
    let found = read_head_answer(probe(ProbeKind::DockerOfficialLogo, "v"), 200);
    assert_eq!(found, Some(IconSource::DockerOfficialImage { url: "v".to_string() }));
    assert_eq!(read_head_answer(probe(ProbeKind::Devicon, "w"), 299), Some(IconSource::Devicon { url: "w".to_string() }));
    assert_eq!(read_head_answer(probe(ProbeKind::Devicon, "w"), 300), None);
    assert_eq!(read_head_answer(probe(ProbeKind::Devicon, "w"), 199), None);
    assert_eq!(read_head_answer(probe(ProbeKind::GhcrAvatar, "u"), 404), None);
}

#[test]
fn logo_answers() {
    let ok = read_logo_answer(200, Some("https://x/logo.png".to_string())).unwrap();
    assert_eq!(ok, Some(IconSource::DockerHubLogo { url: "https://x/logo.png".to_string() }));
    assert_eq!(read_logo_answer(200, None).unwrap(), None);
    assert!(matches!(read_logo_answer(429, None), Err(Error::RateLimited)));
    assert_eq!(read_logo_answer(404, Some("ignored".to_string())).unwrap(), None);
}

#[test]
fn org_answers() {
    let ok = read_org_answer(200, Some("https://g/avatar".to_string())).unwrap();
    assert_eq!(ok, Some(IconSource::DockerHubOrgGravatar { url: "https://g/avatar".to_string() }));
    assert_eq!(read_org_answer(200, Some(String::new())).unwrap(), None);
    assert_eq!(read_org_answer(200, None).unwrap(), None);
    assert!(matches!(read_org_answer(429, Some("x".to_string())), Err(Error::RateLimited)));
    assert_eq!(read_org_answer(500, Some("x".to_string())).unwrap(), None);
}

fn reply(status: u16, body_url: Option<&str>) -> Result<ProbeAnswer, Error> {
    Ok(ProbeAnswer { status, body_url: body_url.map(|u| u.to_string()) })
}

fn asked(step: LookupStep) -> Probe {
    match step {
        LookupStep::Ask(p) => p,
        other => panic!("expected a probe, got {other:?}"),
    }
}

#[test]
fn lookup_stops_at_the_first_icon() {
    let r = ImageReference::parse("myuser/app").unwrap();
    let mut lookup = IconLookup::new(&r, false);
    let first = asked(lookup.start());
    assert_eq!(first.kind, ProbeKind::DockerHubLogo);
    let second = asked(lookup.answer(reply(404, None)));
    assert_eq!(second.kind, ProbeKind::DockerHubOrgGravatar);
    match lookup.answer(reply(200, Some("https://g/avatar"))) {
        LookupStep::Finished(Ok(Some(found))) => assert_eq!(
            found,
            IconSource::DockerHubOrgGravatar { url: "https://g/avatar".to_string() }
        ),
        other => panic!("expected the icon, got {other:?}"),
    }
}

#[test]
fn lookup_reads_each_answer_against_its_source() {
    let r = ImageReference::parse("nginx").unwrap();
    let mut lookup = IconLookup::new(&r, false);
    let first = asked(lookup.start());
    assert_eq!(first.kind, ProbeKind::DockerOfficialLogo);
    match lookup.answer(reply(200, Some("ignored for a HEAD source"))) {
        LookupStep::Finished(Ok(Some(found))) => assert_eq!(
            found,
            IconSource::DockerOfficialImage { url: first.url.clone() }
        ),
        other => panic!("expected the icon, got {other:?}"),
    }

    let mut lookup = IconLookup::new(&r, false);
    asked(lookup.start());
    let second = asked(lookup.answer(reply(404, None)));
    assert_eq!(second.kind, ProbeKind::DockerHubLogo);
    // status 200 without a logo in the body: no icon, and no source is left
    assert!(matches!(lookup.answer(reply(200, None)), LookupStep::Finished(Ok(None))));
}

#[test]
fn lookup_ends_without_icon_when_sources_run_out() {
    let r = ImageReference::parse("ghcr.io/owner/app").unwrap();
    let mut lookup = IconLookup::new(&r, false);
    let probe = asked(lookup.start());
    assert_eq!(probe.url, "https://avatars.githubusercontent.com/owner");
    assert!(matches!(lookup.answer(reply(404, None)), LookupStep::Finished(Ok(None))));

    let other = ImageReference::parse("quay.io/org/app").unwrap();
    let mut lookup = IconLookup::new(&other, false);
    assert!(matches!(lookup.start(), LookupStep::Finished(Ok(None))));
}

#[test]
fn lookup_stops_at_an_error() {
    let r = ImageReference::parse("nginx").unwrap();
    let mut lookup = IconLookup::new(&r, false);
    asked(lookup.start());
    assert!(matches!(
        lookup.answer(Err(Error::RateLimited)),
        LookupStep::Finished(Err(Error::RateLimited))
    ));

    let mut lookup = IconLookup::new(&r, false);
    asked(lookup.start());
    asked(lookup.answer(reply(404, None)));
    assert!(matches!(
        lookup.answer(reply(429, None)),
        LookupStep::Finished(Err(Error::RateLimited))
    ));
}

#[test]
fn failed_requests_become_request_errors() {
    let e = reqwest::Client::new().get("not a url").build().unwrap_err();
    assert!(matches!(Error::from(e), Error::Request(_)));
}
