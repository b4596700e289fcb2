//! The rules of an icon lookup: which sources are tried for an image, in
//! which order and at which URL, how each answer is read, and when the
//! lookup ends. The HTTP exchanges themselves are made by the caller, which
//! hands each answer back as plain values.
//!
//! Sources, by priority:
//! 1. registry-specific free sources: the Docker Official Image logo, or the
//!    GitHub avatar of a GHCR image's owner;
//! 2. devicons/devicon via jsDelivr CDN, where enabled;
//! 3. the rate-limited Docker Hub APIs: the image logo, then the
//!    organization Gravatar.
use vstd::prelude::*;

use crate::error::Error;
use crate::parser::{hub_repo_name, is_docker_hub_registry, ImageRefView, ImageReference};
use crate::types::IconSource;

verus! {

// ---------------------------------------------------------------------------
// Percent-encoding (urlencoding)
// ---------------------------------------------------------------------------
/// The bytes that percent-encoding leaves as they are: ASCII letters and
/// digits, and `-`, `.`, `_`, `~`.
pub open spec fn is_unreserved_byte(b: u8) -> bool {
    ||| 0x30 <= b <= 0x39
    ||| 0x41 <= b <= 0x5a
    ||| 0x61 <= b <= 0x7a
    ||| b == 0x2d
    ||| b == 0x2e
    ||| b == 0x5f
    ||| b == 0x7e
}

/// The upper-case hexadecimal digit for `d < 16`.
pub open spec fn hex_digit(d: u8) -> char {
    if d < 10 {
        (0x30 + d) as char
    } else {
        (0x41 - 10 + d) as char
    }
}

/// One byte percent-encoded: itself where unreserved, else `%XY`.
pub open spec fn percent_encode_byte(b: u8) -> Seq<char> {
    if is_unreserved_byte(b) {
        seq![b as char]
    } else {
        seq!['%', hex_digit(b / 16), hex_digit(b % 16)]
    }
}

/// Bytes percent-encoded one after the other.
pub open spec fn percent_encode(bytes: Seq<u8>) -> Seq<char>
    decreases bytes.len(),
{
    if bytes.len() == 0 {
        seq![]
    } else {
        percent_encode_byte(bytes[0]) + percent_encode(bytes.drop_first())
    }
}

/// Calls `urlencoding::encode`, which percent-encodes every byte of the
/// UTF-8 form of `s` except ASCII letters, digits and `-`, `.`, `_`, `~`,
/// writing `%` and two upper-case hexadecimal digits; the contract states
/// exactly that.
#[verifier::external_body]
fn url_encode(s: &str) -> (r: String)
    ensures
        r@ == percent_encode(vstd::utf8::encode_utf8(s@)),
{
    urlencoding::encode(s).into_owned()
}

// ---------------------------------------------------------------------------
// Where each source is asked
// ---------------------------------------------------------------------------
/// Where docker-library/docs keeps an official image's logo, via jsDelivr.
pub open spec fn official_logo_url_of(name: Seq<char>) -> Seq<char> {
    "https://cdn.jsdelivr.net/gh/docker-library/docs@master/"@ + name + "/logo.png"@
}

/// The GitHub avatar of a GHCR namespace's owner.
pub open spec fn ghcr_avatar_url_of(namespace: Seq<char>) -> Seq<char> {
    "https://avatars.githubusercontent.com/"@ + namespace
}

/// Where devicons/devicon keeps an icon named after the image, via jsDelivr.
pub open spec fn devicon_url_of(name: Seq<char>) -> Seq<char> {
    "https://cdn.jsdelivr.net/gh/devicons/devicon@latest/icons/"@ + name + "/"@ + name
        + "-original.svg"@
}

/// The Docker Hub media API for a repository's logo; the name is percent-encoded.
pub open spec fn hub_logo_url_of(repo_name: Seq<char>) -> Seq<char> {
    "https://hub.docker.com/api/media/repos_logo/v1/"@ + percent_encode(
        vstd::utf8::encode_utf8(repo_name),
    ) + "?type=logo"@
}

/// The Docker Hub v2 API for an organization's details.
pub open spec fn org_info_url_of(namespace: Seq<char>) -> Seq<char> {
    "https://hub.docker.com/v2/orgs/"@ + namespace + "/"@
}

/// URL of a Docker Official Image logo in docker-library/docs, via jsDelivr.
pub fn official_logo_url(image_name: &str) -> (r: String)
    ensures
        r@ == official_logo_url_of(image_name@),
{
    String::from_str("https://cdn.jsdelivr.net/gh/docker-library/docs@master/").concat(
        image_name,
    ).concat("/logo.png")
}

/// URL of the GitHub avatar of a GHCR image owner.
pub fn ghcr_avatar_url(namespace: &str) -> (r: String)
    ensures
        r@ == ghcr_avatar_url_of(namespace@),
{
    String::from_str("https://avatars.githubusercontent.com/").concat(namespace)
}

/// URL of a devicons/devicon icon, via jsDelivr.
pub fn devicon_url(image_name: &str) -> (r: String)
    ensures
        r@ == devicon_url_of(image_name@),
{
    String::from_str("https://cdn.jsdelivr.net/gh/devicons/devicon@latest/icons/").concat(
        image_name,
    ).concat("/").concat(image_name).concat("-original.svg")
}

/// URL of the Docker Hub media API for an image logo; the repository name
/// is percent-encoded.
pub fn hub_logo_url(repo_name: &str) -> (r: String)
    ensures
        r@ == hub_logo_url_of(repo_name@),
{
    let encoded = url_encode(repo_name);
    String::from_str("https://hub.docker.com/api/media/repos_logo/v1/").concat(
        encoded.as_str(),
    ).concat("?type=logo")
}

/// URL of the Docker Hub v2 API for an organization's details.
pub fn org_info_url(namespace: &str) -> (r: String)
    ensures
        r@ == org_info_url_of(namespace@),
{
    String::from_str("https://hub.docker.com/v2/orgs/").concat(namespace).concat("/")
}

// ---------------------------------------------------------------------------
// The plan of a lookup
// ---------------------------------------------------------------------------
/// The kind of a source, which says how it is asked: the first three with a
/// `HEAD` request whose success means the icon is there, the last two with
/// a `GET` whose JSON body holds the icon's URL.
#[derive(Debug, Clone, Copy, PartialEq, Eq)]
pub enum ProbeKind {
    DockerOfficialLogo,
    GhcrAvatar,
    Devicon,
    DockerHubLogo,
    DockerHubOrgGravatar,
}

/// One source to ask, and where.
#[derive(Debug, Clone)]
pub struct Probe {
    pub kind: ProbeKind,
    pub url: String,
}

/// A probe as a value: its kind and its URL.
pub open spec fn probe_of(kind: ProbeKind, url: Seq<char>) -> (ProbeKind, Seq<char>) {
    (kind, url)
}

/// The sources asked for an image, in order of priority.
///
/// A Docker Official Image (`docker.io/library/*`) first has its logo looked
/// up in docker-library/docs, a GHCR image its owner's GitHub avatar; then,
/// where enabled, devicons/devicon; then, for Docker Hub images, the image
/// logo and, unless the namespace is `library`, the organization Gravatar.
/// Images of other registries have no source but devicons.
pub open spec fn lookup_plan(v: ImageRefView, devicon: bool) -> Seq<(ProbeKind, Seq<char>)> {
    let hub = is_docker_hub_registry(v.registry);
    let free = if hub {
        if v.namespace == "library"@ {
            seq![probe_of(ProbeKind::DockerOfficialLogo, official_logo_url_of(v.name))]
        } else {
            seq![]
        }
    } else if v.registry == "ghcr.io"@ {
        seq![probe_of(ProbeKind::GhcrAvatar, ghcr_avatar_url_of(v.namespace))]
    } else {
        seq![]
    };
    let cdn = if devicon {
        seq![probe_of(ProbeKind::Devicon, devicon_url_of(v.name))]
    } else {
        seq![]
    };
    let hub_apis = if hub {
        seq![probe_of(ProbeKind::DockerHubLogo, hub_logo_url_of(hub_repo_name(v)))] + if v.namespace
            == "library"@ {
            seq![]
        } else {
            seq![probe_of(ProbeKind::DockerHubOrgGravatar, org_info_url_of(v.namespace))]
        }
    } else {
        seq![]
    };
    free + cdn + hub_apis
}

/// The probes as values: each one's kind and URL.
pub open spec fn probes_view(probes: Seq<Probe>) -> Seq<(ProbeKind, Seq<char>)> {
    probes.map_values(|p: Probe| (p.kind, p.url@))
}

/// The sources to ask for `reference`, in order (see [`lookup_plan`]).
pub fn plan_lookup(reference: &ImageReference, devicon: bool) -> (r: Vec<Probe>)
    ensures
        probes_view(r@) == lookup_plan(reference@, devicon),
{
    let mut probes: Vec<Probe> = Vec::new();
    let hub = reference.is_docker_hub();
    let official = reference.is_docker_official();
    if hub {
        if official {
            probes.push(
                Probe { kind: ProbeKind::DockerOfficialLogo, url: official_logo_url(reference.name()) },
            );
        }
    } else if reference.is_ghcr() {
        probes.push(
            Probe { kind: ProbeKind::GhcrAvatar, url: ghcr_avatar_url(reference.namespace()) },
        );
    }
    if devicon {
        probes.push(Probe { kind: ProbeKind::Devicon, url: devicon_url(reference.name()) });
    }
    if hub {
        let repo_name = reference.docker_hub_repo_name();
        probes.push(
            Probe { kind: ProbeKind::DockerHubLogo, url: hub_logo_url(repo_name.as_str()) },
        );
        if !official {
            probes.push(
                Probe {
                    kind: ProbeKind::DockerHubOrgGravatar,
                    url: org_info_url(reference.namespace()),
                },
            );
        }
    }
    proof {
        let v = reference@;
        assert(probes_view(probes@) =~= lookup_plan(v, devicon));
    }
    probes
}

/// Images of registries other than Docker Hub and GHCR have no source to
/// ask where devicons is not enabled: their lookup finds no icon.
pub proof fn lemma_other_registries_have_no_source(v: ImageRefView)
    requires
        !is_docker_hub_registry(v.registry),
        v.registry != "ghcr.io"@,
    ensures
        lookup_plan(v, false).len() == 0,
{
}

/// A Docker Official Image has its docker-library/docs logo asked first,
/// and its organization Gravatar is never asked.
pub proof fn lemma_official_images_ask_their_logo_first(v: ImageRefView, devicon: bool)
    requires
        is_docker_hub_registry(v.registry),
        v.namespace == "library"@,
    ensures
        lookup_plan(v, devicon)[0] == probe_of(
            ProbeKind::DockerOfficialLogo,
            official_logo_url_of(v.name),
        ),
        forall|i: int|
            0 <= i < lookup_plan(v, devicon).len() ==> (#[trigger] lookup_plan(v, devicon)[i]).0
                != ProbeKind::DockerHubOrgGravatar,
{
    let plan = lookup_plan(v, devicon);
    assert forall|i: int| 0 <= i < plan.len() implies (#[trigger] plan[i]).0
        != ProbeKind::DockerHubOrgGravatar by {
        if devicon {
            assert(plan.len() == 3);
        } else {
            assert(plan.len() == 2);
        }
    }
}

/// Docker Hub's rate-limited APIs come last: every source asked after the
/// Docker Hub logo is the organization Gravatar.
pub proof fn lemma_hub_apis_come_last(v: ImageRefView, devicon: bool, i: int, j: int)
    requires
        0 <= i < j < lookup_plan(v, devicon).len(),
        lookup_plan(v, devicon)[i].0 == ProbeKind::DockerHubLogo,
    ensures
        lookup_plan(v, devicon)[j].0 == ProbeKind::DockerHubOrgGravatar,
{
}

// ---------------------------------------------------------------------------
// Reading the answers
// ---------------------------------------------------------------------------
/// Whether an HTTP status is a success (200 to 299).
pub open spec fn is_success_status(status: u16) -> bool {
    200 <= status <= 299
}

/// Whether `icon` is the icon of a source of `kind` at `url`.
pub open spec fn is_icon_of(icon: IconSource, kind: ProbeKind, url: Seq<char>) -> bool {
    match kind {
        ProbeKind::DockerOfficialLogo => icon matches IconSource::DockerOfficialImage { url: u }
            && u@ == url,
        ProbeKind::GhcrAvatar => icon matches IconSource::GhcrAvatar { url: u } && u@ == url,
        ProbeKind::Devicon => icon matches IconSource::Devicon { url: u } && u@ == url,
        ProbeKind::DockerHubLogo => icon matches IconSource::DockerHubLogo { url: u } && u@ == url,
        ProbeKind::DockerHubOrgGravatar => icon matches IconSource::DockerHubOrgGravatar { url: u }
            && u@ == url,
    }
}

/// The icon source of a kind, at a URL.
fn source_of_kind(kind: ProbeKind, url: String) -> (r: IconSource)
    ensures
        is_icon_of(r, kind, url@),
{
    match kind {
        ProbeKind::DockerOfficialLogo => IconSource::DockerOfficialImage { url },
        ProbeKind::GhcrAvatar => IconSource::GhcrAvatar { url },
        ProbeKind::Devicon => IconSource::Devicon { url },
        ProbeKind::DockerHubLogo => IconSource::DockerHubLogo { url },
        ProbeKind::DockerHubOrgGravatar => IconSource::DockerHubOrgGravatar { url },
    }
}

/// What a `HEAD` request to a source's URL tells: the icon is there where
/// the status is a success, else the source has none.
pub fn read_head_answer(probe: Probe, status: u16) -> (r: Option<IconSource>)
    ensures
        is_success_status(status) ==> (r matches Some(icon) && is_icon_of(
            icon,
            probe.kind,
            probe.url@,
        )),
        !is_success_status(status) ==> r is None,
{
    if 200 <= status && status <= 299 {
        Some(source_of_kind(probe.kind, probe.url))
    } else {
        None
    }
}

/// What the Docker Hub logo API answered: with status 200, the logo URL of
/// the body, if any; with 429, that the service is rate limited; with any
/// other status, no logo.
pub fn read_logo_answer(status: u16, logo_url: Option<String>) -> (r: Result<
    Option<IconSource>,
    Error,
>)
    ensures
        status == 200 ==> match logo_url {
            Some(u) => r matches Ok(Some(IconSource::DockerHubLogo { url })) && url@ == u@,
            None => r matches Ok(None),
        },
        status == 429 ==> r matches Err(Error::RateLimited),
        status != 200 && status != 429 ==> r matches Ok(None),
{
    if status == 200 {
        match logo_url {
            Some(url) => Ok(Some(IconSource::DockerHubLogo { url })),
            None => Ok(None),
        }
    } else if status == 429 {
        Err(Error::RateLimited)
    } else {
        Ok(None)
    }
}

/// What the Docker Hub organization API answered: with status 200, the
/// Gravatar URL of the body where it is present and not empty; with 429,
/// that the service is rate limited; with any other status, no Gravatar.
pub fn read_org_answer(status: u16, gravatar_url: Option<String>) -> (r: Result<
    Option<IconSource>,
    Error,
>)
    ensures
        status == 200 ==> match gravatar_url {
            Some(u) => if u@.len() > 0 {
                r matches Ok(Some(IconSource::DockerHubOrgGravatar { url })) && url@ == u@
            } else {
                r matches Ok(None)
            },
            None => r matches Ok(None),
        },
        status == 429 ==> r matches Err(Error::RateLimited),
        status != 200 && status != 429 ==> r matches Ok(None),
{
    if status == 200 {
        match gravatar_url {
            Some(url) => if url.as_str().is_empty() {
                Ok(None)
            } else {
                Ok(Some(IconSource::DockerHubOrgGravatar { url }))
            },
            None => Ok(None),
        }
    } else if status == 429 {
        Err(Error::RateLimited)
    } else {
        Ok(None)
    }
}

// ---------------------------------------------------------------------------
// The lookup as a state machine
// ---------------------------------------------------------------------------
/// What the caller does next: ask a source, or stop with the lookup's
/// result.
#[derive(Debug)]
pub enum LookupStep {
    Ask(Probe),
    Finished(Result<Option<IconSource>, Error>),
}

/// A source's answer as plain values: the HTTP status and, for the sources
/// asked with `GET`, the icon URL that the JSON body holds (the logo URL or
/// the Gravatar URL), read only where the status is 200.
#[derive(Debug, Clone)]
pub struct ProbeAnswer {
    pub status: u16,
    pub body_url: Option<String>,
}

/// Whether `icon` is what a source of `kind` asked at `probe_url` found,
/// given its answer: for `HEAD` sources the icon at the probe's own URL, for
/// `GET` sources the icon at the URL of the body.
pub open spec fn is_found_icon(
    icon: IconSource,
    kind: ProbeKind,
    probe_url: Seq<char>,
    answer: ProbeAnswer,
) -> bool {
    match kind {
        ProbeKind::DockerHubLogo | ProbeKind::DockerHubOrgGravatar => answer.body_url matches Some(
            u,
        ) && is_icon_of(icon, kind, u@),
        _ => is_icon_of(icon, kind, probe_url),
    }
}

/// Whether a source of `kind` found an icon with this answer.
pub open spec fn answer_finds_icon(kind: ProbeKind, answer: ProbeAnswer) -> bool {
    match kind {
        ProbeKind::DockerHubLogo => answer.status == 200 && answer.body_url is Some,
        ProbeKind::DockerHubOrgGravatar => answer.status == 200 && (answer.body_url matches Some(u)
            && u@.len() > 0),
        _ => is_success_status(answer.status),
    }
}

/// Whether a source of `kind` says with this answer that the service is
/// rate limited: the Docker Hub APIs with status 429.
pub open spec fn answer_rate_limited(kind: ProbeKind, answer: ProbeAnswer) -> bool {
    (kind == ProbeKind::DockerHubLogo || kind == ProbeKind::DockerHubOrgGravatar) && answer.status
        == 429
}

/// A lookup under way: the sources to ask, in order, and how many of them
/// have been handed out; the last one handed out is the one whose answer is
/// awaited.
pub struct IconLookup {
    probes: Vec<Probe>,
    asked: usize,
}

impl IconLookup {
    pub closed spec fn plan(self) -> Seq<(ProbeKind, Seq<char>)> {
        probes_view(self.probes@)
    }

    pub closed spec fn asked(self) -> nat {
        self.asked as nat
    }

    pub closed spec fn well_formed(self) -> bool {
        self.asked <= self.probes.len()
    }

    /// A lookup for `reference` that has asked no source yet.
    pub fn new(reference: &ImageReference, devicon: bool) -> (r: IconLookup)
        ensures
            r.well_formed(),
            r.plan() == lookup_plan(reference@, devicon),
            r.asked() == 0,
    {
        IconLookup { probes: plan_lookup(reference, devicon), asked: 0 }
    }

    /// Hands out the next source of the plan, or ends the lookup with no
    /// icon when none is left.
    fn advance(&mut self) -> (r: LookupStep)
        requires
            old(self).well_formed(),
        ensures
            final(self).well_formed(),
            final(self).plan() == old(self).plan(),
            old(self).asked() < old(self).plan().len() ==> (r matches LookupStep::Ask(p) && (
            p.kind,
            p.url@,
        ) == old(self).plan()[old(self).asked() as int] && final(self).asked() == old(
                self,
            ).asked() + 1),
            old(self).asked() >= old(self).plan().len() ==> (r matches LookupStep::Finished(
                Ok(None),
            ) && final(self).asked() == old(self).asked()),
    {
        if self.asked < self.probes.len() {
            let next = &self.probes[self.asked];
            let p = Probe { kind: next.kind, url: next.url.clone() };
            self.asked = self.asked + 1;
            LookupStep::Ask(p)
        } else {
            LookupStep::Finished(Ok(None))
        }
    }

    /// The first step: the first source of the plan, or no icon where the
    /// plan is empty.
    pub fn start(&mut self) -> (r: LookupStep)
        requires
            old(self).well_formed(),
            old(self).asked() == 0,
        ensures
            final(self).well_formed(),
            final(self).plan() == old(self).plan(),
            old(self).plan().len() > 0 ==> (r matches LookupStep::Ask(p) && (p.kind, p.url@)
                == old(self).plan()[0] && final(self).asked() == 1),
            old(self).plan().len() == 0 ==> (r matches LookupStep::Finished(Ok(None))
                && final(self).asked() == 0),
    {
        self.advance()
    }

    /// The step after the answer of the source last handed out, read
    /// against that source: a failed request ends the lookup with its
    /// error, a rate-limit answer with `RateLimited`, an answer that finds
    /// an icon with the icon of that source; otherwise the next source is
    /// asked, and when none is left the lookup ends with no icon.
    pub fn answer(&mut self, reply: Result<ProbeAnswer, Error>) -> (r: LookupStep)
        requires
            old(self).well_formed(),
            old(self).asked() > 0,
        ensures
            final(self).well_formed(),
            final(self).plan() == old(self).plan(),
            ({
                let asked = old(self).plan()[old(self).asked() - 1];
                match reply {
                    Err(e) => r matches LookupStep::Finished(Err(e2)) && e2 == e,
                    Ok(a) => if answer_rate_limited(asked.0, a) {
                        r matches LookupStep::Finished(Err(Error::RateLimited))
                    } else if answer_finds_icon(asked.0, a) {
                        r matches LookupStep::Finished(Ok(Some(icon))) && is_found_icon(
                            icon,
                            asked.0,
                            asked.1,
                            a,
                        )
                    } else if old(self).asked() < old(self).plan().len() {
                        r matches LookupStep::Ask(p) && (p.kind, p.url@) == old(self).plan()[old(
                            self,
                        ).asked() as int] && final(self).asked() == old(self).asked() + 1
                    } else {
                        r matches LookupStep::Finished(Ok(None))
                    },
                }
            }),
            r matches LookupStep::Finished(Ok(Some(icon))) ==> !(icon is Custom),
            ({
                let asked = old(self).plan()[old(self).asked() - 1];
                reply matches Ok(a) ==> {
                    &&& (asked.0 == ProbeKind::DockerHubLogo && a.status == 200
                        && a.body_url is Some) ==> (r matches LookupStep::Finished(
                        Ok(Some(IconSource::DockerHubLogo { url })),
                    ) && url@ == a.body_url.unwrap()@)
                    &&& (asked.0 == ProbeKind::DockerHubOrgGravatar && a.status == 200
                        && a.body_url is Some && a.body_url.unwrap()@.len() > 0) ==> (
                    r matches LookupStep::Finished(
                        Ok(Some(IconSource::DockerHubOrgGravatar { url })),
                    ) && url@ == a.body_url.unwrap()@)
                    &&& (asked.0 == ProbeKind::DockerOfficialLogo && 200 <= a.status <= 299) ==> (
                    r matches LookupStep::Finished(
                        Ok(Some(IconSource::DockerOfficialImage { url })),
                    ) && url@ == asked.1)
                    &&& (asked.0 == ProbeKind::GhcrAvatar && 200 <= a.status <= 299) ==> (
                    r matches LookupStep::Finished(Ok(Some(IconSource::GhcrAvatar { url })))
                        && url@ == asked.1)
                    &&& (asked.0 == ProbeKind::Devicon && 200 <= a.status <= 299) ==> (
                    r matches LookupStep::Finished(Ok(Some(IconSource::Devicon { url })))
                        && url@ == asked.1)
                }
            }),
    {
        let a = match reply {
            Err(e) => {
                return LookupStep::Finished(Err(e));
            },
            Ok(a) => a,
        };
        let last = &self.probes[self.asked - 1];
        let kind = last.kind;
        let read = match kind {
            ProbeKind::DockerHubLogo => read_logo_answer(a.status, a.body_url.clone()),
            ProbeKind::DockerHubOrgGravatar => read_org_answer(a.status, a.body_url.clone()),
            _ => Ok(read_head_answer(Probe { kind, url: last.url.clone() }, a.status)),
        };
        match read {
            Err(e) => LookupStep::Finished(Err(e)),
            Ok(Some(icon)) => LookupStep::Finished(Ok(Some(icon))),
            Ok(None) => self.advance(),
        }
    }
}

/// Every source that the plan asks fits the image: the GitHub avatar only
/// for a GHCR image, the docker-library/docs logo only for an official
/// Docker Hub image, the Docker Hub APIs only for Docker Hub images, and the
/// organization Gravatar never for the `library` namespace.
pub proof fn lemma_planned_sources_fit_the_image(v: ImageRefView, devicon: bool, i: int)
    requires
        0 <= i < lookup_plan(v, devicon).len(),
    ensures
        ({
            let kind = lookup_plan(v, devicon)[i].0;
            &&& kind == ProbeKind::GhcrAvatar ==> v.registry == "ghcr.io"@
            &&& kind == ProbeKind::DockerOfficialLogo ==> is_docker_hub_registry(v.registry)
                && v.namespace == "library"@
            &&& kind == ProbeKind::DockerHubLogo ==> is_docker_hub_registry(v.registry)
            &&& kind == ProbeKind::DockerHubOrgGravatar ==> is_docker_hub_registry(v.registry)
                && v.namespace != "library"@
            &&& kind == ProbeKind::Devicon ==> devicon
        }),
{
}

/// An icon found by a source carries the right URL: a source asked with
/// `GET` (the Docker Hub logo and organization APIs) gives the URL of its
/// answer's body, a source asked with `HEAD` the URL it was asked at; and
/// the icon's variant is the one of the source's kind.
pub proof fn lemma_found_icon_url(
    icon: IconSource,
    kind: ProbeKind,
    probe_url: Seq<char>,
    answer: ProbeAnswer,
)
    requires
        is_found_icon(icon, kind, probe_url, answer),
    ensures
        kind == ProbeKind::DockerHubLogo ==> (icon matches IconSource::DockerHubLogo { url }
            && answer.body_url matches Some(u) && url@ == u@),
        kind == ProbeKind::DockerHubOrgGravatar ==> (
        icon matches IconSource::DockerHubOrgGravatar { url } && answer.body_url matches Some(u)
            && url@ == u@),
        kind == ProbeKind::DockerOfficialLogo ==> (
        icon matches IconSource::DockerOfficialImage { url } && url@ == probe_url),
        kind == ProbeKind::GhcrAvatar ==> (icon matches IconSource::GhcrAvatar { url } && url@
            == probe_url),
        kind == ProbeKind::Devicon ==> (icon matches IconSource::Devicon { url } && url@
            == probe_url),
{
}

/// When an answer finds an icon and when it tells of a rate limit: the
/// Docker Hub logo API with status 200 and a logo URL in the body, the
/// organization API with status 200 and a non-empty Gravatar URL, a `HEAD`
/// source with a status from 200 to 299; a rate limit is status 429 from a
/// Docker Hub API.
pub proof fn lemma_when_answers_find_icons(kind: ProbeKind, answer: ProbeAnswer)
    ensures
        kind == ProbeKind::DockerHubLogo ==> (answer_finds_icon(kind, answer) <==> (answer.status
            == 200 && answer.body_url is Some)),
        kind == ProbeKind::DockerHubOrgGravatar ==> (answer_finds_icon(kind, answer) <==> (
        answer.status == 200 && answer.body_url is Some && answer.body_url.unwrap()@.len() > 0)),
        (kind == ProbeKind::DockerOfficialLogo || kind == ProbeKind::GhcrAvatar || kind
            == ProbeKind::Devicon) ==> (answer_finds_icon(kind, answer) <==> 200 <= answer.status
            <= 299),
        answer_rate_limited(kind, answer) <==> ((kind == ProbeKind::DockerHubLogo || kind
            == ProbeKind::DockerHubOrgGravatar) && answer.status == 429),
{
}

/// The URL each planned source is asked at: the organization API at the
/// reference's namespace, the logo API at its percent-encoded Docker Hub
/// repository name (the name alone for `library`, else `namespace/name`),
/// docker-library/docs and devicons at its name, GitHub at its namespace.
pub proof fn lemma_planned_urls(v: ImageRefView, devicon: bool, i: int)
    requires
        0 <= i < lookup_plan(v, devicon).len(),
    ensures
        ({
            let (kind, url) = lookup_plan(v, devicon)[i];
            let repo = if v.namespace == "library"@ {
                v.name
            } else {
                v.namespace + seq!['/'] + v.name
            };
            &&& kind == ProbeKind::DockerHubOrgGravatar ==> url == "https://hub.docker.com/v2/orgs/"@
                + v.namespace + seq!['/']
            &&& kind == ProbeKind::DockerHubLogo ==> url
                == "https://hub.docker.com/api/media/repos_logo/v1/"@ + percent_encode(
                vstd::utf8::encode_utf8(repo),
            ) + "?type=logo"@
            &&& kind == ProbeKind::DockerOfficialLogo ==> url
                == "https://cdn.jsdelivr.net/gh/docker-library/docs@master/"@ + v.name
                + "/logo.png"@
            &&& kind == ProbeKind::GhcrAvatar ==> url == "https://avatars.githubusercontent.com/"@
                + v.namespace
            &&& kind == ProbeKind::Devicon ==> url
                == "https://cdn.jsdelivr.net/gh/devicons/devicon@latest/icons/"@ + v.name
                + seq!['/'] + v.name + "-original.svg"@
        }),
{
    reveal_strlit("/");
    assert("/"@ =~= seq!['/']);
}

/// A Docker Hub image always has its logo asked, and, unless its namespace
/// is `library`, its organization's Gravatar last, at its namespace.
pub proof fn lemma_hub_sources_are_planned(v: ImageRefView, devicon: bool)
    requires
        is_docker_hub_registry(v.registry),
    ensures
        lookup_plan(v, devicon).len() > 0,
        v.namespace == "library"@ ==> lookup_plan(v, devicon).last().0 == ProbeKind::DockerHubLogo,
        v.namespace != "library"@ ==> lookup_plan(v, devicon).last() == (
            ProbeKind::DockerHubOrgGravatar,
            "https://hub.docker.com/v2/orgs/"@ + v.namespace + seq!['/'],
        ),
        v.namespace != "library"@ ==> lookup_plan(v, devicon)[lookup_plan(v, devicon).len()
            - 2].0 == ProbeKind::DockerHubLogo,
{
    reveal_strlit("/");
    assert("/"@ =~= seq!['/']);
}

/// Percent-encoding works byte by byte: the encoding of two byte strings
/// one after the other is the two encodings one after the other; an
/// unreserved byte stands for itself, and `/` becomes `%2F`, a space `%20`.
pub proof fn lemma_percent_encoding(a: Seq<u8>, b: Seq<u8>, u: u8)
    requires
        is_unreserved_byte(u),
    ensures
        percent_encode(a + b) == percent_encode(a) + percent_encode(b),
        percent_encode(seq![u]) == seq![u as char],
        percent_encode(seq![0x2fu8]) == seq!['%', '2', 'F'],
        percent_encode(seq![0x20u8]) == seq!['%', '2', '0'],
    decreases a.len(),
{
    if a.len() > 0 {
        lemma_percent_encoding(a.drop_first(), b, u);
        assert((a + b).drop_first() =~= a.drop_first() + b);
        assert((a + b)[0] == a[0]);
        assert(percent_encode(a + b) =~= percent_encode_byte(a[0]) + (percent_encode(
            a.drop_first(),
        ) + percent_encode(b)));
    } else {
        assert(a + b =~= b);
    }
    assert(seq![u].drop_first() =~= Seq::<u8>::empty());
    assert(seq![0x2fu8].drop_first() =~= Seq::<u8>::empty());
    assert(seq![0x20u8].drop_first() =~= Seq::<u8>::empty());
    assert(percent_encode(Seq::<u8>::empty()) =~= Seq::<char>::empty());
    assert(seq![u][0] == u);
    assert(percent_encode_byte(u) == seq![u as char]);
    assert(percent_encode(seq![u]) == percent_encode_byte(u) + percent_encode(Seq::<u8>::empty()));
    assert(percent_encode(seq![u]) =~= seq![u as char]);
    assert(percent_encode(seq![0x2fu8]) =~= seq!['%', '2', 'F']);
    assert(percent_encode(seq![0x20u8]) =~= seq!['%', '2', '0']);
}

/// A GHCR image has its owner's GitHub avatar asked first, at its
/// namespace, then devicons where enabled, and nothing else.
pub proof fn lemma_ghcr_images_ask_the_owner(v: ImageRefView, devicon: bool)
    requires
        v.registry == "ghcr.io"@,
    ensures
        lookup_plan(v, devicon)[0] == (
            ProbeKind::GhcrAvatar,
            "https://avatars.githubusercontent.com/"@ + v.namespace,
        ),
        lookup_plan(v, devicon).len() == if devicon {
            2int
        } else {
            1int
        },
        devicon ==> lookup_plan(v, devicon)[1].0 == ProbeKind::Devicon,
{
    reveal_strlit("ghcr.io");
    reveal_strlit("docker.io");
    reveal_strlit("index.docker.io");
    assert(!is_docker_hub_registry(v.registry)) by {
        assert("ghcr.io"@.len() != "docker.io"@.len());
        assert("ghcr.io"@.len() != "index.docker.io"@.len());
    }
}

} // verus!
