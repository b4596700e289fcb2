//! Where an icon comes from, and an icon with its data.
use vstd::prelude::*;

verus! {

/// Image icon source.
///
/// Identifies where the icon was resolved from. Every variant carries the
/// URL of the icon.
#[derive(Debug, Clone, PartialEq, Eq, Hash)]
#[non_exhaustive]
pub enum IconSource {
    /// Logo from Docker Hub image
    DockerHubLogo { url: String },
    /// Gravatar from Docker Hub organization
    DockerHubOrgGravatar { url: String },
    /// Logo from Docker Official Image (via GitHub docker-library/docs)
    DockerOfficialImage { url: String },
    /// Icon from devicons/devicon (via jsDelivr CDN)
    Devicon { url: String },
    /// Avatar from GitHub Container Registry
    GhcrAvatar { url: String },
    /// User-defined custom icon URL
    Custom { url: String },
}

impl IconSource {
    /// The URL that the variant carries.
    pub open spec fn url_of(self) -> Seq<char> {
        match self {
            IconSource::DockerHubLogo { url } => url@,
            IconSource::DockerHubOrgGravatar { url } => url@,
            IconSource::DockerOfficialImage { url } => url@,
            IconSource::Devicon { url } => url@,
            IconSource::GhcrAvatar { url } => url@,
            IconSource::Custom { url } => url@,
        }
    }

    /// Get the URL of the icon
    pub fn url(&self) -> (r: &str)
        ensures
            r@ == self.url_of(),
    {
        match self {
            IconSource::DockerHubLogo { url } => url.as_str(),
            IconSource::DockerHubOrgGravatar { url } => url.as_str(),
            IconSource::DockerOfficialImage { url } => url.as_str(),
            IconSource::Devicon { url } => url.as_str(),
            IconSource::GhcrAvatar { url } => url.as_str(),
            IconSource::Custom { url } => url.as_str(),
        }
    }

    /// Create a custom icon source
    pub fn custom(url: &str) -> (r: IconSource)
        ensures
            r is Custom,
            r.url_of() == url@,
    {
        IconSource::Custom { url: String::from_str(url) }
    }
}

/// A custom source gives back, as its URL, the URL it was made with.
pub proof fn lemma_custom_url_round_trip(url: String)
    ensures
        (IconSource::Custom { url }).url_of() == url@,
{
}

/// Every variant gives, as its URL, the URL it carries.
pub proof fn lemma_every_source_gives_its_url(url: String)
    ensures
        (IconSource::DockerHubLogo { url }).url_of() == url@,
        (IconSource::DockerHubOrgGravatar { url }).url_of() == url@,
        (IconSource::DockerOfficialImage { url }).url_of() == url@,
        (IconSource::Devicon { url }).url_of() == url@,
        (IconSource::GhcrAvatar { url }).url_of() == url@,
        (IconSource::Custom { url }).url_of() == url@,
{
}

/// A resolved icon with its source metadata and raw image data
#[derive(Debug, Clone)]
pub struct Icon {
    source: IconSource,
    data: Vec<u8>,
    content_type: Option<String>,
}

impl Icon {
    pub closed spec fn source_of(self) -> IconSource {
        self.source
    }

    pub closed spec fn data_of(self) -> Seq<u8> {
        self.data@
    }

    pub closed spec fn content_type_of(self) -> Option<Seq<char>> {
        match self.content_type {
            Some(t) => Some(t@),
            None => None,
        }
    }

    /// An icon resolved from `source`, with its bytes and, if known, its
    /// MIME content type.
    pub fn new(source: IconSource, data: Vec<u8>, content_type: Option<String>) -> (r: Icon)
        ensures
            r.source_of() == source,
            r.data_of() == data@,
            r.content_type_of() == (match content_type {
                Some(t) => Some(t@),
                None => None::<Seq<char>>,
            }),
    {
        Icon { source, data, content_type }
    }

    /// The source this icon was resolved from
    pub fn source(&self) -> (r: &IconSource)
        ensures
            *r == self.source_of(),
    {
        &self.source
    }

    /// The URL of the icon
    pub fn url(&self) -> (r: &str)
        ensures
            r@ == self.source_of().url_of(),
    {
        self.source.url()
    }

    /// Raw image bytes
    pub fn data(&self) -> (r: &[u8])
        ensures
            r@ == self.data_of(),
    {
        self.data.as_slice()
    }

    /// Consume the icon and return the raw image bytes
    pub fn into_data(self) -> (r: Vec<u8>)
        ensures
            r@ == self.data_of(),
    {
        self.data
    }

    /// MIME content type, if known (e.g. `image/png`, `image/svg+xml`)
    pub fn content_type(&self) -> (r: Option<&str>)
        ensures
            match r {
                Some(t) => self.content_type_of() == Some(t@),
                None => self.content_type_of() is None,
            },
    {
        match &self.content_type {
            Some(t) => Some(t.as_str()),
            None => None,
        }
    }
}

} // verus!
