//! Docker image references: what a reference string means, and a parser
//! proved to compute exactly that.
//!
//! Supported forms include:
//! - `nginx` → `docker.io/library/nginx`
//! - `nginx:latest` → `docker.io/library/nginx:latest`
//! - `myuser/myimage` → `docker.io/myuser/myimage`
//! - `myorg/team/app` → `docker.io/myorg/team/app`
//! - `ghcr.io/owner/image` → `ghcr.io/owner/image`
//! - `registry.example.com/namespace/image:tag`
//! - `nginx@sha256:abc123` → a reference by digest
use vstd::prelude::*;

use crate::error::Error;
use crate::text::{
    chars_of, contains_char, find, join, last_index_of, first_index_of, lemma_first_index_of,
    lemma_last_index_of, lemma_trim_surrounded, is_white_space,
    lemma_split_pieces_non_empty, lemma_split_shape, no_empty_piece, pieces_non_empty, rfind,
    rsplit_once, split, str_eq, trim, trim_bounds,
};

verus! {

/// A parsed Docker image reference.
#[derive(Debug, Clone, PartialEq, Eq, Hash)]
pub struct ImageReference {
    registry: String,
    namespace: String,
    name: String,
    tag: Option<String>,
    digest: Option<String>,
}

/// The mathematical value of an [`ImageReference`]: its five parts as
/// character sequences.
pub struct ImageRefView {
    pub registry: Seq<char>,
    pub namespace: Seq<char>,
    pub name: Seq<char>,
    pub tag: Option<Seq<char>>,
    pub digest: Option<Seq<char>>,
}

/// Why a reference string is refused.
#[derive(Debug, Clone, Copy, PartialEq, Eq)]
pub enum ReferenceFault {
    /// Nothing but white space.
    Empty,
    /// An `@` with nothing after it.
    EmptyDigest,
    /// A tag separator `:` with nothing after it.
    EmptyTag,
    /// A `/` at either end of the path, or two side by side.
    EmptyPathSegment,
}

impl ReferenceFault {
    /// The text that [`Error::InvalidImageReference`] carries for this fault.
    pub open spec fn text(self) -> Seq<char> {
        match self {
            ReferenceFault::Empty => "empty image reference"@,
            ReferenceFault::EmptyDigest => "empty digest"@,
            ReferenceFault::EmptyTag => "empty tag"@,
            ReferenceFault::EmptyPathSegment => "empty path segment"@,
        }
    }

    /// The error that reports this fault.
    pub fn into_error(self) -> (e: Error)
        ensures
            e matches Error::InvalidImageReference(m) && m@ == self.text(),
    {
        match self {
            ReferenceFault::Empty => Error::InvalidImageReference("empty image reference"),
            ReferenceFault::EmptyDigest => Error::InvalidImageReference("empty digest"),
            ReferenceFault::EmptyTag => Error::InvalidImageReference("empty tag"),
            ReferenceFault::EmptyPathSegment => Error::InvalidImageReference("empty path segment"),
        }
    }
}

/// An optional string by its characters.
pub open spec fn opt_view(o: Option<String>) -> Option<Seq<char>> {
    match o {
        Some(s) => Some(s@),
        None => None,
    }
}

impl View for ImageReference {
    type V = ImageRefView;

    closed spec fn view(&self) -> ImageRefView {
        ImageRefView {
            registry: self.registry@,
            namespace: self.namespace@,
            name: self.name@,
            tag: opt_view(self.tag),
            digest: opt_view(self.digest),
        }
    }
}

/// The text before and after the last `@`: the reference without its
/// digest, and the digest, which may not be empty.
pub open spec fn split_digest(input: Seq<char>) -> Result<
    (Seq<char>, Option<Seq<char>>),
    ReferenceFault,
> {
    match rsplit_once(input, '@') {
        Some((before, after)) => if after.len() > 0 {
            Ok((before, Some(after)))
        } else {
            Err(ReferenceFault::EmptyDigest)
        },
        None => Ok((input, None)),
    }
}

/// The text before and after the last `:` where that `:` separates a tag
/// (the text before it holds a `/`, or the text after it holds none) and
/// not a registry port, as in `localhost:5000/image`. A tag may not be empty.
pub open spec fn split_tag(input: Seq<char>) -> Result<
    (Seq<char>, Option<Seq<char>>),
    ReferenceFault,
> {
    match rsplit_once(input, ':') {
        Some((before, after)) => if before.contains('/') || !after.contains('/') {
            if after.len() > 0 {
                Ok((before, Some(after)))
            } else {
                Err(ReferenceFault::EmptyTag)
            }
        } else {
            Ok((input, None))
        },
        None => Ok((input, None)),
    }
}

/// Whether a first path segment names a registry: it holds a `.` or a `:`,
/// or it is `localhost`.
pub open spec fn looks_like_registry(segment: Seq<char>) -> bool {
    segment.contains('.') || segment.contains(':') || segment == "localhost"@
}

/// Registry, namespace and name of a path given as its `/`-separated
/// segments (at least one).
pub open spec fn locate(parts: Seq<Seq<char>>) -> (Seq<char>, Seq<char>, Seq<char>) {
    if parts.len() == 1 {
        ("docker.io"@, "library"@, parts[0])
    } else if parts.len() == 2 {
        if looks_like_registry(parts[0]) {
            (parts[0], "library"@, parts[1])
        } else {
            ("docker.io"@, parts[0], parts[1])
        }
    } else if looks_like_registry(parts[0]) {
        (parts[0], join(parts.subrange(1, parts.len() - 1), '/'), parts.last())
    } else {
        ("docker.io"@, join(parts.drop_last(), '/'), parts.last())
    }
}

/// What a reference string means, or why it is refused.
///
/// Surrounding white space is ignored. A digest follows the last `@`, a tag
/// the last `:` that is not a registry port, and the rest is a path of
/// non-empty `/`-separated segments: the name is the last one, the first one
/// is the registry where it looks like one (else the registry is
/// `docker.io`), and the segments between them form the namespace
/// (`library` where there are none).
pub open spec fn spec_parse(image: Seq<char>) -> Result<ImageRefView, ReferenceFault> {
    let input = trim(image);
    if input.len() == 0 {
        Err(ReferenceFault::Empty)
    } else {
        match split_digest(input) {
            Err(e) => Err(e),
            Ok((without_digest, digest)) => match split_tag(without_digest) {
                Err(e) => Err(e),
                Ok((path, tag)) => {
                    let parts = split(path, '/');
                    if exists|i: int| 0 <= i < parts.len() && (#[trigger] parts[i]).len() == 0 {
                        Err(ReferenceFault::EmptyPathSegment)
                    } else {
                        let located = locate(parts);
                        Ok(
                            ImageRefView {
                                registry: located.0,
                                namespace: located.1,
                                name: located.2,
                                tag,
                                digest,
                            },
                        )
                    }
                },
            },
        }
    }
}

/// Whether `registry` is Docker Hub's.
pub open spec fn is_docker_hub_registry(registry: Seq<char>) -> bool {
    registry == "docker.io"@ || registry == "index.docker.io"@
}

/// The repository name that the Docker Hub API takes: the name alone for an
/// official image (`library/*`), else `namespace/name`.
pub open spec fn hub_repo_name(v: ImageRefView) -> Seq<char> {
    if v.namespace == "library"@ {
        v.name
    } else {
        v.namespace + "/"@ + v.name
    }
}

/// The short text form of a reference: Docker Hub images without their
/// registry (and official ones without `library/`), then `:tag` and
/// `@digest` where present.
pub open spec fn display_text(v: ImageRefView) -> Seq<char> {
    match v.digest {
        Some(d) => display_without_digest(v) + "@"@ + d,
        None => display_without_digest(v),
    }
}

/// The short text form without the digest.
pub open spec fn display_without_digest(v: ImageRefView) -> Seq<char> {
    match v.tag {
        Some(t) => display_path(v) + ":"@ + t,
        None => display_path(v),
    }
}

/// The short text form of the repository: Docker Hub images without their
/// registry (and official ones without `library/`).
pub open spec fn display_path(v: ImageRefView) -> Seq<char> {
    if is_docker_hub_registry(v.registry) {
        hub_repo_name(v)
    } else {
        v.registry + "/"@ + v.namespace + "/"@ + v.name
    }
}

/// What every parsed reference keeps: registry, namespace and name are not
/// empty, registry and name hold no `/`, a tag is not empty, and a digest is
/// not empty and holds no `@`.
pub open spec fn well_formed(v: ImageRefView) -> bool {
    &&& v.registry.len() > 0
    &&& !v.registry.contains('/')
    &&& v.namespace.len() > 0
    &&& v.name.len() > 0
    &&& !v.name.contains('/')
    &&& (v.tag matches Some(t) ==> t.len() > 0)
    &&& (v.digest matches Some(d) ==> d.len() > 0 && !d.contains('@'))
}

/// Parsing does not look at white space around the reference.
pub proof fn lemma_parse_ignores_surrounding_white_space(
    before: Seq<char>,
    image: Seq<char>,
    after: Seq<char>,
)
    requires
        forall|k: int| 0 <= k < before.len() ==> is_white_space(#[trigger] before[k]),
        forall|k: int| 0 <= k < after.len() ==> is_white_space(#[trigger] after[k]),
    ensures
        spec_parse(before + image + after) == spec_parse(image),
{
    lemma_trim_surrounded(before, image, after);
}

/// Every reference that parses is well formed.
pub proof fn lemma_parsed_reference_well_formed(image: Seq<char>)
    requires
        spec_parse(image) is Ok,
    ensures
        well_formed(spec_parse(image)->Ok_0),
{
    reveal_strlit("docker.io");
    reveal_strlit("library");
    let input = trim(image);
    lemma_last_index_of(input, '@');
    let (without_digest, digest) = split_digest(input)->Ok_0;
    lemma_last_index_of(without_digest, ':');
    let (path, tag) = split_tag(without_digest)->Ok_0;
    let parts = split(path, '/');
    lemma_split_pieces_non_empty(path, '/');
    lemma_split_shape(path, '/');
    lemma_first_index_of(path, '/');
    lemma_last_index_of(path, '/');
    let v = spec_parse(image)->Ok_0;
    assert forall|k: int| 0 <= k < parts.len() implies (#[trigger] parts[k]).len() > 0 by {
        if parts[k].len() == 0 {
            assert(exists|i: int| 0 <= i < parts.len() && (#[trigger] parts[i]).len() == 0);
        }
    }
    if let Some(d) = digest {
        let at = last_index_of(input, '@');
        assert(d == input.skip(at + 1));
        if d.contains('@') {
            let k = choose|k: int| 0 <= k < d.len() && d[k] == '@';
            assert(input[at + 1 + k] == '@');
        }
    }
    let f = first_index_of(path, '/');
    let l = last_index_of(path, '/');
    if f >= 0 {
        let name = path.skip(l + 1);
        if name.contains('/') {
            let k = choose|k: int| 0 <= k < name.len() && name[k] == '/';
            assert(path[l + 1 + k] == '/');
        }
        let first = path.take(f);
        if first.contains('/') {
            let k = choose|k: int| 0 <= k < first.len() && first[k] == '/';
            assert(path[k] == '/');
        }
        assert(parts[0].len() > 0);
        assert(parts.last().len() > 0);
        if f < l {
            assert(f > 0);
            assert(path.take(l).len() > 0);
            assert(f + 1 < l) by {
                if f + 1 == l {
                    assert(path[f] == '/' && path[f + 1] == '/');
                }
            }
        }
    } else {
        assert(parts[0] == path);
        assert(path.len() > 0);
    }
    assert(!"docker.io"@.contains('/')) by {
        if "docker.io"@.contains('/') {
            let k = choose|k: int| 0 <= k < "docker.io"@.len() && "docker.io"@[k] == '/';
        }
    }
}

/// `image` owned, for its characters from `lo` to `hi`.
fn owned_part(image: &str, lo: usize, hi: usize) -> (s: String)
    requires
        lo <= hi <= image@.len(),
    ensures
        s@ == image@.subrange(lo as int, hi as int),
{
    String::from_str(image.substring_char(lo, hi))
}

/// Where the digest of `cs[lo..hi]` starts: `Ok(w)` with the reference
/// without its digest in `cs[lo..w]` and the digest, if `w < hi`, in
/// `cs[w + 1..hi]`.
fn digest_bounds(cs: &Vec<char>, lo: usize, hi: usize) -> (r: Result<usize, ReferenceFault>)
    requires
        lo <= hi <= cs.len(),
    ensures
        match r {
            Ok(w) => lo <= w <= hi && split_digest(cs@.subrange(lo as int, hi as int)) == Ok::<
                _,
                ReferenceFault,
            >(
                (
                    cs@.subrange(lo as int, w as int),
                    if w < hi {
                        Some(cs@.subrange(w + 1, hi as int))
                    } else {
                        None
                    },
                ),
            ),
            Err(f) => split_digest(cs@.subrange(lo as int, hi as int)) == Err::<
                (Seq<char>, Option<Seq<char>>),
                _,
            >(f),
        },
{
    let ghost s = cs@.subrange(lo as int, hi as int);
    match rfind(cs, '@', lo, hi) {
        Some(at) => {
            proof {
                assert(s.take(at - lo) =~= cs@.subrange(lo as int, at as int));
                assert(s.skip(at - lo + 1) =~= cs@.subrange(at + 1, hi as int));
            }
            if at + 1 == hi {
                Err(ReferenceFault::EmptyDigest)
            } else {
                Ok(at)
            }
        },
        None => Ok(hi),
    }
}

/// Where the tag of `cs[lo..hi]` starts: `Ok(p)` with the path in
/// `cs[lo..p]` and the tag, if `p < hi`, in `cs[p + 1..hi]`.
fn tag_bounds(cs: &Vec<char>, lo: usize, hi: usize) -> (r: Result<usize, ReferenceFault>)
    requires
        lo <= hi <= cs.len(),
    ensures
        match r {
            Ok(p) => lo <= p <= hi && split_tag(cs@.subrange(lo as int, hi as int)) == Ok::<
                _,
                ReferenceFault,
            >(
                (
                    cs@.subrange(lo as int, p as int),
                    if p < hi {
                        Some(cs@.subrange(p + 1, hi as int))
                    } else {
                        None
                    },
                ),
            ),
            Err(f) => split_tag(cs@.subrange(lo as int, hi as int)) == Err::<
                (Seq<char>, Option<Seq<char>>),
                _,
            >(f),
        },
{
    let ghost s = cs@.subrange(lo as int, hi as int);
    match rfind(cs, ':', lo, hi) {
        Some(colon) => {
            proof {
                assert(s.take(colon - lo) =~= cs@.subrange(lo as int, colon as int));
                assert(s.skip(colon - lo + 1) =~= cs@.subrange(colon + 1, hi as int));
            }
            if contains_char(cs, '/', lo, colon) || !contains_char(cs, '/', colon + 1, hi) {
                if colon + 1 == hi {
                    Err(ReferenceFault::EmptyTag)
                } else {
                    Ok(colon)
                }
            } else {
                proof {
                    assert(s =~= cs@.subrange(lo as int, hi as int));
                }
                Ok(hi)
            }
        },
        None => Ok(hi),
    }
}

/// Whether the segment `cs[lo..hi]` (also `image[lo..hi]`) looks like a registry.
fn segment_is_registry(image: &str, cs: &Vec<char>, lo: usize, hi: usize) -> (r: bool)
    requires
        cs@ == image@,
        lo <= hi <= cs.len(),
    ensures
        r == looks_like_registry(cs@.subrange(lo as int, hi as int)),
{
    contains_char(cs, '.', lo, hi) || contains_char(cs, ':', lo, hi) || str_eq(
        image.substring_char(lo, hi),
        "localhost",
    )
}

/// Registry, namespace and name of the path `image[lo..hi]`, whose
/// `/`-separated segments are all non-empty.
fn locate_path(image: &str, cs: &Vec<char>, lo: usize, hi: usize) -> (r: (String, String, String))
    requires
        cs@ == image@,
        lo <= hi <= cs.len(),
        no_empty_piece(cs@.subrange(lo as int, hi as int), '/'),
    ensures
        (r.0@, r.1@, r.2@) == locate(split(cs@.subrange(lo as int, hi as int), '/')),
{
    let ghost s = cs@.subrange(lo as int, hi as int);
    proof {
        lemma_split_shape(s, '/');
        lemma_first_index_of(s, '/');
        lemma_last_index_of(s, '/');
    }
    match find(cs, '/', lo, hi) {
        None => {
            proof {
                assert(split(s, '/').len() == 1);
            }
            (String::from_str("docker.io"), String::from_str("library"), owned_part(image, lo, hi))
        },
        Some(f) => {
            let l = match rfind(cs, '/', lo, hi) {
                Some(l) => l,
                None => {
                    proof {
                        assert(s[f - lo] == '/');
                        assert(false);
                    }
                    hi
                },
            };
            let ghost parts = split(s, '/');
            proof {
                assert(s.take(f - lo) =~= cs@.subrange(lo as int, f as int));
                assert(s.skip(l - lo + 1) =~= cs@.subrange(l + 1, hi as int));
                assert(s.take(l - lo) =~= cs@.subrange(lo as int, l as int));
                if f < l {
                    assert(s.subrange(f - lo + 1, l - lo) =~= cs@.subrange(f + 1, l as int));
                }
            }
            let first_is_registry = segment_is_registry(image, cs, lo, f);
            let name = owned_part(image, l + 1, hi);
            if f == l {
                if first_is_registry {
                    (owned_part(image, lo, f), String::from_str("library"), name)
                } else {
                    (String::from_str("docker.io"), owned_part(image, lo, f), name)
                }
            } else if first_is_registry {
                (owned_part(image, lo, f), owned_part(image, f + 1, l), name)
            } else {
                (String::from_str("docker.io"), owned_part(image, lo, l), name)
            }
        },
    }
}

impl ImageReference {
    /// Parse an image reference string.
    ///
    /// The result is exactly what [`spec_parse`] says of the string; where
    /// that is a fault, the error is `InvalidImageReference` with the text
    /// of the fault.
    pub fn parse(image: &str) -> (res: Result<ImageReference, Error>)
        ensures
            match spec_parse(image@) {
                Ok(v) => res matches Ok(r) && r@ == v,
                Err(f) => res matches Err(Error::InvalidImageReference(m)) && m@ == f.text(),
            },
    {
        let cs = chars_of(image);
        let (start, end) = trim_bounds(&cs);
        if start == end {
            return Err(ReferenceFault::Empty.into_error());
        }
        let without_digest_end = match digest_bounds(&cs, start, end) {
            Ok(w) => w,
            Err(f) => {
                return Err(f.into_error());
            },
        };
        let digest = if without_digest_end < end {
            Some(owned_part(image, without_digest_end + 1, end))
        } else {
            None
        };
        let path_end = match tag_bounds(&cs, start, without_digest_end) {
            Ok(p) => p,
            Err(f) => {
                return Err(f.into_error());
            },
        };
        let tag = if path_end < without_digest_end {
            Some(owned_part(image, path_end + 1, without_digest_end))
        } else {
            None
        };
        let ghost path = cs@.subrange(start as int, path_end as int);
        proof {
            lemma_split_pieces_non_empty(path, '/');
        }
        if !pieces_non_empty(&cs, '/', start, path_end) {
            proof {
                let parts = split(path, '/');
                let i = choose|i: int| 0 <= i < parts.len() && !((#[trigger] parts[i]).len() > 0);
                assert(parts[i].len() == 0);
            }
            return Err(ReferenceFault::EmptyPathSegment.into_error());
        }
        let (registry, namespace, name) = locate_path(image, &cs, start, path_end);
        let r = ImageReference { registry, namespace, name, tag, digest };
        proof {
            let parts = split(path, '/');
            assert(!(exists|i: int| 0 <= i < parts.len() && (#[trigger] parts[i]).len() == 0));
            assert(r@ == spec_parse(image@).unwrap());
        }
        Ok(r)
    }

    /// Image registry (e.g. `docker.io`, `ghcr.io`).
    pub fn registry(&self) -> (r: &str)
        ensures
            r@ == self@.registry,
    {
        self.registry.as_str()
    }

    /// Namespace or user name (e.g. `library`, `myuser`, `myorg/team`).
    pub fn namespace(&self) -> (r: &str)
        ensures
            r@ == self@.namespace,
    {
        self.namespace.as_str()
    }

    /// Image name.
    pub fn name(&self) -> (r: &str)
        ensures
            r@ == self@.name,
    {
        self.name.as_str()
    }

    /// Tag, if present.
    pub fn tag(&self) -> (r: Option<&str>)
        ensures
            match r {
                Some(t) => self@.tag == Some(t@),
                None => self@.tag is None,
            },
    {
        match &self.tag {
            Some(t) => Some(t.as_str()),
            None => None,
        }
    }

    /// Digest, if present (e.g. `sha256:abc123`).
    pub fn digest(&self) -> (r: Option<&str>)
        ensures
            match r {
                Some(d) => self@.digest == Some(d@),
                None => self@.digest is None,
            },
    {
        match &self.digest {
            Some(d) => Some(d.as_str()),
            None => None,
        }
    }

    /// Repository name formatted for the Docker Hub API: just the image name
    /// for `library/*`, otherwise `namespace/name`.
    pub fn docker_hub_repo_name(&self) -> (r: String)
        ensures
            r@ == hub_repo_name(self@),
    {
        if str_eq(self.namespace.as_str(), "library") {
            self.name.clone()
        } else {
            String::from_str(self.namespace.as_str()).concat("/").concat(self.name.as_str())
        }
    }

    /// Whether this is a Docker Hub image.
    pub fn is_docker_hub(&self) -> (r: bool)
        ensures
            r == is_docker_hub_registry(self@.registry),
    {
        str_eq(self.registry.as_str(), "docker.io") || str_eq(
            self.registry.as_str(),
            "index.docker.io",
        )
    }

    /// Whether this is a GitHub Container Registry image.
    pub fn is_ghcr(&self) -> (r: bool)
        ensures
            r == (self@.registry == "ghcr.io"@),
    {
        str_eq(self.registry.as_str(), "ghcr.io")
    }

    /// Whether this is a Docker Official Image (`docker.io/library/*`).
    pub fn is_docker_official(&self) -> (r: bool)
        ensures
            r == (is_docker_hub_registry(self@.registry) && self@.namespace == "library"@),
    {
        self.is_docker_hub() && str_eq(self.namespace.as_str(), "library")
    }

    /// The short text form of the reference (see [`display_text`]).
    pub fn to_string(&self) -> (r: String)
        ensures
            r@ == display_text(self@),
    {
        let path = if self.is_docker_hub() {
            self.docker_hub_repo_name()
        } else {
            String::from_str(self.registry.as_str()).concat("/").concat(
                self.namespace.as_str(),
            ).concat("/").concat(self.name.as_str())
        };
        let with_tag = match &self.tag {
            Some(t) => path.concat(":").concat(t.as_str()),
            None => path,
        };
        match &self.digest {
            Some(d) => with_tag.concat("@").concat(d.as_str()),
            None => with_tag,
        }
    }
}

impl std::str::FromStr for ImageReference {
    type Err = Error;

    fn from_str(s: &str) -> (res: std::result::Result<ImageReference, Error>)
        ensures
            match spec_parse(s@) {
                Ok(v) => res matches Ok(r) && r@ == v,
                Err(f) => res matches Err(Error::InvalidImageReference(m)) && m@ == f.text(),
            },
    {
        ImageReference::parse(s)
    }
}

impl<'a> TryFrom<&'a str> for ImageReference {
    type Error = crate::error::Error;

    fn try_from(value: &'a str) -> (res: std::result::Result<ImageReference, crate::error::Error>)
        ensures
            match spec_parse(value@) {
                Ok(v) => res matches Ok(r) && r@ == v,
                Err(f) => res matches Err(Error::InvalidImageReference(m)) && m@ == f.text(),
            },
    {
        ImageReference::parse(value)
    }
}

/// Conversion from `&str` makes no claim through the trait's specification:
/// what it returns is what [`ImageReference::parse`] states.
impl<'a> vstd::std_specs::convert::TryFromSpecImpl<&'a str> for ImageReference {
    open spec fn obeys_try_from_spec() -> bool {
        false
    }

    open spec fn try_from_spec(v: &'a str) -> std::result::Result<ImageReference, crate::error::Error> {
        arbitrary()
    }
}

} // verus!
