//! Laws of image references stated by their shapes: what a registry in
//! front of a name parses to, the Docker Hub repository name, and the short
//! text form.
use vstd::prelude::*;

use crate::parser::{
    display_text, hub_repo_name, spec_parse, split_digest, split_tag, ImageRefView, ReferenceFault,
};
use crate::round_trip::{lemma_concat_lacks, lemma_trim_identity};
use crate::text::{
    is_white_space, last_index_of, lemma_last_index_of, lemma_split_pieces_non_empty,
    lemma_split_shape, lemma_first_index_of, first_index_of, split,
};

verus! {

/// A plain image name: not empty, without `/`, `:` or `@`, and without
/// white space at either end.
pub open spec fn is_plain_name(n: Seq<char>) -> bool {
    &&& n.len() > 0
    &&& !n.contains('/')
    &&& !n.contains(':')
    &&& !n.contains('@')
    &&& !is_white_space(n[0])
    &&& !is_white_space(n.last())
}

/// A registry host as written in front of a path: not empty, without `/` or
/// `@`, without white space at its start, and holding a `.` or a `:` or
/// being `localhost`.
pub open spec fn is_registry_host(r: Seq<char>) -> bool {
    &&& r.len() > 0
    &&& !r.contains('/')
    &&& !r.contains('@')
    &&& !is_white_space(r[0])
    &&& (r.contains('.') || r.contains(':') || r == "localhost"@)
}

/// A plain name alone is an official Docker Hub image: registry
/// `docker.io`, namespace `library`, no tag, no digest.
pub proof fn lemma_plain_name_parses(n: Seq<char>)
    requires
        is_plain_name(n),
    ensures
        spec_parse(n) == Ok::<_, ReferenceFault>(
            ImageRefView {
                registry: "docker.io"@,
                namespace: "library"@,
                name: n,
                tag: None,
                digest: None,
            },
        ),
{
    lemma_trim_identity(n);
    lemma_last_index_of(n, '@');
    lemma_last_index_of(n, ':');
    lemma_first_index_of(n, '/');
    lemma_split_shape(n, '/');
    let parts = split(n, '/');
    assert(parts =~= seq![n]);
    assert(parts[0].len() > 0);
}

/// A registry host, a `/` and a plain name parse to that registry, the
/// namespace `library` and that name, with no tag and no digest.
pub proof fn lemma_registry_and_name_parse(r: Seq<char>, n: Seq<char>)
    requires
        is_registry_host(r),
        is_plain_name(n),
    ensures
        spec_parse(r + seq!['/'] + n) == Ok::<_, ReferenceFault>(
            ImageRefView { registry: r, namespace: "library"@, name: n, tag: None, digest: None },
        ),
{
    let slash = seq!['/'];
    let x = r + slash + n;
    let f = r.len() as int;
    assert(x[0] == r[0]);
    assert(x.last() == n.last());
    lemma_trim_identity(x);
    // no digest
    assert(!slash.contains('@')) by {
        if slash.contains('@') {
            let k = choose|k: int| 0 <= k < slash.len() && slash[k] == '@';
        }
    }
    lemma_concat_lacks(r, slash, '@');
    lemma_concat_lacks(r + slash, n, '@');
    lemma_last_index_of(x, '@');
    // no tag: a `:` can only stand in the registry, before the `/`
    lemma_last_index_of(x, ':');
    let j = last_index_of(x, ':');
    assert(x[f] == '/');
    if j >= 0 {
        assert(j < f) by {
            if j > f {
                assert(x[j] == n[j - f - 1]);
                assert(n.contains(':'));
            }
        }
        let before = x.take(j);
        let after = x.skip(j + 1);
        assert(!before.contains('/')) by {
            if before.contains('/') {
                let k = choose|k: int| 0 <= k < before.len() && before[k] == '/';
                assert(r[k] == '/');
                assert(r.contains('/'));
            }
        }
        assert(after[f - j - 1] == '/');
        assert(after.contains('/'));
    }
    // the path splits in two at its only `/`
    assert forall|k: int| 0 <= k < f implies x[k] != '/' by {
        assert(x[k] == r[k]);
        if r[k] == '/' {
            assert(r.contains('/'));
        }
    }
    assert forall|k: int| f < k < x.len() implies x[k] != '/' by {
        assert(x[k] == n[k - f - 1]);
        if n[k - f - 1] == '/' {
            assert(n.contains('/'));
        }
    }
    crate::text::lemma_first_index_of_unique(x, '/', f);
    crate::text::lemma_last_index_of_unique(x, '/', f);
    lemma_split_shape(x, '/');
    lemma_split_pieces_non_empty(x, '/');
    assert(x[0] != '/');
    assert(x.last() != '/') by {
        if n.last() == '/' {
            assert(n.contains('/'));
        }
    }
    assert forall|k: int| 0 <= k < x.len() - 1 implies !(#[trigger] x[k] == '/' && x[k + 1]
        == '/') by {}
    let parts = split(x, '/');
    assert(parts.len() == 2);
    assert(x.take(f) =~= r);
    assert(x.skip(f + 1) =~= n);
    assert(parts[0].len() > 0 && parts[1].len() > 0);
    assert(forall|i: int| 0 <= i < parts.len() ==> (#[trigger] parts[i]).len() > 0);
}

/// A Docker Hub reference written with its registry parses as the one
/// written without it: `docker.io/n` is `n`, an official image.
pub proof fn lemma_docker_io_prefix_is_implied(n: Seq<char>)
    requires
        is_plain_name(n),
    ensures
        spec_parse("docker.io/"@ + n) == spec_parse(n),
        spec_parse(n)->Ok_0.namespace == "library"@,
{
    reveal_strlit("docker.io/");
    reveal_strlit("docker.io");
    let host = "docker.io"@;
    assert(host =~= seq!['d', 'o', 'c', 'k', 'e', 'r', '.', 'i', 'o']);
    assert(host[6] == '.');
    assert forall|k: int| 0 <= k < host.len() implies host[k] != '/' && host[k] != '@' by {}
    lemma_registry_and_name_parse(host, n);
    assert("docker.io/"@ + n =~= host + seq!['/'] + n);
    lemma_plain_name_parses(n);
}

/// The text `:tag` where a tag is present, else nothing.
pub open spec fn tag_suffix(tag: Option<Seq<char>>) -> Seq<char> {
    match tag {
        Some(t) => seq![':'] + t,
        None => seq![],
    }
}

/// The text `@digest` where a digest is present, else nothing.
pub open spec fn digest_suffix(digest: Option<Seq<char>>) -> Seq<char> {
    match digest {
        Some(d) => seq!['@'] + d,
        None => seq![],
    }
}

/// The Docker Hub repository name does not depend on the registry: it is
/// the name alone for the `library` namespace, else the namespace, a `/`
/// and the name.
pub proof fn lemma_repo_name_of_any_registry(v: ImageRefView, other_registry: Seq<char>)
    ensures
        v.namespace == "library"@ ==> hub_repo_name(v) == v.name,
        v.namespace != "library"@ ==> hub_repo_name(v) == v.namespace + seq!['/'] + v.name,
        hub_repo_name(v) == hub_repo_name(ImageRefView { registry: other_registry, ..v }),
{
    reveal_strlit("/");
    assert("/"@ =~= seq!['/']);
}

/// The short text form: for a Docker Hub image (registry `docker.io` or
/// `index.docker.io`) its repository name, without the registry; for any
/// other image registry, namespace and name joined by `/`; then `:tag` and
/// `@digest` where present.
pub proof fn lemma_text_form(v: ImageRefView)
    ensures
        (v.registry == "docker.io"@ || v.registry == "index.docker.io"@) ==> display_text(v) == (
        if v.namespace == "library"@ {
            v.name
        } else {
            v.namespace + seq!['/'] + v.name
        }) + tag_suffix(v.tag) + digest_suffix(v.digest),
        !(v.registry == "docker.io"@ || v.registry == "index.docker.io"@) ==> display_text(v)
            == v.registry + seq!['/'] + v.namespace + seq!['/'] + v.name + tag_suffix(v.tag)
            + digest_suffix(v.digest),
{
    reveal_strlit("/");
    reveal_strlit(":");
    reveal_strlit("@");
    assert("/"@ =~= seq!['/']);
    assert(":"@ =~= seq![':']);
    assert("@"@ =~= seq!['@']);
    let path = crate::parser::display_path(v);
    let wt = crate::parser::display_without_digest(v);
    assert(wt =~= path + tag_suffix(v.tag));
    assert(display_text(v) =~= wt + digest_suffix(v.digest));
}

/// A text without white space at either end, as a reference is written.
pub open spec fn is_bare_text(x: Seq<char>) -> bool {
    x.len() > 0 && !is_white_space(x[0]) && !is_white_space(x.last())
}

/// A digest written after `@` is cut off whole: `x@d` parses as `x`, with
/// digest `d` (for a reference text `x` without `@`, and a digest `d`
/// without `@`).
pub proof fn lemma_digest_is_cut_off(x: Seq<char>, d: Seq<char>)
    requires
        is_bare_text(x),
        is_bare_text(d),
        !x.contains('@'),
        !d.contains('@'),
    ensures
        spec_parse(x + seq!['@'] + d) == (match spec_parse(x) {
            Ok(v) => Ok(ImageRefView { digest: Some(d), ..v }),
            Err(e) => Err(e),
        }),
{
    let y = x + seq!['@'] + d;
    let k = x.len() as int;
    assert(y[0] == x[0]);
    assert(y.last() == d.last());
    lemma_trim_identity(y);
    lemma_trim_identity(x);
    assert(y[k] == '@');
    assert forall|j: int| k < j < y.len() implies y[j] != '@' by {
        assert(y[j] == d[j - k - 1]);
        if d[j - k - 1] == '@' {
            assert(d.contains('@'));
        }
    }
    crate::text::lemma_last_index_of_unique(y, '@', k);
    assert(y.take(k) =~= x);
    assert(y.skip(k + 1) =~= d);
    lemma_last_index_of(x, '@');
    assert(split_digest(y) == Ok::<_, ReferenceFault>((x, Some(d))));
    assert(split_digest(x) == Ok::<_, ReferenceFault>((x, None::<Seq<char>>)));
}

/// A tag written after `:` is cut off whole: `x:t` parses as `x`, with tag
/// `t` (for a reference text `x` without `@` or `:`, and a tag `t` without
/// `@`, `:` or `/`).
pub proof fn lemma_tag_is_cut_off(x: Seq<char>, t: Seq<char>)
    requires
        is_bare_text(x),
        is_bare_text(t),
        !x.contains('@'),
        !x.contains(':'),
        !t.contains('@'),
        !t.contains(':'),
        !t.contains('/'),
    ensures
        spec_parse(x + seq![':'] + t) == (match spec_parse(x) {
            Ok(v) => Ok(ImageRefView { tag: Some(t), ..v }),
            Err(e) => Err(e),
        }),
{
    let y = x + seq![':'] + t;
    let k = x.len() as int;
    assert(y[0] == x[0]);
    assert(y.last() == t.last());
    lemma_trim_identity(y);
    lemma_trim_identity(x);
    assert(!seq![':'].contains('@')) by {
        if seq![':'].contains('@') {
            let j = choose|j: int| 0 <= j < 1 && seq![':'][j] == '@';
        }
    }
    lemma_concat_lacks(x, seq![':'], '@');
    lemma_concat_lacks(x + seq![':'], t, '@');
    lemma_last_index_of(y, '@');
    lemma_last_index_of(x, '@');
    assert(y[k] == ':');
    assert forall|j: int| k < j < y.len() implies y[j] != ':' by {
        assert(y[j] == t[j - k - 1]);
        if t[j - k - 1] == ':' {
            assert(t.contains(':'));
        }
    }
    crate::text::lemma_last_index_of_unique(y, ':', k);
    assert(y.take(k) =~= x);
    assert(y.skip(k + 1) =~= t);
    lemma_last_index_of(x, ':');
    assert(split_digest(y) == Ok::<_, ReferenceFault>((y, None::<Seq<char>>)));
    assert(split_tag(y) == Ok::<_, ReferenceFault>((x, Some(t))));
    assert(split_tag(x) == Ok::<_, ReferenceFault>((x, None::<Seq<char>>)));
}

/// A first path segment: not empty, without `/` or `@`, and without white
/// space at its start (it may hold a `:`, as a registry port).
pub open spec fn is_first_segment(a: Seq<char>) -> bool {
    &&& a.len() > 0
    &&& !a.contains('/')
    &&& !a.contains('@')
    &&& !is_white_space(a[0])
}

/// How a path of a first segment and plain names is cut: no digest, no
/// tag, and the `/`-separated pieces are the segments.
proof fn lemma_path_is_cut(x: Seq<char>, a: Seq<char>, rest: Seq<char>)
    requires
        is_first_segment(a),
        rest.len() > 0,
        !rest.contains(':'),
        !rest.contains('@'),
        !is_white_space(rest.last()),
        rest[0] != '/',
        rest.last() != '/',
        forall|k: int| 0 <= k < rest.len() - 1 ==> !(#[trigger] rest[k] == '/' && rest[k + 1] == '/'),
        x == a + seq!['/'] + rest,
    ensures
        crate::text::trim(x) == x,
        split_digest(x) == Ok::<_, ReferenceFault>((x, None::<Seq<char>>)),
        split_tag(x) == Ok::<_, ReferenceFault>((x, None::<Seq<char>>)),
        first_index_of(x, '/') == a.len(),
        forall|i: int| 0 <= i < split(x, '/').len() ==> (#[trigger] split(x, '/')[i]).len() > 0,
{
    let slash = seq!['/'];
    let f = a.len() as int;
    assert(x[0] == a[0]);
    assert(x.last() == rest.last());
    lemma_trim_identity(x);
    assert(!slash.contains('@')) by {
        if slash.contains('@') {
            let k = choose|k: int| 0 <= k < slash.len() && slash[k] == '@';
        }
    }
    lemma_concat_lacks(a, slash, '@');
    lemma_concat_lacks(a + slash, rest, '@');
    lemma_last_index_of(x, '@');
    lemma_last_index_of(x, ':');
    let j = last_index_of(x, ':');
    assert(x[f] == '/');
    if j >= 0 {
        assert(j < f) by {
            if j > f {
                assert(x[j] == rest[j - f - 1]);
                assert(rest.contains(':'));
            }
        }
        let before = x.take(j);
        let after = x.skip(j + 1);
        assert(!before.contains('/')) by {
            if before.contains('/') {
                let k = choose|k: int| 0 <= k < before.len() && before[k] == '/';
                assert(a[k] == '/');
                assert(a.contains('/'));
            }
        }
        assert(after[f - j - 1] == '/');
        assert(after.contains('/'));
    }
    assert forall|k: int| 0 <= k < f implies x[k] != '/' by {
        assert(x[k] == a[k]);
        if a[k] == '/' {
            assert(a.contains('/'));
        }
    }
    crate::text::lemma_first_index_of_unique(x, '/', f);
    lemma_split_pieces_non_empty(x, '/');
    assert forall|k: int| 0 <= k < x.len() - 1 implies !(#[trigger] x[k] == '/' && x[k + 1]
        == '/') by {
        if k < f {
            assert(x[k] == a[k]);
            if a[k] == '/' {
                assert(a.contains('/'));
            }
        } else if k == f {
            assert(x[k + 1] == rest[0]);
        } else {
            assert(x[k] == rest[k - f - 1] && x[k + 1] == rest[k - f]);
        }
    }
}

/// A first segment that does not look like a registry (no `.`, no `:`, not
/// `localhost`) and a plain name parse as a Docker Hub image with that
/// segment as namespace.
pub proof fn lemma_namespace_and_name_parse(a: Seq<char>, n: Seq<char>)
    requires
        is_plain_name(a),
        !a.contains('.'),
        a != "localhost"@,
        is_plain_name(n),
    ensures
        spec_parse(a + seq!['/'] + n) == Ok::<_, ReferenceFault>(
            ImageRefView { registry: "docker.io"@, namespace: a, name: n, tag: None, digest: None },
        ),
{
    let x = a + seq!['/'] + n;
    let f = a.len() as int;
    lemma_path_is_cut(x, a, n);
    assert forall|k: int| f < k < x.len() implies x[k] != '/' by {
        assert(x[k] == n[k - f - 1]);
        if n[k - f - 1] == '/' {
            assert(n.contains('/'));
        }
    }
    crate::text::lemma_last_index_of_unique(x, '/', f);
    lemma_split_shape(x, '/');
    assert(x.take(f) =~= a);
    assert(x.skip(f + 1) =~= n);
}

/// A registry host, a namespace segment and a plain name parse to that
/// registry, namespace and name.
pub proof fn lemma_registry_namespace_and_name_parse(r: Seq<char>, m: Seq<char>, n: Seq<char>)
    requires
        is_registry_host(r),
        is_plain_name(m),
        is_plain_name(n),
    ensures
        spec_parse(r + seq!['/'] + m + seq!['/'] + n) == Ok::<_, ReferenceFault>(
            ImageRefView { registry: r, namespace: m, name: n, tag: None, digest: None },
        ),
{
    lemma_segments_after_first_parse(r, m, n);
}

/// A first segment that does not look like a registry, a namespace segment
/// and a plain name parse as a Docker Hub image whose namespace is the
/// first two segments.
pub proof fn lemma_two_namespace_segments_parse(a: Seq<char>, m: Seq<char>, n: Seq<char>)
    requires
        is_plain_name(a),
        !a.contains('.'),
        a != "localhost"@,
        is_plain_name(m),
        is_plain_name(n),
    ensures
        spec_parse(a + seq!['/'] + m + seq!['/'] + n) == Ok::<_, ReferenceFault>(
            ImageRefView {
                registry: "docker.io"@,
                namespace: a + seq!['/'] + m,
                name: n,
                tag: None,
                digest: None,
            },
        ),
{
    lemma_segments_after_first_parse(a, m, n);
}

proof fn lemma_segments_after_first_parse(a: Seq<char>, m: Seq<char>, n: Seq<char>)
    requires
        is_first_segment(a),
        is_plain_name(m),
        is_plain_name(n),
    ensures
        ({
            let x = a + seq!['/'] + m + seq!['/'] + n;
            let located = crate::parser::locate(split(x, '/'));
            &&& spec_parse(x) == Ok::<_, ReferenceFault>(
                ImageRefView {
                    registry: located.0,
                    namespace: located.1,
                    name: located.2,
                    tag: None,
                    digest: None,
                },
            )
            &&& crate::parser::looks_like_registry(a) ==> located == (a, m, n)
            &&& !crate::parser::looks_like_registry(a) ==> located == (
                "docker.io"@,
                a + seq!['/'] + m,
                n,
            )
        }),
{
    let slash = seq!['/'];
    let rest = m + slash + n;
    let x = a + slash + m + slash + n;
    assert(x =~= a + slash + rest);
    let f = a.len() as int;
    let l = a.len() + 1 + m.len() as int;
    assert(!slash.contains(':') && !slash.contains('@')) by {
        if slash.contains(':') || slash.contains('@') {
            let k = choose|k: int| 0 <= k < slash.len() && (slash[k] == ':' || slash[k] == '@');
        }
    }
    lemma_concat_lacks(m, slash, ':');
    lemma_concat_lacks(m + slash, n, ':');
    lemma_concat_lacks(m, slash, '@');
    lemma_concat_lacks(m + slash, n, '@');
    assert(rest[0] == m[0]);
    assert(rest.last() == n.last());
    assert(m[0] != '/' && n.last() != '/' && m.last() != '/' && n[0] != '/') by {
        if m[0] == '/' || m.last() == '/' {
            assert(m.contains('/'));
        }
        if n[0] == '/' || n.last() == '/' {
            assert(n.contains('/'));
        }
    }
    assert forall|k: int| 0 <= k < rest.len() - 1 implies !(#[trigger] rest[k] == '/' && rest[k
        + 1] == '/') by {
        if k < m.len() - 1 {
            assert(rest[k] == m[k]);
            if m[k] == '/' {
                assert(m.contains('/'));
            }
        } else if k == m.len() - 1 {
            assert(rest[k] == m.last());
        } else {
            assert(rest[k + 1] == n[k + 1 - m.len() - 1]);
            if rest[k + 1] == '/' {
                assert(n.contains('/'));
            }
        }
    }
    lemma_path_is_cut(x, a, rest);
    assert(x[l] == '/');
    assert forall|k: int| l < k < x.len() implies x[k] != '/' by {
        assert(x[k] == n[k - l - 1]);
        if n[k - l - 1] == '/' {
            assert(n.contains('/'));
        }
    }
    crate::text::lemma_last_index_of_unique(x, '/', l);
    lemma_split_shape(x, '/');
    assert(x.take(f) =~= a);
    assert(x.skip(l + 1) =~= n);
    assert(x.subrange(f + 1, l) =~= m);
    assert(x.take(l) =~= a + slash + m);
}

/// What is refused, and with which text: white space alone ("empty image
/// reference"), a name ending in `@` ("empty digest") or in `:` ("empty
/// tag"), and a name with a `/` before or after it ("empty path segment").
pub proof fn lemma_refusals(blank: Seq<char>, n: Seq<char>)
    requires
        forall|k: int| 0 <= k < blank.len() ==> is_white_space(#[trigger] blank[k]),
        is_plain_name(n),
    ensures
        spec_parse(blank) == Err::<ImageRefView, _>(ReferenceFault::Empty),
        ReferenceFault::Empty.text() == "empty image reference"@,
        spec_parse(n + seq!['@']) == Err::<ImageRefView, _>(ReferenceFault::EmptyDigest),
        ReferenceFault::EmptyDigest.text() == "empty digest"@,
        spec_parse(n + seq![':']) == Err::<ImageRefView, _>(ReferenceFault::EmptyTag),
        ReferenceFault::EmptyTag.text() == "empty tag"@,
        spec_parse(n + seq!['/']) == Err::<ImageRefView, _>(ReferenceFault::EmptyPathSegment),
        spec_parse(seq!['/'] + n) == Err::<ImageRefView, _>(ReferenceFault::EmptyPathSegment),
        ReferenceFault::EmptyPathSegment.text() == "empty path segment"@,
{
    // white space alone trims to nothing
    crate::text::lemma_trim_start_skip(blank, blank.len() as int);
    assert(blank.skip(blank.len() as int) =~= Seq::<char>::empty());
    assert(crate::text::trim_start(Seq::<char>::empty()) =~= Seq::<char>::empty());
    assert(crate::text::trim_end(Seq::<char>::empty()) =~= Seq::<char>::empty());
    // a trailing `@`
    let xd = n + seq!['@'];
    assert(xd[0] == n[0] && xd.last() == '@');
    lemma_trim_identity(xd);
    crate::text::lemma_last_index_of_unique(xd, '@', n.len() as int);
    assert(xd.skip(n.len() as int + 1) =~= Seq::<char>::empty());
    // a trailing `:`
    let xt = n + seq![':'];
    assert(xt[0] == n[0] && xt.last() == ':');
    lemma_trim_identity(xt);
    lemma_last_index_of(xt, '@');
    assert(!xt.contains('@')) by {
        if xt.contains('@') {
            let k = choose|k: int| 0 <= k < xt.len() && xt[k] == '@';
            assert(n[k] == '@');
            assert(n.contains('@'));
        }
    }
    crate::text::lemma_last_index_of_unique(xt, ':', n.len() as int);
    assert(xt.take(n.len() as int) =~= n);
    assert(xt.skip(n.len() as int + 1) =~= Seq::<char>::empty());
    // a `/` at either end
    let xs = n + seq!['/'];
    let sx = seq!['/'] + n;
    assert(xs[0] == n[0] && xs.last() == '/');
    assert(sx[0] == '/' && sx.last() == n.last());
    lemma_trim_identity(xs);
    lemma_trim_identity(sx);
    assert(!xs.contains('@') && !xs.contains(':')) by {
        if xs.contains('@') || xs.contains(':') {
            let k = choose|k: int| 0 <= k < xs.len() && (xs[k] == '@' || xs[k] == ':');
            assert(n[k] == xs[k]);
            assert(n.contains(xs[k]));
        }
    }
    assert(!sx.contains('@') && !sx.contains(':')) by {
        if sx.contains('@') || sx.contains(':') {
            let k = choose|k: int| 0 <= k < sx.len() && (sx[k] == '@' || sx[k] == ':');
            assert(n[k - 1] == sx[k]);
            assert(n.contains(sx[k]));
        }
    }
    lemma_last_index_of(xs, '@');
    lemma_last_index_of(xs, ':');
    lemma_last_index_of(sx, '@');
    lemma_last_index_of(sx, ':');
    lemma_split_pieces_non_empty(xs, '/');
    lemma_split_pieces_non_empty(sx, '/');
}

/// The Docker Hub registries are `docker.io` and `index.docker.io`, and no
/// other.
pub proof fn lemma_docker_hub_registries(r: Seq<char>)
    ensures
        crate::parser::is_docker_hub_registry(r) <==> (r == "docker.io"@ || r
            == "index.docker.io"@),
{
}

} // verus!
