//! The short text form of a parsed reference parses back to the same
//! reference, except where that form drops something the parser needs: the
//! `index.docker.io` registry, the registry of a Docker Hub image whose
//! namespace starts like a registry, surrounding white space, or the `/`
//! that tells a tag holding a `/` from a registry port.
use vstd::prelude::*;

use crate::parser::{
    display_path, display_text, display_without_digest, is_docker_hub_registry, locate,
    looks_like_registry, spec_parse, split_digest, split_tag, well_formed, ImageRefView,
};
use crate::text::{
    first_index_of, is_white_space, last_index_of, lemma_first_index_of, lemma_last_index_of,
    lemma_last_index_of_unique, lemma_split_pieces_non_empty, lemma_split_shape, lemma_trim_shape,
    no_empty_piece, split, trim, trim_end, trim_start,
};

verus! {

/// No character `c` in the concatenation of two texts without it.
pub proof fn lemma_concat_lacks(a: Seq<char>, b: Seq<char>, c: char)
    requires
        !a.contains(c),
        !b.contains(c),
    ensures
        !(a + b).contains(c),
{
    if (a + b).contains(c) {
        let k = choose|k: int| 0 <= k < (a + b).len() && (a + b)[k] == c;
        if k < a.len() {
            assert(a[k] == c);
        } else {
            assert(b[k - a.len()] == c);
        }
    }
}

/// No character `c` in a part of a text without it.
pub proof fn lemma_subrange_lacks(s: Seq<char>, a: int, b: int, c: char)
    requires
        0 <= a <= b <= s.len(),
        !s.contains(c),
    ensures
        !s.subrange(a, b).contains(c),
{
    if s.subrange(a, b).contains(c) {
        let k = choose|k: int| 0 <= k < b - a && s.subrange(a, b)[k] == c;
        assert(s[a + k] == c);
    }
}

/// A part of a text whose pieces are non-empty, cut at separators (or at
/// the ends), has non-empty pieces too.
pub proof fn lemma_subrange_no_empty_piece(p: Seq<char>, a: int, b: int, c: char)
    requires
        no_empty_piece(p, c),
        0 <= a < b <= p.len(),
        a == 0 || p[a - 1] == c,
        b == p.len() || p[b] == c,
    ensures
        no_empty_piece(p.subrange(a, b), c),
{
    let s = p.subrange(a, b);
    if a > 0 {
        assert(!(p[a - 1] == c && p[a] == c));
    }
    if b < p.len() {
        assert(!(p[b - 1] == c && p[b] == c));
    }
    assert(s[0] == p[a]);
    assert(s.last() == p[b - 1]);
    assert forall|k: int| 0 <= k < s.len() - 1 implies !(#[trigger] s[k] == c && s[k + 1] == c) by {
        assert(s[k] == p[a + k] && s[k + 1] == p[a + k + 1]);
        assert(!(p[a + k] == c && p[a + k + 1] == c));
    }
}

/// A text with no white space at either end is its own trim.
pub proof fn lemma_trim_identity(s: Seq<char>)
    requires
        s.len() > 0,
        !is_white_space(s[0]),
        !is_white_space(s.last()),
    ensures
        trim(s) == s,
{
    assert(trim_start(s) == s);
    assert(trim_end(s) == s);
}

proof fn lemma_literal_facts()
    ensures
        "library"@.len() > 0,
        no_empty_piece("library"@, '/'),
        !"library"@.contains('/'),
        !"library"@.contains(':'),
        !"library"@.contains('@'),
        "docker.io"@.len() > 0,
        !"docker.io"@.contains('/'),
        !"docker.io"@.contains(':'),
        !"docker.io"@.contains('@'),
        "docker.io"@ != "index.docker.io"@,
        "/"@ =~= seq!['/'],
        ":"@ =~= seq![':'],
        "@"@ =~= seq!['@'],
{
    reveal_strlit("library");
    reveal_strlit("docker.io");
    reveal_strlit("index.docker.io");
    reveal_strlit("/");
    reveal_strlit(":");
    reveal_strlit("@");
    let l = "library"@;
    let d = "docker.io"@;
    assert(l =~= seq!['l', 'i', 'b', 'r', 'a', 'r', 'y']);
    assert(d =~= seq!['d', 'o', 'c', 'k', 'e', 'r', '.', 'i', 'o']);
    assert forall|k: int| 0 <= k < l.len() implies l[k] != '/' && l[k] != ':' && l[k] != '@' by {}
    assert forall|k: int| 0 <= k < d.len() implies d[k] != '/' && d[k] != ':' && d[k] != '@' by {}
    assert(d.len() != "index.docker.io"@.len());
}

/// What the parser's choice of registry, namespace and name keeps, for a
/// path `p` whose pieces are non-empty, told by where its first `/` (`f`)
/// and last `/` (`l`) stand.
proof fn lemma_located_parts(p: Seq<char>)
    requires
        no_empty_piece(p, '/'),
    ensures
        ({
            let located = locate(split(p, '/'));
            let f = first_index_of(p, '/');
            let l = last_index_of(p, '/');
            &&& located.0.len() > 0 && !located.0.contains('/')
            &&& no_empty_piece(located.1, '/')
            &&& located.2.len() > 0 && !located.2.contains('/')
            &&& (!is_docker_hub_registry(located.0) ==> looks_like_registry(located.0))
            &&& (!p.contains('@') ==> !located.0.contains('@') && !located.1.contains('@')
                && !located.2.contains('@'))
            &&& ((forall|k: int| 0 <= k < p.len() && p[k] == ':' ==> 0 <= f && k < f) ==> (
            !located.1.contains(':') && !located.2.contains(':')))
            &&& located.2.len() > 0 && located.2.last() == p.last()
        }),
{
    lemma_literal_facts();
    let parts = split(p, '/');
    let f = first_index_of(p, '/');
    let l = last_index_of(p, '/');
    lemma_split_shape(p, '/');
    lemma_first_index_of(p, '/');
    lemma_last_index_of(p, '/');
    let located = locate(parts);
    let colons_before_f = forall|k: int| 0 <= k < p.len() && p[k] == ':' ==> 0 <= f && k < f;
    if f < 0 {
        assert(parts[0] == p);
        if colons_before_f {
            assert(!p.contains(':'));
        }
    } else {
        assert(f > 0);
        assert(l < p.len() - 1);
        let first = p.take(f);
        let name = p.skip(l + 1);
        assert(first =~= p.subrange(0, f));
        assert(name =~= p.subrange(l + 1, p.len() as int));
        lemma_subrange_no_empty_piece(p, 0, f, '/');
        lemma_subrange_no_empty_piece(p, l + 1, p.len() as int, '/');
        assert(!first.contains('/')) by {
            if first.contains('/') {
                let k = choose|k: int| 0 <= k < first.len() && first[k] == '/';
                assert(p[k] == '/');
            }
        }
        assert(!name.contains('/')) by {
            if name.contains('/') {
                let k = choose|k: int| 0 <= k < name.len() && name[k] == '/';
                assert(p[l + 1 + k] == '/');
            }
        }
        assert(name.last() == p.last());
        if !p.contains('@') {
            lemma_subrange_lacks(p, 0, f, '@');
            lemma_subrange_lacks(p, l + 1, p.len() as int, '@');
            if f < l {
                lemma_subrange_lacks(p, f + 1, l, '@');
                lemma_subrange_lacks(p, 0, l, '@');
                assert(p.take(l) =~= p.subrange(0, l));
            }
        }
        if colons_before_f {
            assert(!name.contains(':')) by {
                if name.contains(':') {
                    let k = choose|k: int| 0 <= k < name.len() && name[k] == ':';
                    assert(p[l + 1 + k] == ':');
                }
            }
            if f < l {
                let middle = p.subrange(f + 1, l);
                assert(!middle.contains(':')) by {
                    if middle.contains(':') {
                        let k = choose|k: int| 0 <= k < middle.len() && middle[k] == ':';
                        assert(p[f + 1 + k] == ':');
                    }
                }
            }
            if !looks_like_registry(first) {
                assert(!p.contains(':')) by {
                    if p.contains(':') {
                        let k = choose|k: int| 0 <= k < p.len() && p[k] == ':';
                        assert(first[k] == ':');
                    }
                }
                if f < l {
                    lemma_subrange_lacks(p, 0, l, ':');
                    assert(p.take(l) =~= p.subrange(0, l));
                }
            }
        }
        if f < l {
            assert(f + 1 < l) by {
                if f + 1 == l {
                    assert(p[f] == '/' && p[f + 1] == '/');
                }
            }
            lemma_subrange_no_empty_piece(p, f + 1, l, '/');
            lemma_subrange_no_empty_piece(p, 0, l, '/');
            assert(p.take(l) =~= p.subrange(0, l));
        }
    }
}

/// What a parsed reference keeps beyond [`well_formed`], as the parser
/// leaves it: the namespace has non-empty `/`-separated pieces; a tag holds
/// no `:`; without a digest nothing holds an `@`; without a tag namespace
/// and name hold no `:`; a registry other than Docker Hub's looks like one;
/// and the short text form does not end in white space.
pub open spec fn parsed_facts(v: ImageRefView) -> bool {
    &&& well_formed(v)
    &&& no_empty_piece(v.namespace, '/')
    &&& (v.tag matches Some(t) ==> !t.contains(':'))
    &&& (v.digest is None ==> {
        &&& !v.registry.contains('@')
        &&& !v.namespace.contains('@')
        &&& !v.name.contains('@')
        &&& (v.tag matches Some(t) ==> !t.contains('@'))
    })
    &&& (v.tag is None ==> !v.namespace.contains(':') && !v.name.contains(':'))
    &&& (!is_docker_hub_registry(v.registry) ==> looks_like_registry(v.registry))
    &&& !is_white_space(display_text(v).last())
}

pub proof fn lemma_parsed_facts(image: Seq<char>)
    requires
        spec_parse(image) is Ok,
    ensures
        parsed_facts(spec_parse(image)->Ok_0),
{
    crate::parser::lemma_parsed_reference_well_formed(image);
    let v = spec_parse(image)->Ok_0;
    let input = trim(image);
    lemma_trim_shape(image);
    lemma_last_index_of(input, '@');
    let at = last_index_of(input, '@');
    let w = split_digest(input)->Ok_0.0;
    if at >= 0 {
        let d = input.skip(at + 1);
        assert(v.digest == Some(d));
        assert(w == input.take(at));
        assert(!d.contains('@')) by {
            if d.contains('@') {
                let k = choose|k: int| 0 <= k < d.len() && d[k] == '@';
                assert(input[at + 1 + k] == '@');
            }
        }
        assert(d.last() == input.last());
    } else {
        assert(w == input);
        assert(v.digest is None);
    }
    assert(w =~= input.subrange(0, w.len() as int));
    lemma_last_index_of(w, ':');
    let j = last_index_of(w, ':');
    let p = split_tag(w)->Ok_0.0;
    let parts = split(p, '/');
    lemma_split_pieces_non_empty(p, '/');
    assert forall|k: int| 0 <= k < parts.len() implies (#[trigger] parts[k]).len() > 0 by {
        if parts[k].len() == 0 {
            assert(exists|i: int| 0 <= i < parts.len() && (#[trigger] parts[i]).len() == 0);
        }
    }
    if v.tag is Some {
        let t = w.skip(j + 1);
        assert(j >= 0);
        assert(v.tag == Some(t));
        assert(p == w.take(j));
        assert(!t.contains(':')) by {
            if t.contains(':') {
                let k = choose|k: int| 0 <= k < t.len() && t[k] == ':';
                assert(w[j + 1 + k] == ':');
            }
        }
        if v.digest is None {
            lemma_subrange_lacks(input, j + 1, input.len() as int, '@');
            assert(t =~= input.subrange(j + 1, input.len() as int));
        }
        assert(t.last() == w.last());
        assert(p =~= input.subrange(0, j));
        if v.digest is None {
            lemma_subrange_lacks(input, 0, j, '@');
        }
    } else {
        assert(p == w);
        if v.digest is None {
            lemma_subrange_lacks(input, 0, w.len() as int, '@');
        }
        lemma_first_index_of(p, '/');
        if j >= 0 {
            let before = w.take(j);
            let after = w.skip(j + 1);
            assert(!before.contains('/') && after.contains('/'));
            let k = choose|k: int| 0 <= k < after.len() && after[k] == '/';
            assert(p[j + 1 + k] == '/');
            assert(p.contains('/'));
            let f = first_index_of(p, '/');
            assert(f > j) by {
                if f <= j {
                    assert(before[f] == '/');
                }
            }
            assert forall|k: int| 0 <= k < p.len() && p[k] == ':' implies 0 <= first_index_of(
                p,
                '/',
            ) && k < first_index_of(p, '/') by {
                assert(k <= j);
            }
        } else {
            assert forall|k: int| 0 <= k < p.len() && p[k] == ':' implies 0 <= first_index_of(
                p,
                '/',
            ) && k < first_index_of(p, '/') by {
                assert(w[k] == ':');
            }
        }
    }
    lemma_located_parts(p);
}

/// Where the short text form parses back: not for `index.docker.io`
/// (dropped for `docker.io`), not where the text starts with white space,
/// not for an official Docker Hub image whose tag holds a `/` (read back as
/// a registry port), and not for another Docker Hub image whose namespace
/// starts with a piece that looks like a registry.
pub open spec fn display_round_trips(v: ImageRefView) -> bool {
    &&& v.registry != "index.docker.io"@
    &&& !is_white_space(display_text(v)[0])
    &&& (v.registry == "docker.io"@ && v.namespace == "library"@ ==> !(v.tag matches Some(t)
        && t.contains('/')))
    &&& (v.registry == "docker.io"@ && v.namespace != "library"@ ==> !looks_like_registry(
        split(v.namespace, '/')[0],
    ))
}

/// The path of the short text form splits back into the same registry,
/// namespace and name.
proof fn lemma_display_path_parses(v: ImageRefView)
    requires
        parsed_facts(v),
        display_round_trips(v),
    ensures
        ({
            let path = display_path(v);
            &&& path.len() > 0
            &&& no_empty_piece(path, '/')
            &&& locate(split(path, '/')) == (v.registry, v.namespace, v.name)
            &&& (v.digest is None ==> !path.contains('@'))
            &&& ((v.tag matches Some(t) && t.contains('/')) ==> path.contains('/'))
            &&& (v.tag is None ==> split_tag(path) == Ok::<_, crate::parser::ReferenceFault>(
                (path, None::<Seq<char>>),
            ))
        }),
{
    lemma_literal_facts();
    let path = display_path(v);
    let r = v.registry;
    let ns = v.namespace;
    let n = v.name;
    let slash = seq!['/'];
    assert(!slash.contains('@')) by {
        if slash.contains('@') {
            let k = choose|k: int| 0 <= k < slash.len() && slash[k] == '@';
        }
    }
    assert(!slash.contains(':')) by {
        if slash.contains(':') {
            let k = choose|k: int| 0 <= k < slash.len() && slash[k] == ':';
        }
    }
    lemma_split_pieces_non_empty(path, '/');
    lemma_split_shape(path, '/');
    lemma_first_index_of(path, '/');
    lemma_last_index_of(path, '/');
    lemma_last_index_of(path, ':');
    if !is_docker_hub_registry(r) {
        assert(path == r + slash + ns + slash + n);
        let f = r.len() as int;
        let l = r.len() + 1 + ns.len() as int;
        assert(path[f] == '/');
        assert(path[l] == '/');
        assert forall|j: int| 0 <= j < f implies path[j] != '/' by {
            assert(path[j] == r[j]);
        }
        assert forall|j: int| l < j < path.len() implies path[j] != '/' by {
            assert(path[j] == n[j - l - 1]);
        }
        crate::text::lemma_first_index_of_unique(path, '/', f);
        lemma_last_index_of_unique(path, '/', l);
        assert forall|k: int| 0 <= k < path.len() - 1 implies !(#[trigger] path[k] == '/' && path[k
            + 1] == '/') by {
            if k < f {
                assert(path[k] == r[k]);
            } else if k == f {
                assert(path[k + 1] == ns[0]);
            } else if k < l - 1 {
                assert(path[k] == ns[k - f - 1] && path[k + 1] == ns[k - f]);
            } else if k == l - 1 {
                assert(path[k] == ns.last());
            } else {
                assert(path[k + 1] == n[k - l]);
            }
        }
        assert(path.take(f) =~= r);
        assert(path.subrange(f + 1, l) =~= ns);
        assert(path.skip(l + 1) =~= n);
        if v.digest is None {
            lemma_concat_lacks(r, slash, '@');
            lemma_concat_lacks(r + slash, ns, '@');
            lemma_concat_lacks(r + slash + ns, slash, '@');
            lemma_concat_lacks(r + slash + ns + slash, n, '@');
        }
        if v.tag is None {
            let j = last_index_of(path, ':');
            assert forall|k: int| 0 <= k < path.len() && path[k] == ':' implies k < f by {
                if f < k < l {
                    assert(path[k] == ns[k - f - 1]);
                    assert(ns.contains(':'));
                } else if k > l {
                    assert(path[k] == n[k - l - 1]);
                    assert(n.contains(':'));
                }
            }
            if j >= 0 {
                let before = path.take(j);
                let after = path.skip(j + 1);
                assert(!before.contains('/')) by {
                    if before.contains('/') {
                        let k = choose|k: int| 0 <= k < before.len() && before[k] == '/';
                        assert(path[k] == '/');
                    }
                }
                assert(after[f - j - 1] == '/');
            }
        }
    } else if ns == "library"@ {
        assert(path == n);
        assert(!path.contains('/'));
        assert(first_index_of(path, '/') < 0);
        if v.tag is None {
            assert(last_index_of(path, ':') < 0);
        }
    } else {
        assert(path == ns + slash + n);
        let l = ns.len() as int;
        assert(path[l] == '/');
        assert forall|j: int| l < j < path.len() implies path[j] != '/' by {
            assert(path[j] == n[j - l - 1]);
        }
        lemma_last_index_of_unique(path, '/', l);
        crate::text::lemma_split_first(ns, '/');
        lemma_first_index_of(ns, '/');
        let fns = first_index_of(ns, '/');
        if fns >= 0 {
            assert(ns[fns] == path[fns]);
            assert forall|j: int| 0 <= j < fns implies path[j] != '/' by {
                assert(path[j] == ns[j]);
            }
            crate::text::lemma_first_index_of_unique(path, '/', fns);
            assert(path.take(fns) =~= ns.take(fns));
        } else {
            assert forall|j: int| 0 <= j < l implies path[j] != '/' by {
                assert(path[j] == ns[j]);
            }
            crate::text::lemma_first_index_of_unique(path, '/', l);
            assert(path.take(l) =~= ns);
            assert(split(ns, '/')[0] == ns);
        }
        assert forall|k: int| 0 <= k < path.len() - 1 implies !(#[trigger] path[k] == '/' && path[k
            + 1] == '/') by {
            if k < l - 1 {
                assert(path[k] == ns[k] && path[k + 1] == ns[k + 1]);
            } else if k == l - 1 {
                assert(path[k] == ns.last());
            } else {
                assert(path[k + 1] == n[k - l]);
            }
        }
        assert(path.take(l) =~= ns);
        assert(path.skip(l + 1) =~= n);
        if v.digest is None {
            lemma_concat_lacks(ns, slash, '@');
            lemma_concat_lacks(ns + slash, n, '@');
        }
        if v.tag is None {
            lemma_concat_lacks(ns, slash, ':');
            lemma_concat_lacks(ns + slash, n, ':');
        }
    }
}

/// Parsing the short text form of a reference gives the reference back.
proof fn lemma_parse_display(v: ImageRefView)
    requires
        parsed_facts(v),
        display_round_trips(v),
    ensures
        spec_parse(display_text(v)) == Ok::<_, crate::parser::ReferenceFault>(v),
{
    lemma_literal_facts();
    lemma_display_path_parses(v);
    let path = display_path(v);
    let wt = display_without_digest(v);
    let text = display_text(v);
    let colon = seq![':'];
    let at = seq!['@'];
    assert(!colon.contains('@')) by {
        if colon.contains('@') {
            let k = choose|k: int| 0 <= k < colon.len() && colon[k] == '@';
        }
    }
    assert(text[0] == path[0]);
    lemma_trim_identity(text);
    // the digest
    lemma_last_index_of(text, '@');
    match v.digest {
        Some(d) => {
            assert(text == wt + at + d);
            assert(text[wt.len() as int] == '@');
            assert forall|j: int| wt.len() < j < text.len() implies text[j] != '@' by {
                assert(text[j] == d[j - wt.len() - 1]);
            }
            lemma_last_index_of_unique(text, '@', wt.len() as int);
            assert(text.take(wt.len() as int) =~= wt);
            assert(text.skip(wt.len() as int + 1) =~= d);
        },
        None => {
            assert(text == wt);
            match v.tag {
                Some(t) => {
                    lemma_concat_lacks(path, colon, '@');
                    lemma_concat_lacks(path + colon, t, '@');
                },
                None => {},
            }
        },
    }
    assert(split_digest(text) == Ok::<_, crate::parser::ReferenceFault>((wt, v.digest)));
    // the tag
    match v.tag {
        Some(t) => {
            assert(wt == path + colon + t);
            assert(wt[path.len() as int] == ':');
            assert forall|j: int| path.len() < j < wt.len() implies wt[j] != ':' by {
                assert(wt[j] == t[j - path.len() - 1]);
            }
            lemma_last_index_of_unique(wt, ':', path.len() as int);
            assert(wt.take(path.len() as int) =~= path);
            assert(wt.skip(path.len() as int + 1) =~= t);
            assert(split_tag(wt) == Ok::<_, crate::parser::ReferenceFault>((path, v.tag)));
        },
        None => {
            assert(wt == path);
        },
    }
    // the path
    let parts = split(path, '/');
    lemma_split_pieces_non_empty(path, '/');
    assert(!(exists|i: int| 0 <= i < parts.len() && (#[trigger] parts[i]).len() == 0));
}

/// Parsing the text form of a parsed reference gives the same reference
/// back, wherever that text form keeps what the parser reads (see
/// [`display_round_trips`]).
pub proof fn lemma_display_round_trip(image: Seq<char>)
    requires
        spec_parse(image) is Ok,
        display_round_trips(spec_parse(image)->Ok_0),
    ensures
        spec_parse(display_text(spec_parse(image)->Ok_0)) == spec_parse(image),
{
    lemma_parsed_facts(image);
    lemma_parse_display(spec_parse(image)->Ok_0);
}

} // verus!
