//! Character-level helpers over `Seq<char>`: Unicode white space and
//! trimming, first/last occurrence of a character, splitting on a separator
//! and joining with it, each with an executable counterpart where the
//! parser needs one.
use vstd::prelude::*;

verus! {

/// The characters with the Unicode `White_Space` property, which is what
/// `char::is_whitespace` and `str::trim` go by.
pub open spec fn is_white_space(c: char) -> bool {
    ||| '\u{9}' <= c <= '\u{d}'
    ||| c == ' '
    ||| c == '\u{85}'
    ||| c == '\u{a0}'
    ||| c == '\u{1680}'
    ||| '\u{2000}' <= c <= '\u{200a}'
    ||| c == '\u{2028}'
    ||| c == '\u{2029}'
    ||| c == '\u{202f}'
    ||| c == '\u{205f}'
    ||| c == '\u{3000}'
}

/// The white space characters are exactly the code points U+0009 to
/// U+000D, U+0020, U+0085, U+00A0, U+1680, U+2000 to U+200A, U+2028,
/// U+2029, U+202F, U+205F and U+3000.
pub proof fn lemma_white_space_code_points(c: char)
    ensures
        is_white_space(c) <==> (9 <= c as u32 <= 13 || c as u32 == 0x20 || c as u32 == 0x85
            || c as u32 == 0xa0 || c as u32 == 0x1680 || 0x2000 <= c as u32 <= 0x200a || c as u32
            == 0x2028 || c as u32 == 0x2029 || c as u32 == 0x202f || c as u32 == 0x205f || c as u32
            == 0x3000),
{
}

/// `s` without its leading white space.
pub open spec fn trim_start(s: Seq<char>) -> Seq<char>
    decreases s.len(),
{
    if s.len() > 0 && is_white_space(s[0]) {
        trim_start(s.drop_first())
    } else {
        s
    }
}

/// `s` without its trailing white space.
pub open spec fn trim_end(s: Seq<char>) -> Seq<char>
    decreases s.len(),
{
    if s.len() > 0 && is_white_space(s.last()) {
        trim_end(s.drop_last())
    } else {
        s
    }
}

/// `s` without leading and trailing white space.
pub open spec fn trim(s: Seq<char>) -> Seq<char> {
    trim_end(trim_start(s))
}

/// Index of the last occurrence of `c` in `s`, or -1 where there is none.
pub open spec fn last_index_of(s: Seq<char>, c: char) -> int
    decreases s.len(),
{
    if s.len() == 0 {
        -1
    } else if s.last() == c {
        s.len() - 1
    } else {
        last_index_of(s.drop_last(), c)
    }
}

/// Index of the first occurrence of `c` in `s`, or -1 where there is none.
pub open spec fn first_index_of(s: Seq<char>, c: char) -> int
    decreases s.len(),
{
    if s.len() == 0 {
        -1
    } else if s[0] == c {
        0
    } else if first_index_of(s.drop_first(), c) < 0 {
        -1
    } else {
        first_index_of(s.drop_first(), c) + 1
    }
}

/// `s` split at the last occurrence of `c` into the part before and the
/// part after it, as `str::rsplit_once` does.
pub open spec fn rsplit_once(s: Seq<char>, c: char) -> Option<(Seq<char>, Seq<char>)> {
    let i = last_index_of(s, c);
    if i < 0 {
        None
    } else {
        Some((s.take(i), s.skip(i + 1)))
    }
}

/// The pieces of `s` between occurrences of `c`, as `str::split` yields
/// them: one more piece than there are occurrences, empty pieces included.
pub open spec fn split(s: Seq<char>, c: char) -> Seq<Seq<char>>
    decreases s.len(),
{
    let i = last_index_of(s, c);
    if i < 0 {
        seq![s]
    } else {
        proof {
            lemma_last_index_of(s, c);
        }
        split(s.take(i), c).push(s.skip(i + 1))
    }
}

/// The pieces joined, with `sep` between each two of them.
pub open spec fn join(parts: Seq<Seq<char>>, sep: char) -> Seq<char>
    decreases parts.len(),
{
    if parts.len() == 0 {
        seq![]
    } else if parts.len() == 1 {
        parts[0]
    } else {
        join(parts.drop_last(), sep) + seq![sep] + parts.last()
    }
}

/// Whether every piece of `split(s, c)` is non-empty, said of `s` itself:
/// it is not empty, does not start or end with `c`, and holds no two `c`
/// side by side.
pub open spec fn no_empty_piece(s: Seq<char>, c: char) -> bool {
    &&& s.len() > 0
    &&& s[0] != c
    &&& s.last() != c
    &&& forall|k: int| 0 <= k < s.len() - 1 ==> !(#[trigger] s[k] == c && s[k + 1] == c)
}

pub proof fn lemma_last_index_of(s: Seq<char>, c: char)
    ensures
        -1 <= last_index_of(s, c) < s.len(),
        last_index_of(s, c) >= 0 ==> s[last_index_of(s, c)] == c,
        forall|j: int| last_index_of(s, c) < j < s.len() ==> s[j] != c,
        last_index_of(s, c) < 0 <==> !s.contains(c),
    decreases s.len(),
{
    if s.len() > 0 && s.last() != c {
        lemma_last_index_of(s.drop_last(), c);
        assert forall|j: int| last_index_of(s, c) < j < s.len() implies s[j] != c by {
            if j < s.len() - 1 {
                assert(s[j] == s.drop_last()[j]);
            }
        }
        if s.contains(c) {
            let k = choose|k: int| 0 <= k < s.len() && s[k] == c;
            assert(s.drop_last()[k] == c);
        }
        if s.drop_last().contains(c) {
            let k = choose|k: int| 0 <= k < s.len() - 1 && s.drop_last()[k] == c;
            assert(s[k] == c);
        }
    } else if s.len() > 0 {
        assert(s[s.len() - 1] == c);
    }
}

pub proof fn lemma_first_index_of(s: Seq<char>, c: char)
    ensures
        -1 <= first_index_of(s, c) < s.len(),
        first_index_of(s, c) >= 0 ==> s[first_index_of(s, c)] == c,
        forall|j: int| 0 <= j < first_index_of(s, c) ==> s[j] != c,
        first_index_of(s, c) < 0 <==> !s.contains(c),
        first_index_of(s, c) < 0 ==> forall|j: int| 0 <= j < s.len() ==> s[j] != c,
    decreases s.len(),
{
    if s.len() > 0 && s[0] != c {
        lemma_first_index_of(s.drop_first(), c);
        if s.contains(c) {
            let k = choose|k: int| 0 <= k < s.len() && s[k] == c;
            assert(s.drop_first()[k - 1] == c);
        }
        if s.drop_first().contains(c) {
            let k = choose|k: int| 0 <= k < s.len() - 1 && s.drop_first()[k] == c;
            assert(s[k + 1] == c);
        }
        assert forall|j: int| 0 <= j < first_index_of(s, c) implies s[j] != c by {
            if j > 0 {
                assert(s[j] == s.drop_first()[j - 1]);
            }
        }
        if first_index_of(s, c) < 0 {
            assert forall|j: int| 0 <= j < s.len() implies s[j] != c by {
                if j > 0 {
                    assert(s[j] == s.drop_first()[j - 1]);
                }
            }
        }
    } else if s.len() > 0 {
        assert(s.contains(c)) by {
            assert(s[0] == c);
        }
    }
}

/// An index `i` that holds `c`, with no `c` after it, is the last index of `c`.
pub proof fn lemma_last_index_of_unique(s: Seq<char>, c: char, i: int)
    requires
        0 <= i < s.len(),
        s[i] == c,
        forall|j: int| i < j < s.len() ==> s[j] != c,
    ensures
        last_index_of(s, c) == i,
{
    lemma_last_index_of(s, c);
}

/// An index `i` that holds `c`, with no `c` before it, is the first index of `c`.
pub proof fn lemma_first_index_of_unique(s: Seq<char>, c: char, i: int)
    requires
        0 <= i < s.len(),
        s[i] == c,
        forall|j: int| 0 <= j < i ==> s[j] != c,
    ensures
        first_index_of(s, c) == i,
{
    lemma_first_index_of(s, c);
    assert(s.contains(c));
}

pub proof fn lemma_split_len(s: Seq<char>, c: char)
    ensures
        split(s, c).len() >= 1,
        split(s, c).len() == 1 <==> !s.contains(c),
    decreases s.len(),
{
    lemma_last_index_of(s, c);
    let i = last_index_of(s, c);
    if i >= 0 {
        lemma_split_len(s.take(i), c);
    }
}

/// What `split` gives where `c` occurs: the pieces of the text before the
/// last `c`, then the text after it.
pub proof fn lemma_split_unfold(s: Seq<char>, c: char)
    requires
        s.contains(c),
    ensures
        split(s, c).drop_last() == split(s.take(last_index_of(s, c)), c),
        split(s, c).last() == s.skip(last_index_of(s, c) + 1),
        split(s, c).len() == split(s.take(last_index_of(s, c)), c).len() + 1,
{
    lemma_last_index_of(s, c);
    let i = last_index_of(s, c);
    assert(split(s, c) == split(s.take(i), c).push(s.skip(i + 1)));
    assert(split(s, c).drop_last() =~= split(s.take(i), c));
}

/// The first piece is the text before the first `c`.
pub proof fn lemma_split_first(s: Seq<char>, c: char)
    ensures
        split(s, c)[0] == (if first_index_of(s, c) < 0 {
            s
        } else {
            s.take(first_index_of(s, c))
        }),
    decreases s.len(),
{
    lemma_last_index_of(s, c);
    lemma_first_index_of(s, c);
    let i = last_index_of(s, c);
    if i >= 0 {
        let a = s.take(i);
        lemma_split_len(a, c);
        lemma_split_first(a, c);
        lemma_first_index_of(a, c);
        assert(split(s, c) == split(a, c).push(s.skip(i + 1)));
        assert(split(s, c)[0] == split(a, c)[0]);
        if first_index_of(a, c) < 0 {
            assert forall|j: int| 0 <= j < i implies s[j] != c by {
                assert(a[j] == s[j]);
            }
            lemma_first_index_of_unique(s, c, i);
            assert(a =~= s.take(first_index_of(s, c)));
        } else {
            let f = first_index_of(a, c);
            assert(a[f] == s[f]);
            assert forall|j: int| 0 <= j < f implies s[j] != c by {
                assert(a[j] == s[j]);
            }
            lemma_first_index_of_unique(s, c, f);
            assert(a.take(f) =~= s.take(f));
        }
    }
}

/// Every piece is non-empty exactly where `no_empty_piece` holds.
pub proof fn lemma_split_pieces_non_empty(s: Seq<char>, c: char)
    ensures
        (forall|k: int| 0 <= k < split(s, c).len() ==> (#[trigger] split(s, c)[k]).len() > 0)
            <==> no_empty_piece(s, c),
    decreases s.len(),
{
    lemma_last_index_of(s, c);
    let i = last_index_of(s, c);
    if i < 0 {
        assert(split(s, c) == seq![s]);
        assert(split(s, c)[0] == s);
        if s.len() > 0 {
            assert(s[0] != c);
            assert(s.last() != c);
            assert forall|k: int| 0 <= k < s.len() - 1 implies !(#[trigger] s[k] == c && s[k + 1]
                == c) by {
                assert(s[k] != c);
            }
        }
    } else {
        let a = s.take(i);
        let b = s.skip(i + 1);
        let parts = split(s, c);
        lemma_split_len(a, c);
        lemma_split_pieces_non_empty(a, c);
        assert(parts == split(a, c).push(b));
        if forall|k: int| 0 <= k < parts.len() ==> (#[trigger] parts[k]).len() > 0 {
            assert forall|k: int| 0 <= k < split(a, c).len() implies (#[trigger] split(a, c)[k]).len()
                > 0 by {
                assert(parts[k] == split(a, c)[k]);
            }
            assert(parts[parts.len() - 1] == b);
            assert(no_empty_piece(a, c));
            assert(s[0] == a[0]);
            assert(i < s.len() - 1);
            assert(s.last() == b.last());
            assert forall|k: int| 0 <= k < s.len() - 1 implies !(#[trigger] s[k] == c && s[k + 1]
                == c) by {
                if k < i - 1 {
                    assert(s[k] == a[k] && s[k + 1] == a[k + 1]);
                } else if k == i - 1 {
                    assert(a.last() == s[k]);
                }
            }
        }
        if no_empty_piece(s, c) {
            assert(i > 0);
            assert(i < s.len() - 1);
            assert(a[0] == s[0]);
            assert(a.last() == s[i - 1]);
            assert forall|k: int| 0 <= k < a.len() - 1 implies !(#[trigger] a[k] == c && a[k + 1]
                == c) by {
                assert(s[k] == a[k] && s[k + 1] == a[k + 1]);
            }
            assert(no_empty_piece(a, c));
            assert forall|k: int| 0 <= k < parts.len() implies (#[trigger] parts[k]).len() > 0 by {
                if k < parts.len() - 1 {
                    assert(parts[k] == split(a, c)[k]);
                }
            }
        }
    }
}

/// Joining the pieces of a split gives the text back.
pub proof fn lemma_join_split(s: Seq<char>, c: char)
    ensures
        join(split(s, c), c) == s,
    decreases s.len(),
{
    lemma_last_index_of(s, c);
    let i = last_index_of(s, c);
    if i >= 0 {
        let a = s.take(i);
        lemma_split_len(a, c);
        lemma_join_split(a, c);
        let parts = split(a, c).push(s.skip(i + 1));
        assert(parts.drop_last() =~= split(a, c));
        assert(join(parts, c) == join(split(a, c), c) + seq![c] + s.skip(i + 1));
        assert(s =~= a + seq![c] + s.skip(i + 1));
    }
}

/// Joining two or more pieces: the first, the separator, then the rest joined.
pub proof fn lemma_join_first(parts: Seq<Seq<char>>, c: char)
    requires
        parts.len() >= 2,
    ensures
        join(parts, c) == parts[0] + seq![c] + join(parts.drop_first(), c),
    decreases parts.len(),
{
    if parts.len() == 2 {
        assert(parts.drop_last().len() == 1);
        assert(parts.drop_first().len() == 1);
        assert(join(parts.drop_last(), c) == parts[0]);
        assert(join(parts.drop_first(), c) == parts[1]);
    } else {
        lemma_join_first(parts.drop_last(), c);
        assert(parts.drop_last().drop_first() =~= parts.drop_first().drop_last());
        assert(parts.drop_first().last() == parts.last());
        assert(parts.drop_last()[0] == parts[0]);
        assert(join(parts.drop_first(), c) == join(parts.drop_first().drop_last(), c) + seq![c]
            + parts.last());
        assert(join(parts, c) == join(parts.drop_last(), c) + seq![c] + parts.last());
        assert((parts[0] + seq![c] + join(parts.drop_last().drop_first(), c)) + seq![c]
            + parts.last() =~= parts[0] + seq![c] + (join(parts.drop_first().drop_last(), c)
            + seq![c] + parts.last()));
    }
}

/// The shape of `split(s, c)` told by the first index `f` and the last
/// index `l` of `c` in `s`.
pub proof fn lemma_split_shape(s: Seq<char>, c: char)
    ensures
        ({
            let parts = split(s, c);
            let f = first_index_of(s, c);
            let l = last_index_of(s, c);
            &&& f < 0 ==> parts == seq![s]
            &&& f >= 0 ==> f <= l && parts.len() >= 2 && parts[0] == s.take(f) && parts.last()
                == s.skip(l + 1)
            &&& f >= 0 && f == l ==> parts.len() == 2
            &&& f >= 0 && f < l ==> parts.len() >= 3 && join(parts.drop_last(), c) == s.take(l)
                && join(parts.subrange(1, parts.len() - 1), c) == s.subrange(f + 1, l)
        }),
{
    let parts = split(s, c);
    let f = first_index_of(s, c);
    let l = last_index_of(s, c);
    lemma_first_index_of(s, c);
    lemma_last_index_of(s, c);
    lemma_split_first(s, c);
    lemma_split_len(s, c);
    if f < 0 {
        assert(parts == seq![s]);
    } else {
        lemma_split_unfold(s, c);
        let a = s.take(l);
        lemma_split_len(a, c);
        if f == l {
            assert(!a.contains(c)) by {
                if a.contains(c) {
                    let k = choose|k: int| 0 <= k < a.len() && a[k] == c;
                    assert(s[k] == c);
                }
            }
        } else {
            assert(a[f] == c);
            assert(a.contains(c));
            let q = split(a, c);
            assert(q == parts.drop_last());
            lemma_join_split(a, c);
            lemma_join_first(q, c);
            lemma_split_first(a, c);
            assert forall|j: int| 0 <= j < f implies a[j] != c by {
                assert(a[j] == s[j]);
            }
            lemma_first_index_of_unique(a, c, f);
            assert(a.take(f) =~= s.take(f));
            assert(parts.subrange(1, parts.len() - 1) =~= q.drop_first());
            let x = join(q.drop_first(), c);
            assert(a == s.take(f) + seq![c] + x);
            assert(x =~= a.skip(f + 1));
            assert(a.skip(f + 1) =~= s.subrange(f + 1, l));
        }
    }
}

// ---------------------------------------------------------------------------
// White space and trimming
// ---------------------------------------------------------------------------
pub proof fn lemma_trim_start_skip(s: Seq<char>, i: int)
    requires
        0 <= i <= s.len(),
        forall|k: int| 0 <= k < i ==> is_white_space(#[trigger] s[k]),
    ensures
        trim_start(s) == trim_start(s.skip(i)),
    decreases i,
{
    if i > 0 {
        assert(is_white_space(s[0]));
        let t = s.drop_first();
        assert forall|k: int| 0 <= k < i - 1 implies is_white_space(#[trigger] t[k]) by {
            assert(t[k] == s[k + 1]);
        }
        lemma_trim_start_skip(t, i - 1);
        assert(t.skip(i - 1) =~= s.skip(i));
    } else {
        assert(s.skip(0) =~= s);
    }
}

pub proof fn lemma_trim_end_take(s: Seq<char>, j: int)
    requires
        0 <= j <= s.len(),
        forall|k: int| j <= k < s.len() ==> is_white_space(#[trigger] s[k]),
    ensures
        trim_end(s) == trim_end(s.take(j)),
    decreases s.len() - j,
{
    if j < s.len() {
        assert(is_white_space(s[s.len() - 1]));
        let t = s.drop_last();
        assert forall|k: int| j <= k < t.len() implies is_white_space(#[trigger] t[k]) by {
            assert(t[k] == s[k]);
        }
        lemma_trim_end_take(t, j);
        assert(t.take(j) =~= s.take(j));
    } else {
        assert(s.take(j) =~= s);
    }
}

proof fn lemma_trim_start_append(a: Seq<char>, b: Seq<char>)
    ensures
        trim_start(a).len() > 0 ==> trim_start(a + b) == trim_start(a) + b,
        trim_start(a).len() == 0 ==> trim_start(a + b) == trim_start(b),
    decreases a.len(),
{
    if a.len() == 0 {
        assert(a + b =~= b);
    } else if is_white_space(a[0]) {
        lemma_trim_start_append(a.drop_first(), b);
        assert((a + b).drop_first() =~= a.drop_first() + b);
    }
}

/// White space around a text does not change what trimming leaves of it.
pub proof fn lemma_trim_surrounded(before: Seq<char>, s: Seq<char>, after: Seq<char>)
    requires
        forall|k: int| 0 <= k < before.len() ==> is_white_space(#[trigger] before[k]),
        forall|k: int| 0 <= k < after.len() ==> is_white_space(#[trigger] after[k]),
    ensures
        trim(before + s + after) == trim(s),
{
    let x = before + s + after;
    assert forall|k: int| 0 <= k < before.len() implies is_white_space(#[trigger] x[k]) by {
        assert(x[k] == before[k]);
    }
    lemma_trim_start_skip(x, before.len() as int);
    assert(x.skip(before.len() as int) =~= s + after);
    lemma_trim_start_append(s, after);
    if trim_start(s).len() > 0 {
        let t = trim_start(s) + after;
        assert forall|k: int| trim_start(s).len() <= k < t.len() implies is_white_space(
            #[trigger] t[k],
        ) by {
            assert(t[k] == after[k - trim_start(s).len()]);
        }
        lemma_trim_end_take(t, trim_start(s).len() as int);
        assert(t.take(trim_start(s).len() as int) =~= trim_start(s));
    } else {
        lemma_trim_start_skip(after, after.len() as int);
        assert(after.skip(after.len() as int) =~= Seq::<char>::empty());
        assert(trim_start(Seq::<char>::empty()) == Seq::<char>::empty());
        assert(trim_start(s) =~= Seq::<char>::empty());
    }
}

/// A trimmed text that is not empty starts and ends with a character that
/// is not white space.
pub proof fn lemma_trim_shape(s: Seq<char>)
    ensures
        trim(s).len() > 0 ==> !is_white_space(trim(s)[0]) && !is_white_space(trim(s).last()),
{
    lemma_trim_start_shape(s);
    let u = trim_start(s);
    lemma_trim_end_shape(u);
    let t = trim_end(u);
    if t.len() > 0 {
        lemma_trim_end_prefix(u);
        assert(t[0] == u[0]);
    }
}

proof fn lemma_trim_start_shape(s: Seq<char>)
    ensures
        trim_start(s).len() > 0 ==> !is_white_space(trim_start(s)[0]),
    decreases s.len(),
{
    if s.len() > 0 && is_white_space(s[0]) {
        lemma_trim_start_shape(s.drop_first());
    }
}

proof fn lemma_trim_end_shape(s: Seq<char>)
    ensures
        trim_end(s).len() > 0 ==> !is_white_space(trim_end(s).last()),
    decreases s.len(),
{
    if s.len() > 0 && is_white_space(s.last()) {
        lemma_trim_end_shape(s.drop_last());
    }
}

proof fn lemma_trim_end_prefix(s: Seq<char>)
    ensures
        trim_end(s).len() <= s.len(),
        trim_end(s) =~= s.take(trim_end(s).len() as int),
    decreases s.len(),
{
    if s.len() > 0 && is_white_space(s.last()) {
        lemma_trim_end_prefix(s.drop_last());
    }
}

/// Whether `c` has the Unicode `White_Space` property.
pub(crate) fn is_white_space_char(c: char) -> (r: bool)
    ensures
        r == is_white_space(c),
{
    ('\u{9}' <= c && c <= '\u{d}') || c == ' ' || c == '\u{85}' || c == '\u{a0}' || c
        == '\u{1680}' || ('\u{2000}' <= c && c <= '\u{200a}') || c == '\u{2028}' || c
        == '\u{2029}' || c == '\u{202f}' || c == '\u{205f}' || c == '\u{3000}'
}

/// Copies the characters of `s` into a vector, one element per `char`.
pub(crate) fn chars_of(s: &str) -> (cs: Vec<char>)
    ensures
        cs@ == s@,
{
    let mut cs: Vec<char> = Vec::new();
    for c in it: s.chars()
        invariant
            cs@ == it.seq().take(it.index() as int),
    {
        cs.push(c);
    }
    cs
}

/// The bounds `(i, j)` of the text that `trim` leaves of `cs`.
pub(crate) fn trim_bounds(cs: &Vec<char>) -> (r: (usize, usize))
    ensures
        r.0 <= r.1 <= cs.len(),
        cs@.subrange(r.0 as int, r.1 as int) == trim(cs@),
{
    let n = cs.len();
    let mut i: usize = 0;
    while i < n && is_white_space_char(cs[i])
        invariant
            i <= n == cs.len(),
            forall|k: int| 0 <= k < i ==> is_white_space(#[trigger] cs@[k]),
        decreases n - i,
    {
        i = i + 1;
    }
    let mut j: usize = n;
    while j > i && is_white_space_char(cs[j - 1])
        invariant
            i <= j <= n == cs.len(),
            forall|k: int| j <= k < n ==> is_white_space(#[trigger] cs@[k]),
        decreases j,
    {
        j = j - 1;
    }
    proof {
        let s = cs@;
        lemma_trim_start_skip(s, i as int);
        let u = s.skip(i as int);
        assert(trim_start(u) == u);
        assert forall|k: int| j - i <= k < u.len() implies is_white_space(#[trigger] u[k]) by {
            assert(u[k] == s[k + i]);
        }
        lemma_trim_end_take(u, j - i);
        let v = u.take(j - i);
        assert(v =~= s.subrange(i as int, j as int));
        if v.len() > 0 {
            assert(v.last() == s[j - 1]);
        }
        assert(trim_end(v) == v);
    }
    (i, j)
}

/// The index of the last `c` in `cs[lo..hi]`, as an index into `cs`.
pub(crate) fn rfind(cs: &Vec<char>, c: char, lo: usize, hi: usize) -> (r: Option<usize>)
    requires
        lo <= hi <= cs.len(),
    ensures
        match r {
            Some(i) => lo <= i < hi && i - lo == last_index_of(cs@.subrange(lo as int, hi as int), c),
            None => last_index_of(cs@.subrange(lo as int, hi as int), c) < 0,
        },
{
    let ghost sub = cs@.subrange(lo as int, hi as int);
    let mut k: usize = hi;
    while k > lo
        invariant
            lo <= k <= hi <= cs.len(),
            sub == cs@.subrange(lo as int, hi as int),
            forall|j: int| k <= j < hi ==> cs@[j] != c,
        decreases k,
    {
        if cs[k - 1] == c {
            proof {
                assert forall|j: int| k - 1 - lo < j < sub.len() implies sub[j] != c by {
                    assert(sub[j] == cs@[j + lo]);
                }
                lemma_last_index_of_unique(sub, c, k - 1 - lo);
            }
            return Some(k - 1);
        }
        k = k - 1;
    }
    proof {
        lemma_last_index_of(sub, c);
        if sub.contains(c) {
            let j = choose|j: int| 0 <= j < sub.len() && sub[j] == c;
            assert(cs@[j + lo] == c);
        }
    }
    None
}

/// The index of the first `c` in `cs[lo..hi]`, as an index into `cs`.
pub(crate) fn find(cs: &Vec<char>, c: char, lo: usize, hi: usize) -> (r: Option<usize>)
    requires
        lo <= hi <= cs.len(),
    ensures
        match r {
            Some(i) => lo <= i < hi && i - lo == first_index_of(cs@.subrange(lo as int, hi as int), c),
            None => first_index_of(cs@.subrange(lo as int, hi as int), c) < 0,
        },
{
    let ghost sub = cs@.subrange(lo as int, hi as int);
    let mut k: usize = lo;
    while k < hi
        invariant
            lo <= k <= hi <= cs.len(),
            sub == cs@.subrange(lo as int, hi as int),
            forall|j: int| lo <= j < k ==> cs@[j] != c,
        decreases hi - k,
    {
        if cs[k] == c {
            proof {
                assert forall|j: int| 0 <= j < k - lo implies sub[j] != c by {
                    assert(sub[j] == cs@[j + lo]);
                }
                lemma_first_index_of_unique(sub, c, k - lo);
            }
            return Some(k);
        }
        k = k + 1;
    }
    proof {
        lemma_first_index_of(sub, c);
        if sub.contains(c) {
            let j = choose|j: int| 0 <= j < sub.len() && sub[j] == c;
            assert(cs@[j + lo] == c);
        }
    }
    None
}

/// Whether `c` occurs in `cs[lo..hi]`.
pub(crate) fn contains_char(cs: &Vec<char>, c: char, lo: usize, hi: usize) -> (r: bool)
    requires
        lo <= hi <= cs.len(),
    ensures
        r == cs@.subrange(lo as int, hi as int).contains(c),
{
    let f = find(cs, c, lo, hi);
    proof {
        lemma_first_index_of(cs@.subrange(lo as int, hi as int), c);
    }
    f.is_some()
}

/// Whether every piece of `split(cs[lo..hi], c)` is non-empty.
pub(crate) fn pieces_non_empty(cs: &Vec<char>, c: char, lo: usize, hi: usize) -> (r: bool)
    requires
        lo <= hi <= cs.len(),
    ensures
        r == no_empty_piece(cs@.subrange(lo as int, hi as int), c),
{
    let ghost sub = cs@.subrange(lo as int, hi as int);
    if lo == hi || cs[lo] == c || cs[hi - 1] == c {
        return false;
    }
    let mut k: usize = lo;
    while k + 1 < hi
        invariant
            lo <= k < hi <= cs.len(),
            sub == cs@.subrange(lo as int, hi as int),
            forall|j: int| lo <= j < k ==> !(#[trigger] cs@[j] == c && cs@[j + 1] == c),
        decreases hi - k,
    {
        if cs[k] == c && cs[k + 1] == c {
            proof {
                assert(sub[k - lo] == c && sub[k - lo + 1] == c);
            }
            return false;
        }
        k = k + 1;
    }
    proof {
        assert forall|j: int| 0 <= j < sub.len() - 1 implies !(#[trigger] sub[j] == c && sub[j + 1]
            == c) by {
            assert(sub[j] == cs@[j + lo] && sub[j + 1] == cs@[j + lo + 1]);
        }
    }
    true
}

/// Whether the two strings hold the same characters.
pub(crate) fn str_eq(a: &str, b: &str) -> (r: bool)
    ensures
        r == (a@ == b@),
{
    let n = a.unicode_len();
    if n != b.unicode_len() {
        return false;
    }
    let mut i: usize = 0;
    while i < n
        invariant
            i <= n == a@.len() == b@.len(),
            forall|k: int| 0 <= k < i ==> a@[k] == b@[k],
        decreases n - i,
    {
        if a.get_char(i) != b.get_char(i) {
            return false;
        }
        i = i + 1;
    }
    proof {
        assert(a@ =~= b@);
    }
    true
}

} // verus!
