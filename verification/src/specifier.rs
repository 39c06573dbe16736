//! Module specifier handling: splitting off the `scheme://authority` prefix,
//! normalising `.` / `..` path segments, and resolving relative imports
//! against the importing module's specifier.
use vstd::prelude::*;
use crate::text::{chars_of, extend_range, has_prefix, string_from_chars, extend_chars, starts_with_chars, same_chars};

verus! {

// ---------------------------------------------------------------------------
// Searching in character sequences
// ---------------------------------------------------------------------------

/// `pat` occurs in `s` starting at index `i`.
pub open spec fn matches_at(s: Seq<char>, pat: Seq<char>, i: int) -> bool {
    &&& 0 <= i
    &&& i + pat.len() <= s.len()
    &&& s.subrange(i, i + pat.len()) =~= pat
}

/// `i` is the leftmost index at which `pat` occurs in `s`.
pub open spec fn is_first_match(s: Seq<char>, pat: Seq<char>, i: int) -> bool {
    &&& matches_at(s, pat, i)
    &&& forall|j: int| 0 <= j < i ==> !matches_at(s, pat, j)
}

/// The leftmost index at which `pat` occurs in `s` (what `str::find` returns).
pub open spec fn first_match(s: Seq<char>, pat: Seq<char>) -> Option<int> {
    if exists|i: int| is_first_match(s, pat, i) {
        Some(choose|i: int| is_first_match(s, pat, i))
    } else {
        None
    }
}

/// `i` is the leftmost position of `c` in `s`.
pub open spec fn is_first_index_of(s: Seq<char>, c: char, i: int) -> bool {
    &&& 0 <= i < s.len()
    &&& s[i] == c
    &&& forall|j: int| 0 <= j < i ==> s[j] != c
}

/// The leftmost position of `c` in `s`, if any.
pub open spec fn first_index_of(s: Seq<char>, c: char) -> Option<int> {
    if exists|i: int| is_first_index_of(s, c, i) {
        Some(choose|i: int| is_first_index_of(s, c, i))
    } else {
        None
    }
}

/// `i` is the rightmost position of `c` in `s`.
pub open spec fn is_last_index_of(s: Seq<char>, c: char, i: int) -> bool {
    &&& 0 <= i < s.len()
    &&& s[i] == c
    &&& forall|j: int| i < j < s.len() ==> s[j] != c
}

/// The rightmost position of `c` in `s` (what `str::rfind` returns).
pub open spec fn last_index_of(s: Seq<char>, c: char) -> Option<int> {
    if exists|i: int| is_last_index_of(s, c, i) {
        Some(choose|i: int| is_last_index_of(s, c, i))
    } else {
        None
    }
}

/// Whenever `pat` occurs somewhere in `s`, a leftmost occurrence exists, so
/// `first_match` is `None` exactly when `pat` does not occur at all.
pub proof fn lemma_first_match_exists(s: Seq<char>, pat: Seq<char>, i: int)
    requires
        matches_at(s, pat, i),
    ensures
        exists|k: int| is_first_match(s, pat, k),
    decreases i,
{
    if forall|j: int| 0 <= j < i ==> !matches_at(s, pat, j) {
        assert(is_first_match(s, pat, i));
    } else {
        let j = choose|j: int| 0 <= j < i && matches_at(s, pat, j);
        lemma_first_match_exists(s, pat, j);
    }
}

/// The separator between scheme and authority.
pub open spec fn scheme_separator() -> Seq<char> {
    seq![':', '/', '/']
}

// ---------------------------------------------------------------------------
// Specifier prefix
// ---------------------------------------------------------------------------

/// Splits a specifier into its `scheme://authority` prefix and its path.
///
/// Without `://` the prefix is empty and the whole specifier is the path.
/// With `://`, the path starts at the first `/` after the authority; when the
/// authority is not followed by any `/`, the whole specifier is the prefix.
pub open spec fn spec_split_specifier_prefix(s: Seq<char>) -> (Seq<char>, Seq<char>) {
    match first_match(s, scheme_separator()) {
        None => (Seq::empty(), s),
        Some(k) => {
            let authority_start = k + 3;
            match first_index_of(s.skip(authority_start), '/') {
                Some(p) => (s.take(authority_start + p), s.skip(authority_start + p)),
                None => (s, Seq::empty()),
            }
        },
    }
}

/// The prefix and the path of a specifier, put back together, give the
/// specifier.
pub proof fn law_split_prefix_reassembles(s: Seq<char>)
    ensures
        spec_split_specifier_prefix(s).0 + spec_split_specifier_prefix(s).1 == s,
{
    match first_match(s, scheme_separator()) {
        None => {
            assert(Seq::<char>::empty() + s =~= s);
        },
        Some(k) => {
            let a = k + 3;
            match first_index_of(s.skip(a), '/') {
                Some(p) => {
                    assert(s.take(a + p) + s.skip(a + p) =~= s);
                },
                None => {
                    assert(s + Seq::<char>::empty() =~= s);
                },
            }
        },
    }
}

/// Leftmost occurrence of `://` in `cs`.
fn find_scheme_separator(cs: &Vec<char>) -> (r: Option<usize>)
    ensures
        match r {
            Some(k) => is_first_match(cs@, scheme_separator(), k as int),
            None => forall|j: int| !matches_at(cs@, scheme_separator(), j),
        },
{
    let n = cs.len();
    if n < 3 {
        return None;
    }
    let mut i: usize = 0;
    while i <= n - 3
        invariant
            n == cs@.len(),
            3 <= n,
            i + 3 <= n + 1,
            forall|j: int| 0 <= j < i ==> !matches_at(cs@, scheme_separator(), j),
        decreases n - i,
    {
        if cs[i] == ':' && cs[i + 1] == '/' && cs[i + 2] == '/' {
            assert(cs@.subrange(i as int, i + 3) =~= scheme_separator());
            return Some(i);
        }
        assert(!matches_at(cs@, scheme_separator(), i as int)) by {
            if matches_at(cs@, scheme_separator(), i as int) {
                let sub = cs@.subrange(i as int, i + 3);
                assert(sub[0] == cs@[i as int]);
                assert(sub[1] == cs@[i + 1]);
                assert(sub[2] == cs@[i + 2]);
            }
        }
        i = i + 1;
    }
    None
}

/// Leftmost position of `c` in `cs` at or after `start`.
fn find_char_from(cs: &Vec<char>, c: char, start: usize) -> (r: Option<usize>)
    requires
        start <= cs@.len(),
    ensures
        match r {
            Some(k) => start <= k && is_first_index_of(cs@.skip(start as int), c, k - start),
            None => forall|j: int| start <= j < cs@.len() ==> cs@[j] != c,
        },
{
    let n = cs.len();
    let mut i = start;
    while i < n
        invariant
            n == cs@.len(),
            start <= i <= n,
            forall|j: int| start <= j < i ==> cs@[j] != c,
        decreases n - i,
    {
        if cs[i] == c {
            return Some(i);
        }
        i = i + 1;
    }
    None
}

/// Rightmost position of `c` in `cs` strictly below `end` and at or after `start`.
fn rfind_char_in(cs: &Vec<char>, c: char, start: usize, end: usize) -> (r: Option<usize>)
    requires
        start <= end <= cs@.len(),
    ensures
        match r {
            Some(k) => start <= k < end && cs@[k as int] == c && forall|j: int|
                k < j < end ==> cs@[j] != c,
            None => forall|j: int| start <= j < end ==> cs@[j] != c,
        },
{
    let mut i = end;
    while i > start
        invariant
            start <= i <= end <= cs@.len(),
            forall|j: int| i <= j < end ==> cs@[j] != c,
        decreases i - start,
    {
        if cs[i - 1] == c {
            return Some(i - 1);
        }
        i = i - 1;
    }
    None
}

/// Index in `cs` at which the path part of the specifier begins.
fn prefix_split_point(cs: &Vec<char>) -> (p: usize)
    ensures
        p <= cs@.len(),
        spec_split_specifier_prefix(cs@) == (cs@.take(p as int), cs@.skip(p as int)),
{
    let s = Ghost(cs@);
    let n = cs.len();
    match find_scheme_separator(cs) {
        None => {
            assert(!exists|i: int| is_first_match(s@, scheme_separator(), i));
            assert(cs@.take(0) =~= Seq::<char>::empty());
            assert(cs@.skip(0) =~= cs@);
            0
        },
        Some(k) => {
            assert(first_match(s@, scheme_separator()) == Some(k as int));
            assert(k + 3 <= n);
            let authority_start = k + 3;
            let rest = Ghost(s@.skip(authority_start as int));
            match find_char_from(cs, '/', authority_start) {
                Some(q) => {
                    assert(first_index_of(rest@, '/') == Some(q - authority_start));
                    q
                },
                None => {
                    assert forall|i: int| !is_first_index_of(rest@, '/', i) by {
                        if is_first_index_of(rest@, '/', i) {
                            assert(rest@[i] == cs@[authority_start + i]);
                        }
                    }
                    assert(cs@.take(cs@.len() as int) =~= cs@);
                    assert(cs@.skip(cs@.len() as int) =~= Seq::<char>::empty());
                    n
                },
            }
        },
    }
}

/// Splits a module specifier into its `scheme://authority` prefix and its path.
///
/// `"file:///a/b.mjs"` gives `("file://", "/a/b.mjs")`, `"https://host"` gives
/// `("https://host", "")` and `"./x.js"` gives `("", "./x.js")`.
pub fn split_specifier_prefix(specifier: &str) -> (parts: (&str, &str))
    ensures
        (parts.0@, parts.1@) == spec_split_specifier_prefix(specifier@),
{
    let cs = chars_of(specifier);
    let p = prefix_split_point(&cs);
    let n = cs.len();
    let prefix = specifier.substring_char(0, p);
    let path = specifier.substring_char(p, n);
    assert(specifier@.subrange(0, p as int) =~= cs@.take(p as int));
    assert(specifier@.subrange(p as int, n as int) =~= cs@.skip(p as int));
    (prefix, path)
}


// ---------------------------------------------------------------------------
// Path normalisation
// ---------------------------------------------------------------------------

/// The pieces of `s` between occurrences of `sep`, as `str::split` yields
/// them: `""` gives `[""]`, `"/a"` gives `["", "a"]`, `"a/"` gives `["a", ""]`.
pub open spec fn split_on(s: Seq<char>, sep: char) -> Seq<Seq<char>>
    decreases s.len(),
{
    if s.len() == 0 {
        seq![Seq::empty()]
    } else {
        let init = split_on(s.drop_last(), sep);
        if s.last() == sep {
            init.push(Seq::empty())
        } else {
            init.update(init.len() - 1, init.last().push(s.last()))
        }
    }
}

/// The segment `.`.
pub open spec fn dot_segment() -> Seq<char> {
    seq!['.']
}

/// The segment `..`.
pub open spec fn dot_dot_segment() -> Seq<char> {
    seq!['.', '.']
}

/// Applies one path segment to the stack of kept segments: empty and `.`
/// segments are dropped, `..` removes the last kept segment (if any), any
/// other segment is kept.
pub open spec fn apply_segment(stack: Seq<Seq<char>>, seg: Seq<char>) -> Seq<Seq<char>> {
    if seg.len() == 0 || seg == dot_segment() {
        stack
    } else if seg == dot_dot_segment() {
        if stack.len() == 0 {
            stack
        } else {
            stack.drop_last()
        }
    } else {
        stack.push(seg)
    }
}

/// The segments that remain after applying `segs` in order to an empty stack.
pub open spec fn fold_segments(segs: Seq<Seq<char>>) -> Seq<Seq<char>>
    decreases segs.len(),
{
    if segs.len() == 0 {
        Seq::empty()
    } else {
        apply_segment(fold_segments(segs.drop_last()), segs.last())
    }
}

/// `segs` joined with `sep` between consecutive segments.
pub open spec fn join_segments(segs: Seq<Seq<char>>, sep: char) -> Seq<char>
    decreases segs.len(),
{
    if segs.len() == 0 {
        Seq::empty()
    } else if segs.len() == 1 {
        segs[0]
    } else {
        join_segments(segs.drop_last(), sep).push(sep) + segs.last()
    }
}

/// Whether `path` starts with `/`.
pub open spec fn is_absolute_path(path: Seq<char>) -> bool {
    path.len() > 0 && path[0] == '/'
}

/// `path` with empty and `.` segments removed and each `..` cancelling the
/// segment before it, joined by `/`, with a leading `/` kept for absolute paths.
pub open spec fn spec_normalize_module_path(path: Seq<char>) -> Seq<char> {
    let body = join_segments(fold_segments(split_on(path, '/')), '/');
    if is_absolute_path(path) {
        seq!['/'] + body
    } else {
        body
    }
}

/// `split_on` never yields an empty list.
pub proof fn lemma_split_on_nonempty(s: Seq<char>, sep: char)
    ensures
        split_on(s, sep).len() >= 1,
    decreases s.len(),
{
    if s.len() > 0 {
        lemma_split_on_nonempty(s.drop_last(), sep);
    }
}

/// The character views of a list of character vectors.
pub open spec fn char_views(v: Seq<Vec<char>>) -> Seq<Seq<char>> {
    v.map_values(|x: Vec<char>| x@)
}

/// Applies `seg` to the stack of kept segments.
fn apply_segment_exec(stack: &mut Vec<Vec<char>>, seg: Vec<char>)
    ensures
        char_views(final(stack)@) == apply_segment(char_views(old(stack)@), seg@),
{
    let ghost before = char_views(stack@);
    let dot: [char; 1] = ['.'];
    let dot_dot: [char; 2] = ['.', '.'];
    assert(dot@ =~= dot_segment());
    assert(dot_dot@ =~= dot_dot_segment());
    if seg.len() == 0 || same_chars(seg.as_slice(), &dot) {
    } else if same_chars(seg.as_slice(), &dot_dot) {
        if stack.len() > 0 {
            stack.pop();
            assert(char_views(stack@) =~= before.drop_last());
        }
    } else {
        stack.push(seg);
        assert(char_views(stack@) =~= before.push(seg@));
    }
}

/// Appends the segments `segs`, separated by `sep`, to `out`.
pub(crate) fn join_into(out: &mut Vec<char>, segs: &Vec<Vec<char>>, sep: char)
    ensures
        final(out)@ == old(out)@ + join_segments(char_views(segs@), sep),
{
    let n = segs.len();
    let ghost views = char_views(segs@);
    for i in 0..n
        invariant
            n == segs@.len(),
            views == char_views(segs@),
            out@ == old(out)@ + join_segments(views.take(i as int), sep),
    {
        let ghost mid = out@;
        if i > 0 {
            out.push(sep);
        }
        extend_chars(out, segs[i].as_slice());
        proof {
            let t = views.take(i + 1);
            assert(t.drop_last() =~= views.take(i as int));
            assert(t.last() == segs@[i as int]@);
            if i == 0 {
                assert(join_segments(t, sep) == t[0]);
                assert(join_segments(views.take(0), sep) =~= Seq::<char>::empty());
                assert(old(out)@ + Seq::<char>::empty() =~= old(out)@);
                assert(old(out)@ + t[0] =~= old(out)@ + join_segments(t, sep));
            } else {
                assert(out@ =~= old(out)@ + join_segments(t, sep));
            }
        }
    }
    assert(views.take(n as int) =~= views);
}

/// Characters of the normalised form of the path `cs`.
fn normalize_chars(cs: &Vec<char>) -> (out: Vec<char>)
    ensures
        out@ == spec_normalize_module_path(cs@),
{
    let n = cs.len();
    let mut stack: Vec<Vec<char>> = Vec::new();
    let mut cur: Vec<char> = Vec::new();
    proof {
        assert(cs@.take(0) =~= Seq::<char>::empty());
        assert(split_on(Seq::<char>::empty(), '/') =~= seq![Seq::<char>::empty()]);
        assert(seq![Seq::<char>::empty()].drop_last() =~= Seq::<Seq<char>>::empty());
        assert(char_views(stack@) =~= Seq::<Seq<char>>::empty());
    }
    for i in 0..n
        invariant
            n == cs@.len(),
            split_on(cs@.take(i as int), '/').len() >= 1,
            char_views(stack@) == fold_segments(split_on(cs@.take(i as int), '/').drop_last()),
            cur@ == split_on(cs@.take(i as int), '/').last(),
    {
        let ghost pre = split_on(cs@.take(i as int), '/');
        let ghost next = cs@.take(i + 1);
        proof {
            assert(next.drop_last() =~= cs@.take(i as int));
            assert(next.last() == cs@[i as int]);
        }
        if cs[i] == '/' {
            let mut seg: Vec<char> = Vec::new();
            std::mem::swap(&mut seg, &mut cur);
            apply_segment_exec(&mut stack, seg);
            proof {
                let post = split_on(next, '/');
                assert(post == pre.push(Seq::empty()));
                assert(post.drop_last() =~= pre);
                assert(pre =~= pre.drop_last().push(pre.last()));
                assert(fold_segments(pre) == apply_segment(fold_segments(pre.drop_last()), pre.last()));
                assert(cur@ =~= Seq::<char>::empty());
            }
        } else {
            cur.push(cs[i]);
            proof {
                let post = split_on(next, '/');
                assert(post == pre.update(pre.len() - 1, pre.last().push(cs@[i as int])));
                assert(post.drop_last() =~= pre.drop_last());
            }
        }
    }
    let ghost all = split_on(cs@.take(n as int), '/');
    apply_segment_exec(&mut stack, cur);
    proof {
        assert(cs@.take(n as int) =~= cs@);
        assert(all =~= all.drop_last().push(all.last()));
        assert(fold_segments(all) == apply_segment(fold_segments(all.drop_last()), all.last()));
    }
    let mut out: Vec<char> = Vec::new();
    if n > 0 && cs[0] == '/' {
        out.push('/');
    }
    join_into(&mut out, &stack, '/');
    proof {
        if is_absolute_path(cs@) {
            assert(out@ =~= seq!['/'] + join_segments(char_views(stack@), '/'));
        } else {
            assert(out@ =~= join_segments(char_views(stack@), '/'));
        }
    }
    out
}

/// Removes empty and `.` segments from a module path and resolves `..`
/// segments against the segment before them; a leading `/` is kept.
///
/// `"/a/./b/../c"` gives `"/a/c"`, `"a//b/"` gives `"a/b"`, `"../x"` gives `"x"`.
pub fn normalize_module_path(path: &str) -> (normalized: String)
    ensures
        normalized@ == spec_normalize_module_path(path@),
{
    let cs = chars_of(path);
    let out = normalize_chars(&cs);
    string_from_chars(out.as_slice())
}

// ---------------------------------------------------------------------------
// Laws of path normalisation
// ---------------------------------------------------------------------------

/// `seg` holds no `sep`.
pub open spec fn free_of(seg: Seq<char>, sep: char) -> bool {
    forall|i: int| 0 <= i < seg.len() ==> seg[i] != sep
}

/// A segment that normalisation keeps: not empty, not `.` or `..`, no `/`.
pub open spec fn is_proper_segment(seg: Seq<char>) -> bool {
    &&& seg.len() > 0
    &&& seg != dot_segment()
    &&& seg != dot_dot_segment()
    &&& free_of(seg, '/')
}

/// Every segment of `segs` is proper.
pub open spec fn all_proper(segs: Seq<Seq<char>>) -> bool {
    forall|i: int| 0 <= i < segs.len() ==> is_proper_segment(#[trigger] segs[i])
}

/// The pieces `split_on` yields hold no separator.
proof fn lemma_split_on_free(s: Seq<char>, sep: char)
    ensures
        forall|i: int|
            0 <= i < split_on(s, sep).len() ==> free_of(#[trigger] split_on(s, sep)[i], sep),
    decreases s.len(),
{
    lemma_split_on_nonempty(s, sep);
    if s.len() > 0 {
        lemma_split_on_free(s.drop_last(), sep);
        lemma_split_on_nonempty(s.drop_last(), sep);
        let init = split_on(s.drop_last(), sep);
        if s.last() != sep {
            let lastseg = init.last().push(s.last());
            assert(free_of(lastseg, sep)) by {
                assert(free_of(init[init.len() - 1], sep));
            }
        }
    }
}

/// Applying segments free of `/` to a stack of proper segments leaves only
/// proper segments.
proof fn lemma_fold_proper(segs: Seq<Seq<char>>)
    requires
        forall|i: int| 0 <= i < segs.len() ==> free_of(#[trigger] segs[i], '/'),
    ensures
        all_proper(fold_segments(segs)),
    decreases segs.len(),
{
    if segs.len() > 0 {
        assert forall|i: int| 0 <= i < segs.drop_last().len() implies free_of(
            #[trigger] segs.drop_last()[i],
            '/',
        ) by {
            assert(segs.drop_last()[i] == segs[i]);
        }
        lemma_fold_proper(segs.drop_last());
        let st = fold_segments(segs.drop_last());
        let seg = segs.last();
        assert(free_of(segs[segs.len() - 1], '/'));
        let r = apply_segment(st, seg);
        assert forall|i: int| 0 <= i < r.len() implies is_proper_segment(#[trigger] r[i]) by {
            if seg.len() == 0 || seg == dot_segment() {
            } else if seg == dot_dot_segment() {
                if st.len() > 0 {
                    assert(r[i] == st[i]);
                }
            } else {
                if i < st.len() {
                    assert(r[i] == st[i]);
                }
            }
        }
    }
}

/// Adding characters free of `sep` extends the last piece.
proof fn lemma_split_on_append_free(x: Seq<char>, y: Seq<char>, sep: char)
    requires
        free_of(y, sep),
    ensures
        split_on(x + y, sep) == split_on(x, sep).update(
            split_on(x, sep).len() - 1,
            split_on(x, sep).last() + y,
        ),
    decreases y.len(),
{
    lemma_split_on_nonempty(x, sep);
    let sx = split_on(x, sep);
    if y.len() == 0 {
        assert(x + y =~= x);
        assert(sx.last() + y =~= sx.last());
        assert(sx.update(sx.len() - 1, sx.last()) =~= sx);
    } else {
        let y0 = y.drop_last();
        let c = y.last();
        assert(free_of(y0, sep));
        lemma_split_on_append_free(x, y0, sep);
        assert((x + y).drop_last() =~= x + y0);
        assert((x + y).last() == c);
        assert(y[y.len() - 1] != sep);
        let prev = split_on(x + y0, sep);
        lemma_split_on_nonempty(x + y0, sep);
        assert(prev.last() =~= sx.last() + y0);
        assert((sx.last() + y0).push(c) =~= sx.last() + y);
        assert(split_on(x + y, sep) =~= sx.update(sx.len() - 1, sx.last() + y));
    }
}

/// A separator followed by characters free of it starts a new piece.
proof fn lemma_split_on_sep_then_free(x: Seq<char>, y: Seq<char>, sep: char)
    requires
        free_of(y, sep),
    ensures
        split_on(x.push(sep) + y, sep) == split_on(x, sep).push(y),
{
    lemma_split_on_append_free(x.push(sep), y, sep);
    assert(x.push(sep).drop_last() =~= x);
    let sp = split_on(x.push(sep), sep);
    assert(sp == split_on(x, sep).push(Seq::empty()));
    assert(Seq::<char>::empty() + y =~= y);
    assert(sp.update(sp.len() - 1, sp.last() + y) =~= split_on(x, sep).push(y));
}

/// Splitting proper segments joined by `/` gives them back.
proof fn lemma_split_join(segs: Seq<Seq<char>>)
    requires
        segs.len() > 0,
        all_proper(segs),
    ensures
        split_on(join_segments(segs, '/'), '/') == segs,
    decreases segs.len(),
{
    if segs.len() == 1 {
        assert(free_of(segs[0], '/'));
        lemma_split_on_append_free(Seq::empty(), segs[0], '/');
        assert(Seq::<char>::empty() + segs[0] =~= segs[0]);
        assert(split_on(Seq::<char>::empty(), '/') =~= seq![Seq::<char>::empty()]);
        assert(seq![Seq::<char>::empty()].update(0, Seq::<char>::empty() + segs[0]) =~= segs);
    } else {
        let init = segs.drop_last();
        assert(all_proper(init)) by {
            assert forall|i: int| 0 <= i < init.len() implies is_proper_segment(#[trigger] init[i]) by {
                assert(init[i] == segs[i]);
            }
        }
        lemma_split_join(init);
        assert(free_of(segs[segs.len() - 1], '/'));
        lemma_split_on_sep_then_free(join_segments(init, '/'), segs.last(), '/');
        assert(init.push(segs.last()) =~= segs);
    }
}

/// Splitting `x/` followed by proper segments joined by `/` gives the pieces
/// of `x` followed by the segments.
proof fn lemma_split_prefixed_join(x: Seq<char>, segs: Seq<Seq<char>>)
    requires
        segs.len() > 0,
        all_proper(segs),
    ensures
        split_on(x.push('/') + join_segments(segs, '/'), '/') == split_on(x, '/') + segs,
    decreases segs.len(),
{
    if segs.len() == 1 {
        assert(free_of(segs[0], '/'));
        lemma_split_on_sep_then_free(x, segs[0], '/');
        assert(split_on(x, '/').push(segs[0]) =~= split_on(x, '/') + segs);
    } else {
        let init = segs.drop_last();
        assert(all_proper(init)) by {
            assert forall|i: int| 0 <= i < init.len() implies is_proper_segment(#[trigger] init[i]) by {
                assert(init[i] == segs[i]);
            }
        }
        lemma_split_prefixed_join(x, init);
        assert(free_of(segs[segs.len() - 1], '/'));
        let j = join_segments(init, '/');
        lemma_split_on_sep_then_free(x.push('/') + j, segs.last(), '/');
        assert(x.push('/') + j.push('/') + segs.last() =~= (x.push('/') + j).push('/')
            + segs.last());
        assert(x.push('/') + join_segments(segs, '/') =~= (x.push('/') + j).push('/')
            + segs.last());
        assert((split_on(x, '/') + init).push(segs.last()) =~= split_on(x, '/') + segs);
    }
}

/// Applying proper segments keeps each of them.
proof fn lemma_fold_keeps_proper(pre: Seq<Seq<char>>, segs: Seq<Seq<char>>)
    requires
        all_proper(segs),
    ensures
        fold_segments(pre + segs) == fold_segments(pre) + segs,
    decreases segs.len(),
{
    if segs.len() == 0 {
        assert(pre + segs =~= pre);
        assert(fold_segments(pre) + segs =~= fold_segments(pre));
    } else {
        let init = segs.drop_last();
        assert(all_proper(init)) by {
            assert forall|i: int| 0 <= i < init.len() implies is_proper_segment(#[trigger] init[i]) by {
                assert(init[i] == segs[i]);
            }
        }
        lemma_fold_keeps_proper(pre, init);
        assert((pre + segs).drop_last() =~= pre + init);
        assert((pre + segs).last() == segs.last());
        assert(is_proper_segment(segs[segs.len() - 1]));
        assert((fold_segments(pre) + init).push(segs.last()) =~= fold_segments(pre) + segs);
    }
}

/// The segments a path normalises to, and whether it is absolute.
proof fn lemma_normalized_shape(path: Seq<char>)
    ensures
        all_proper(fold_segments(split_on(path, '/'))),
{
    lemma_split_on_free(path, '/');
    lemma_fold_proper(split_on(path, '/'));
}

/// A normalised path consists of proper segments joined by `/`: no empty,
/// `.` or `..` segment is left, and it is absolute exactly when the input is.
pub proof fn law_normalized_path_is_clean(path: Seq<char>)
    ensures
        ({
            let n = spec_normalize_module_path(path);
            let segs = fold_segments(split_on(path, '/'));
            &&& all_proper(segs)
            &&& n == (if is_absolute_path(path) {
                seq!['/'] + join_segments(segs, '/')
            } else {
                join_segments(segs, '/')
            })
            &&& is_absolute_path(n) == is_absolute_path(path)
        }),
{
    lemma_normalized_shape(path);
    let segs = fold_segments(split_on(path, '/'));
    if !is_absolute_path(path) && segs.len() > 0 {
        lemma_join_starts_with_first(segs);
    }
}

/// Proper segments joined by `/` start with the first segment's first character.
proof fn lemma_join_starts_with_first(segs: Seq<Seq<char>>)
    requires
        segs.len() > 0,
        all_proper(segs),
    ensures
        join_segments(segs, '/').len() > 0,
        join_segments(segs, '/')[0] == segs[0][0],
    decreases segs.len(),
{
    assert(is_proper_segment(segs[0]));
    if segs.len() > 1 {
        let init = segs.drop_last();
        assert(all_proper(init)) by {
            assert forall|i: int| 0 <= i < init.len() implies is_proper_segment(#[trigger] init[i]) by {
                assert(init[i] == segs[i]);
            }
        }
        lemma_join_starts_with_first(init);
        assert(init[0] == segs[0]);
    }
}

/// Empty pieces contribute nothing.
proof fn lemma_fold_empty_pieces()
    ensures
        fold_segments(seq![Seq::<char>::empty()]) == Seq::<Seq<char>>::empty(),
        fold_segments(seq![Seq::<char>::empty(), Seq::<char>::empty()]) == Seq::<
            Seq<char>,
        >::empty(),
{
    let e = Seq::<char>::empty();
    let none = Seq::<Seq<char>>::empty();
    assert(fold_segments(none) == none);
    let one = seq![e];
    assert(one.drop_last() =~= none);
    assert(one.last() == e);
    assert(fold_segments(one) == apply_segment(fold_segments(one.drop_last()), one.last()));
    let two = seq![e, e];
    assert(two.drop_last() =~= one);
    assert(two.last() == e);
    assert(fold_segments(two) == apply_segment(fold_segments(two.drop_last()), two.last()));
}

/// Normalising a normalised path changes nothing.
pub proof fn law_normalize_is_idempotent(path: Seq<char>)
    ensures
        spec_normalize_module_path(spec_normalize_module_path(path)) == spec_normalize_module_path(
            path,
        ),
{
    law_normalized_path_is_clean(path);
    lemma_fold_empty_pieces();
    let n = spec_normalize_module_path(path);
    let segs = fold_segments(split_on(path, '/'));
    let e = Seq::<char>::empty();
    if segs.len() == 0 {
        assert(join_segments(segs, '/') =~= e);
        if is_absolute_path(path) {
            assert(n =~= e.push('/'));
            assert(split_on(n, '/') == split_on(e, '/').push(e)) by {
                assert(n.drop_last() =~= e);
            }
            assert(split_on(e, '/') =~= seq![e]);
            let sp = seq![e, e];
            assert(split_on(n, '/') =~= sp);
            assert(sp.drop_last() =~= seq![e]);
            assert(seq![e].drop_last() =~= Seq::<Seq<char>>::empty());
            assert(seq!['/'] + join_segments(Seq::<Seq<char>>::empty(), '/') =~= n);
        } else {
            assert(n =~= e);
            assert(split_on(e, '/') =~= seq![e]);
            assert(seq![e].drop_last() =~= Seq::<Seq<char>>::empty());
        }
    } else if is_absolute_path(path) {
        assert(n =~= e.push('/') + join_segments(segs, '/'));
        lemma_split_prefixed_join(e, segs);
        assert(split_on(e, '/') =~= seq![e]);
        assert(seq![e].drop_last() =~= Seq::<Seq<char>>::empty());
        lemma_fold_keeps_proper(seq![e], segs);
        assert(Seq::<Seq<char>>::empty() + segs =~= segs);
    } else {
        lemma_split_join(segs);
        lemma_fold_keeps_proper(Seq::empty(), segs);
        assert(Seq::<Seq<char>>::empty() + segs =~= segs);
        assert(fold_segments(Seq::<Seq<char>>::empty()) =~= Seq::<Seq<char>>::empty());
    }
}

// ---------------------------------------------------------------------------
// Specifier resolution
// ---------------------------------------------------------------------------

/// `./`
pub open spec fn current_dir_prefix() -> Seq<char> {
    seq!['.', '/']
}

/// `../`
pub open spec fn parent_dir_prefix() -> Seq<char> {
    seq!['.', '.', '/']
}

/// Whether an import specifier is relative (starts with `./` or `../`).
pub open spec fn is_relative_specifier(specifier: Seq<char>) -> bool {
    has_prefix(specifier, current_dir_prefix()) || has_prefix(specifier, parent_dir_prefix())
}

/// The directory part of a path: everything up to and including its last
/// `/`, or nothing when the path holds no `/`.
pub open spec fn base_directory(path: Seq<char>) -> Seq<char> {
    match last_index_of(path, '/') {
        Some(i) => path.take(i + 1),
        None => Seq::empty(),
    }
}

/// The specifier that an import of `specifier` from the module `referrer`
/// designates: a relative specifier is appended to the referrer's directory,
/// normalised, and put behind the referrer's `scheme://authority` prefix; any
/// other specifier stands for itself.
pub open spec fn spec_resolve_module_specifier(referrer: Seq<char>, specifier: Seq<char>) -> Seq<
    char,
> {
    if is_relative_specifier(specifier) {
        let (prefix, path) = spec_split_specifier_prefix(referrer);
        prefix + spec_normalize_module_path(base_directory(path) + specifier)
    } else {
        specifier
    }
}

/// A relative import resolves, behind the referrer's `scheme://authority`
/// prefix, to a path that normalisation leaves as it is; any other import
/// resolves to itself.
pub proof fn law_resolved_import_stays_under_prefix(referrer: Seq<char>, specifier: Seq<char>)
    ensures
        is_relative_specifier(specifier) ==> ({
            let prefix = spec_split_specifier_prefix(referrer).0;
            let resolved = spec_resolve_module_specifier(referrer, specifier);
            let rest = resolved.skip(prefix.len() as int);
            &&& has_prefix(resolved, prefix)
            &&& spec_normalize_module_path(rest) == rest
        }),
        !is_relative_specifier(specifier) ==> spec_resolve_module_specifier(referrer, specifier)
            == specifier,
{
    if is_relative_specifier(specifier) {
        let (prefix, path) = spec_split_specifier_prefix(referrer);
        let joined = base_directory(path) + specifier;
        let norm = spec_normalize_module_path(joined);
        let resolved = prefix + norm;
        assert(resolved.take(prefix.len() as int) =~= prefix);
        assert(resolved.skip(prefix.len() as int) =~= norm);
        law_normalize_is_idempotent(joined);
    }
}

/// A relative import is resolved against the directory of the referrer's
/// path, whether or not the referrer has a `scheme://authority` prefix: when
/// the path's last `/` is at `i`, the result is the prefix followed by the
/// normalisation of the path up to and including that `/` and then the
/// specifier; when the path holds no `/`, it is the prefix followed by the
/// normalised specifier. A referrer without `://` has an empty prefix and is
/// its own path.
pub proof fn law_relative_import_uses_referrer_directory(
    referrer: Seq<char>,
    specifier: Seq<char>,
    i: int,
)
    ensures
        (forall|j: int| !matches_at(referrer, scheme_separator(), j))
            ==> spec_split_specifier_prefix(referrer) == (Seq::<char>::empty(), referrer),
        ({
            let (prefix, path) = spec_split_specifier_prefix(referrer);
            &&& is_relative_specifier(specifier) && is_last_index_of(path, '/', i)
                ==> spec_resolve_module_specifier(referrer, specifier) == prefix
                + spec_normalize_module_path(path.take(i + 1) + specifier)
            &&& is_relative_specifier(specifier) && (forall|j: int|
                0 <= j < path.len() ==> path[j] != '/')
                ==> spec_resolve_module_specifier(referrer, specifier) == prefix
                + spec_normalize_module_path(specifier)
        }),
{
    if forall|j: int| !matches_at(referrer, scheme_separator(), j) {
        assert(!exists|k: int| is_first_match(referrer, scheme_separator(), k));
    }
    let (prefix, path) = spec_split_specifier_prefix(referrer);
    if is_last_index_of(path, '/', i) {
        assert(exists|k: int| is_last_index_of(path, '/', k));
        let k = choose|k: int| is_last_index_of(path, '/', k);
        assert(is_last_index_of(path, '/', k));
        if k < i {
            assert(path[i] == '/');
        } else if i < k {
            assert(path[k] == '/');
        }
        assert(k == i);
        assert(base_directory(path) == path.take(i + 1));
    }
    if forall|j: int| 0 <= j < path.len() ==> path[j] != '/' {
        assert(!exists|k: int| is_last_index_of(path, '/', k));
        assert(base_directory(path) + specifier =~= specifier);
    }
}

/// Resolves the import `specifier` found in the module named `referrer`.
///
/// `("file:///a/b/main.js", "../c/d.js")` gives `"file:///a/c/d.js"`;
/// a bare specifier such as `"dep"` is returned unchanged.
pub fn resolve_module_specifier(referrer: &str, specifier: &str) -> (resolved: String)
    ensures
        resolved@ == spec_resolve_module_specifier(referrer@, specifier@),
{
    let scs = chars_of(specifier);
    let current: [char; 2] = ['.', '/'];
    let parent: [char; 3] = ['.', '.', '/'];
    assert(current@ =~= current_dir_prefix());
    assert(parent@ =~= parent_dir_prefix());
    if starts_with_chars(scs.as_slice(), &current) || starts_with_chars(scs.as_slice(), &parent) {
        let rcs = chars_of(referrer);
        let p = prefix_split_point(&rcs);
        let n = rcs.len();
        let ghost path = rcs@.skip(p as int);
        let mut joined: Vec<char> = Vec::new();
        match rfind_char_in(&rcs, '/', p, n) {
            Some(k) => {
                extend_range(&mut joined, rcs.as_slice(), p, k + 1);
                proof {
                    let i = k - p;
                    assert(path[i] == rcs@[k as int]);
                    assert forall|j: int| i < j < path.len() implies path[j] != '/' by {
                        assert(path[j] == rcs@[p + j]);
                    }
                    assert(is_last_index_of(path, '/', i));
                    assert forall|j: int| is_last_index_of(path, '/', j) implies j == i by {
                        if j < i {
                            assert(path[i] == '/');
                        } else if j > i {
                            assert(path[j] == rcs@[p + j]);
                        }
                    }
                    assert(last_index_of(path, '/') == Some(i));
                    assert(joined@ =~= base_directory(path));
                }
            },
            None => {
                proof {
                    assert forall|j: int| !is_last_index_of(path, '/', j) by {
                        if is_last_index_of(path, '/', j) {
                            assert(path[j] == rcs@[p + j]);
                        }
                    }
                    assert(joined@ =~= base_directory(path));
                }
            },
        }
        extend_chars(&mut joined, scs.as_slice());
        let norm = normalize_chars(&joined);
        let mut out: Vec<char> = Vec::new();
        extend_range(&mut out, rcs.as_slice(), 0, p);
        extend_chars(&mut out, norm.as_slice());
        assert(rcs@.subrange(0, p as int) =~= rcs@.take(p as int));
        assert(Seq::<char>::empty() + rcs@.subrange(0, p as int) =~= rcs@.subrange(0, p as int));
        string_from_chars(out.as_slice())
    } else {
        specifier.to_owned()
    }
}

} // verus!
