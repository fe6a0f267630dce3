//! Paths as a Unix system reads them: a path is what its components are.
use vstd::prelude::*;
use crate::speech::same_bytes;
use crate::text;

verus! {

/// How much stands before the first slash.
pub open spec fn before_slash<T>(s: Seq<T>, slash: T) -> nat
    decreases s.len(),
{
    if s.len() == 0 || s[0] == slash {
        0
    } else {
        1 + before_slash(s.skip(1), slash)
    }
}

/// A component, where it counts: nothing between two slashes does not, and a single
/// dot only at the very start.
pub open spec fn counted<T>(piece: Seq<T>, dot: T, at_start: bool) -> Seq<Seq<T>> {
    if piece.len() == 0 || (!at_start && piece == seq![dot]) {
        Seq::empty()
    } else {
        seq![piece]
    }
}

/// The components of a path, without its root.
pub open spec fn components<T>(s: Seq<T>, slash: T, dot: T, at_start: bool) -> Seq<Seq<T>>
    decreases s.len(),
{
    let n = before_slash(s, slash) as int;
    if n >= s.len() {
        counted(s, dot, at_start)
    } else {
        counted(s.take(n), dot, at_start) + components(s.skip(n + 1), slash, dot, false)
    }
}

/// Whether two paths are the same: both start at the root or neither does, and they
/// have the same components.
pub open spec fn same_components<T>(a: Seq<T>, b: Seq<T>, slash: T, dot: T) -> bool {
    &&& (a.len() > 0 && a[0] == slash) == (b.len() > 0 && b[0] == slash)
    &&& components(a, slash, dot, true) == components(b, slash, dot, true)
}

/// Whether two paths, as text, are the same.
pub open spec fn same_path(a: Seq<char>, b: Seq<char>) -> bool {
    same_components(a, b, '/', '.')
}

/// Whether two paths, as bytes, are the same.
pub open spec fn same_raw_path(a: Seq<u8>, b: Seq<u8>) -> bool {
    same_components(a, b, 47, 46)
}

/// Where the first slash stands, when there is none before `n`.
proof fn lemma_before_slash<T>(s: Seq<T>, slash: T, n: int)
    requires
        0 <= n <= s.len(),
        forall|i: int| 0 <= i < n ==> s[i] != slash,
        n == s.len() || s[n] == slash,
    ensures
        before_slash(s, slash) == n,
    decreases s.len(),
{
    if n > 0 {
        assert(s.skip(1)[n - 1] == s[n] || n == s.len());
        assert forall|i: int| 0 <= i < n - 1 implies s.skip(1)[i] != slash by {
            assert(s.skip(1)[i] == s[i + 1]);
        }
        lemma_before_slash(s.skip(1), slash, n - 1);
    }
}

/// The contents of a list of components.
pub open spec fn pieces(items: Seq<Vec<u8>>) -> Seq<Seq<u8>> {
    items.map_values(|p: Vec<u8>| p@)
}

fn raw_components(path: &[u8]) -> (r: Vec<Vec<u8>>)
    ensures
        pieces(r@) == components(path@, 47, 46, true),
{
    let mut out: Vec<Vec<u8>> = Vec::new();
    let mut at: usize = 0;
    let mut done: bool = false;
    let ghost all = components(path@, 47, 46, true);
    assert(path@.skip(0) =~= path@);
    assert(pieces(out@) + all =~= all);
    while !done
        invariant
            at <= path@.len(),
            all == components(path@, 47, 46, true),
            done ==> pieces(out@) == all,
            !done ==> pieces(out@) + components(path@.skip(at as int), 47, 46, at == 0) == all,
        decreases
            path@.len() - at,
            if done {
                0int
            } else {
                1
            },
    {
        let ghost rest = path@.skip(at as int);
        let ghost before = pieces(out@);
        let mut end: usize = at;
        while end < path.len() && path[end] != 47
            invariant
                at <= end <= path@.len(),
                forall|i: int| at <= i < end ==> path@[i] != 47,
            decreases path@.len() - end,
        {
            end = end + 1;
        }
        let ghost n = end - at;
        proof {
            assert forall|i: int| 0 <= i < n implies rest[i] != 47 by {
                assert(rest[i] == path@[at + i]);
            }
            lemma_before_slash(rest, 47, n);
        }
        let piece: Vec<u8> = vstd::slice::slice_to_vec(
            vstd::slice::slice_subrange(path, at, end),
        );
        assert(piece@ =~= rest.take(n));
        let dot: bool = piece.len() == 1 && piece[0] == 46;
        assert(dot == (piece@ =~= seq![46u8]));
        let ghost kept = counted(piece@, 46, at == 0);
        if piece.len() > 0 && (at == 0 || !dot) {
            out.push(piece);
            assert(pieces(out@) =~= before + kept);
        } else {
            assert(pieces(out@) =~= before + kept);
        }
        if end < path.len() {
            assert(rest.skip(n + 1) =~= path@.skip(end + 1));
            assert(before + (kept + components(path@.skip(end + 1), 47, 46, false)) =~= (before
                + kept) + components(path@.skip(end + 1), 47, 46, false));
            at = end + 1;
        } else {
            assert(rest.take(n) =~= rest);
            done = true;
        }
    }
    out
}

/// Whether two paths, as bytes, are the same.
pub fn are_same_raw(a: &[u8], b: &[u8]) -> (r: bool)
    ensures
        r == same_raw_path(a@, b@),
{
    let a_rooted: bool = a.len() > 0 && a[0] == 47;
    let b_rooted: bool = b.len() > 0 && b[0] == 47;
    if a_rooted != b_rooted {
        return false;
    }
    let x: Vec<Vec<u8>> = raw_components(a);
    let y: Vec<Vec<u8>> = raw_components(b);
    if x.len() != y.len() {
        assert(pieces(x@).len() != pieces(y@).len());
        return false;
    }
    let mut i: usize = 0;
    while i < x.len()
        invariant
            i <= x@.len() == y@.len(),
            pieces(x@) == components(a@, 47, 46, true),
            pieces(y@) == components(b@, 47, 46, true),
            forall|j: int| 0 <= j < i ==> (#[trigger] pieces(x@)[j]) == pieces(y@)[j],
        decreases x@.len() - i,
    {
        if !same_bytes(x[i].as_slice(), y[i].as_slice()) {
            assert(pieces(x@)[i as int] != pieces(y@)[i as int]);
            return false;
        }
        i = i + 1;
    }
    assert(pieces(x@) =~= pieces(y@));
    true
}

fn text_components(path: &Vec<char>) -> (r: Vec<String>)
    ensures
        text::texts(r@) == components(path@, '/', '.', true),
{
    let mut out: Vec<String> = Vec::new();
    let mut at: usize = 0;
    let mut done: bool = false;
    let ghost all = components(path@, '/', '.', true);
    assert(path@.skip(0) =~= path@);
    assert(text::texts(out@) + all =~= all);
    while !done
        invariant
            at <= path@.len(),
            all == components(path@, '/', '.', true),
            done ==> text::texts(out@) == all,
            !done ==> text::texts(out@) + components(path@.skip(at as int), '/', '.', at == 0)
                == all,
        decreases
            path@.len() - at,
            if done {
                0int
            } else {
                1
            },
    {
        let ghost rest = path@.skip(at as int);
        let ghost before = text::texts(out@);
        let mut end: usize = at;
        while end < path.len() && path[end] != '/'
            invariant
                at <= end <= path@.len(),
                forall|i: int| at <= i < end ==> path@[i] != '/',
            decreases path@.len() - end,
        {
            end = end + 1;
        }
        let ghost n = end - at;
        proof {
            assert forall|i: int| 0 <= i < n implies rest[i] != '/' by {
                assert(rest[i] == path@[at + i]);
            }
            lemma_before_slash(rest, '/', n);
            assert(path@.subrange(at as int, end as int) =~= rest.take(n));
        }
        let dot: bool = end - at == 1 && path[at] == '.';
        assert(dot == (rest.take(n) =~= seq!['.']));
        let ghost kept = counted(rest.take(n), '.', at == 0);
        if end > at && (at == 0 || !dot) {
            out.push(text::string_between(path.as_slice(), at, end));
            assert(text::texts(out@) =~= before + kept);
        } else {
            assert(text::texts(out@) =~= before + kept);
        }
        if end < path.len() {
            assert(rest.skip(n + 1) =~= path@.skip(end + 1));
            assert(before + (kept + components(path@.skip(end + 1), '/', '.', false)) =~= (before
                + kept) + components(path@.skip(end + 1), '/', '.', false));
            at = end + 1;
        } else {
            assert(rest.take(n) =~= rest);
            done = true;
        }
    }
    out
}

/// Whether two paths, as text, are the same.
pub fn are_same(a: &str, b: &str) -> (r: bool)
    ensures
        r == same_path(a@, b@),
{
    let first: Vec<char> = text::chars_of(a);
    let second: Vec<char> = text::chars_of(b);
    let a_rooted: bool = first.len() > 0 && first[0] == '/';
    let b_rooted: bool = second.len() > 0 && second[0] == '/';
    if a_rooted != b_rooted {
        return false;
    }
    let x: Vec<String> = text_components(&first);
    let y: Vec<String> = text_components(&second);
    if x.len() != y.len() {
        assert(text::texts(x@).len() != text::texts(y@).len());
        return false;
    }
    let mut i: usize = 0;
    while i < x.len()
        invariant
            i <= x@.len() == y@.len(),
            text::texts(x@) == components(a@, '/', '.', true),
            text::texts(y@) == components(b@, '/', '.', true),
            forall|j: int| 0 <= j < i ==> (#[trigger] text::texts(x@)[j]) == text::texts(y@)[j],
        decreases x@.len() - i,
    {
        if !text::same_text(x[i].as_str(), y[i].as_str()) {
            assert(text::texts(x@)[i as int] != text::texts(y@)[i as int]);
            return false;
        }
        i = i + 1;
    }
    assert(text::texts(x@) =~= text::texts(y@));
    true
}

// ----------------------------------------------------------------------- laws

/// A slash at the end of a path changes nothing, where the path has something
/// before it.
pub proof fn law_trailing_slash(s: Seq<char>)
    requires
        s.len() > 0,
    ensures
        same_path(s.push('/'), s),
{
    lemma_trailing_slash(s, true);
    assert(s.push('/')[0] == s[0]);
}

proof fn lemma_trailing_slash(s: Seq<char>, at_start: bool)
    ensures
        components(s.push('/'), '/', '.', at_start) == components(s, '/', '.', at_start),
    decreases s.len(),
{
    let t = s.push('/');
    let n = before_slash(s, '/') as int;
    lemma_before_slash_bounds(s);
    assert forall|i: int| 0 <= i < n implies t[i] != '/' by {
        assert(t[i] == s[i]);
    }
    lemma_before_slash(t, '/', n);
    if n < s.len() {
        assert(t.skip(n + 1) =~= s.skip(n + 1).push('/'));
        assert(t.take(n) =~= s.take(n));
        lemma_trailing_slash(s.skip(n + 1), false);
    } else {
        assert(t.take(n) =~= s);
        assert(t.skip(n + 1) =~= Seq::empty());
        assert(components(Seq::<char>::empty(), '/', '.', false) =~= Seq::empty());
        assert(counted(s, '.', at_start) + Seq::<Seq<char>>::empty() =~= counted(
            s,
            '.',
            at_start,
        ));
    }
}

proof fn lemma_before_slash_bounds(s: Seq<char>)
    ensures
        before_slash(s, '/') <= s.len(),
        forall|i: int| 0 <= i < before_slash(s, '/') ==> s[i] != '/',
        before_slash(s, '/') < s.len() ==> s[before_slash(s, '/') as int] == '/',
    decreases s.len(),
{
    if s.len() > 0 && s[0] != '/' {
        lemma_before_slash_bounds(s.skip(1));
        assert forall|i: int| 0 <= i < before_slash(s, '/') implies s[i] != '/' by {
            if i > 0 {
                assert(s.skip(1)[i - 1] == s[i]);
            }
        }
    }
}

/// Slashes that follow one another count as one, and a single dot between two as
/// nothing; but where a path has a name, the name counts.
pub proof fn law_components_decide(a: Seq<char>, b: Seq<char>, name: Seq<char>, other: Seq<char>)
    requires
        a.len() > 0,
    ensures
        same_path(a.push('/').push('/') + b, a.push('/') + b),
        same_path(a.push('/').push('.').push('/') + b, a.push('/') + b),
        same_path(a, a),
        name.len() > 0 && other.len() > 0 && (forall|i: int|
            0 <= i < name.len() ==> (#[trigger] name[i]) != '/') && (forall|i: int|
            0 <= i < other.len() ==> (#[trigger] other[i]) != '/') ==> (same_path(name, other) <==> name
            == other),
        !same_path(seq!['/'] + b, Seq::empty()),
{
    lemma_split(a, Seq::<char>::empty(), true);
    lemma_split(a, seq!['/'] + b, true);
    lemma_split(a, seq!['.', '/'] + b, true);
    lemma_split(a, b, true);
    assert(a.push('/').push('/') + b =~= a.push('/') + (seq!['/'] + b));
    assert(a.push('/').push('.').push('/') + b =~= a.push('/') + (seq!['.', '/'] + b));
    let one = seq!['/'] + b;
    assert(one[0] == '/');
    lemma_before_slash(one, '/', 0);
    assert(one.skip(1) =~= b);
    assert(one.take(0) =~= Seq::empty());
    assert(components(one, '/', '.', false) =~= components(b, '/', '.', false));
    let two = seq!['.', '/'] + b;
    assert(two[0] == '.' && two[1] == '/');
    lemma_before_slash(two, '/', 1);
    assert(two.skip(2) =~= b);
    assert(two.take(1) =~= seq!['.']);
    assert(components(two, '/', '.', false) =~= components(b, '/', '.', false));
    assert((a.push('/').push('/') + b)[0] == a[0]);
    assert((a.push('/').push('.').push('/') + b)[0] == a[0]);
    assert((a.push('/') + b)[0] == a[0]);
    if name.len() > 0 && other.len() > 0 && (forall|i: int|
        0 <= i < name.len() ==> (#[trigger] name[i]) != '/') && (forall|i: int|
        0 <= i < other.len() ==> (#[trigger] other[i]) != '/') {
        lemma_before_slash(name, '/', name.len() as int);
        lemma_before_slash(other, '/', other.len() as int);
        assert(components(name, '/', '.', true) == seq![name]);
        assert(components(other, '/', '.', true) == seq![other]);
        assert(seq![name][0] == name && seq![other][0] == other);
    }
}

/// The components of a path are those before a slash and those behind it.
proof fn lemma_split(a: Seq<char>, b: Seq<char>, at_start: bool)
    ensures
        components(a.push('/') + b, '/', '.', at_start) == components(a, '/', '.', at_start)
            + components(b, '/', '.', false),
    decreases a.len(),
{
    let all = a.push('/') + b;
    let n = before_slash(a, '/') as int;
    lemma_before_slash_bounds(a);
    assert forall|i: int| 0 <= i < n implies all[i] != '/' by {
        assert(all[i] == a[i]);
    }
    assert(all[n] == '/');
    lemma_before_slash(all, '/', n);
    assert(all.take(n) =~= a.take(n));
    if n < a.len() {
        lemma_split(a.skip(n + 1), b, false);
        assert(all.skip(n + 1) =~= a.skip(n + 1).push('/') + b);
        assert(counted(a.take(n), '.', at_start) + (components(a.skip(n + 1), '/', '.', false)
            + components(b, '/', '.', false)) =~= components(a, '/', '.', at_start) + components(
            b,
            '/',
            '.',
            false,
        ));
    } else {
        assert(a.take(n) =~= a);
        assert(all.skip(n + 1) =~= b);
    }
}

} // verus!
