//! Text over characters: the small vocabulary of string operations that the
//! rest of the library is specified with.
use vstd::prelude::*;

verus! {

/// `String::push` appends one character.
pub assume_specification[ String::push ](s: &mut String, c: char)
    ensures
        final(s)@ == old(s)@.push(c),
;

/// Whether a character has the Unicode `White_Space` property.
pub open spec fn is_white_space(c: char) -> bool {
    ||| '\u{9}' <= c <= '\u{d}'
    ||| c == '\u{20}'
    ||| c == '\u{85}'
    ||| c == '\u{a0}'
    ||| c == '\u{1680}'
    ||| '\u{2000}' <= c <= '\u{200a}'
    ||| c == '\u{2028}'
    ||| c == '\u{2029}'
    ||| c == '\u{202f}'
    ||| c == '\u{205f}'
    ||| c == '\u{3000}'
}

/// `char::is_whitespace` answers the `White_Space` property of its argument.
pub assume_specification[ char::is_whitespace ](c: char) -> (r: bool)
    ensures
        r == is_white_space(c),
;

/// The text that `{:?}` gives for a string: quoted and escaped.
pub uninterp spec fn debug_quoted(s: Seq<char>) -> Seq<char>;

/// `format!("{:?}")` of a string slice: a function of the slice alone.
#[verifier::external_body]
pub(crate) fn quote_debug(s: &str) -> (r: String)
    ensures
        r@ == debug_quoted(s@),
{
    format!("{:?}", s)
}

/// `String::from_utf8`: succeeds exactly on well-formed UTF-8, and the string
/// then holds the characters that the bytes encode.
#[verifier::external_body]
pub(crate) fn utf8_text(bytes: Vec<u8>) -> (r: Option<String>)
    ensures
        r is Some <==> vstd::utf8::valid_utf8(bytes@),
        r matches Some(s) ==> s@ == vstd::utf8::decode_utf8(bytes@),
{
    String::from_utf8(bytes).ok()
}

// ---------------------------------------------------------------- characters

/// The characters of a string.
pub fn chars_of(s: &str) -> (r: Vec<char>)
    ensures
        r@ == s@,
{
    let mut out: Vec<char> = Vec::new();
    for c in it: s.chars()
        invariant
            out@ == it.seq().take(it.index()),
            it.seq() == s@,
    {
        out.push(c);
    }
    out
}

/// The string of some characters.
pub fn string_of(chars: &[char]) -> (r: String)
    ensures
        r@ == chars@,
{
    let mut out = String::new();
    let n: usize = chars.len();
    let mut i: usize = 0;
    while i < n
        invariant
            i <= n == chars@.len(),
            out@ == chars@.take(i as int),
        decreases n - i,
    {
        out.push(chars[i]);
        i = i + 1;
    }
    out
}

/// The string of the characters `from..to`.
pub fn string_between(chars: &[char], from: usize, to: usize) -> (r: String)
    requires
        from <= to <= chars@.len(),
    ensures
        r@ == chars@.subrange(from as int, to as int),
{
    let mut out = String::new();
    let mut i: usize = from;
    while i < to
        invariant
            from <= i <= to <= chars@.len(),
            out@ == chars@.subrange(from as int, i as int),
        decreases to - i,
    {
        out.push(chars[i]);
        i = i + 1;
    }
    out
}

/// Whether two strings hold the same characters.
pub fn same_text(a: &str, b: &str) -> (r: bool)
    ensures
        r == (a@ == b@),
{
    let left: Vec<char> = chars_of(a);
    let right: Vec<char> = chars_of(b);
    if left.len() != right.len() {
        return false;
    }
    let mut i: usize = 0;
    while i < left.len()
        invariant
            i <= left@.len() == right@.len(),
            left@ == a@,
            right@ == b@,
            forall|j: int| 0 <= j < i ==> left@[j] == right@[j],
        decreases left@.len() - i,
    {
        if left[i] != right[i] {
            return false;
        }
        i = i + 1;
    }
    assert(a@ =~= b@);
    true
}

/// A copy of a list of strings.
pub fn copy_texts(items: &Vec<String>) -> (r: Vec<String>)
    ensures
        texts(r@) == texts(items@),
{
    let mut out: Vec<String> = Vec::new();
    let mut i: usize = 0;
    while i < items.len()
        invariant
            i <= items@.len(),
            out@.len() == i,
            forall|j: int| 0 <= j < i ==> out@[j]@ == items@[j]@,
        decreases items@.len() - i,
    {
        out.push(items[i].clone());
        i = i + 1;
    }
    assert(texts(out@) =~= texts(items@));
    out
}

/// The contents of a list of strings.
pub open spec fn texts(items: Seq<String>) -> Seq<Seq<char>> {
    items.map_values(|s: String| s@)
}

/// Whether the list holds the text.
pub fn any_text(items: &Vec<String>, text: &str) -> (r: bool)
    ensures
        r == texts(items@).contains(text@),
{
    let mut i: usize = 0;
    while i < items.len()
        invariant
            i <= items@.len(),
            forall|j: int| 0 <= j < i ==> items@[j]@ != text@,
        decreases items@.len() - i,
    {
        if same_text(items[i].as_str(), text) {
            assert(texts(items@)[i as int] == text@);
            return true;
        }
        i = i + 1;
    }
    assert forall|j: int| 0 <= j < items@.len() implies texts(items@)[j] != text@ by {}
    false
}

// ------------------------------------------------------------------ trimming

/// `s` without its leading white space.
pub open spec fn trimmed_start(s: Seq<char>) -> Seq<char>
    decreases s.len(),
{
    if s.len() > 0 && is_white_space(s[0]) {
        trimmed_start(s.skip(1))
    } else {
        s
    }
}

/// `s` without its trailing white space.
pub open spec fn trimmed_end(s: Seq<char>) -> Seq<char>
    decreases s.len(),
{
    if s.len() > 0 && is_white_space(s.last()) {
        trimmed_end(s.drop_last())
    } else {
        s
    }
}

/// `s` without the white space at its two ends.
pub open spec fn trimmed(s: Seq<char>) -> Seq<char> {
    trimmed_end(trimmed_start(s))
}

/// Whether nothing but white space is left of `s`.
pub open spec fn is_blank(s: Seq<char>) -> bool {
    trimmed(s).len() == 0
}

fn trim_start_index(chars: &[char]) -> (r: usize)
    ensures
        r <= chars@.len(),
        chars@.skip(r as int) == trimmed_start(chars@),
{
    let mut i: usize = 0;
    assert(chars@.skip(0) =~= chars@);
    while i < chars.len() && chars[i].is_whitespace()
        invariant
            i <= chars@.len(),
            trimmed_start(chars@) == trimmed_start(chars@.skip(i as int)),
        decreases chars@.len() - i,
    {
        assert(chars@.skip(i as int).skip(1) =~= chars@.skip(i + 1));
        i = i + 1;
    }
    i
}

fn trim_end_index(chars: &[char], from: usize) -> (r: usize)
    requires
        from <= chars@.len(),
    ensures
        from <= r <= chars@.len(),
        chars@.subrange(from as int, r as int) == trimmed_end(chars@.skip(from as int)),
{
    let mut n: usize = chars.len();
    assert(chars@.subrange(from as int, n as int) =~= chars@.skip(from as int));
    while n > from && chars[n - 1].is_whitespace()
        invariant
            from <= n <= chars@.len(),
            trimmed_end(chars@.skip(from as int)) == trimmed_end(
                chars@.subrange(from as int, n as int),
            ),
        decreases n,
    {
        assert(chars@.subrange(from as int, n as int).drop_last() =~= chars@.subrange(
            from as int,
            n - 1,
        ));
        n = n - 1;
    }
    n
}

/// Removes the leading white space, as `str::trim_start` does.
pub fn trim_start(s: &str) -> (r: String)
    ensures
        r@ == trimmed_start(s@),
{
    let chars: Vec<char> = chars_of(s);
    let from: usize = trim_start_index(chars.as_slice());
    assert(chars@.subrange(from as int, chars@.len() as int) =~= chars@.skip(from as int));
    string_between(chars.as_slice(), from, chars.len())
}

/// Removes the white space at both ends, as `str::trim` does.
pub fn trim(s: &str) -> (r: String)
    ensures
        r@ == trimmed(s@),
{
    let chars: Vec<char> = chars_of(s);
    let from: usize = trim_start_index(chars.as_slice());
    let to: usize = trim_end_index(chars.as_slice(), from);
    string_between(chars.as_slice(), from, to)
}

/// Whether the text is empty but for white space.
pub fn blank(s: &str) -> (r: bool)
    ensures
        r == is_blank(s@),
{
    trim(s).as_str().is_empty()
}

/// `s` without the occurrences of `c` at its end.
pub open spec fn without_trailing(s: Seq<char>, c: char) -> Seq<char>
    decreases s.len(),
{
    if s.len() > 0 && s.last() == c {
        without_trailing(s.drop_last(), c)
    } else {
        s
    }
}

/// `s` without the occurrences of `c` at its start.
pub open spec fn without_leading(s: Seq<char>, c: char) -> Seq<char>
    decreases s.len(),
{
    if s.len() > 0 && s[0] == c {
        without_leading(s.skip(1), c)
    } else {
        s
    }
}

/// Removes every `c` at the end, as `str::trim_end_matches` does.
pub fn trim_end_char(s: &str, c: char) -> (r: String)
    ensures
        r@ == without_trailing(s@, c),
{
    let chars: Vec<char> = chars_of(s);
    let mut n: usize = chars.len();
    assert(chars@.take(n as int) =~= chars@);
    while n > 0 && chars[n - 1] == c
        invariant
            n <= chars@.len(),
            without_trailing(chars@, c) == without_trailing(chars@.take(n as int), c),
        decreases n,
    {
        assert(chars@.take(n as int).drop_last() =~= chars@.take(n - 1));
        n = n - 1;
    }
    assert(chars@.subrange(0, n as int) =~= chars@.take(n as int));
    string_between(chars.as_slice(), 0, n)
}

/// Removes every `c` at both ends, as `str::trim_matches` does.
pub fn trim_char(s: &str, c: char) -> (r: String)
    ensures
        r@ == without_trailing(without_leading(s@, c), c),
{
    let chars: Vec<char> = chars_of(s);
    let mut i: usize = 0;
    assert(chars@.skip(0) =~= chars@);
    while i < chars.len() && chars[i] == c
        invariant
            i <= chars@.len(),
            without_leading(chars@, c) == without_leading(chars@.skip(i as int), c),
        decreases chars@.len() - i,
    {
        assert(chars@.skip(i as int).skip(1) =~= chars@.skip(i + 1));
        i = i + 1;
    }
    assert(chars@.subrange(i as int, chars@.len() as int) =~= chars@.skip(i as int));
    let rest: String = string_between(chars.as_slice(), i, chars.len());
    trim_end_char(rest.as_str(), c)
}

// ----------------------------------------------------------------- searching

/// Whether `p` stands in `s` at position `i`.
pub open spec fn occurs_at(s: Seq<char>, p: Seq<char>, i: int) -> bool {
    0 <= i && i + p.len() <= s.len() && s.subrange(i, i + p.len()) == p
}

/// The first position, from `i` on, at which `p` stands in `s`.
pub open spec fn find_from(s: Seq<char>, p: Seq<char>, i: int) -> Option<int>
    decreases s.len() + 1 - i,
{
    if i < 0 || i + p.len() > s.len() {
        None
    } else if occurs_at(s, p, i) {
        Some(i)
    } else {
        find_from(s, p, i + 1)
    }
}

/// The first position of the character `c` in `s`, from `i` on.
pub open spec fn find_char_from(s: Seq<char>, c: char, i: int) -> Option<int>
    decreases s.len() - i,
{
    if i < 0 || i >= s.len() {
        None
    } else if s[i] == c {
        Some(i)
    } else {
        find_char_from(s, c, i + 1)
    }
}

/// Whether `s` begins with `p`.
pub open spec fn has_prefix(s: Seq<char>, p: Seq<char>) -> bool {
    p.len() <= s.len() && s.take(p.len() as int) == p
}

/// Whether `s` ends with `p`.
pub open spec fn has_suffix(s: Seq<char>, p: Seq<char>) -> bool {
    p.len() <= s.len() && s.skip(s.len() - p.len()) == p
}

/// Whether `p` stands anywhere in `s`.
pub open spec fn contains_text(s: Seq<char>, p: Seq<char>) -> bool {
    find_from(s, p, 0) is Some
}

/// What `find_from` finds is an occurrence, and none stands before it; where it
/// finds nothing, there is none.
pub proof fn lemma_find_from(s: Seq<char>, p: Seq<char>, i: int)
    requires
        0 <= i,
    ensures
        find_from(s, p, i) matches Some(k) ==> i <= k && occurs_at(s, p, k) && forall|j: int|
            i <= j < k ==> !occurs_at(s, p, j),
        find_from(s, p, i) is None ==> forall|j: int| i <= j ==> !occurs_at(s, p, j),
    decreases s.len() + 1 - i,
{
    if i + p.len() <= s.len() && !occurs_at(s, p, i) {
        lemma_find_from(s, p, i + 1);
    }
}

/// What `find_char_from` finds is an occurrence of the character.
pub proof fn lemma_find_char_from(s: Seq<char>, c: char, i: int)
    ensures
        find_char_from(s, c, i) matches Some(k) ==> i <= k < s.len() && s[k] == c,
    decreases s.len() - i,
{
    if 0 <= i < s.len() && s[i] != c {
        lemma_find_char_from(s, c, i + 1);
    }
}

/// A character is found where it stands first, and not where it does not stand.
pub proof fn lemma_find_char_first(s: Seq<char>, c: char, i: int, k: int)
    requires
        0 <= i <= k <= s.len(),
        forall|j: int| i <= j < k ==> s[j] != c,
        k == s.len() || s[k] == c,
    ensures
        find_char_from(s, c, i) == if k == s.len() {
            None
        } else {
            Some(k)
        },
    decreases k - i,
{
    if i < k {
        lemma_find_char_first(s, c, i + 1, k);
    }
}

/// Whether `p` stands at `i`.
pub(crate) fn occurs(s: &[char], p: &[char], i: usize) -> (r: bool)
    ensures
        r == occurs_at(s@, p@, i as int),
{
    let n: usize = s.len();
    if p.len() > n || i > n - p.len() {
        return false;
    }
    let mut j: usize = 0;
    while j < p.len()
        invariant
            i + p@.len() <= n == s@.len(),
            j <= p@.len(),
            forall|k: int| 0 <= k < j ==> s@[i + k] == p@[k],
        decreases p@.len() - j,
    {
        if s[i + j] != p[j] {
            assert(s@.subrange(i as int, i + p@.len())[j as int] != p@[j as int]);
            return false;
        }
        j = j + 1;
    }
    assert(s@.subrange(i as int, i + p@.len()) =~= p@);
    true
}

/// The first position of `p` in `s` from `from` on.
pub(crate) fn find_chars(s: &[char], p: &[char], from: usize) -> (r: Option<usize>)
    ensures
        r matches Some(k) ==> find_from(s@, p@, from as int) == Some(k as int) && from <= k && k
            + p@.len() <= s@.len(),
        r is None <==> find_from(s@, p@, from as int) is None,
{
    let mut i: usize = from;
    while p.len() <= s.len() && i <= s.len() - p.len()
        invariant
            from <= i,
            find_from(s@, p@, from as int) == find_from(s@, p@, i as int),
        decreases s@.len() + 1 - i,
    {
        if occurs(s, p, i) {
            return Some(i);
        }
        if i == s.len() - p.len() {
            assert(find_from(s@, p@, i + 1) is None);
            return None;
        }
        i = i + 1;
    }
    None
}

/// The first position of `c` in `s` from `from` on.
pub(crate) fn find_char(s: &[char], c: char, from: usize) -> (r: Option<usize>)
    ensures
        r matches Some(k) ==> find_char_from(s@, c, from as int) == Some(k as int) && from <= k
            < s@.len() && s@[k as int] == c,
        r is None <==> find_char_from(s@, c, from as int) is None,
{
    let mut i: usize = from;
    while i < s.len()
        invariant
            from <= i,
            find_char_from(s@, c, from as int) == find_char_from(s@, c, i as int),
        decreases s@.len() - i,
    {
        if s[i] == c {
            return Some(i);
        }
        i = i + 1;
    }
    None
}

/// Whether `p` stands anywhere in `s`, as `str::contains` says.
pub fn contains(s: &str, p: &str) -> (r: bool)
    ensures
        r == contains_text(s@, p@),
{
    let a: Vec<char> = chars_of(s);
    let b: Vec<char> = chars_of(p);
    find_chars(a.as_slice(), b.as_slice(), 0).is_some()
}

/// Whether `c` stands anywhere in `s`.
pub fn contains_char(s: &str, c: char) -> (r: bool)
    ensures
        r == s@.contains(c),
{
    let a: Vec<char> = chars_of(s);
    let mut i: usize = 0;
    while i < a.len()
        invariant
            i <= a@.len(),
            a@ == s@,
            forall|j: int| 0 <= j < i ==> a@[j] != c,
        decreases a@.len() - i,
    {
        if a[i] == c {
            return true;
        }
        i = i + 1;
    }
    false
}

/// Whether `s` begins with `p`, as `str::starts_with` says.
pub fn starts_with(s: &str, p: &str) -> (r: bool)
    ensures
        r == has_prefix(s@, p@),
{
    let a: Vec<char> = chars_of(s);
    let b: Vec<char> = chars_of(p);
    let r: bool = occurs(a.as_slice(), b.as_slice(), 0);
    assert(b@.len() <= a@.len() ==> a@.subrange(0, b@.len() as int) =~= a@.take(b@.len() as int));
    r
}

/// Whether `s` ends with `p`, as `str::ends_with` says.
pub fn ends_with(s: &str, p: &str) -> (r: bool)
    ensures
        r == has_suffix(s@, p@),
{
    let a: Vec<char> = chars_of(s);
    let b: Vec<char> = chars_of(p);
    if b.len() > a.len() {
        return false;
    }
    let at: usize = a.len() - b.len();
    let r: bool = occurs(a.as_slice(), b.as_slice(), at);
    assert(a@.subrange(at as int, at + b@.len()) =~= a@.skip(at as int));
    r
}

/// What follows the prefix `p`, where `s` has it.
pub open spec fn stripped_prefix(s: Seq<char>, p: Seq<char>) -> Option<Seq<char>> {
    if has_prefix(s, p) {
        Some(s.skip(p.len() as int))
    } else {
        None
    }
}

/// Takes the prefix `p` off, as `str::strip_prefix` does.
pub fn strip_prefix(s: &str, p: &str) -> (r: Option<String>)
    ensures
        r is Some <==> stripped_prefix(s@, p@) is Some,
        r matches Some(t) ==> stripped_prefix(s@, p@) == Some(t@),
{
    if !starts_with(s, p) {
        return None;
    }
    let a: Vec<char> = chars_of(s);
    let n: usize = chars_of(p).len();
    assert(a@.subrange(n as int, a@.len() as int) =~= a@.skip(n as int));
    Some(string_between(a.as_slice(), n, a.len()))
}

/// A line without a carriage return at its end.
pub open spec fn without_return(line: Seq<char>) -> Seq<char> {
    if line.len() > 0 && line.last() == '\r' {
        line.drop_last()
    } else {
        line
    }
}

/// The lines of a text, without the line feeds that end them and the carriage
/// returns before those. The last need not be ended.
pub open spec fn lines_of(s: Seq<char>) -> Seq<Seq<char>>
    decreases s.len(),
{
    if s.len() == 0 {
        Seq::empty()
    } else {
        match find_char_from(s, '\n', 0) {
            None => seq![s],
            Some(k) => if 0 <= k < s.len() {
                seq![without_return(s.take(k))] + lines_of(s.skip(k + 1))
            } else {
                Seq::empty()
            },
        }
    }
}

proof fn lemma_find_char_shift(s: Seq<char>, c: char, from: int, i: int)
    requires
        0 <= from <= s.len(),
        0 <= i,
    ensures
        find_char_from(s.skip(from), c, i) == match find_char_from(s, c, from + i) {
            Some(k) => Some(k - from),
            None => None,
        },
    decreases s.len() - from - i,
{
    if from + i < s.len() && s[from + i] != c {
        lemma_find_char_shift(s, c, from, i + 1);
    }
}

/// Cuts a text into lines, as `str::lines` does.
pub fn lines(s: &str) -> (r: Vec<String>)
    ensures
        texts(r@) == lines_of(s@),
{
    let chars: Vec<char> = chars_of(s);
    let n: usize = chars.len();
    let mut out: Vec<String> = Vec::new();
    let mut at: usize = 0;
    assert(chars@.skip(0) =~= chars@);
    assert(texts(out@) + lines_of(s@) =~= lines_of(s@));
    while at < n
        invariant
            at <= n == chars@.len(),
            chars@ == s@,
            lines_of(s@) == texts(out@) + lines_of(chars@.skip(at as int)),
        decreases n - at,
    {
        let ghost rest = chars@.skip(at as int);
        let ghost before = out@;
        proof {
            lemma_find_char_shift(chars@, '\n', at as int, 0);
            lemma_find_char_from(chars@, '\n', at as int);
        }
        match find_char(chars.as_slice(), '\n', at) {
            None => {
                assert(chars@.subrange(at as int, n as int) =~= rest);
                out.push(string_between(chars.as_slice(), at, n));
                assert(texts(out@) =~= texts(before).push(rest));
                assert(texts(before) + seq![rest] =~= texts(out@));
                return out;
            },
            Some(k) => {
                let end: usize = if k > at && chars[k - 1] == '\r' {
                    k - 1
                } else {
                    k
                };
                let ghost line = chars@.subrange(at as int, end as int);
                proof {
                    let ended = rest.take(k - at);
                    assert(line =~= without_return(ended)) by {
                        if k > at {
                            assert(ended.last() == chars@[k - 1]);
                        }
                    }
                    assert(rest.skip(k - at + 1) =~= chars@.skip(k + 1));
                }
                out.push(string_between(chars.as_slice(), at, end));
                assert(texts(out@) =~= texts(before).push(line));
                assert(texts(before) + (seq![line] + lines_of(chars@.skip(k + 1))) =~= texts(out@)
                    + lines_of(chars@.skip(k + 1)));
                at = k + 1;
            },
        }
    }
    assert(chars@.skip(at as int).len() == 0);
    assert(texts(out@) + Seq::<Seq<char>>::empty() =~= texts(out@));
    out
}

// ----------------------------------------------------------------- rewriting

/// `s` with every occurrence of `p`, left to right, replaced by `by`.
pub open spec fn replaced(s: Seq<char>, p: Seq<char>, by: Seq<char>) -> Seq<char>
    decreases s.len(),
{
    if p.len() == 0 || s.len() == 0 {
        s
    } else if occurs_at(s, p, 0) {
        by + replaced(s.skip(p.len() as int), p, by)
    } else {
        seq![s[0]] + replaced(s.skip(1), p, by)
    }
}

/// Replaces every occurrence of a non-empty `p` by `by`, as `str::replace` does.
pub fn replace(s: &str, p: &str, by: &str) -> (r: String)
    requires
        p@.len() > 0,
    ensures
        r@ == replaced(s@, p@, by@),
{
    let a: Vec<char> = chars_of(s);
    let b: Vec<char> = chars_of(p);
    let mut out = String::new();
    let mut i: usize = 0;
    assert(a@.skip(0) =~= a@);
    while i < a.len()
        invariant
            i <= a@.len(),
            b@ == p@,
            p@.len() > 0,
            replaced(a@, p@, by@) == out@ + replaced(a@.skip(i as int), p@, by@),
        decreases a@.len() - i,
    {
        let ghost rest = a@.skip(i as int);
        let ghost before = out@;
        if occurs(a.as_slice(), b.as_slice(), i) {
            assert(rest.subrange(0, p@.len() as int) =~= a@.subrange(i as int, i + p@.len()));
            assert(rest.skip(p@.len() as int) =~= a@.skip(i + p@.len()));
            out.append(by);
            i = i + b.len();
            assert(before + (by@ + replaced(a@.skip(i as int), p@, by@)) =~= (before + by@)
                + replaced(a@.skip(i as int), p@, by@));
        } else {
            assert(!occurs_at(rest, p@, 0)) by {
                if occurs_at(rest, p@, 0) {
                    assert(rest.subrange(0, p@.len() as int) =~= a@.subrange(
                        i as int,
                        i + p@.len(),
                    ));
                }
            }
            assert(rest.skip(1) =~= a@.skip(i + 1));
            out.push(a[i]);
            i = i + 1;
            assert(before + (seq![rest[0]] + replaced(a@.skip(i as int), p@, by@)) =~= before.push(
                rest[0],
            ) + replaced(a@.skip(i as int), p@, by@));
        }
    }
    assert(out@ + a@.skip(i as int) =~= out@);
    out
}

/// The ASCII lower-case form of a character.
pub open spec fn lower_char(c: char) -> char {
    if 'A' <= c && c <= 'Z' {
        ((c as u8) + 32) as char
    } else {
        c
    }
}

/// `s` with its ASCII letters in lower case.
pub open spec fn lowered(s: Seq<char>) -> Seq<char> {
    s.map_values(|c: char| lower_char(c))
}

/// Lower-cases the ASCII letters, as `str::to_ascii_lowercase` does.
pub fn to_ascii_lowercase(s: &str) -> (r: String)
    ensures
        r@ == lowered(s@),
{
    let a: Vec<char> = chars_of(s);
    let mut out = String::new();
    let mut i: usize = 0;
    while i < a.len()
        invariant
            i <= a@.len(),
            a@ == s@,
            out@ == lowered(s@).take(i as int),
        decreases a@.len() - i,
    {
        let c: char = a[i];
        if 'A' <= c && c <= 'Z' {
            let low: u8 = c as u8 + 32;
            out.push(low as char);
        } else {
            out.push(c);
        }
        assert(lowered(s@).take(i + 1) =~= lowered(s@).take(i as int).push(lower_char(s@[i as int])));
        i = i + 1;
    }
    assert(lowered(s@).take(i as int) =~= lowered(s@));
    out
}

/// Whether a character is an ASCII decimal digit.
pub open spec fn is_digit(c: char) -> bool {
    '0' <= c && c <= '9'
}

/// Whether a character is an ASCII decimal digit.
pub fn digit(c: char) -> (r: bool)
    ensures
        r == is_digit(c),
{
    '0' <= c && c <= '9'
}

// ------------------------------------------------------------------- numbers

/// The character of a digit below sixteen, in lower case.
pub open spec fn digit_char(d: int) -> char {
    if d < 10 {
        (48 + d) as char
    } else {
        (87 + d) as char
    }
}

/// The decimal text of a number.
pub open spec fn decimal(n: nat) -> Seq<char>
    decreases n,
{
    if n < 10 {
        seq![digit_char(n as int)]
    } else {
        decimal(n / 10).push(digit_char((n % 10) as int))
    }
}

/// The decimal text of a signed number.
pub open spec fn signed_decimal(n: int) -> Seq<char> {
    if n < 0 {
        seq!['-'] + decimal((-n) as nat)
    } else {
        decimal(n as nat)
    }
}

fn push_digit(out: &mut String, d: u8)
    requires
        d < 16,
    ensures
        final(out)@ == old(out)@.push(digit_char(d as int)),
{
    if d < 10 {
        out.push((48 + d) as char);
    } else {
        out.push((87 + d) as char);
    }
}

/// Writes a number in decimal.
pub fn decimal_text(n: u64) -> (r: String)
    ensures
        r@ == decimal(n as nat),
    decreases n,
{
    if n < 10 {
        let mut out = String::new();
        push_digit(&mut out, n as u8);
        assert(out@ =~= decimal(n as nat));
        out
    } else {
        let mut out: String = decimal_text(n / 10);
        push_digit(&mut out, (n % 10) as u8);
        out
    }
}

/// Writes a wide number in decimal.
pub fn wide_decimal_text(n: u128) -> (r: String)
    ensures
        r@ == decimal(n as nat),
    decreases n,
{
    if n < 10 {
        let mut out = String::new();
        push_digit(&mut out, n as u8);
        assert(out@ =~= decimal(n as nat));
        out
    } else {
        let mut out: String = wide_decimal_text(n / 10);
        push_digit(&mut out, (n % 10) as u8);
        out
    }
}

/// Writes a signed number in decimal.
pub fn signed_text(n: i64) -> (r: String)
    ensures
        r@ == signed_decimal(n as int),
{
    if n < 0 {
        let magnitude: u64 = (-(n as i128)) as u64;
        let mut out = String::new();
        out.push('-');
        let digits: String = decimal_text(magnitude);
        out.append(digits.as_str());
        assert(out@ =~= signed_decimal(n as int));
        out
    } else {
        decimal_text(n as u64)
    }
}

/// The hexadecimal text of a number.
pub open spec fn hexadecimal(n: nat) -> Seq<char>
    decreases n,
{
    if n < 16 {
        seq![digit_char(n as int)]
    } else {
        hexadecimal(n / 16).push(digit_char((n % 16) as int))
    }
}

/// Writes a number in hexadecimal.
pub fn hexadecimal_text(n: u64) -> (r: String)
    ensures
        r@ == hexadecimal(n as nat),
    decreases n,
{
    if n < 16 {
        let mut out = String::new();
        push_digit(&mut out, n as u8);
        assert(out@ =~= hexadecimal(n as nat));
        out
    } else {
        let mut out: String = hexadecimal_text(n / 16);
        push_digit(&mut out, (n % 16) as u8);
        out
    }
}

/// The two lower-case hexadecimal digits of a byte.
pub open spec fn hex_byte(b: u8) -> Seq<char> {
    seq![digit_char((b / 16) as int), digit_char((b % 16) as int)]
}

/// The hexadecimal text of some bytes, two digits each.
pub open spec fn hex_bytes(bytes: Seq<u8>) -> Seq<char>
    decreases bytes.len(),
{
    if bytes.len() == 0 {
        Seq::empty()
    } else {
        hex_bytes(bytes.drop_last()) + hex_byte(bytes.last())
    }
}

/// Writes bytes in lower-case hexadecimal.
pub fn hex_text(bytes: &[u8]) -> (r: String)
    ensures
        r@ == hex_bytes(bytes@),
{
    let mut out = String::new();
    let mut i: usize = 0;
    assert(bytes@.take(0) =~= Seq::<u8>::empty());
    while i < bytes.len()
        invariant
            i <= bytes@.len(),
            out@ == hex_bytes(bytes@.take(i as int)),
        decreases bytes@.len() - i,
    {
        let b: u8 = bytes[i];
        let ghost before = out@;
        push_digit(&mut out, b / 16);
        push_digit(&mut out, b % 16);
        assert(out@ =~= before + hex_byte(b));
        assert(bytes@.take(i + 1).drop_last() =~= bytes@.take(i as int));
        i = i + 1;
    }
    assert(bytes@.take(i as int) =~= bytes@);
    out
}

/// Hexadecimal text has two digits a byte, all of them lower-case digits.
pub proof fn lemma_hex_bytes(bytes: Seq<u8>)
    ensures
        hex_bytes(bytes).len() == 2 * bytes.len(),
        forall|i: int|
            0 <= i < hex_bytes(bytes).len() ==> is_hex_lower(#[trigger] hex_bytes(bytes)[i]),
    decreases bytes.len(),
{
    if bytes.len() > 0 {
        lemma_hex_bytes(bytes.drop_last());
    }
}

/// Whether a character is a lower-case hexadecimal digit.
pub open spec fn is_hex_lower(c: char) -> bool {
    is_digit(c) || ('a' <= c && c <= 'f')
}

// ------------------------------------------------------------ reading numbers

/// The number that a non-empty text of decimal digits spells.
pub open spec fn digits_value(s: Seq<char>) -> Option<nat>
    decreases s.len(),
{
    if s.len() == 0 || !is_digit(s.last()) {
        None
    } else if s.len() == 1 {
        Some((s[0] as int - 48) as nat)
    } else {
        match digits_value(s.drop_last()) {
            Some(high) => Some((high * 10 + (s.last() as int - 48)) as nat),
            None => None,
        }
    }
}

/// The number that an optional `+` and digits spell.
pub open spec fn unsigned_value(s: Seq<char>) -> Option<int> {
    match digits_value(
        if s.len() > 0 && s[0] == '+' {
            s.skip(1)
        } else {
            s
        },
    ) {
        Some(n) => Some(n as int),
        None => None,
    }
}

/// The number that an optional sign and digits spell.
pub open spec fn signed_value(s: Seq<char>) -> Option<int> {
    if s.len() > 0 && s[0] == '-' {
        match digits_value(s.skip(1)) {
            Some(n) => Some(-(n as int)),
            None => None,
        }
    } else {
        unsigned_value(s)
    }
}

/// What `str::parse::<u64>` says of a text that it refuses.
pub uninterp spec fn u64_parse_error(s: Seq<char>) -> Seq<char>;

/// What `str::parse::<i32>` says of a text that it refuses.
pub uninterp spec fn i32_parse_error(s: Seq<char>) -> Seq<char>;

/// What `str::parse::<usize>` says of a text that it refuses.
pub uninterp spec fn usize_parse_error(s: Seq<char>) -> Seq<char>;

/// Where digits spell a number, so do those in front, and not a larger one.
proof fn lemma_digits_prefix(s: Seq<char>, k: int)
    requires
        1 <= k <= s.len(),
    ensures
        digits_value(s) matches Some(n) ==> digits_value(s.take(k)) matches Some(m) && m <= n,
    decreases s.len(),
{
    if k < s.len() {
        lemma_digits_prefix(s.drop_last(), k);
        assert(s.drop_last().take(k) =~= s.take(k));
    } else {
        assert(s.take(k) =~= s);
    }
}

/// Reads decimal digits from a place on; nothing where there are none, something
/// else, or their number is larger than the limit.
fn read_digits(chars: &Vec<char>, from: usize, most: u64) -> (r: Option<u64>)
    requires
        from <= chars@.len(),
    ensures
        r is Some <==> (digits_value(chars@.skip(from as int)) matches Some(n) && n <= most),
        r matches Some(v) ==> digits_value(chars@.skip(from as int)) == Some(v as nat),
{
    let ghost s = chars@.skip(from as int);
    if from == chars.len() {
        return None;
    }
    let mut value: u128 = 0;
    let mut i: usize = from;
    while i < chars.len()
        invariant
            from < chars@.len(),
            from <= i <= chars@.len(),
            s == chars@.skip(from as int),
            value <= most,
            i == from ==> value == 0,
            i > from ==> digits_value(s.take(i - from)) == Some(value as nat),
        decreases chars@.len() - i,
    {
        let c: char = chars[i];
        let ghost k = i - from;
        proof {
            assert(s.take(k + 1).last() == c);
            assert(s.take(k + 1).drop_last() =~= s.take(k));
            lemma_digits_prefix(s, k + 1);
        }
        if !digit(c) {
            return None;
        }
        value = value * 10 + (c as u128 - 48);
        assert(digits_value(s.take(k + 1)) == Some(value as nat)) by {
            if k == 0 {
                assert(s.take(1)[0] == c);
            }
        }
        if value > most as u128 {
            return None;
        }
        i = i + 1;
    }
    assert(s.take(s.len() as int) =~= s);
    Some(value as u64)
}

/// Reads an optional `+` and decimal digits whose number fits.
pub(crate) fn parse_u32(s: &str) -> (r: Option<u32>)
    ensures
        r is Some <==> (unsigned_value(s@) matches Some(n) && n <= u32::MAX),
        r matches Some(v) ==> unsigned_value(s@) == Some(v as int),
{
    let chars: Vec<char> = chars_of(s);
    let from: usize = if chars.len() > 0 && chars[0] == '+' {
        1
    } else {
        0
    };
    assert(chars@.skip(0) =~= chars@);
    match read_digits(&chars, from, 0xffff_ffff) {
        Some(n) => Some(n as u32),
        None => None,
    }
}

/// `str::parse::<u64>`: an optional `+` and decimal digits whose number fits,
/// else the text of its error, which is a function of the input.
#[verifier::external_body]
pub(crate) fn parse_u64(s: &str) -> (r: Result<u64, String>)
    ensures
        r is Ok <==> (unsigned_value(s@) matches Some(n) && n <= u64::MAX),
        r matches Ok(v) ==> unsigned_value(s@) == Some(v as int),
        r matches Err(e) ==> e@ == u64_parse_error(s@),
{
    s.parse::<u64>().map_err(|e| e.to_string())
}

/// `str::parse::<usize>`: an optional `+` and decimal digits whose number fits,
/// else the text of its error, which is a function of the input.
#[verifier::external_body]
pub(crate) fn parse_usize(s: &str) -> (r: Result<usize, String>)
    ensures
        r is Ok <==> (unsigned_value(s@) matches Some(n) && n <= usize::MAX),
        r matches Ok(v) ==> unsigned_value(s@) == Some(v as int),
        r matches Err(e) ==> e@ == usize_parse_error(s@),
{
    s.parse::<usize>().map_err(|e| e.to_string())
}

/// `str::parse::<i32>`: an optional sign and decimal digits whose number fits,
/// else the text of its error, which is a function of the input.
#[verifier::external_body]
pub(crate) fn parse_i32(s: &str) -> (r: Result<i32, String>)
    ensures
        r is Ok <==> (signed_value(s@) matches Some(n) && i32::MIN <= n <= i32::MAX),
        r matches Ok(v) ==> signed_value(s@) == Some(v as int),
        r matches Err(e) ==> e@ == i32_parse_error(s@),
{
    s.parse::<i32>().map_err(|e| e.to_string())
}

/// Reads an optional sign and decimal digits whose number fits.
pub(crate) fn parse_i64(s: &str) -> (r: Option<i64>)
    ensures
        r is Some <==> (signed_value(s@) matches Some(n) && i64::MIN <= n <= i64::MAX),
        r matches Some(v) ==> signed_value(s@) == Some(v as int),
{
    let chars: Vec<char> = chars_of(s);
    assert(chars@.skip(0) =~= chars@);
    if chars.len() > 0 && chars[0] == '-' {
        match read_digits(&chars, 1, 0x8000_0000_0000_0000) {
            Some(n) => Some((0 - n as i128) as i64),
            None => None,
        }
    } else {
        let from: usize = if chars.len() > 0 && chars[0] == '+' {
            1
        } else {
            0
        };
        match read_digits(&chars, from, 0x7fff_ffff_ffff_ffff) {
            Some(n) => Some(n as i64),
            None => None,
        }
    }
}

// ----------------------------------------------------------------------- laws

/// Trimming takes white space off the two ends and nothing else: what is left stands
/// in the text, only white space stands around it, and it neither starts nor ends
/// with any.
pub proof fn law_trimmed(s: Seq<char>)
    ensures
        exists|i: int, j: int|
            {
                &&& 0 <= i <= j <= s.len()
                &&& trimmed(s) == #[trigger] s.subrange(i, j)
                &&& forall|k: int| 0 <= k < i ==> is_white_space(#[trigger] s[k])
                &&& forall|k: int| j <= k < s.len() ==> is_white_space(#[trigger] s[k])
                &&& i < j ==> !is_white_space(s[i]) && !is_white_space(s[j - 1])
            },
        is_blank(s) <==> forall|k: int| 0 <= k < s.len() ==> is_white_space(#[trigger] s[k]),
{
    let i = lemma_start(s);
    let t = s.skip(i);
    let n = lemma_end(t);
    let j = i + n;
    assert(trimmed(s) =~= s.subrange(i, j));
    assert forall|k: int| j <= k < s.len() implies is_white_space(#[trigger] s[k]) by {
        assert(t[k - i] == s[k]);
    }
    if i < j {
        assert(t[0] == s[i]);
        assert(t[n - 1] == s[j - 1]);
        assert(!is_white_space(s[i]));
    }
}

proof fn lemma_start(s: Seq<char>) -> (i: int)
    ensures
        0 <= i <= s.len(),
        trimmed_start(s) == s.skip(i),
        forall|k: int| 0 <= k < i ==> is_white_space(#[trigger] s[k]),
        i < s.len() ==> !is_white_space(s[i]),
    decreases s.len(),
{
    if s.len() > 0 && is_white_space(s[0]) {
        let i = lemma_start(s.skip(1));
        assert(s.skip(1).skip(i) =~= s.skip(i + 1));
        assert forall|k: int| 0 <= k < i + 1 implies is_white_space(#[trigger] s[k]) by {
            if k > 0 {
                assert(s.skip(1)[k - 1] == s[k]);
            }
        }
        i + 1
    } else {
        assert(s.skip(0) =~= s);
        0
    }
}

proof fn lemma_end(s: Seq<char>) -> (n: int)
    ensures
        0 <= n <= s.len(),
        trimmed_end(s) == s.take(n),
        forall|k: int| n <= k < s.len() ==> is_white_space(#[trigger] s[k]),
        n > 0 ==> !is_white_space(s[n - 1]),
    decreases s.len(),
{
    if s.len() > 0 && is_white_space(s.last()) {
        let n = lemma_end(s.drop_last());
        assert(s.drop_last().take(n) =~= s.take(n));
        assert forall|k: int| n <= k < s.len() implies is_white_space(#[trigger] s[k]) by {
            if k < s.len() - 1 {
                assert(s.drop_last()[k] == s[k]);
            }
        }
        n
    } else {
        assert(s.take(s.len() as int) =~= s);
        s.len() as int
    }
}

/// Taking a character off an end takes all of it there and nothing else.
pub proof fn law_ends_without(s: Seq<char>, c: char)
    ensures
        ({
            let front = without_trailing(s, c);
            let back = without_leading(s, c);
            &&& front.len() <= s.len() && front == s.take(front.len() as int)
            &&& front.len() > 0 ==> front.last() != c
            &&& forall|k: int| front.len() <= k < s.len() ==> (#[trigger] s[k]) == c
            &&& back.len() <= s.len() && back == s.skip(s.len() - back.len())
            &&& back.len() > 0 ==> back[0] != c
            &&& forall|k: int| 0 <= k < s.len() - back.len() ==> (#[trigger] s[k]) == c
        }),
    decreases s.len(),
{
    if s.len() > 0 {
        law_ends_without(s.drop_last(), c);
        law_ends_without(s.skip(1), c);
        let front = without_trailing(s, c);
        let back = without_leading(s, c);
        if s.last() == c {
            assert(s.drop_last().take(front.len() as int) =~= s.take(front.len() as int));
            assert forall|k: int| front.len() <= k < s.len() implies (#[trigger] s[k]) == c by {
                if k < s.len() - 1 {
                    assert(s.drop_last()[k] == s[k]);
                }
            }
        } else {
            assert(s.take(s.len() as int) =~= s);
        }
        if s[0] == c {
            assert(s.skip(1).skip(s.len() - 1 - back.len()) =~= s.skip(s.len() - back.len()));
            assert forall|k: int| 0 <= k < s.len() - back.len() implies (#[trigger] s[k]) == c by {
                if k > 0 {
                    assert(s.skip(1)[k - 1] == s[k]);
                }
            }
        } else {
            assert(s.skip(0) =~= s);
        }
    } else {
        assert(s.take(0) =~= s);
        assert(s.skip(0) =~= s);
    }
}

/// A text holds another exactly where it stands at some place, has it as a prefix
/// exactly where it is that prefix and more, and as a suffix likewise.
pub proof fn law_where_texts_stand(s: Seq<char>, p: Seq<char>, rest: Seq<char>)
    ensures
        contains_text(s, p) <==> exists|a: Seq<char>, b: Seq<char>| s == #[trigger] ((a + p) + b),
        stripped_prefix(s, p) == Some(rest) <==> s == p + rest,
        has_suffix(s, p) <==> exists|a: Seq<char>| s == #[trigger] (a + p),
{
    lemma_find_from(s, p, 0);
    if contains_text(s, p) {
        let k = find_from(s, p, 0)->0;
        assert(s =~= (s.take(k) + p) + s.skip(k + p.len()));
    }
    if exists|a: Seq<char>, b: Seq<char>| s == #[trigger] ((a + p) + b) {
        let (a, b) = choose|a: Seq<char>, b: Seq<char>| s == #[trigger] ((a + p) + b);
        assert(s.subrange(a.len() as int, (a.len() + p.len()) as int) =~= p);
        assert(occurs_at(s, p, a.len() as int));
    }
    if s == p + rest {
        assert(s.take(p.len() as int) =~= p);
        assert(s.skip(p.len() as int) =~= rest);
    }
    if stripped_prefix(s, p) == Some(rest) {
        assert(s =~= p + rest);
    }
    if has_suffix(s, p) {
        assert(s =~= s.take(s.len() - p.len()) + p);
    }
    if exists|a: Seq<char>| s == #[trigger] (a + p) {
        let a = choose|a: Seq<char>| s == #[trigger] (a + p);
        assert(s.skip(s.len() - p.len()) =~= p);
    }
}

/// Replacing changes every occurrence, from the left, and nothing else: what stands
/// before the first one stays, and what stands behind it is treated alike. A text
/// without one stays as it is.
pub proof fn law_replaced(s: Seq<char>, p: Seq<char>, by: Seq<char>, k: int)
    requires
        p.len() > 0,
    ensures
        !contains_text(s, p) ==> replaced(s, p, by) == s,
        find_from(s, p, 0) == Some(k) ==> replaced(s, p, by) == s.take(k) + by + replaced(
            s.skip(k + p.len()),
            p,
            by,
        ),
    decreases s.len(),
{
    lemma_find_from(s, p, 0);
    if s.len() > 0 && !occurs_at(s, p, 0) {
        let rest = s.skip(1);
        law_replaced(rest, p, by, k - 1);
        lemma_find_from(rest, p, 0);
        assert forall|j: int| 0 <= j implies occurs_at(rest, p, j) == occurs_at(s, p, j + 1) by {
            if j + 1 + p.len() <= s.len() {
                assert(rest.subrange(j, j + p.len()) =~= s.subrange(j + 1, j + 1 + p.len()));
            }
        }
        if find_from(s, p, 0) is None {
            if find_from(rest, p, 0) is Some {
                let j = find_from(rest, p, 0)->0;
                assert(occurs_at(s, p, j + 1));
            }
            assert(seq![s[0]] + rest =~= s);
        } else if find_from(s, p, 0) == Some(k) {
            assert(occurs_at(rest, p, k - 1));
            let j = find_from(rest, p, 0)->0;
            assert(occurs_at(s, p, j + 1));
            assert(j == k - 1);
            assert(rest.skip(k - 1 + p.len()) =~= s.skip(k + p.len()));
            assert(seq![s[0]] + (rest.take(k - 1) + by + replaced(s.skip(k + p.len()), p, by))
                =~= s.take(k) + by + replaced(s.skip(k + p.len()), p, by));
        }
    } else if s.len() > 0 {
        assert(s.take(0) + by =~= by);
        assert(find_from(s, p, 0) == Some(0int));
    } else {
        assert(find_from(s, p, 0) is None);
    }
}

/// Lower case changes the letters from A to Z, each to its own, and nothing else.
pub proof fn law_lowered(s: Seq<char>, i: int)
    requires
        0 <= i < s.len(),
    ensures
        lowered(s).len() == s.len(),
        if 'A' <= s[i] && s[i] <= 'Z' {
            lowered(s)[i] as int == s[i] as int + 32
        } else {
            lowered(s)[i] == s[i]
        },
{
}

/// A number in decimal is read back as that number, with or without its sign, and
/// has no digit too many.
pub proof fn law_decimal_is_read_back(n: nat)
    ensures
        digits_value(decimal(n)) == Some(n),
        decimal(n).len() >= 1,
        decimal(n).len() > 1 ==> decimal(n)[0] != '0',
        forall|i: int| 0 <= i < decimal(n).len() ==> is_digit(#[trigger] decimal(n)[i]),
        unsigned_value(decimal(n)) == Some(n as int),
        signed_value(signed_decimal(n as int)) == Some(n as int),
        signed_value(signed_decimal(-(n as int))) == Some(-(n as int)),
    decreases n,
{
    let s = decimal(n);
    if n >= 10 {
        law_decimal_is_read_back(n / 10);
        assert(s.drop_last() =~= decimal(n / 10));
        assert(s[0] == decimal(n / 10)[0]);
        if n / 10 < 10 {
            assert(decimal(n / 10).len() == 1);
        }
        assert forall|i: int| 0 <= i < s.len() implies is_digit(#[trigger] s[i]) by {
            if i < s.len() - 1 {
                assert(s[i] == decimal(n / 10)[i]);
            }
        }
    }
    assert(is_digit(s[0]));
    assert((seq!['-'] + s).skip(1) =~= s);
}

/// The digits of a number stand for it: the last for ones, the one before for tens,
/// and so on.
pub proof fn law_digits_have_their_places(s: Seq<char>, c: char)
    requires
        digits_value(s) is Some,
        is_digit(c),
    ensures
        digits_value(s.push(c)) == Some((digits_value(s)->0 * 10 + (c as int - 48)) as nat),
        digits_value(seq![c]) == Some((c as int - 48) as nat),
        digits_value(Seq::<char>::empty()) is None,
        forall|d: char| !is_digit(d) ==> #[trigger] digits_value(s.push(d)) is None,
{
    assert(s.push(c).drop_last() =~= s);
    assert(s.push(c).last() == c);
    assert forall|d: char| !is_digit(d) implies #[trigger] digits_value(s.push(d)) is None by {
        assert(s.push(d).last() == d);
    }
}

/// A byte in hexadecimal has its high half first, and each half in a digit of its
/// own, from 0 to 9 and from a to f.
pub proof fn law_hexadecimal(b: u8, n: nat)
    ensures
        hex_byte(b).len() == 2,
        hex_byte(b)[0] == hexadecimal((b / 16) as nat)[0],
        hex_byte(b)[1] == hexadecimal((b % 16) as nat)[0],
        n < 10 ==> hexadecimal(n) == seq![('0' as u8 + n) as char],
        10 <= n < 16 ==> hexadecimal(n) == seq![('a' as u8 + (n - 10)) as char],
        n >= 16 ==> hexadecimal(n) == hexadecimal(n / 16) + hexadecimal(n % 16),
{
    reveal_with_fuel(hexadecimal, 2);
    if n >= 16 {
        assert(hexadecimal(n) =~= hexadecimal(n / 16) + hexadecimal(n % 16));
    }
}

/// The lines of a text are what stands before its first line feed, without a
/// carriage return at its end, and then the lines of what stands behind; nothing has
/// no lines, and a text without a line feed is one.
pub proof fn law_lines(line: Seq<char>, rest: Seq<char>)
    requires
        forall|i: int| 0 <= i < line.len() ==> (#[trigger] line[i]) != '\n',
    ensures
        lines_of(Seq::<char>::empty()).len() == 0,
        line.len() > 0 ==> lines_of(line) == seq![line],
        lines_of(line.push('\n') + rest) == seq![
            if line.len() > 0 && line.last() == '\r' {
                line.drop_last()
            } else {
                line
            },
        ] + lines_of(rest),
{
    let s = line.push('\n') + rest;
    let k = line.len() as int;
    assert(s[k] == '\n');
    assert forall|j: int| 0 <= j < k implies s[j] != '\n' by {
        assert(s[j] == line[j]);
    }
    lemma_find_char_first(s, '\n', 0, k);
    assert(s.take(k) =~= line);
    assert(s.skip(k + 1) =~= rest);
    lemma_find_char_first(line, '\n', 0, k);
}

} // verus!
