//! Taking URLs apart and putting them together.
use vstd::prelude::*;
use crate::speech::opt_str;

verus! {

/// The parts of a URL that the library reads.
#[derive(Debug)]
pub struct UrlParts {
    /// The whole URL as it is written.
    pub href: String,
    pub scheme: String,
    pub path: String,
    /// The port, where it is given and not the usual one of the scheme.
    pub port: Option<u16>,
    /// The names and values of the query.
    pub pairs: Vec<(String, String)>,
}

/// The parts of a URL, as a mathematical value.
pub struct UrlModel {
    pub href: Seq<char>,
    pub scheme: Seq<char>,
    pub path: Seq<char>,
    pub port: Option<u16>,
    pub pairs: Seq<(Seq<char>, Seq<char>)>,
}

/// The contents of a list of names and values.
pub open spec fn pairs_of(items: Seq<(String, String)>) -> Seq<(Seq<char>, Seq<char>)> {
    items.map_values(|p: (String, String)| (p.0@, p.1@))
}

impl View for UrlParts {
    type V = UrlModel;

    open spec fn view(&self) -> UrlModel {
        UrlModel {
            href: self.href@,
            scheme: self.scheme@,
            path: self.path@,
            port: self.port,
            pairs: pairs_of(self.pairs@),
        }
    }
}

/// The URL that a text spells, or what is wrong with the text.
pub uninterp spec fn spelled_url(text: Seq<char>) -> Result<UrlModel, Seq<char>>;

/// `url::Url::parse`, the parts of the URL it gives, and the text of its error:
/// functions of the text.
#[verifier::external_body]
pub(crate) fn parse_url(text: &str) -> (r: Result<UrlParts, String>)
    ensures
        match spelled_url(text@) {
            Ok(url) => r matches Ok(parts) && parts@ == url,
            Err(e) => r matches Err(x) && x@ == e,
        },
{
    url::Url::parse(text).map(
        |url|
            UrlParts {
                href: url.as_str().to_string(),
                scheme: url.scheme().to_string(),
                path: url.path().to_string(),
                port: url.port(),
                pairs: url.query_pairs().into_owned().collect(),
            },
    ).map_err(|e| e.to_string())
}

/// The number of bytes that a text has as UTF-8.
pub open spec fn size(s: Seq<char>) -> nat {
    vstd::utf8::encode_utf8(s).len()
}

/// The number of bytes that a URL can have, with a little to spare: where its parts
/// stand is counted in 32 bits.
pub const MAX_URL_BYTES: u32 = 0xffff_ffef;

/// Whether the URL that a text spells can grow by some bytes.
pub open spec fn room(href: Seq<char>, more: nat) -> bool {
    spelled_url(href) matches Ok(url) ==> size(url.href) + more <= MAX_URL_BYTES
}

/// The most bytes that names and values take up in a query: three for each of
/// theirs, and two between them.
pub open spec fn pairs_size(pairs: Seq<(Seq<char>, Seq<char>)>) -> nat
    decreases pairs.len(),
{
    if pairs.len() == 0 {
        0
    } else {
        pairs_size(pairs.drop_last()) + 3 * (size(pairs.last().0) + size(pairs.last().1)) + 2
    }
}

/// A URL under another scheme, where that can be.
pub uninterp spec fn url_with_scheme(href: Seq<char>, scheme: Seq<char>) -> Option<Seq<char>>;

/// `url::Url::set_scheme` on the URL that a text spells: a function of the two
/// texts.
#[verifier::external_body]
pub(crate) fn set_scheme(href: &str, scheme: &str) -> (r: Option<String>)
    requires
        room(href@, size(scheme@)),
    ensures
        match url_with_scheme(href@, scheme@) {
            Some(s) => r matches Some(x) && x@ == s,
            None => r is None,
        },
{
    let mut url = url::Url::parse(href).ok()?;
    url.set_scheme(scheme).ok()?;
    Some(url.into())
}

/// A URL with another path, or what is wrong with the text that should spell it.
pub uninterp spec fn url_with_path(href: Seq<char>, path: Seq<char>) -> Result<
    Seq<char>,
    Seq<char>,
>;

/// `url::Url::set_path` on the URL that a text spells: a function of the two texts.
/// It fails only where the text spells no URL, with the error of `url::Url::parse`.
#[verifier::external_body]
fn set_path(href: &str, path: &str) -> (r: Result<String, String>)
    requires
        room(href@, 3 * size(path@)),
    ensures
        match url_with_path(href@, path@) {
            Ok(s) => r matches Ok(x) && x@ == s,
            Err(e) => r matches Err(x) && x@ == e && spelled_url(href@) == Err::<
                UrlModel,
                Seq<char>,
            >(e),
        },
{
    let mut url = url::Url::parse(href).map_err(|e| e.to_string())?;
    url.set_path(path);
    Ok(url.into())
}

/// A URL without its query, or what is wrong with the text that should spell it.
pub uninterp spec fn url_without_query(href: Seq<char>) -> Result<Seq<char>, Seq<char>>;

/// `url::Url::set_query` with nothing, on the URL that a text spells: a function of
/// the text. It fails only where the text spells no URL, with the error of
/// `url::Url::parse`.
#[verifier::external_body]
fn clear_query(href: &str) -> (r: Result<String, String>)
    requires
        room(href@, 0),
    ensures
        match url_without_query(href@) {
            Ok(s) => r matches Ok(x) && x@ == s,
            Err(e) => r matches Err(x) && x@ == e && spelled_url(href@) == Err::<
                UrlModel,
                Seq<char>,
            >(e),
        },
{
    let mut url = url::Url::parse(href).map_err(|e| e.to_string())?;
    url.set_query(None);
    Ok(url.into())
}

/// A URL with further names and values behind those of its query, or what is wrong
/// with the text that should spell it.
pub uninterp spec fn url_with_pairs(
    href: Seq<char>,
    pairs: Seq<(Seq<char>, Seq<char>)>,
) -> Result<Seq<char>, Seq<char>>;

/// `url::Url::query_pairs_mut` and `extend_pairs` on the URL that a text spells: a
/// function of the text and the pairs. It fails only where the text spells no URL,
/// with the error of `url::Url::parse`.
#[verifier::external_body]
fn extend_query(href: &str, pairs: &Vec<(String, String)>) -> (r: Result<String, String>)
    requires
        room(href@, pairs_size(pairs_of(pairs@))),
    ensures
        match url_with_pairs(href@, pairs_of(pairs@)) {
            Ok(s) => r matches Ok(x) && x@ == s,
            Err(e) => r matches Err(x) && x@ == e && spelled_url(href@) == Err::<
                UrlModel,
                Seq<char>,
            >(e),
        },
{
    let mut url = url::Url::parse(href).map_err(|e| e.to_string())?;
    url.query_pairs_mut().extend_pairs(pairs);
    Ok(url.into())
}

/// What a reference comes to, seen from a URL, or what is wrong with one of them.
pub uninterp spec fn joined_url(base: Seq<char>, reference: Seq<char>) -> Result<
    Seq<char>,
    Seq<char>,
>;

/// `url::Url::parse` of the base and `join` of the reference, and the text of
/// their error: functions of the two texts.
#[verifier::external_body]
pub(crate) fn join_url(base: &str, reference: &str) -> (r: Result<String, String>)
    ensures
        match joined_url(base@, reference@) {
            Ok(s) => r matches Ok(x) && x@ == s,
            Err(e) => r matches Err(x) && x@ == e,
        },
{
    url::Url::parse(base).and_then(|base| base.join(reference)).map(|url| url.to_string()).map_err(
        |e| e.to_string(),
    )
}

// -------------------------------------------------------------------- editing

/// A URL with another path, where one is given.
pub open spec fn repathed(href: Seq<char>, path: Option<Seq<char>>) -> Result<
    Seq<char>,
    Seq<char>,
> {
    match path {
        Some(path) => url_with_path(href, path),
        None => Ok(href),
    }
}

/// That URL without its query, where it is to be cleared.
pub open spec fn stripped(href: Seq<char>, path: Option<Seq<char>>, clear: bool) -> Result<
    Seq<char>,
    Seq<char>,
> {
    match repathed(href, path) {
        Ok(href) if clear => url_without_query(href),
        other => other,
    }
}

/// A URL with another path, where one is given, and with further names and values,
/// behind those that it has or in place of them.
pub open spec fn edited(
    href: Seq<char>,
    path: Option<Seq<char>>,
    clear: bool,
    pairs: Seq<(Seq<char>, Seq<char>)>,
) -> Result<Seq<char>, Seq<char>> {
    match stripped(href, path, clear) {
        Ok(href) => url_with_pairs(href, pairs),
        Err(e) => Err(e),
    }
}

/// Whether there is room for every step of that.
pub open spec fn edit_room(
    href: Seq<char>,
    path: Option<Seq<char>>,
    clear: bool,
    pairs: Seq<(Seq<char>, Seq<char>)>,
) -> bool {
    &&& path matches Some(path) ==> room(href, 3 * size(path))
    &&& clear && repathed(href, path) is Ok ==> room(repathed(href, path)->Ok_0, 0)
    &&& stripped(href, path, clear) matches Ok(bare) ==> room(bare, pairs_size(pairs))
}

pub(crate) fn size_of(s: &str) -> (r: u128)
    ensures
        r == size(s@),
        r <= usize::MAX,
{
    s.as_bytes().len() as u128
}

/// Whether the URL that a text spells can grow by some bytes.
pub fn has_room(href: &str, more: u128) -> (r: bool)
    ensures
        r == room(href@, more as nat),
{
    match parse_url(href) {
        Ok(url) => {
            let held: u128 = size_of(url.href.as_str());
            let most: u128 = MAX_URL_BYTES as u128;
            held <= most && more <= most - held
        },
        Err(_) => true,
    }
}

fn has_room_for_pairs(href: &str, pairs: &Vec<(String, String)>) -> (r: bool)
    ensures
        r == room(href@, pairs_size(pairs_of(pairs@))),
{
    let ghost all = pairs_of(pairs@);
    let mut left: u128 = match parse_url(href) {
        Ok(url) => {
            let held: u128 = size_of(url.href.as_str());
            let most: u128 = MAX_URL_BYTES as u128;
            if held > most {
                proof {
                    lemma_pairs_size(all, 0);
                    assert(all.take(0) =~= Seq::empty());
                }
                return false;
            }
            most - held
        },
        Err(_) => {
            return true;
        },
    };
    let ghost begun = left;
    let mut i: usize = 0;
    assert(all.take(0) =~= Seq::empty());
    while i < pairs.len()
        invariant
            i <= pairs@.len(),
            all == pairs_of(pairs@),
            left <= begun <= MAX_URL_BYTES,
            begun - pairs_size(all.take(i as int)) == left,
            room(href@, pairs_size(all)) == (pairs_size(all) <= begun),
        decreases pairs@.len() - i,
    {
        let name: u128 = size_of(pairs[i].0.as_str());
        let value: u128 = size_of(pairs[i].1.as_str());
        let more: u128 = 3 * (name + value) + 2;
        assert(all.take(i + 1).drop_last() =~= all.take(i as int));
        assert(all.take(i + 1).last() == (pairs@[i as int].0@, pairs@[i as int].1@));
        if more > left {
            proof {
                lemma_pairs_size(all, i + 1);
            }
            return false;
        }
        left = left - more;
        i = i + 1;
    }
    assert(all.take(i as int) =~= all);
    true
}

proof fn lemma_pairs_size(pairs: Seq<(Seq<char>, Seq<char>)>, n: int)
    requires
        0 <= n <= pairs.len(),
    ensures
        pairs_size(pairs.take(n)) <= pairs_size(pairs),
    decreases pairs.len() - n,
{
    if n < pairs.len() {
        lemma_pairs_size(pairs, n + 1);
        assert(pairs.take(n + 1).drop_last() =~= pairs.take(n));
    } else {
        assert(pairs.take(n) =~= pairs);
    }
}

fn strip(href: &str, path: Option<&str>, clear: bool) -> (r: Result<String, String>)
    requires
        path matches Some(path) ==> room(href@, 3 * size(path@)),
        clear && repathed(href@, opt_str(path)) is Ok ==> room(
            repathed(href@, opt_str(path))->Ok_0,
            0,
        ),
    ensures
        match stripped(href@, opt_str(path), clear) {
            Ok(s) => r matches Ok(x) && x@ == s,
            Err(e) => r matches Err(x) && x@ == e,
        },
{
    let moved: String = match path {
        Some(path) => match set_path(href, path) {
            Ok(moved) => moved,
            Err(e) => {
                return Err(e);
            },
        },
        None => href.to_owned(),
    };
    if clear {
        clear_query(moved.as_str())
    } else {
        Ok(moved)
    }
}

/// Gives a URL another path, where one is given, and further names and values,
/// behind those that it has or in place of them.
pub(crate) fn edit_url(
    href: &str,
    path: Option<&str>,
    clear: bool,
    pairs: &Vec<(String, String)>,
) -> (r: Result<String, String>)
    requires
        edit_room(href@, opt_str(path), clear, pairs_of(pairs@)),
    ensures
        match edited(href@, opt_str(path), clear, pairs_of(pairs@)) {
            Ok(s) => r matches Ok(x) && x@ == s,
            Err(e) => r matches Err(x) && x@ == e,
        },
{
    match strip(href, path, clear) {
        Ok(bare) => extend_query(bare.as_str(), pairs),
        Err(e) => Err(e),
    }
}

/// Whether there is room for every step of that.
pub(crate) fn has_edit_room(
    href: &str,
    path: Option<&str>,
    clear: bool,
    pairs: &Vec<(String, String)>,
) -> (r: bool)
    ensures
        r == edit_room(href@, opt_str(path), clear, pairs_of(pairs@)),
{
    let moved: Result<String, String> = match path {
        Some(path) => {
            if !has_room(href, 3 * size_of(path)) {
                return false;
            }
            set_path(href, path)
        },
        None => Ok(href.to_owned()),
    };
    let bare: Result<String, String> = match moved {
        Ok(moved) => {
            if clear {
                if !has_room(moved.as_str(), 0) {
                    return false;
                }
                clear_query(moved.as_str())
            } else {
                Ok(moved)
            }
        },
        Err(e) => Err(e),
    };
    match bare {
        Ok(bare) => has_room_for_pairs(bare.as_str(), pairs),
        Err(_) => true,
    }
}

/// A name with its value.
pub(crate) fn pair(name: &str, value: &str) -> (r: (String, String))
    ensures
        r.0@ == name@,
        r.1@ == value@,
{
    (name.to_owned(), value.to_owned())
}

// ----------------------------------------------------------------------- laws

/// A URL is edited in this order: its path, then its query is cleared, then names and
/// values are put behind what is left. Steps that are not asked for are left out,
/// and the first that fails says why.
pub proof fn law_edits_have_an_order(
    href: Seq<char>,
    path: Seq<char>,
    pairs: Seq<(Seq<char>, Seq<char>)>,
    moved: Seq<char>,
    bare: Seq<char>,
    e: Seq<char>,
)
    ensures
        edited(href, None, false, pairs) == url_with_pairs(href, pairs),
        url_without_query(href) == Ok::<Seq<char>, Seq<char>>(bare) ==> edited(
            href,
            None,
            true,
            pairs,
        ) == url_with_pairs(bare, pairs),
        url_with_path(href, path) == Ok::<Seq<char>, Seq<char>>(moved) ==> edited(
            href,
            Some(path),
            false,
            pairs,
        ) == url_with_pairs(moved, pairs),
        url_with_path(href, path) == Ok::<Seq<char>, Seq<char>>(moved) && url_without_query(moved)
            == Ok::<Seq<char>, Seq<char>>(bare) ==> edited(href, Some(path), true, pairs)
            == url_with_pairs(bare, pairs),
        url_with_path(href, path) == Err::<Seq<char>, Seq<char>>(e) ==> edited(
            href,
            Some(path),
            true,
            pairs,
        ) == Err::<Seq<char>, Seq<char>>(e),
        url_without_query(href) == Err::<Seq<char>, Seq<char>>(e) ==> edited(
            href,
            None,
            true,
            pairs,
        ) == Err::<Seq<char>, Seq<char>>(e),
{
}

} // verus!
