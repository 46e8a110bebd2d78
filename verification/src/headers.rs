//! Headers of requests, and where requests go.
use vstd::prelude::*;
#[allow(unused_imports)]
use vstd::string::*;

#[allow(unused_imports)]
use crate::text::{chars_of, option_view};

verus! {

/// Extra headers: `indexmap::IndexMap`, which keeps its entries in the order in
/// which they came.
#[verifier::external_type_specification]
#[verifier::external_body]
#[verifier::reject_recursive_types(K)]
#[verifier::reject_recursive_types(V)]
#[verifier::reject_recursive_types(S)]
pub struct ExIndexMap<K, V, S>(indexmap::IndexMap<K, V, S>);

/// The entries of a map of headers, in order.
pub uninterp spec fn header_entries(m: indexmap::IndexMap<String, String>) -> Seq<
    (Seq<char>, Seq<char>),
>;

/// What some pairs of texts hold.
pub open spec fn pair_views(s: Seq<(String, String)>) -> Seq<(Seq<char>, Seq<char>)> {
    s.map_values(|p: (String, String)| (p.0@, p.1@))
}

/// Walks `indexmap::IndexMap::iter` and copies the entries, in order.
#[verifier::external_body]
pub(crate) fn header_list(m: &indexmap::IndexMap<String, String>) -> (r: Vec<(String, String)>)
    ensures
        pair_views(r@) == header_entries(*m),
{
    m.iter().map(|(k, v)| (k.clone(), v.clone())).collect()
}

/// Calls `indexmap::IndexMap::clone`: the copy has the same entries in the same
/// order.
#[verifier::external_body]
pub(crate) fn copy_headers(m: &indexmap::IndexMap<String, String>) -> (r: indexmap::IndexMap<
    String,
    String,
>)
    ensures
        header_entries(r) == header_entries(*m),
{
    m.clone()
}

/// Headers as they are shown in a log.
pub uninterp spec fn shown_headers(s: Seq<(Seq<char>, Seq<char>)>) -> Seq<char>;

/// Prints an `indexmap::IndexMap` with `{:?}`; the result is a function of the
/// entries and their order alone.
#[verifier::external_body]
pub(crate) fn show_headers(m: &indexmap::IndexMap<String, String>) -> (r: String)
    ensures
        r@ == shown_headers(header_entries(*m)),
{
    format!("{m:?}")
}

/// An entry has a name.
pub open spec fn has_entry(s: Seq<(Seq<char>, Seq<char>)>, name: Seq<char>) -> bool {
    exists|i: int| 0 <= i < s.len() && (#[trigger] s[i]).0 == name
}

/// Calls `indexmap::IndexMap::entry` and `Entry::or_insert_with`: an entry of
/// that name stays as it is, and without one a new entry comes last.
#[verifier::external_body]
pub(crate) fn insert_absent(m: &mut indexmap::IndexMap<String, String>, name: &str, value: &str)
    ensures
        header_entries(*final(m)) == (if has_entry(header_entries(*old(m)), name@) {
            header_entries(*old(m))
        } else {
            header_entries(*old(m)).push((name@, value@))
        }),
{
    m.entry(name.to_string()).or_insert_with(|| value.to_string());
}

/// A header that is sent, under its name in lower case.
#[derive(Debug)]
pub struct Header {
    pub name: String,
    pub value: String,
}

/// What a header holds.
pub type HeaderView = (Seq<char>, Seq<char>);

/// What some headers hold.
pub open spec fn header_views(s: Seq<Header>) -> Seq<HeaderView> {
    s.map_values(|h: Header| (h.name@, h.value@))
}

/// The name of a header as it is sent, if it is a name.
pub uninterp spec fn header_name(s: Seq<char>) -> Option<Seq<char>>;

/// Calls `reqwest::header::HeaderName::from_bytes`; the result is a function of
/// the text alone. A name that was read is read as itself, and so are the
/// standard names `content-type` and `authorization`. The error reads the same
/// for every text that is no name.
#[verifier::external_body]
pub(crate) fn read_header_name(s: &str) -> (r: Result<String, String>)
    ensures
        match r {
            Ok(name) => header_name(s@) == Some(name@) && header_name(name@) == Some(name@),
            Err(e) => header_name(s@) is None && e@ == "invalid HTTP header name"@,
        },
        own_name(s@) ==> r is Ok && r->Ok_0@ == s@,
{
    match reqwest::header::HeaderName::from_bytes(s.as_bytes()) {
        Ok(name) => Ok(name.as_str().to_owned()),
        Err(e) => Err(e.to_string()),
    }
}

/// A value that a header may have: no ASCII control character but tabs.
pub open spec fn header_value(s: Seq<char>) -> bool {
    forall|i: int| 0 <= i < s.len() ==> ((#[trigger] s[i]) as int >= 32 && s[i] as int != 127)
        || s[i] == '\t'
}

/// Calls `reqwest::header::HeaderValue::from_str` and says whether it took the
/// value: it takes every byte from 32 on but 127, and tabs, so every character
/// that is no ASCII control; its error reads the same for every other text.
#[verifier::external_body]
pub(crate) fn check_header_value(s: &str) -> (r: Result<(), String>)
    ensures
        match r {
            Ok(_) => header_value(s@),
            Err(e) => !header_value(s@) && e@ == "failed to parse header value"@,
        },
{
    match reqwest::header::HeaderValue::from_str(s) {
        Ok(_) => Ok(()),
        Err(e) => Err(e.to_string()),
    }
}

/// A value of a header: `reqwest::header::HeaderValue`.
#[verifier::external_type_specification]
#[verifier::external_body]
pub struct ExHeaderValue(reqwest::header::HeaderValue);

/// The headers that every request of a client carries:
/// `reqwest::header::HeaderMap`.
#[verifier::external_type_specification]
#[verifier::external_body]
#[verifier::reject_recursive_types(T)]
pub struct ExHeaderMap<T>(reqwest::header::HeaderMap<T>);

/// The headers of a map: the value under each name, the first where there are
/// several, with its bytes read as text.
pub uninterp spec fn header_map(m: reqwest::header::HeaderMap) -> Map<Seq<char>, Seq<char>>;

/// How many headers a map has room for in any case.
pub const HEADER_ROOM: usize = 6554;

/// No headers.
pub open spec fn no_entries() -> Map<Seq<char>, Seq<char>> {
    Map::empty()
}

/// Calls `reqwest::header::HeaderMap::new`: the map is empty.
#[verifier::external_body]
pub(crate) fn no_headers() -> (r: reqwest::header::HeaderMap)
    ensures
        header_map(r) == no_entries(),
{
    reqwest::header::HeaderMap::new()
}

/// Calls `reqwest::header::HeaderMap::try_insert`: the header is put in, in
/// place of all of that name, and the others stay. It may find no room, and then
/// leaves the map as it is. It asks for a table of twice the size where the one
/// that it has is full, or where names clash and a fifth of it is taken, and a
/// table has at most 32768 places; so there is room while fewer than a fifth of
/// those are taken.
#[verifier::external_body]
pub(crate) fn put_header(m: &mut reqwest::header::HeaderMap, name: &str, value: &str) -> (r: bool)
    requires
        header_name(name@) == Some(name@),
        header_value(value@),
    ensures
        header_map(*final(m)) == (if r {
            header_map(*old(m)).insert(name@, value@)
        } else {
            header_map(*old(m))
        }),
        header_map(*old(m)).dom().len() < HEADER_ROOM ==> r,
{
    match (
        reqwest::header::HeaderName::from_bytes(name.as_bytes()),
        reqwest::header::HeaderValue::from_str(value),
    ) {
        (Ok(n), Ok(v)) => m.try_insert(n, v).is_ok(),
        _ => false,
    }
}

/// A map has a header that a text names.
pub open spec fn names_header(m: Map<Seq<char>, Seq<char>>, name: Seq<char>) -> bool {
    header_name(name) is Some && m.contains_key(header_name(name)->0)
}

/// Calls `reqwest::header::HeaderMap::contains_key` for a text, which is read as
/// a name is.
#[verifier::external_body]
pub(crate) fn has_header(m: &reqwest::header::HeaderMap, name: &str) -> (r: bool)
    ensures
        r == names_header(header_map(*m), name@),
{
    m.contains_key(name)
}

/// The value of the header that a text names, if there is one.
pub open spec fn header_under(m: Map<Seq<char>, Seq<char>>, name: Seq<char>) -> Option<Seq<char>> {
    if names_header(m, name) {
        Some(m[header_name(name)->0])
    } else {
        None
    }
}

/// Calls `reqwest::header::HeaderMap::get` for a text, which is read as a name
/// is, and reads the bytes of the value as text.
#[verifier::external_body]
pub(crate) fn find_header(m: &reqwest::header::HeaderMap, name: &str) -> (r: Option<String>)
    ensures
        option_view(r) == header_under(header_map(*m), name@),
{
    m.get(name).map(|v| String::from_utf8_lossy(v.as_bytes()).into_owned())
}

/// A name that the library itself gives to headers.
pub open spec fn own_name(s: Seq<char>) -> bool {
    s == "content-type"@ || s == "authorization"@
}

/// Puts a header under a name of the library's own into a map that has room.
pub(crate) fn put_own_header(m: &mut reqwest::header::HeaderMap, name: &str, value: &str)
    requires
        own_name(name@),
        header_value(value@),
        header_map(*old(m)).dom().len() < HEADER_ROOM,
    ensures
        header_map(*final(m)) == header_map(*old(m)).insert(name@, value@),
{
    if let Ok(n) = read_header_name(name) {
        let _ = put_header(m, n.as_str(), value);
    }
}

/// The value of the header that says that a body is JSON may be sent.
pub(crate) proof fn lemma_json_type()
    ensures
        header_value("application/json"@),
{
    reveal_strlit("application/json");
    let s = "application/json"@;
    assert(s.len() == 16);
    assert(s[0] == 'a' && s[1] == 'p' && s[2] == 'p' && s[3] == 'l' && s[4] == 'i' && s[5] == 'c'
        && s[6] == 'a' && s[7] == 't' && s[8] == 'i' && s[9] == 'o' && s[10] == 'n' && s[11] == '/'
        && s[12] == 'j' && s[13] == 's' && s[14] == 'o' && s[15] == 'n');
}

/// A text without the slashes at its end.
pub open spec fn without_slashes(s: Seq<char>) -> Seq<char>
    decreases s.len(),
{
    if s.len() > 0 && s.last() == '/' {
        without_slashes(s.drop_last())
    } else {
        s
    }
}

/// Takes the slashes off the end of a text.
pub fn trim_slashes<'a>(s: &'a str) -> (r: &'a str)
    ensures
        r@ == without_slashes(s@),
{
    let cs: Vec<char> = chars_of(s);
    let mut to: usize = cs.len();
    proof {
        assert(s@.take(to as int) =~= s@);
    }
    while to > 0 && cs[to - 1] == '/'
        invariant
            to <= cs@.len(),
            cs@ == s@,
            without_slashes(s@) == without_slashes(s@.take(to as int)),
        decreases to,
    {
        proof {
            assert(s@.take(to as int).drop_last() =~= s@.take(to as int - 1));
        }
        to -= 1;
    }
    proof {
        assert(s@.subrange(0, to as int) =~= s@.take(to as int));
    }
    s.substring_char(0, to)
}

/// An address without its slashes is its beginning up to them.
pub proof fn law_only_slashes_are_cut(s: Seq<char>)
    ensures
        without_slashes(s).is_prefix_of(s),
        forall|i: int| without_slashes(s).len() <= i < s.len() ==> (#[trigger] s[i]) == '/',
        without_slashes(s).len() > 0 ==> without_slashes(s).last() != '/',
    decreases s.len(),
{
    if s.len() > 0 && s.last() == '/' {
        law_only_slashes_are_cut(s.drop_last());
        assert forall|i: int| without_slashes(s).len() <= i < s.len() implies (#[trigger] s[i])
            == '/' by {
            if i < s.len() - 1 {
                assert(s.drop_last()[i] == s[i]);
            }
        }
        assert(s.take(without_slashes(s).len() as int) =~= s.drop_last().take(
            without_slashes(s).len() as int,
        ));
    }
}

/// A value may stand in a header where it holds no control characters but the tab.
pub proof fn law_header_values_are_printable(s: Seq<char>)
    ensures
        header_value(s) <==> forall|i: int|
            0 <= i < s.len() ==> (#[trigger] s[i]) == '\t' || (s[i] as int >= 32 && s[i] as int
                != 127),
{
}

/// A header is found under its name in any spelling of it.
pub proof fn law_headers_are_found_by_name(m: Map<Seq<char>, Seq<char>>, name: Seq<char>)
    ensures
        header_under(m, name) is Some <==> header_name(name) is Some && m.contains_key(
            header_name(name)->0,
        ),
        header_under(m, name) is Some ==> header_under(m, name)->0 == m[header_name(name)->0],
{
}

} // verus!
