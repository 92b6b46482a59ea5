//! The platform's content identifier, taken out of a video URL.
//!
//! Two shapes are recognised. In the short one the host is `youtu.be` and the
//! identifier is the first segment of the path; in the long one the host is one of the
//! platform's own and the identifier is the value of the `v` query parameter.

use vstd::prelude::*;

use crate::error::IngestError;
use crate::text::{
    find_char, lemma_position_of, opt_text, pair_views, position_of, same_text, slice_string,
    to_chars,
};

verus! {

/// What the identifier is read from in a URL: host, path and query, as text.
#[derive(Debug, Clone, PartialEq, Eq)]
pub struct UrlParts {
    pub host: Option<String>,
    pub path: String,
    pub query: Option<String>,
}

/// The characters of a `UrlParts`.
pub struct UrlPartsView {
    pub host: Option<Seq<char>>,
    pub path: Seq<char>,
    pub query: Option<Seq<char>>,
}

impl View for UrlParts {
    type V = UrlPartsView;

    open spec fn view(&self) -> UrlPartsView {
        UrlPartsView { host: opt_text(self.host), path: self.path@, query: opt_text(self.query) }
    }
}

/// The parts of an optional `UrlParts`.
pub open spec fn opt_parts(p: Option<UrlParts>) -> Option<UrlPartsView> {
    match p {
        Some(parts) => Some(parts@),
        None => None,
    }
}

/// Host, path and query of `input` as the `url` crate reads them; `None` where it
/// does not take `input` for an absolute URL.
pub uninterp spec fn parsed_url(input: Seq<char>) -> Option<UrlPartsView>;

/// The pieces of `s` between the occurrences of `sep`: one more piece than there are
/// separators, empty pieces included.
pub open spec fn pieces(s: Seq<char>, sep: char) -> Seq<Seq<char>>
    decreases s.len(),
{
    let at = position_of(s, sep);
    if 0 <= at < s.len() {
        seq![s.take(at)] + pieces(s.skip(at + 1), sep)
    } else {
        seq![s]
    }
}

/// The key and value of one piece of a query string: the text before its first `=`
/// and the text between its first and second `=` (or its end). A piece without `=`
/// is no parameter.
pub open spec fn pair_of(piece: Seq<char>) -> Option<(Seq<char>, Seq<char>)> {
    let parts = pieces(piece, '=');
    if parts.len() >= 2 {
        Some((parts[0], parts[1]))
    } else {
        None
    }
}

/// The parameters among `parts`, in order.
pub open spec fn pairs_among(parts: Seq<Seq<char>>) -> Seq<(Seq<char>, Seq<char>)>
    decreases parts.len(),
{
    if parts.len() == 0 {
        Seq::empty()
    } else {
        let rest = pairs_among(parts.drop_first());
        match pair_of(parts[0]) {
            Some(pair) => seq![pair] + rest,
            None => rest,
        }
    }
}

/// The parameters of a query string: its `&`-separated pieces that hold a `=`, each
/// as key and value, in order. Nothing is percent-decoded.
pub open spec fn query_pairs(query: Seq<char>) -> Seq<(Seq<char>, Seq<char>)> {
    pairs_among(pieces(query, '&'))
}

/// The value of the first parameter named `key`.
pub open spec fn value_for(pairs: Seq<(Seq<char>, Seq<char>)>, key: Seq<char>) -> Option<
    Seq<char>,
>
    decreases pairs.len(),
{
    if pairs.len() == 0 {
        None
    } else if pairs[0].0 == key {
        Some(pairs[0].1)
    } else {
        value_for(pairs.drop_first(), key)
    }
}

/// The first segment of a path: the text between its leading `/` and the next `/` (or
/// its end), where that text is not empty.
pub open spec fn first_segment(path: Seq<char>) -> Option<Seq<char>> {
    if path.len() > 0 && path[0] == '/' {
        let rest = path.drop_first();
        let segment = rest.take(position_of(rest, '/'));
        if segment.len() > 0 {
            Some(segment)
        } else {
            None
        }
    } else {
        None
    }
}

/// The host of the short shape.
pub open spec fn is_short_host(host: Seq<char>) -> bool {
    host == "youtu.be"@
}

/// The hosts of the long shape.
pub open spec fn is_long_host(host: Seq<char>) -> bool {
    host == "www.youtube.com"@ || host == "youtube.com"@ || host == "m.youtube.com"@
}

/// The identifier that the parts of a URL give, if any.
pub open spec fn id_in(parts: UrlPartsView) -> Option<Seq<char>> {
    match parts.host {
        None => None,
        Some(host) => if is_short_host(host) {
            first_segment(parts.path)
        } else if is_long_host(host) {
            match parts.query {
                None => None,
                Some(query) => value_for(query_pairs(query), "v"@),
            }
        } else {
            None
        },
    }
}

/// The identifier that a URL gives, if any.
pub open spec fn extracted_id(url: Seq<char>) -> Option<Seq<char>> {
    match parsed_url(url) {
        None => None,
        Some(parts) => id_in(parts),
    }
}

/// `r` is the identifier `id` where there is one, and `InvalidUrl` where there is none.
pub open spec fn is_extraction(r: Result<String, IngestError>, id: Option<Seq<char>>) -> bool {
    match id {
        Some(text) => r matches Ok(s) && s@ == text,
        None => r == Err::<String, IngestError>(IngestError::InvalidUrl),
    }
}

/// Calls `url::Url::parse` and reads `host_str`, `path` and `query` of what it
/// returns. The contract gives the result a name: it is a function of `input` alone.
#[verifier::external_body]
fn split_url(input: &str) -> (parts: Option<UrlParts>)
    ensures
        opt_parts(parts) == parsed_url(input@),
{
    let url = url::Url::parse(input).ok()?;
    Some(
        UrlParts {
            host: url.host_str().map(str::to_string),
            path: url.path().to_string(),
            query: url.query().map(str::to_string),
        },
    )
}

/// A text has at least one piece, and the first is the text before its first
/// separator.
pub proof fn lemma_first_piece(s: Seq<char>, sep: char)
    ensures
        pieces(s, sep).len() >= 1,
        pieces(s, sep)[0] == s.take(position_of(s, sep)),
{
    lemma_position_of(s, sep);
    if position_of(s, sep) == s.len() {
        assert(s.take(s.len() as int) == s);
    }
}

/// The parameter in the piece of `chars` from `from` up to `to`, as `pair_of` says.
fn read_pair(chars: &Vec<char>, from: usize, to: usize) -> (pair: Option<(String, String)>)
    requires
        from <= to <= chars.len(),
    ensures
        match pair_of(chars@.subrange(from as int, to as int)) {
            Some(found) => pair matches Some(p) && p.0@ == found.0 && p.1@ == found.1,
            None => pair is None,
        },
{
    let ghost piece = chars@.subrange(from as int, to as int);
    let mark = find_char(chars, '=', from, to);
    proof {
        lemma_position_of(piece, '=');
    }
    if mark == to {
        return None;
    }
    let end = find_char(chars, '=', mark + 1, to);
    proof {
        let behind = chars@.subrange(mark + 1, to as int);
        assert(piece.skip(mark - from + 1) == behind);
        assert(piece.take(mark - from) == chars@.subrange(from as int, mark as int));
        assert(behind.take(end - mark - 1) == chars@.subrange(mark + 1, end as int));
        lemma_first_piece(behind, '=');
    }
    Some((slice_string(chars, from, mark), slice_string(chars, mark + 1, end)))
}

/// The parameters of a query string, as `query_pairs` says: its `&`-separated pieces
/// that hold a `=`, each cut at its first two `=`.
pub fn split_query(query: &str) -> (pairs: Vec<(String, String)>)
    ensures
        pair_views(pairs@) == query_pairs(query@),
{
    let chars = to_chars(query);
    let n = chars.len();
    let mut pairs: Vec<(String, String)> = Vec::new();
    let mut from: usize = 0;
    assert(chars@.skip(0) == chars@);
    assert(pair_views(pairs@) + query_pairs(chars@) == query_pairs(chars@));
    loop
        invariant
            from <= n == chars.len(),
            chars@ == query@,
            query_pairs(chars@) == pair_views(pairs@) + pairs_among(
                pieces(chars@.skip(from as int), '&'),
            ),
        decreases n - from,
    {
        let to = find_char(&chars, '&', from, n);
        let found = read_pair(&chars, from, to);
        let ghost before = pair_views(pairs@);
        let ghost rest = chars@.skip(from as int);
        let ghost piece = chars@.subrange(from as int, to as int);
        let ghost tail = if to < n {
            pieces(chars@.skip(to + 1), '&')
        } else {
            Seq::empty()
        };
        proof {
            assert(chars@.subrange(from as int, n as int) == rest);
            lemma_position_of(rest, '&');
            if to < n {
                assert(rest.take(to - from) == piece);
                assert(rest.skip(to - from + 1) == chars@.skip(to + 1));
            } else {
                assert(piece == rest);
            }
            let all = seq![piece] + tail;
            assert(pieces(rest, '&') == all);
            assert(all[0] == piece);
            assert(all.drop_first() == tail);
            assert(pairs_among(Seq::<Seq<char>>::empty()) == Seq::<
                (Seq<char>, Seq<char>),
            >::empty());
        }
        match found {
            Some(pair) => {
                pairs.push(pair);
                proof {
                    let shown = (pair.0@, pair.1@);
                    assert(pair_views(pairs@) == before.push(shown));
                    assert(before + (seq![shown] + pairs_among(tail)) == before.push(shown)
                        + pairs_among(tail));
                }
            },
            None => {},
        }
        if to == n {
            assert(pair_views(pairs@) + Seq::<(Seq<char>, Seq<char>)>::empty() == pair_views(
                pairs@,
            ));
            return pairs;
        }
        from = to + 1;
    }
}

/// The first segment of `path`, as `first_segment` says.
pub fn path_segment(path: &str) -> (segment: Option<String>)
    ensures
        opt_text(segment) == first_segment(path@),
{
    let chars = to_chars(path);
    if chars.len() == 0 || chars[0] != '/' {
        return None;
    }
    let end = find_char(&chars, '/', 1, chars.len());
    proof {
        assert(chars@.subrange(1, chars@.len() as int) == chars@.drop_first());
        lemma_position_of(chars@.drop_first(), '/');
        assert(chars@.subrange(1, end as int) == chars@.drop_first().take(end - 1));
    }
    if end == 1 {
        None
    } else {
        Some(slice_string(&chars, 1, end))
    }
}

/// The value of the first of `pairs` whose key is `key`.
pub fn first_value(pairs: &Vec<(String, String)>, key: &str) -> (value: Option<String>)
    ensures
        opt_text(value) == value_for(pair_views(pairs@), key@),
{
    let ghost all = pair_views(pairs@);
    assert(all.skip(0) == all);
    let mut i: usize = 0;
    while i < pairs.len()
        invariant
            i <= pairs.len(),
            all == pair_views(pairs@),
            value_for(all, key@) == value_for(all.skip(i as int), key@),
        decreases pairs.len() - i,
    {
        proof {
            let rest = all.skip(i as int);
            assert(rest[0] == all[i as int]);
            assert(rest.drop_first() == all.skip(i + 1));
        }
        if same_text(pairs[i].0.as_str(), key) {
            return Some(pairs[i].1.clone());
        }
        i += 1;
    }
    None
}

/// The identifier that the parts of a URL give, or `InvalidUrl`.
pub fn video_id_of(parts: &UrlParts) -> (r: Result<String, IngestError>)
    ensures
        is_extraction(r, id_in(parts@)),
{
    let found = match &parts.host {
        None => None,
        Some(host) => {
            if same_text(host.as_str(), "youtu.be") {
                path_segment(parts.path.as_str())
            } else if same_text(host.as_str(), "www.youtube.com") || same_text(
                host.as_str(),
                "youtube.com",
            ) || same_text(host.as_str(), "m.youtube.com") {
                match &parts.query {
                    None => None,
                    Some(query) => {
                        let pairs = split_query(query.as_str());
                        first_value(&pairs, "v")
                    },
                }
            } else {
                None
            }
        },
    };
    match found {
        Some(id) => Ok(id),
        None => Err(IngestError::InvalidUrl),
    }
}

/// The content identifier of a video URL.
///
/// Succeeds exactly where the URL parses and has one of the two shapes with an
/// identifier in its place; fails with `InvalidUrl` on every other input.
pub fn extract(url: &str) -> (r: Result<String, IngestError>)
    ensures
        is_extraction(r, extracted_id(url@)),
{
    match split_url(url) {
        None => Err(IngestError::InvalidUrl),
        Some(parts) => video_id_of(&parts),
    }
}

} // verus!
