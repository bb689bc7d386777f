//! Links as the pipeline sees them, and the canonical form that keys the cache.

use vstd::prelude::*;
use vstd::string::*;
use crate::text::{
    ends_with, from_chars, has_suffix, lemma_split_pieces, opt_view, split, str_eq, to_chars,
};

verus! {

/// A parsed link: the text up to the end of its path, its host, its query
/// (without the question mark), its fragment (without the hash sign), and
/// whether its path is opaque, as in `mailto:` and `data:` links, where no
/// slash follows the scheme.
#[derive(Clone, Debug, PartialEq, Eq)]
pub struct SourceUrl {
    pub base: String,
    pub host: Option<String>,
    pub query: Option<String>,
    pub fragment: Option<String>,
    pub opaque: bool,
}

/// The parts of a parsed link: text up to the end of the path, host, query,
/// fragment, and whether the path is opaque.
pub struct UrlParts {
    pub base: Seq<char>,
    pub host: Option<Seq<char>>,
    pub query: Option<Seq<char>>,
    pub fragment: Option<Seq<char>>,
    pub opaque: bool,
}

impl View for SourceUrl {
    type V = UrlParts;

    open spec fn view(&self) -> UrlParts {
        UrlParts {
            base: self.base@,
            host: opt_view(self.host),
            query: opt_view(self.query),
            fragment: opt_view(self.fragment),
            opaque: self.opaque,
        }
    }
}

/// What `url::Url::parse` makes of a text: nothing where it rejects the
/// text, else the serialization up to the end of the path, the host, the
/// query and the fragment of the link it returns, and whether that link
/// cannot be a base.
pub uninterp spec fn parsed_url(input: Seq<char>) -> Option<
    (Seq<char>, Option<Seq<char>>, Option<Seq<char>>, Option<Seq<char>>, bool),
>;

/// The parts as the tuple in which `parsed_url` gives them.
pub open spec fn parts_tuple(parts: UrlParts) -> (
    Seq<char>,
    Option<Seq<char>>,
    Option<Seq<char>>,
    Option<Seq<char>>,
    bool,
) {
    (parts.base, parts.host, parts.query, parts.fragment, parts.opaque)
}

/// Calls `url::Url::parse` on the text and copies out of the link it
/// returns the serialization up to `Position::AfterPath` and what
/// `host_str`, `query`, `fragment` and `cannot_be_a_base` give. The
/// contract only names that result: it is a function of the text alone.
#[verifier::external_body]
fn parse_url(input: &str) -> (url: Option<SourceUrl>)
    ensures
        match url {
            Some(url) => parsed_url(input@) == Some(parts_tuple(url@)),
            None => parsed_url(input@) is None,
        },
{
    match ::url::Url::parse(input) {
        Ok(url) => Some(
            SourceUrl {
                base: String::from(&url[..::url::Position::AfterPath]),
                host: url.host_str().map(String::from),
                query: url.query().map(String::from),
                fragment: url.fragment().map(String::from),
                opaque: url.cannot_be_a_base(),
            },
        ),
        Err(_) => None,
    }
}

/// The text of a link with the given parts.
pub open spec fn url_text(parts: UrlParts) -> Seq<char> {
    parts.base + (match parts.query {
        Some(query) => "?"@ + query,
        None => Seq::empty(),
    }) + (match parts.fragment {
        Some(fragment) => "#"@ + fragment,
        None => Seq::empty(),
    })
}

/// Whether a query parameter carries the video id: its key is `v`.
pub open spec fn names_video_id(param: Seq<char>) -> bool {
    param.len() >= 2 && param[0] == 'v' && param[1] == '='
}

/// The first of the parameters that carries the video id.
pub open spec fn first_video_param(params: Seq<Seq<char>>) -> Option<Seq<char>>
    decreases params.len(),
{
    if params.len() == 0 {
        None
    } else {
        match first_video_param(params.drop_last()) {
            Some(param) => Some(param),
            None => if names_video_id(params.last()) {
                Some(params.last())
            } else {
                None
            },
        }
    }
}

/// The parameter of a query that carries the video id, as written in the
/// query, where it has one.
pub open spec fn video_id_param(query: Seq<char>) -> Option<Seq<char>> {
    first_video_param(split(query, '&'))
}

/// Whether a host belongs to the video-hosting family whose links are told
/// apart by a query parameter.
pub open spec fn is_video_host(host: Option<Seq<char>>) -> bool {
    match host {
        Some(host) => host == "youtube.com"@ || has_suffix(host, ".youtube.com"@),
        None => false,
    }
}

/// What is left of the query in the canonical form: for a video host the
/// parameter with the video id, for any other host nothing.
pub open spec fn kept_query(parts: UrlParts) -> Option<Seq<char>> {
    match parts.query {
        Some(query) => if is_video_host(parts.host) {
            video_id_param(query)
        } else {
            None
        },
        None => None,
    }
}

/// `s` without the spaces at its end.
pub open spec fn without_trailing_spaces(s: Seq<char>) -> Seq<char>
    decreases s.len(),
{
    if s.len() > 0 && s.last() == ' ' {
        without_trailing_spaces(s.drop_last())
    } else {
        s
    }
}

/// The canonical form of a link: no fragment; for a video host only the
/// parameter with the video id is left of the query, for any other host
/// nothing. An opaque path that is left without query and fragment loses the
/// spaces at its end, as it does where the `url` crate takes both away.
pub open spec fn canonical(parts: UrlParts) -> UrlParts {
    UrlParts {
        base: if parts.opaque && kept_query(parts) is None {
            without_trailing_spaces(parts.base)
        } else {
            parts.base
        },
        host: parts.host,
        query: kept_query(parts),
        fragment: None,
        opaque: parts.opaque,
    }
}

/// What is left without its trailing spaces is the start of the text, ends
/// with no space, and differs from the text by spaces only; taking the
/// spaces away again changes nothing.
pub proof fn lemma_without_trailing_spaces(s: Seq<char>)
    ensures
        without_trailing_spaces(s).is_prefix_of(s),
        without_trailing_spaces(s).len() > 0 ==> without_trailing_spaces(s).last() != ' ',
        forall|i: int| without_trailing_spaces(s).len() <= i < s.len() ==> s[i] == ' ',
        without_trailing_spaces(without_trailing_spaces(s)) == without_trailing_spaces(s),
    decreases s.len(),
{
    if s.len() > 0 && s.last() == ' ' {
        lemma_without_trailing_spaces(s.drop_last());
        let rest = without_trailing_spaces(s.drop_last());
        assert(rest =~= s.subrange(0, rest.len() as int)) by {
            assert(rest =~= s.drop_last().subrange(0, rest.len() as int));
        }
        assert forall|i: int| rest.len() <= i < s.len() implies s[i] == ' ' by {
            if i < s.len() - 1 {
                assert(s.drop_last()[i] == s[i]);
            }
        }
    } else {
        assert(s =~= s.subrange(0, s.len() as int));
    }
}

pub proof fn lemma_first_video_param(params: Seq<Seq<char>>)
    ensures
        match first_video_param(params) {
            Some(param) => names_video_id(param) && exists|k: int|
                0 <= k < params.len() && params[k] == param,
            None => forall|k: int| 0 <= k < params.len() ==> !names_video_id(params[k]),
        },
    decreases params.len(),
{
    if params.len() > 0 {
        lemma_first_video_param(params.drop_last());
        match first_video_param(params.drop_last()) {
            Some(param) => {
                let k = choose|k: int|
                    0 <= k < params.drop_last().len() && params.drop_last()[k] == param;
                assert(params[k] == param);
            },
            None => {
                if names_video_id(params.last()) {
                    assert(params[params.len() - 1] == params.last());
                } else {
                    assert forall|k: int| 0 <= k < params.len() implies !names_video_id(
                        params[k],
                    ) by {
                        if k < params.len() - 1 {
                            assert(params.drop_last()[k] == params[k]);
                        }
                    }
                }
            },
        }
    }
}

/// Canonicalization is idempotent: the canonical form of a canonical link is
/// that link.
pub proof fn lemma_canonical_idempotent(parts: UrlParts)
    ensures
        canonical(canonical(parts)) == canonical(parts),
{
    let once = canonical(parts);
    lemma_without_trailing_spaces(parts.base);
    match once.query {
        Some(kept) => {
            let query = parts.query->0;
            lemma_first_video_param(split(query, '&'));
            lemma_split_pieces(query, '&');
            lemma_split_pieces(kept, '&');
            assert(split(kept, '&') == seq![kept]);
            assert(seq![kept].drop_last() =~= Seq::<Seq<char>>::empty());
            assert(first_video_param(Seq::<Seq<char>>::empty()) is None);
            assert(seq![kept].last() == kept);
            assert(first_video_param(seq![kept]) == Some(kept));
        },
        None => {},
    }
}

/// The canonical form has no fragment and leaves the host as it was; its
/// base is the base it had, but for spaces at the end of an opaque path; its
/// query, where it has one, is a single parameter of the query it had.
pub proof fn lemma_canonical_shape(parts: UrlParts)
    ensures
        canonical(parts).fragment is None,
        canonical(parts).base.is_prefix_of(parts.base),
        !parts.opaque ==> canonical(parts).base == parts.base,
        canonical(parts).host == parts.host,
        canonical(parts).opaque == parts.opaque,
        !is_video_host(parts.host) ==> canonical(parts).query is None,
        canonical(parts).query matches Some(kept) ==> names_video_id(kept) && parts.query is Some
            && exists|k: int|
            0 <= k < split(parts.query->0, '&').len() && split(parts.query->0, '&')[k] == kept,
{
    lemma_without_trailing_spaces(parts.base);
    assert(parts.base =~= parts.base.subrange(0, parts.base.len() as int));
    if parts.query is Some {
        lemma_first_video_param(split(parts.query->0, '&'));
    }
}

fn host_is_video_host(host: &Option<String>) -> (video: bool)
    ensures
        video == is_video_host(opt_view(*host)),
{
    match host {
        Some(host) => {
            if str_eq(host.as_str(), "youtube.com") {
                true
            } else {
                let chars = to_chars(host.as_str());
                let suffix = to_chars(".youtube.com");
                ends_with(&chars, &suffix)
            }
        },
        None => false,
    }
}

/// The parameter of `query` that carries the video id.
#[verifier::spinoff_prover]
#[verifier::rlimit(40)]
pub fn find_video_id_param(query: &str) -> (param: Option<String>)
    ensures
        opt_view(param) == video_id_param(query@),
{
    let chars = to_chars(query);
    let n: usize = chars.len();
    let mut found: Option<(usize, usize)> = None;
    let mut start: usize = 0;
    let mut i: usize = 0;
    assert(chars@.take(0) =~= Seq::<char>::empty());
    assert(seq![Seq::<char>::empty()].drop_last() =~= Seq::<Seq<char>>::empty());
    assert(chars@.subrange(0, 0) =~= Seq::<char>::empty());
    while i < n
        invariant
            n == chars.len(),
            start <= i <= n,
            split(chars@.take(i as int), '&').len() >= 1,
            split(chars@.take(i as int), '&').last() == chars@.subrange(start as int, i as int),
            match found {
                Some((from, to)) => from <= to <= n && first_video_param(
                    split(chars@.take(i as int), '&').drop_last(),
                ) == Some(chars@.subrange(from as int, to as int)),
                None => first_video_param(split(chars@.take(i as int), '&').drop_last())
                    is None,
            },
        decreases n - i,
    {
        let ghost before = split(chars@.take(i as int), '&');
        proof {
            assert(chars@.take(i + 1).drop_last() =~= chars@.take(i as int));
            assert(chars@.take(i + 1).last() == chars@[i as int]);
        }
        if chars[i] == '&' {
            proof {
                assert(before.push(Seq::empty()).drop_last() =~= before);
                assert(before.drop_last().push(before.last()) =~= before);
            }
            if found.is_none() && i - start >= 2 && chars[start] == 'v' && chars[start + 1]
                == '=' {
                found = Some((start, i));
            }
            start = i + 1;
            assert(chars@.subrange(i + 1, i + 1) =~= Seq::<char>::empty());
        } else {
            proof {
                let after = before.drop_last().push(before.last().push(chars@[i as int]));
                assert(after.drop_last() =~= before.drop_last());
                assert(chars@.subrange(start as int, i as int).push(chars@[i as int])
                    =~= chars@.subrange(start as int, i + 1));
            }
        }
        i = i + 1;
    }
    proof {
        assert(chars@.take(n as int) =~= query@);
        let all = split(query@, '&');
        assert(all.drop_last().push(all.last()) =~= all);
    }
    if found.is_none() && n - start >= 2 && chars[start] == 'v' && chars[start + 1] == '=' {
        found = Some((start, n));
    }
    match found {
        Some((from, to)) => Some(from_chars(&chars, from, to)),
        None => None,
    }
}

impl SourceUrl {
    /// The link as text.
    pub open spec fn text(&self) -> Seq<char> {
        url_text(self@)
    }

    /// Parses a link. The result is what the `url` crate makes of the text;
    /// a text that it rejects gives `None`.
    pub fn parse(input: &str) -> (url: Option<SourceUrl>)
        ensures
            match url {
                Some(url) => parsed_url(input@) == Some(parts_tuple(url@)),
                None => parsed_url(input@) is None,
            },
    {
        parse_url(input)
    }

    pub fn to_text(&self) -> (text: String)
        ensures
            text@ == self.text(),
    {
        let mut text = self.base.clone();
        match &self.query {
            Some(query) => {
                text.append("?");
                text.append(query.as_str());
            },
            None => {},
        }
        match &self.fragment {
            Some(fragment) => {
                text.append("#");
                text.append(fragment.as_str());
            },
            None => {},
        }
        assert(text@ =~= self.text());
        text
    }
}

/// The text without the spaces at its end.
pub fn trim_trailing_spaces(text: &str) -> (trimmed: String)
    ensures
        trimmed@ == without_trailing_spaces(text@),
{
    let chars = to_chars(text);
    let mut end: usize = chars.len();
    assert(chars@.subrange(0, end as int) =~= chars@);
    while end > 0 && chars[end - 1] == ' '
        invariant
            end <= chars.len(),
            without_trailing_spaces(chars@) == without_trailing_spaces(
                chars@.subrange(0, end as int),
            ),
        decreases end,
    {
        assert(chars@.subrange(0, end as int).drop_last() =~= chars@.subrange(0, end - 1));
        end = end - 1;
    }
    from_chars(&chars, 0, end)
}

/// The canonical form of a link, under which its delivery is cached.
pub fn cleanup_url(original_url: &SourceUrl) -> (cleaned_url: SourceUrl)
    ensures
        cleaned_url@ == canonical(original_url@),
{
    let query = match &original_url.query {
        Some(query) => {
            if host_is_video_host(&original_url.host) {
                find_video_id_param(query.as_str())
            } else {
                None
            }
        },
        None => None,
    };
    let host = match &original_url.host {
        Some(host) => Some(host.clone()),
        None => None,
    };
    let base = if original_url.opaque && query.is_none() {
        trim_trailing_spaces(original_url.base.as_str())
    } else {
        original_url.base.clone()
    };
    SourceUrl { base, host, query, fragment: None, opaque: original_url.opaque }
}

} // verus!
