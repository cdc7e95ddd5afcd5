//! URL handling at the proxy's edges: validating a hub base URL on
//! registration, and rewriting a request target onto a chosen hub. The
//! parsing itself is done by the url crate behind trusted wrappers; the
//! splitting of a path-and-query string is done here, verified.

use vstd::prelude::*;

verus! {

/// The most characters a rewrite may be fed, across its base, path and
/// query together. The url crate caps a URL's serialization at four
/// gigabytes and aborts beyond it; this bound stays under that cap with a
/// wide margin for percent- and host-encoding expansion.
pub const MAX_REWRITE_CHARS: usize = 0x100_0000;

/// What the url crate's parser makes of a string: the serialization of the
/// parsed URL, or nothing when the string is not an absolute URL.
pub uninterp spec fn url_norm(s: Seq<char>) -> Option<Seq<char>>;

/// The serialization of a base URL with its path and query replaced, or
/// nothing when the base does not parse.
pub uninterp spec fn url_rewrite(
    base: Seq<char>,
    path: Seq<char>,
    query: Option<Seq<char>>,
) -> Option<Seq<char>>;

/// Relies on `url::Url::parse` and `Url::as_str`: the normalized
/// serialization of an absolute URL, or `None` when parsing fails.
#[verifier::external_body]
pub(crate) fn parse_url(s: &str) -> (r: Option<String>)
    ensures
        match r {
            Some(u) => url_norm(s@) == Some(u@),
            None => url_norm(s@) is None,
        },
{
    match url::Url::parse(s) {
        Ok(u) => Some(u.as_str().to_owned()),
        Err(_) => None,
    }
}

/// Relies on `url::Url::parse`, `Url::set_path`, `Url::set_query`,
/// `Url::set_username`, `Url::set_password`, `Url::set_fragment` and
/// `Url::as_str`: the base URL with its path and query replaced, its
/// userinfo and fragment stripped, and scheme and authority kept; parsing
/// the base fails exactly when `url_norm` says so, and the replacement
/// steps themselves never fail (stripping userinfo is refused only on
/// URLs without an authority, where there is none to strip). The length
/// bound keeps the rewritten serialization under the url crate's
/// four-gigabyte cap, whose internal check would otherwise abort.
#[verifier::external_body]
pub(crate) fn rewrite_url(base: &str, path: &str, query: Option<&str>) -> (r: Option<String>)
    requires
        base@.len() + path@.len() + (match query {
            Some(q) => q@.len(),
            None => 0nat,
        }) < MAX_REWRITE_CHARS,
    ensures
        r is Some <==> url_norm(base@) is Some,
        match r {
            Some(u) => url_rewrite(
                base@,
                path@,
                match query {
                    Some(q) => Some(q@),
                    None => None,
                },
            ) == Some(u@),
            None => url_rewrite(
                base@,
                path@,
                match query {
                    Some(q) => Some(q@),
                    None => None,
                },
            ) is None,
        },
{
    match url::Url::parse(base) {
        Ok(mut u) => {
            u.set_path(path);
            u.set_query(query);
            u.set_fragment(None);
            let _ = u.set_username("");
            let _ = u.set_password(None);
            Some(u.as_str().to_owned())
        },
        Err(_) => None,
    }
}

/// Split a path-and-query string at the first `?`: the path before it and
/// the query after it, or no query when there is no `?`.
pub fn split_path_query(pq: &str) -> (r: (String, Option<String>))
    ensures
        match spec_split_path_query(pq@) {
            (p, Some(q)) => r.0@ == p && (r.1 matches Some(qs) && qs@ == q),
            (p, None) => r.0@ == p && r.1 is None,
        },
{
    let n = pq.unicode_len();
    let mut i: usize = 0;
    while i < n && pq.get_char(i) != '?'
        invariant
            n == pq@.len(),
            0 <= i <= n,
            forall|j: int| 0 <= j < i ==> pq@[j] != '?',
        decreases n - i,
    {
        i = i + 1;
    }
    let path = pq.substring_char(0, i).to_owned();
    proof {
        lemma_first_question(pq@, i as int);
    }
    if i < n {
        let q = pq.substring_char(i + 1, n).to_owned();
        proof {
            assert(pq@.subrange(i + 1, n as int) =~= pq@.skip(i + 1));
        }
        (path, Some(q))
    } else {
        (path, None)
    }
}

/// The splitting of a path-and-query string, as a function.
pub open spec fn spec_split_path_query(pq: Seq<char>) -> (Seq<char>, Option<Seq<char>>) {
    let i = first_question(pq, 0);
    if i < pq.len() {
        (pq.subrange(0, i), Some(pq.skip(i + 1)))
    } else {
        (pq, None)
    }
}

/// The position of the first `?` at or after `i`, or the length.
pub open spec fn first_question(pq: Seq<char>, i: int) -> int
    decreases pq.len() - i,
{
    if !(0 <= i && i < pq.len()) {
        pq.len() as int
    } else if pq[i] == '?' {
        i
    } else {
        first_question(pq, i + 1)
    }
}

/// If no `?` stands before `i` and `i` is the length or holds `?`, then
/// `i` is the position of the first `?`.
proof fn lemma_first_question(pq: Seq<char>, i: int)
    requires
        0 <= i <= pq.len(),
        forall|j: int| 0 <= j < i ==> pq[j] != '?',
        i == pq.len() || pq[i] == '?',
    ensures
        first_question(pq, 0) == i,
{
    lemma_first_question_from(pq, 0, i);
}

proof fn lemma_first_question_from(pq: Seq<char>, k: int, i: int)
    requires
        0 <= k <= i <= pq.len(),
        forall|j: int| k <= j < i ==> pq[j] != '?',
        i == pq.len() || pq[i] == '?',
    ensures
        first_question(pq, k) == i,
    decreases i - k,
{
    if k < i {
        lemma_first_question_from(pq, k + 1, i);
    }
}

/// The two halves of a split target are together no longer than the
/// target itself.
pub proof fn lemma_split_lengths(pq: Seq<char>)
    ensures
        ({
            let (p, q) = spec_split_path_query(pq);
            p.len() + (match q {
                Some(qs) => qs.len(),
                None => 0nat,
            }) <= pq.len()
        }),
{
    let i = first_question(pq, 0);
    lemma_first_question_bounds(pq, 0);
}

/// The first-question position stays inside the input.
proof fn lemma_first_question_bounds(pq: Seq<char>, i: int)
    requires
        0 <= i <= pq.len(),
    ensures
        i <= first_question(pq, i) <= pq.len(),
    decreases pq.len() - i,
{
    if i < pq.len() && pq[i] != '?' {
        lemma_first_question_bounds(pq, i + 1);
    }
}

/// The target for a hub's status poll: the base URL with path `/status`
/// and no query. An oversized base (beyond the rewrite bound) yields
/// nothing, like one that does not parse.
pub fn status_endpoint(base: &str) -> (r: Option<String>)
    ensures
        r is Some <==> (url_norm(base@) is Some && base@.len() + 8 < MAX_REWRITE_CHARS),
        match r {
            Some(u) => url_rewrite(base@, "/status"@, None) == Some(u@),
            None => true,
        },
{
    let n = base.unicode_len();
    if n >= MAX_REWRITE_CHARS - 8 {
        return None;
    }
    proof {
        reveal_strlit("/status");
        assert("/status"@.len() == 7);
    }
    rewrite_url(base, "/status", None)
}

} // verus!
