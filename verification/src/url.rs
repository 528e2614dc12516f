//! The URL normalizer, whose result is the key by which articles are told
//! apart, and the list of hosts that are reached without a proxy.

use vstd::prelude::*;
use crate::text::{
    chars_of, is_white_space, lemma_skip_spaces_head, lemma_trimmed_fixed_point, lowercase_of,
    matches_at, occurs_at, same_text, skip_spaces, string_of_range, to_lowercase, trimmed,
    white_space,
};

verus! {

/// What may not end a key: a slash or white space.
pub open spec fn is_tail(c: char) -> bool {
    c == '/' || white_space(c)
}

/// `s` without the slashes and the white space at its end.
pub open spec fn without_tail(s: Seq<char>) -> Seq<char>
    decreases s.len(),
{
    if s.len() > 0 && is_tail(s.last()) {
        without_tail(s.drop_last())
    } else {
        s
    }
}

/// The normal form of a URL: in lower case, without white space at either
/// end, and without any slash at its end.
pub open spec fn normalized_url(u: Seq<char>) -> Seq<char> {
    without_tail(skip_spaces(lowercase_of(u)))
}

/// A key is clean where it is trimmed and ends in no slash.
pub open spec fn is_clean_key(n: Seq<char>) -> bool {
    trimmed(n) == n && (n.len() > 0 ==> n.last() != '/')
}

/// A text is its own lower-case form.
pub open spec fn is_lower_case(n: Seq<char>) -> bool {
    lowercase_of(n) == n
}

/// What is left of a text without its tail begins as the text does and
/// ends in neither a slash nor white space.
pub proof fn lemma_without_tail_ends(s: Seq<char>)
    ensures
        without_tail(s).len() <= s.len(),
        without_tail(s).len() > 0 ==> without_tail(s)[0] == s[0] && !is_tail(
            without_tail(s).last(),
        ),
    decreases s.len(),
{
    if s.len() > 0 && is_tail(s.last()) {
        lemma_without_tail_ends(s.drop_last());
    }
}

/// Every normal form is a clean key.
pub proof fn lemma_normalized_is_clean(u: Seq<char>)
    ensures
        is_clean_key(normalized_url(u)),
{
    let t = skip_spaces(lowercase_of(u));
    lemma_skip_spaces_head(lowercase_of(u));
    lemma_without_tail_ends(t);
    lemma_trimmed_fixed_point(normalized_url(u));
}

/// A clean key in lower case is its own normal form.
pub proof fn lemma_clean_key_is_normal(n: Seq<char>)
    requires
        is_clean_key(n),
        is_lower_case(n),
    ensures
        normalized_url(n) == n,
{
    lemma_trimmed_fixed_point(n);
}

/// Normalizing is idempotent: on every URL whose normal form is its own
/// lower-case form, normalizing twice gives what normalizing once gives.
pub proof fn lemma_normalize_url_idempotent(u: Seq<char>)
    requires
        is_lower_case(normalized_url(u)),
    ensures
        normalized_url(normalized_url(u)) == normalized_url(u),
{
    lemma_normalized_is_clean(u);
    lemma_clean_key_is_normal(normalized_url(u));
}

/// Canonicalizes a URL into the key under which it is stored. Total: every
/// text has a normal form, and every normal form is trimmed and ends in no
/// slash.
pub fn normalize_url(url: &str) -> (r: String)
    ensures
        r@ == normalized_url(url@),
        is_clean_key(r@),
        is_lower_case(r@) ==> normalized_url(r@) == r@,
{
    proof {
        lemma_normalized_is_clean(url@);
        if is_lower_case(normalized_url(url@)) {
            lemma_clean_key_is_normal(normalized_url(url@));
        }
    }
    let lower = to_lowercase(url);
    let v = chars_of(lower.as_str());
    let mut start: usize = 0;
    assert(v@.skip(0) =~= v@);
    while start < v.len() && is_white_space(v[start])
        invariant
            start <= v.len(),
            skip_spaces(v@) == skip_spaces(v@.skip(start as int)),
        decreases v.len() - start,
    {
        proof {
            assert(v@.skip(start as int).drop_first() =~= v@.skip(start + 1));
        }
        start += 1;
    }
    let mut end: usize = v.len();
    assert(v@.skip(start as int) =~= v@.subrange(start as int, end as int));
    while end > start && (v[end - 1] == '/' || is_white_space(v[end - 1]))
        invariant
            start <= end <= v.len(),
            without_tail(skip_spaces(v@)) == without_tail(v@.subrange(start as int, end as int)),
        decreases end - start,
    {
        proof {
            assert(v@.subrange(start as int, end as int).drop_last() =~= v@.subrange(
                start as int,
                end - 1,
            ));
        }
        end -= 1;
    }
    string_of_range(&v, start, end)
}

/// Whether `text` is its own lower-case form.
pub fn is_lower_case_text(text: &str) -> (r: bool)
    ensures
        r == is_lower_case(text@),
{
    let lower = to_lowercase(text);
    same_text(lower.as_str(), text)
}

/// Whether `url` is a normal form already, so that normalizing it changes
/// nothing.
pub fn is_settled_url(url: &str) -> (r: bool)
    ensures
        r == (normalized_url(url@) == url@),
{
    let n = normalize_url(url);
    same_text(n.as_str(), url)
}

/// The hosts that are reached directly, and one ending of host names.
pub open spec fn domestic_domains() -> Seq<Seq<char>> {
    seq![
        ".cn"@,
        "oschina.net"@,
        "v2ex.com"@,
        "leiphone.com"@,
        "tmtpost.com"@,
        "36kr.com"@,
        "jiqizhixin.com"@,
        "qbitai.com"@,
        "zhidx.com"@,
        "infoq.cn"@,
        "hellogithub.com"@,
        "csdn.net"@,
        "juejin.cn"@,
        "segmentfault.com"@,
    ]
}

/// What separates the scheme of a URL from the rest.
pub open spec fn scheme_mark() -> Seq<char> {
    "://"@
}

/// Where `needle` first stands in `hay`; the length of `hay` where it does
/// not stand in it.
pub open spec fn first_occurrence(hay: Seq<char>, needle: Seq<char>) -> int
    decreases hay.len(),
{
    if hay.len() == 0 || occurs_at(hay, needle, 0) {
        0
    } else {
        1 + first_occurrence(hay.drop_first(), needle)
    }
}

/// Where the authority of `url` begins: behind the first scheme mark, or
/// at the beginning where there is none.
pub open spec fn authority_start(url: Seq<char>) -> int {
    let at = first_occurrence(url, scheme_mark());
    if at + scheme_mark().len() <= url.len() {
        at + scheme_mark().len()
    } else {
        0
    }
}

/// What ends an authority: the path, the query or the fragment.
pub open spec fn ends_authority(c: char) -> bool {
    c == '/' || c == '?' || c == '#'
}

/// How many characters stand before the first that ends an authority.
pub open spec fn authority_length(s: Seq<char>) -> int
    decreases s.len(),
{
    if s.len() == 0 || ends_authority(s[0]) {
        0
    } else {
        1 + authority_length(s.drop_first())
    }
}

/// The authority of `url`: user, host and port as they are written.
pub open spec fn authority_of(url: Seq<char>) -> Seq<char> {
    url.skip(authority_start(url)).take(authority_length(url.skip(authority_start(url))))
}

/// How many characters of an authority belong to the user: all up to the
/// last `@`, and none where there is no `@`.
pub open spec fn user_length(s: Seq<char>) -> int
    decreases s.len(),
{
    if s.len() == 0 {
        0
    } else if s.last() == '@' {
        s.len() as int
    } else {
        user_length(s.drop_last())
    }
}

/// How many characters stand before the first `:`, behind which the port
/// is written.
pub open spec fn port_index(s: Seq<char>) -> int
    decreases s.len(),
{
    if s.len() == 0 || s[0] == ':' {
        0
    } else {
        1 + port_index(s.drop_first())
    }
}

/// The host of `url`, as it is written: its authority without the user
/// and without the port.
pub open spec fn host_of(url: Seq<char>) -> Seq<char> {
    let named = authority_of(url).skip(user_length(authority_of(url)));
    named.take(port_index(named))
}

/// `s` ends with `suffix`.
pub open spec fn has_suffix(s: Seq<char>, suffix: Seq<char>) -> bool {
    occurs_at(s, suffix, s.len() - suffix.len())
}

/// `host` lies under `domain`: it is that domain or ends with a dot and
/// that domain. A domain that begins with a dot is an ending and nothing
/// more.
pub open spec fn is_under(host: Seq<char>, domain: Seq<char>) -> bool {
    if domain.len() > 0 && domain[0] == '.' {
        has_suffix(host, domain)
    } else {
        host == domain || has_suffix(host, seq!['.'] + domain)
    }
}

/// The host of `url`, in lower case, lies under one of the domestic
/// domains.
pub open spec fn names_domestic_site(url: Seq<char>) -> bool {
    exists|k: int|
        0 <= k < domestic_domains().len() && is_under(
            lowercase_of(host_of(url)),
            #[trigger] domestic_domains()[k],
        )
}

fn domestic_domain_list() -> (v: Vec<&'static str>)
    ensures
        v.deep_view() == domestic_domains(),
{
    let v = vec![
        ".cn",
        "oschina.net",
        "v2ex.com",
        "leiphone.com",
        "tmtpost.com",
        "36kr.com",
        "jiqizhixin.com",
        "qbitai.com",
        "zhidx.com",
        "infoq.cn",
        "hellogithub.com",
        "csdn.net",
        "juejin.cn",
        "segmentfault.com",
    ];
    assert(v.deep_view() =~= domestic_domains());
    v
}

fn find_first(hay: &Vec<char>, needle: &Vec<char>) -> (at: usize)
    ensures
        at == first_occurrence(hay@, needle@),
        at <= hay.len(),
{
    let mut i: usize = 0;
    assert(hay@.skip(0) =~= hay@);
    while i < hay.len()
        invariant
            i <= hay.len(),
            first_occurrence(hay@, needle@) == i + first_occurrence(hay@.skip(i as int), needle@),
        decreases hay.len() - i,
    {
        let ghost rest = hay@.skip(i as int);
        proof {
            if i + needle@.len() <= hay@.len() {
                assert(rest.subrange(0, 0 + needle@.len() as int) =~= hay@.subrange(
                    i as int,
                    i + needle@.len(),
                ));
            }
            assert(rest.drop_first() =~= hay@.skip(i + 1));
        }
        if matches_at(hay, needle, i) {
            return i;
        }
        i += 1;
    }
    i
}

fn host_chars(url: &Vec<char>) -> (host: String)
    ensures
        host@ == host_of(url@),
{
    let mark = chars_of("://");
    let at = find_first(url, &mark);
    let start: usize = if mark.len() <= url.len() - at {
        at + mark.len()
    } else {
        0
    };
    let ghost rest = url@.skip(start as int);
    let mut end: usize = start;
    assert(url@.skip(end as int) =~= rest);
    while end < url.len() && !(url[end] == '/' || url[end] == '?' || url[end] == '#')
        invariant
            start <= end <= url.len(),
            rest == url@.skip(start as int),
            authority_length(rest) == (end - start) + authority_length(url@.skip(end as int)),
        decreases url.len() - end,
    {
        proof {
            assert(url@.skip(end as int).drop_first() =~= url@.skip(end + 1));
        }
        end += 1;
    }
    let ghost authority = url@.subrange(start as int, end as int);
    assert(rest.take(end - start) =~= authority);
    let mut named: usize = end;
    while named > start && url[named - 1] != '@'
        invariant
            start <= named <= end <= url.len(),
            authority == url@.subrange(start as int, end as int),
            user_length(authority) == user_length(url@.subrange(start as int, named as int)),
        decreases named - start,
    {
        proof {
            assert(url@.subrange(start as int, named as int).drop_last() =~= url@.subrange(
                start as int,
                named - 1,
            ));
        }
        named -= 1;
    }
    assert(user_length(authority) == named - start);
    let ghost hostport = url@.subrange(named as int, end as int);
    assert(authority.skip(named - start) =~= hostport);
    let mut port: usize = named;
    assert(url@.subrange(port as int, end as int) =~= hostport);
    while port < end && url[port] != ':'
        invariant
            named <= port <= end <= url.len(),
            hostport == url@.subrange(named as int, end as int),
            port_index(hostport) == (port - named) + port_index(
                url@.subrange(port as int, end as int),
            ),
        decreases end - port,
    {
        proof {
            assert(url@.subrange(port as int, end as int).drop_first() =~= url@.subrange(
                port + 1,
                end as int,
            ));
        }
        port += 1;
    }
    assert(hostport.take(port - named) =~= url@.subrange(named as int, port as int));
    string_of_range(url, named, port)
}

fn ends_with_chars(s: &Vec<char>, suffix: &Vec<char>) -> (r: bool)
    ensures
        r == has_suffix(s@, suffix@),
{
    if suffix.len() <= s.len() {
        matches_at(s, suffix, s.len() - suffix.len())
    } else {
        false
    }
}

fn lies_under(host: &Vec<char>, domain: &Vec<char>) -> (r: bool)
    ensures
        r == is_under(host@, domain@),
{
    if domain.len() > 0 && domain[0] == '.' {
        ends_with_chars(host, domain)
    } else {
        if host.len() == domain.len() && matches_at(host, domain, 0) {
            assert(host@.subrange(0, 0 + domain@.len() as int) =~= host@);
            return true;
        }
        proof {
            if host@ == domain@ {
                assert(host@.subrange(0, 0 + domain@.len() as int) =~= host@);
            }
        }
        let mut dotted: Vec<char> = Vec::new();
        dotted.push('.');
        let mut i: usize = 0;
        while i < domain.len()
            invariant
                i <= domain.len(),
                dotted@ == seq!['.'] + domain@.take(i as int),
            decreases domain.len() - i,
        {
            dotted.push(domain[i]);
            assert(seq!['.'] + domain@.take(i + 1) =~= (seq!['.'] + domain@.take(i as int)).push(
                domain@[i as int],
            ));
            i += 1;
        }
        assert(domain@.take(domain.len() as int) =~= domain@);
        ends_with_chars(host, &dotted)
    }
}

/// Whether `url` points at a domestic site, which is fetched without the
/// outbound proxy. The host decides, not the path or the query.
pub fn is_chinese_site(url: &str) -> (r: bool)
    ensures
        r == names_domestic_site(url@),
{
    let raw = chars_of(url);
    let written = host_chars(&raw);
    let lower = to_lowercase(written.as_str());
    let host = chars_of(lower.as_str());
    let domains = domestic_domain_list();
    let mut k: usize = 0;
    while k < domains.len()
        invariant
            k <= domains.len(),
            host@ == lowercase_of(host_of(url@)),
            domains.deep_view() == domestic_domains(),
            forall|j: int| 0 <= j < k ==> !is_under(host@, #[trigger] domestic_domains()[j]),
        decreases domains.len() - k,
    {
        let domain = chars_of(domains[k]);
        assert(domain@ == domains.deep_view()[k as int]);
        if lies_under(&host, &domain) {
            return true;
        }
        k += 1;
    }
    false
}

} // verus!
