//! Redirection of the client's web requests to the local server.

use vstd::prelude::*;
use crate::modules::{ModuleKind, ModuleType};
use crate::text::{push_char, str_chars};
use crate::URL;

verus! {

/// Marker for the module that rewrites request URLs.
pub struct Http;

impl ModuleKind for Http {
    open spec fn kind() -> ModuleType {
        ModuleType::Http
    }

    fn module_type() -> (t: ModuleType) {
        ModuleType::Http
    }
}

/// `s` holds `t` as a contiguous run.
pub open spec fn contains_seq(s: Seq<char>, t: Seq<char>) -> bool {
    exists|i: int| 0 <= i && i + t.len() <= s.len() && #[trigger] s.subrange(i, i + t.len()) == t
}

/// A request to one of the official service hosts that is not a patch
/// download: the requests that are redirected.
pub open spec fn is_official_request(url: Seq<char>) -> bool {
    &&& (contains_seq(url, "mihoyo.com"@) || contains_seq(url, "hoyoverse.com"@)
        || contains_seq(url, "starrails.com"@) || contains_seq(url, ".bhsr.com"@))
    &&& !(contains_seq(url, "autopatchcn"@) || contains_seq(url, "autopatchos"@))
}

/// The suffix of `s` that starts at its `(n + 1)`-th `/`; empty when `s`
/// holds at most `n` slashes.
pub open spec fn from_slash(s: Seq<char>, n: nat) -> Seq<char>
    decreases s.len(),
{
    if s.len() == 0 {
        seq![]
    } else if s[0] == '/' {
        if n == 0 {
            s
        } else {
            from_slash(s.drop_first(), (n - 1) as nat)
        }
    } else {
        from_slash(s.drop_first(), n)
    }
}

/// The path of a URL: everything from the slash that follows the host
/// (`scheme://host/...`), that slash included.
pub open spec fn request_path(url: Seq<char>) -> Seq<char> {
    from_slash(url, 2)
}

/// Where a redirected request goes: the local server, same path.
pub open spec fn redirected(url: Seq<char>) -> Seq<char> {
    URL@ + request_path(url)
}

/// Whether `needle` occurs in `hay`.
fn contains_chars(hay: &Vec<char>, needle: &Vec<char>) -> (r: bool)
    ensures
        r == contains_seq(hay@, needle@),
{
    let n = needle.len();
    if n > hay.len() {
        return false;
    }
    if n == 0 {
        assert(hay@.subrange(0, 0 + needle@.len() as int) =~= needle@);
        return true;
    }
    let last = hay.len() - n;
    let mut i: usize = 0;
    while i <= last
        invariant
            n == needle@.len(),
            n > 0,
            last + n == hay.len(),
            forall|k: int| 0 <= k < i ==> #[trigger] hay@.subrange(k, k + n) != needle@,
        decreases last + 1 - i,
    {
        let mut j: usize = 0;
        while j < n && hay[i + j] == needle[j]
            invariant
                n == needle@.len(),
                last + n == hay.len(),
                i <= last,
                j <= n,
                forall|m: int| 0 <= m < j ==> hay@[i + m] == needle@[m],
            decreases n - j,
        {
            j += 1;
        }
        if j == n {
            assert(hay@.subrange(i as int, i + needle@.len()) =~= needle@);
            return true;
        }
        assert(hay@.subrange(i as int, i + n)[j as int] != needle@[j as int]);
        i += 1;
    }
    false
}

/// `request_path` of a character vector.
fn request_path_chars(url: &Vec<char>) -> (r: Vec<char>)
    ensures
        r@ == request_path(url@),
{
    let len = url.len();
    let mut i: usize = 0;
    let mut seen: usize = 0;
    assert(url@.skip(0) =~= url@);
    while i < len
        invariant
            len == url@.len(),
            i <= len,
            seen <= 2,
            request_path(url@) == from_slash(url@.skip(i as int), (2 - seen) as nat),
        decreases len - i,
    {
        assert(url@.skip(i as int).drop_first() =~= url@.skip(i + 1));
        if url[i] == '/' {
            if seen == 2 {
                let mut r: Vec<char> = Vec::new();
                let mut k: usize = i;
                while k < len
                    invariant
                        len == url@.len(),
                        i <= k <= len,
                        r@ == url@.subrange(i as int, k as int),
                    decreases len - k,
                {
                    r.push(url[k]);
                    assert(r@ =~= url@.subrange(i as int, k + 1));
                    k += 1;
                }
                assert(r@ =~= url@.skip(i as int));
                return r;
            }
            seen += 1;
        }
        i += 1;
    }
    assert(url@.skip(len as int) =~= Seq::<char>::empty());
    Vec::new()
}

/// Whether a request for `url` goes to the local server.
pub fn is_official_url(url: &Vec<char>) -> (r: bool)
    ensures
        r == is_official_request(url@),
{
    let official = contains_chars(url, &str_chars("mihoyo.com"))
        || contains_chars(url, &str_chars("hoyoverse.com"))
        || contains_chars(url, &str_chars("starrails.com"))
        || contains_chars(url, &str_chars(".bhsr.com"));
    let patch = contains_chars(url, &str_chars("autopatchcn"))
        || contains_chars(url, &str_chars("autopatchos"));
    official && !patch
}

/// The URL a request is sent to instead: `None` when the request is left
/// as it is; otherwise the local server's URL followed by the original path.
pub fn redirect_url(url: &str) -> (r: Option<String>)
    ensures
        r is Some <==> is_official_request(url@),
        r matches Some(v) ==> v@ == redirected(url@),
{
    let chars = str_chars(url);
    if !is_official_url(&chars) {
        return None;
    }
    let path = request_path_chars(&chars);
    let mut out = URL.to_owned();
    let mut k: usize = 0;
    while k < path.len()
        invariant
            k <= path@.len(),
            out@ == URL@ + path@.take(k as int),
        decreases path.len() - k,
    {
        push_char(&mut out, path[k]);
        assert(URL@ + path@.take(k + 1) =~= (URL@ + path@.take(k as int)).push(path@[k as int]));
        k += 1;
    }
    assert(path@.take(path@.len() as int) =~= path@);
    Some(out)
}


/// The number of slashes in `s`.
pub open spec fn slash_count(s: Seq<char>) -> nat
    decreases s.len(),
{
    if s.len() == 0 {
        0
    } else {
        (if s[0] == '/' { 1nat } else { 0nat }) + slash_count(s.drop_first())
    }
}

proof fn lemma_from_slash_after(a: Seq<char>, b: Seq<char>, n: nat)
    requires
        slash_count(a) <= n,
    ensures
        from_slash(a + b, n) == from_slash(b, (n - slash_count(a)) as nat),
    decreases a.len(),
{
    if a.len() == 0 {
        assert(a + b =~= b);
    } else {
        assert((a + b).drop_first() =~= a.drop_first() + b);
        if a[0] == '/' {
            lemma_from_slash_after(a.drop_first(), b, (n - 1) as nat);
        } else {
            lemma_from_slash_after(a.drop_first(), b, n);
        }
    }
}

proof fn lemma_from_slash_starts_with_slash(s: Seq<char>, n: nat)
    ensures
        from_slash(s, n).len() == 0 || from_slash(s, n)[0] == '/',
    decreases s.len(),
{
    if s.len() > 0 {
        lemma_from_slash_starts_with_slash(s.drop_first(), if s[0] == '/' && n > 0 { (n - 1) as nat } else { n });
    }
}

proof fn lemma_url_slashes()
    ensures
        slash_count(URL@) == 2,
{
    reveal_strlit("http://127.0.0.1:619");
    reveal_with_fuel(slash_count, 21);
}

/// Redirecting is stable: the redirected URL keeps the request's path, so
/// redirecting it once more gives the same URL.
pub proof fn lemma_redirect_idempotent(url: Seq<char>)
    ensures
        request_path(redirected(url)) == request_path(url),
        redirected(redirected(url)) == redirected(url),
{
    let p = request_path(url);
    lemma_url_slashes();
    lemma_from_slash_after(URL@, p, 2);
    lemma_from_slash_starts_with_slash(url, 2);
    if p.len() == 0 {
        assert(from_slash(p, 0) =~= p);
    }
}

proof fn lemma_slash_count_append(a: Seq<char>, b: Seq<char>)
    ensures
        slash_count(a + b) == slash_count(a) + slash_count(b),
    decreases a.len(),
{
    if a.len() == 0 {
        assert(a + b =~= b);
    } else {
        assert((a + b).drop_first() =~= a.drop_first() + b);
        lemma_slash_count_append(a.drop_first(), b);
    }
}

proof fn lemma_slash_count_none(s: Seq<char>)
    requires
        forall|k: int| 0 <= k < s.len() ==> s[k] != '/',
    ensures
        slash_count(s) == 0,
    decreases s.len(),
{
    if s.len() > 0 {
        lemma_slash_count_none(s.drop_first());
    }
}

/// The path is kept whole. For a URL `scheme` `/` `middle` `/` `host` `path`
/// whose first three parts hold no slash and whose `path` is empty or starts
/// with a slash, the request path is `path`, character for character, and the
/// redirected URL is the local server's URL followed by that `path`.
pub proof fn lemma_redirect_keeps_path(
    scheme: Seq<char>,
    middle: Seq<char>,
    host: Seq<char>,
    path: Seq<char>,
)
    requires
        forall|k: int| 0 <= k < scheme.len() ==> scheme[k] != '/',
        forall|k: int| 0 <= k < middle.len() ==> middle[k] != '/',
        forall|k: int| 0 <= k < host.len() ==> host[k] != '/',
        path.len() == 0 || path[0] == '/',
    ensures
        request_path(scheme + seq!['/'] + middle + seq!['/'] + host + path) == path,
        redirected(scheme + seq!['/'] + middle + seq!['/'] + host + path) == URL@ + path,
{
    let a = scheme + seq!['/'] + middle + seq!['/'] + host;
    lemma_slash_count_none(scheme);
    lemma_slash_count_none(middle);
    lemma_slash_count_none(host);
    assert(seq!['/'].drop_first() =~= Seq::<char>::empty());
    assert(slash_count(Seq::<char>::empty()) == 0);
    assert(seq!['/'][0] == '/');
    assert(slash_count(seq!['/']) == 1);
    lemma_slash_count_append(scheme, seq!['/']);
    lemma_slash_count_append(scheme + seq!['/'], middle);
    lemma_slash_count_append(scheme + seq!['/'] + middle, seq!['/']);
    lemma_slash_count_append(scheme + seq!['/'] + middle + seq!['/'], host);
    assert(slash_count(a) == 2);
    lemma_from_slash_after(a, path, 2);
    if path.len() == 0 {
        assert(from_slash(path, 0) =~= path);
    }
    assert(scheme + seq!['/'] + middle + seq!['/'] + host + path == a + path);
}

/// The request path is a suffix of the URL: what is kept of the URL is its
/// whole tail, nothing inside it is dropped.
pub proof fn lemma_request_path_is_suffix(url: Seq<char>)
    ensures
        exists|k: int| 0 <= k <= url.len() && #[trigger] url.skip(k) == request_path(url),
{
    lemma_from_slash_suffix(url, 2);
}

proof fn lemma_from_slash_suffix(s: Seq<char>, n: nat)
    ensures
        exists|k: int| 0 <= k <= s.len() && #[trigger] s.skip(k) == from_slash(s, n),
    decreases s.len(),
{
    if s.len() == 0 {
        assert(s.skip(0) =~= from_slash(s, n));
    } else if s[0] == '/' && n == 0 {
        assert(s.skip(0) =~= s);
    } else {
        let m: nat = if s[0] == '/' { (n - 1) as nat } else { n };
        lemma_from_slash_suffix(s.drop_first(), m);
        let k = choose|k: int| 0 <= k <= s.drop_first().len() && #[trigger] s.drop_first().skip(k) == from_slash(s.drop_first(), m);
        assert(s.skip(k + 1) =~= s.drop_first().skip(k));
    }
}

/// A request naming one of the official hosts (`mihoyo.com`, `hoyoverse.com`,
/// `starrails.com`, `.bhsr.com`) anywhere in its URL, with no `autopatchcn` or
/// `autopatchos` in it, is redirected.
pub proof fn lemma_official_host_redirected(before: Seq<char>, host: Seq<char>, after: Seq<char>)
    requires
        host == "mihoyo.com"@ || host == "hoyoverse.com"@ || host == "starrails.com"@ || host == ".bhsr.com"@,
        forall|i: int|
            0 <= i && i + "autopatchcn"@.len() <= (before + host + after).len() ==> #[trigger] (before + host
                + after).subrange(i, i + "autopatchcn"@.len()) != "autopatchcn"@,
        forall|i: int|
            0 <= i && i + "autopatchos"@.len() <= (before + host + after).len() ==> #[trigger] (before + host
                + after).subrange(i, i + "autopatchos"@.len()) != "autopatchos"@,
    ensures
        is_official_request(before + host + after),
{
    let url = before + host + after;
    assert(url.subrange(before.len() as int, before.len() + host.len() as int) =~= host);
}

/// A request whose URL holds `autopatchcn` or `autopatchos` (a patch
/// download) is never redirected, whatever host it names.
pub proof fn lemma_patch_download_not_redirected(before: Seq<char>, marker: Seq<char>, after: Seq<char>)
    requires
        marker == "autopatchcn"@ || marker == "autopatchos"@,
    ensures
        !is_official_request(before + marker + after),
{
    let url = before + marker + after;
    assert(url.subrange(before.len() as int, before.len() + marker.len() as int) =~= marker);
}

/// A redirected request names an official host somewhere in its URL.
pub proof fn lemma_redirected_names_official_host(url: Seq<char>)
    requires
        is_official_request(url),
    ensures
        exists|i: int, host: Seq<char>|
            (host == "mihoyo.com"@ || host == "hoyoverse.com"@ || host == "starrails.com"@
                || host == ".bhsr.com"@) && 0 <= i && i + host.len() <= url.len() && #[trigger] url.subrange(
                i,
                i + host.len(),
            ) == host,
{
}

} // verus!
