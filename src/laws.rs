use vstd::prelude::*;
use vstd::utf8::encode_utf8;
use crate::header::is_header_value_bytes;
use crate::pair::DomainPair;
use crate::resolver::{App, pair_table, redirect_url};

verus! {

/// A request for the source of any configured pair is sent on, with a 308,
/// to `<scheme>://<dest>` followed by the request's own path and query,
/// wherever that URL can be a header value.
pub proof fn lemma_pair_redirects(pairs: Seq<DomainPair>, app: App, i: int, uri: Seq<char>)
    requires
        app.wf(),
        app.table() == pair_table(pairs),
        0 <= i < pairs.len(),
        is_header_value_bytes(encode_utf8(redirect_url(app.is_insecure(), pairs[i].dest@, uri))),
    ensures
        app.reply_spec(Some(encode_utf8(pairs[i].source@)), uri) == (
            308u16,
            "Redirecting"@,
            Some(redirect_url(app.is_insecure(), pairs[i].dest@, uri)),
        ),
{
    let t = app.table();
    let k = encode_utf8(pairs[i].source@);
    assert(t[i].0 == k);
    assert(app.domain_map().contains_key(k));
    let c = choose|j: int| 0 <= j < t.len() && t[j].0 == k;
    assert(c == i);
}

/// A host with no entry of its own goes, with a 308, to the fallback
/// destination when there is one, the path and query kept.
pub proof fn lemma_fallback_redirects(app: App, host: Seq<u8>, fallback: Seq<char>, uri: Seq<char>)
    requires
        app.wf(),
        !app.domain_map().contains_key(host),
        app.fallback_dest() == Some(fallback),
        is_header_value_bytes(encode_utf8(redirect_url(app.is_insecure(), fallback, uri))),
    ensures
        app.reply_spec(Some(host), uri) == (
            308u16,
            "Redirecting"@,
            Some(redirect_url(app.is_insecure(), fallback, uri)),
        ),
{
}

/// A host with no entry of its own and no fallback is refused with a 400.
pub proof fn lemma_unsupported_host(app: App, host: Seq<u8>, uri: Seq<char>)
    requires
        app.wf(),
        !app.domain_map().contains_key(host),
        app.fallback_dest() is None,
    ensures
        app.reply_spec(Some(host), uri) == (400u16, "Unsupported hostname"@, None::<Seq<char>>),
{
}

/// A request without a `Host` header is refused with a 400.
pub proof fn lemma_missing_host(app: App, uri: Seq<char>)
    requires
        app.wf(),
    ensures
        app.reply_spec(None, uri) == (400u16, "Missing host header"@, None::<Seq<char>>),
{
}

/// The request's path and query end the `Location` URL byte for byte,
/// neither escaped nor changed, whenever the request is redirected.
pub proof fn lemma_uri_kept(app: App, host: Seq<u8>, uri: Seq<char>)
    requires
        app.wf(),
        app.destination(host) is Some,
        is_header_value_bytes(
            encode_utf8(redirect_url(app.is_insecure(), app.destination(host).unwrap(), uri)),
        ),
    ensures
        app.reply_spec(Some(host), uri).2 matches Some(loc) && loc.len() >= uri.len()
            && loc.subrange(loc.len() - uri.len(), loc.len() as int) == uri,
{
    let loc = redirect_url(app.is_insecure(), app.destination(host).unwrap(), uri);
    assert(loc.subrange(loc.len() - uri.len(), loc.len() as int) =~= uri);
}

} // verus!
