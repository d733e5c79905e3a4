use vstd::prelude::*;
use vstd::utf8::{encode_utf8, encode_utf8_decode_utf8};
use hyper::header::HeaderValue;
use crate::header::{debug_quoted, invalid_value_text, is_header_value_bytes, quoted};
use crate::pair::{ConfigError, DomainPair};

verus! {

pub const PERMANENT_REDIRECT: u16 = 308;

pub const BAD_REQUEST: u16 = 400;

pub const INTERNAL_SERVER_ERROR: u16 = 500;

/// The response that the transport is to send for one request.
#[derive(Debug)]
pub struct Reply {
    pub status: u16,
    pub body: String,
    /// The `Location` header, when the response has one.
    pub location: Option<String>,
}

impl View for Reply {
    type V = (u16, Seq<char>, Option<Seq<char>>);

    open spec fn view(&self) -> (u16, Seq<char>, Option<Seq<char>>) {
        (self.status, self.body@, opt_text(self.location))
    }
}

pub open spec fn opt_text(s: Option<String>) -> Option<Seq<char>> {
    match s {
        Some(t) => Some(t@),
        None => None,
    }
}

pub open spec fn opt_bytes(b: Option<&[u8]>) -> Option<Seq<u8>> {
    match b {
        Some(h) => Some(h@),
        None => None,
    }
}

/// No two entries of a table of source bytes and destinations share a source.
pub open spec fn sources_unique(t: Seq<(Seq<u8>, Seq<char>)>) -> bool {
    forall|i: int, j: int| 0 <= i < j < t.len() ==> t[i].0 != t[j].0
}

pub open spec fn has_source(t: Seq<(Seq<u8>, Seq<char>)>, k: Seq<u8>) -> bool {
    exists|j: int| 0 <= j < t.len() && t[j].0 == k
}

/// The table read as a map from source bytes to destination.
pub open spec fn table_map(t: Seq<(Seq<u8>, Seq<char>)>) -> Map<Seq<u8>, Seq<char>> {
    Map::new(
        |k: Seq<u8>| has_source(t, k),
        |k: Seq<u8>| t[choose|j: int| 0 <= j < t.len() && t[j].0 == k].1,
    )
}

/// The table that a list of pairs gives: each source as its UTF-8 bytes.
pub open spec fn pair_table(ps: Seq<DomainPair>) -> Seq<(Seq<u8>, Seq<char>)> {
    Seq::new(ps.len(), |i: int| (encode_utf8(ps[i].source@), ps[i].dest@))
}

pub open spec fn sources_distinct(ps: Seq<DomainPair>) -> bool {
    forall|i: int, j: int| 0 <= i < j < ps.len() ==> ps[i].source@ != ps[j].source@
}

/// `ps[j]` is the first pair whose source an earlier pair already named.
pub open spec fn first_repeat(ps: Seq<DomainPair>, j: int) -> bool {
    &&& 0 <= j < ps.len()
    &&& sources_distinct(ps.take(j))
    &&& exists|i: int| 0 <= i < j && ps[i].source@ == ps[j].source@
}

pub open spec fn scheme(insecure: bool) -> Seq<char> {
    if insecure {
        "http"@
    } else {
        "https"@
    }
}

/// `<scheme>://<dest><uri>`, the uri kept as it came.
pub open spec fn redirect_url(insecure: bool, dest: Seq<char>, uri: Seq<char>) -> Seq<char> {
    scheme(insecure) + "://"@ + dest + uri
}

pub open spec fn location_error_text(quoted_location: Seq<char>, error_text: Seq<char>) -> Seq<
    char,
> {
    "Unable to convert location "@ + quoted_location + " to HTTP header value: "@ + error_text
}

/// A redirect to `url`, or the report that `url` cannot be a header value.
pub open spec fn redirect_reply(url: Seq<char>) -> (u16, Seq<char>, Option<Seq<char>>) {
    if is_header_value_bytes(encode_utf8(url)) {
        (308, "Redirecting"@, Some(url))
    } else {
        (500, location_error_text(debug_quoted(url), "InvalidHeaderValue"@), None)
    }
}

/// The body of the response for a location that is no header value.
pub fn location_error_body(quoted_location: &str, error_text: &str) -> (r: String)
    ensures
        r@ == location_error_text(quoted_location@, error_text@),
{
    let mut r = "Unable to convert location ".to_owned();
    r.append(quoted_location);
    r.append(" to HTTP header value: ");
    r.append(error_text);
    r
}

/// Whether two byte strings are equal.
fn bytes_equal(a: &[u8], b: &[u8]) -> (r: bool)
    ensures
        r == (a@ == b@),
{
    if a.len() != b.len() {
        return false;
    }
    let mut i: usize = 0;
    while i < a.len()
        invariant
            a@.len() == b@.len(),
            i <= a@.len(),
            forall|k: int| 0 <= k < i ==> a@[k] == b@[k],
        decreases a@.len() - i,
    {
        if a[i] != b[i] {
            return false;
        }
        i = i + 1;
    }
    assert(a@ =~= b@);
    true
}

pub open spec fn entry_view(e: (Vec<u8>, String)) -> (Seq<u8>, Seq<char>) {
    (e.0@, e.1@)
}

/// The index of the entry whose source is `host`, if any.
fn position_of(table: &Vec<(Vec<u8>, String)>, host: &[u8]) -> (r: Option<usize>)
    ensures
        r matches Some(i) ==> i < table@.len() && table@[i as int].0@ == host@,
        r is None ==> forall|i: int| 0 <= i < table@.len() ==> table@[i].0@ != host@,
{
    let mut i: usize = 0;
    while i < table.len()
        invariant
            i <= table@.len(),
            forall|k: int| 0 <= k < i ==> table@[k].0@ != host@,
        decreases table@.len() - i,
    {
        if bytes_equal(table[i].0.as_slice(), host) {
            return Some(i);
        }
        i = i + 1;
    }
    None
}

/// The redirect table and settings, fixed at startup and read by every
/// request.
pub struct App {
    domain_map: Vec<(Vec<u8>, String)>,
    fallback: Option<String>,
    insecure: bool,
}

impl App {
    /// The entries, in the order of the pairs they came from.
    pub closed spec fn table(&self) -> Seq<(Seq<u8>, Seq<char>)> {
        self.domain_map@.map_values(|e: (Vec<u8>, String)| entry_view(e))
    }

    pub closed spec fn fallback_dest(&self) -> Option<Seq<char>> {
        opt_text(self.fallback)
    }

    pub closed spec fn is_insecure(&self) -> bool {
        self.insecure
    }

    pub open spec fn wf(&self) -> bool {
        sources_unique(self.table())
    }

    pub open spec fn domain_map(&self) -> Map<Seq<u8>, Seq<char>> {
        table_map(self.table())
    }

    /// Where a request for `host` goes: its own entry, else the fallback.
    pub open spec fn destination(&self, host: Seq<u8>) -> Option<Seq<char>> {
        if self.domain_map().contains_key(host) {
            Some(self.domain_map()[host])
        } else {
            self.fallback_dest()
        }
    }

    /// The response owed to a request with `host` as its `Host` header and
    /// `uri` as its path and query.
    pub open spec fn reply_spec(&self, host: Option<Seq<u8>>, uri: Seq<char>) -> (
        u16,
        Seq<char>,
        Option<Seq<char>>,
    ) {
        match host {
            None => (400, "Missing host header"@, None),
            Some(h) => match self.destination(h) {
                None => (400, "Unsupported hostname"@, None),
                Some(d) => redirect_reply(redirect_url(self.is_insecure(), d, uri)),
            },
        }
    }

    /// Builds the resolver; fails on the first pair whose source an earlier
    /// pair already named.
    pub fn new(pairs: Vec<DomainPair>, fallback: Option<String>, insecure: bool) -> (r: Result<
        App,
        ConfigError,
    >)
        ensures
            r is Ok <==> sources_distinct(pairs@),
            r matches Ok(app) ==> {
                &&& app.wf()
                &&& app.table() == pair_table(pairs@)
                &&& app.fallback_dest() == opt_text(fallback)
                &&& app.is_insecure() == insecure
            },
            r matches Err(e) ==> exists|j: int|
                {
                    &&& first_repeat(pairs@, j)
                    &&& e matches ConfigError::DuplicateSource(t)
                    &&& t@ == pairs@[j].source@
                },
    {
        let mut table: Vec<(Vec<u8>, String)> = Vec::new();
        let mut j: usize = 0;
        while j < pairs.len()
            invariant
                j <= pairs@.len(),
                table@.len() == j,
                forall|k: int|
                    0 <= k < j ==> #[trigger] table@[k].0@ == encode_utf8(pairs@[k].source@)
                        && table@[k].1@ == pairs@[k].dest@,
                sources_distinct(pairs@.take(j as int)),
            decreases pairs@.len() - j,
        {
            let key = pairs[j].source.as_str().as_bytes_vec();
            match position_of(&table, key.as_slice()) {
                Some(i) => {
                    proof {
                        encode_utf8_decode_utf8(pairs@[i as int].source@);
                        encode_utf8_decode_utf8(pairs@[j as int].source@);
                        assert(first_repeat(pairs@, j as int));
                    }
                    return Err(ConfigError::DuplicateSource(pairs[j].source.clone()));
                },
                None => {},
            }
            let dest = pairs[j].dest.clone();
            table.push((key, dest));
            proof {
                let s = pairs@.take(j + 1);
                let s0 = pairs@.take(j as int);
                assert forall|a: int, b: int|
                    0 <= a < b < j + 1 implies #[trigger] s[a].source@ != #[trigger] s[b].source@ by {
                    if b == j {
                        assert(table@[a].0@ != encode_utf8(pairs@[j as int].source@));
                    } else {
                        assert(s0[a] == pairs@[a]);
                        assert(s0[b] == pairs@[b]);
                    }
                }
            }
            j = j + 1;
        }
        assert(pairs@.take(j as int) =~= pairs@);
        let app = App { domain_map: table, fallback, insecure };
        proof {
            assert(app.table() =~= pair_table(pairs@));
            assert forall|a: int, b: int| 0 <= a < b < app.table().len() implies app.table()[a].0
                != app.table()[b].0 by {
                encode_utf8_decode_utf8(pairs@[a].source@);
                encode_utf8_decode_utf8(pairs@[b].source@);
            }
        }
        Ok(app)
    }

    /// The destination that the table gives `host`, if it has one.
    fn find_dest(&self, host: &[u8]) -> (r: Option<&String>)
        requires
            self.wf(),
        ensures
            r is Some <==> self.domain_map().contains_key(host@),
            r matches Some(d) ==> d@ == self.domain_map()[host@],
    {
        match position_of(&self.domain_map, host) {
            Some(i) => {
                proof {
                    let t = self.table();
                    assert(t[i as int].0 == host@);
                    let c = choose|j: int| 0 <= j < t.len() && t[j].0 == host@;
                    assert(c == i as int);
                }
                Some(&self.domain_map[i].1)
            },
            None => {
                proof {
                    let t = self.table();
                    assert forall|j: int| 0 <= j < t.len() implies t[j].0 != host@ by {
                        assert(t[j].0 == self.domain_map@[j].0@);
                    }
                }
                None
            },
        }
    }

    /// Decides the response to one request, from its `Host` header (absent,
    /// or its raw bytes) and its path and query.
    pub fn handle_inner(&self, host: Option<&[u8]>, uri: &str) -> (r: Reply)
        requires
            self.wf(),
        ensures
            r@ == self.reply_spec(opt_bytes(host), uri@),
    {
        let host = match host {
            None => {
                return Reply {
                    status: BAD_REQUEST,
                    body: "Missing host header".to_owned(),
                    location: None,
                };
            },
            Some(h) => h,
        };
        let dest = match self.find_dest(host) {
            Some(d) => d,
            None => match &self.fallback {
                Some(f) => f,
                None => {
                    return Reply {
                        status: BAD_REQUEST,
                        body: "Unsupported hostname".to_owned(),
                        location: None,
                    };
                },
            },
        };
        let mut url = if self.insecure {
            "http".to_owned()
        } else {
            "https".to_owned()
        };
        url.append("://");
        url.append(dest.as_str());
        url.append(uri);
        match HeaderValue::from_str(url.as_str()) {
            Ok(_) => Reply {
                status: PERMANENT_REDIRECT,
                body: "Redirecting".to_owned(),
                location: Some(url),
            },
            Err(e) => {
                let q = quoted(url.as_str());
                let t = invalid_value_text(&e);
                Reply {
                    status: INTERNAL_SERVER_ERROR,
                    body: location_error_body(q.as_str(), t.as_str()),
                    location: None,
                }
            },
        }
    }
}

} // verus!
