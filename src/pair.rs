use vstd::prelude::*;

verus! {

/// One `source=dest` mapping given at startup.
#[derive(Debug)]
pub struct DomainPair {
    pub source: String,
    pub dest: String,
}

/// Why a configuration could not be built.
#[derive(Debug)]
pub enum ConfigError {
    /// The text was not of the form `source=dest` with exactly one `=`.
    InvalidPair(String),
    /// Two pairs name the same source domain.
    DuplicateSource(String),
}

/// `s` is `src`, one `=`, then `dst`, and neither side holds a `=`.
pub open spec fn splits_into(s: Seq<char>, src: Seq<char>, dst: Seq<char>) -> bool {
    &&& s == src + seq!['='] + dst
    &&& !src.contains('=')
    &&& !dst.contains('=')
}

/// `s` holds exactly one `=`.
pub open spec fn is_pair_text(s: Seq<char>) -> bool {
    exists|src: Seq<char>, dst: Seq<char>| splits_into(s, src, dst)
}

impl DomainPair {
    /// Splits `s` at its only `=`; `None` when it holds no `=` or more than one.
    pub fn parse_option(s: &str) -> (r: Option<DomainPair>)
        ensures
            r is Some <==> is_pair_text(s@),
            r matches Some(p) ==> splits_into(s@, p.source@, p.dest@),
    {
        let n = s.unicode_len();
        let mut i: usize = 0;
        while i < n && s.get_char(i) != '='
            invariant
                n == s@.len(),
                i <= n,
                forall|j: int| 0 <= j < i ==> s@[j] != '=',
            decreases n - i,
        {
            i = i + 1;
        }
        if i == n {
            proof {
                assert(!s@.contains('='));
                if is_pair_text(s@) {
                    let (src, dst) = choose|src: Seq<char>, dst: Seq<char>| splits_into(s@, src, dst);
                    assert(s@[src.len() as int] == '=');
                }
            }
            return None;
        }
        let eq = i;
        let mut k: usize = eq + 1;
        while k < n
            invariant
                n == s@.len(),
                eq < k <= n,
                s@[eq as int] == '=',
                forall|j: int| 0 <= j < eq ==> s@[j] != '=',
                forall|j: int| eq < j < k ==> s@[j] != '=',
            decreases n - k,
        {
            if s.get_char(k) == '=' {
                proof {
                    if is_pair_text(s@) {
                        let (src, dst) = choose|src: Seq<char>, dst: Seq<char>| splits_into(s@, src, dst);
                        lemma_only_separator(s@, src, dst, eq as int);
                        lemma_only_separator(s@, src, dst, k as int);
                    }
                }
                return None;
            }
            k = k + 1;
        }
        let source = s.substring_char(0, eq).to_owned();
        let dest = s.substring_char(eq + 1, n).to_owned();
        proof {
            let src = s@.subrange(0, eq as int);
            let dst = s@.subrange(eq + 1, n as int);
            assert(s@ =~= src + seq!['='] + dst);
            assert(!src.contains('=')) by {
                if src.contains('=') {
                    let j = choose|j: int| 0 <= j < src.len() && src[j] == '=';
                    assert(s@[j] == '=');
                }
            }
            assert(!dst.contains('=')) by {
                if dst.contains('=') {
                    let j = choose|j: int| 0 <= j < dst.len() && dst[j] == '=';
                    assert(s@[eq + 1 + j] == '=');
                }
            }
            assert(splits_into(s@, src, dst));
        }
        Some(DomainPair { source, dest })
    }
}

impl DomainPair {
    /// Reads a `source=dest` pair, or reports the text that is not one.
    pub fn from_str(s: &str) -> (r: Result<DomainPair, ConfigError>)
        ensures
            r is Ok <==> is_pair_text(s@),
            r matches Ok(p) ==> splits_into(s@, p.source@, p.dest@),
            r matches Err(e) ==> e matches ConfigError::InvalidPair(t) && t@ == s@,
    {
        match DomainPair::parse_option(s) {
            None => Err(ConfigError::InvalidPair(s.to_owned())),
            Some(pair) => Ok(pair),
        }
    }
}

pub open spec fn invalid_pair_prefix() -> Seq<char> {
    "Invalid domain pair: "@
}

pub open spec fn duplicate_source_prefix() -> Seq<char> {
    "Duplicate destination for domain name "@
}

impl ConfigError {
    /// The text shown to an operator when startup fails.
    pub fn message(&self) -> (r: String)
        ensures
            self matches ConfigError::InvalidPair(t) ==> r@ == invalid_pair_prefix() + t@,
            self matches ConfigError::DuplicateSource(t) ==> r@ == duplicate_source_prefix()
                + t@,
    {
        let (prefix, text) = match self {
            ConfigError::InvalidPair(t) => ("Invalid domain pair: ", t),
            ConfigError::DuplicateSource(t) => ("Duplicate destination for domain name ", t),
        };
        let mut r = prefix.to_owned();
        r.append(text.as_str());
        r
    }
}

/// In a text split at its only `=`, every `=` stands at the split.
proof fn lemma_only_separator(s: Seq<char>, src: Seq<char>, dst: Seq<char>, j: int)
    requires
        splits_into(s, src, dst),
        0 <= j < s.len(),
        s[j] == '=',
    ensures
        j == src.len(),
{
    if j < src.len() {
        assert(src[j] == '=');
    } else if j > src.len() {
        assert(dst[j - src.len() - 1] == '=');
    }
}

} // verus!
