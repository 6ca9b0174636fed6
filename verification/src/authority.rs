//! Authorities as the router reads them: the key under which a `Host` value is
//! looked up, and the text of the URI a forwarded request is sent to.

use vstd::prelude::*;
use vstd::string::*;

verus! {

/// An ASCII decimal digit, the only character a port is written with.
pub open spec fn is_port_digit(c: char) -> bool {
    '0' <= c && c <= '9'
}

/// `host` ends in a port suffix that starts at index `i`: a colon there, and
/// nothing but digits (possibly none) behind it.
pub open spec fn port_suffix_at(host: Seq<char>, i: int) -> bool {
    &&& 0 <= i < host.len()
    &&& host[i] == ':'
    &&& forall|j: int| i < j < host.len() ==> is_port_digit(#[trigger] host[j])
}

/// The key a `Host` value is looked up under: the value without its port
/// suffix, if it has one, and the whole value otherwise. The comparison that
/// follows is exact and case-sensitive, so nothing else is changed.
///
/// A bracketed IPv6 literal without a port keeps its colons, because the
/// characters behind its last colon are not all digits.
pub open spec fn lookup_key(host: Seq<char>) -> Seq<char> {
    if exists|i: int| port_suffix_at(host, i) {
        host.take(choose|i: int| port_suffix_at(host, i))
    } else {
        host
    }
}

/// A value has at most one port suffix: it starts at the last colon.
pub proof fn lemma_port_suffix_unique(host: Seq<char>, i: int, j: int)
    requires
        port_suffix_at(host, i),
        port_suffix_at(host, j),
    ensures
        i == j,
{
    if i < j {
        assert(is_port_digit(host[j]));
    } else if j < i {
        assert(is_port_digit(host[i]));
    }
}

/// The lookup key of a `Host` value, as an owned string.
pub fn strip_port(host: &str) -> (key: String)
    ensures
        key@ == lookup_key(host@),
{
    broadcast use vstd::string::group_string_axioms;

    let total: usize = host.unicode_len();
    // The last colon read so far, as long as only digits were read since.
    let mut colon: Option<usize> = None;
    let mut i: usize = 0;
    let chars = host.chars();
    for c in it: chars
        invariant
            it.seq() == host@,
            total as nat == host@.len(),
            i == it.index(),
            match colon {
                Some(k) => k < i && host@[k as int] == ':' && forall|j: int|
                    k < j < i ==> is_port_digit(#[trigger] host@[j]),
                None => forall|k: int|
                    0 <= k < i ==> !(#[trigger] host@[k] == ':' && forall|j: int|
                        k < j < i ==> is_port_digit(#[trigger] host@[j])),
            },
    {
        let ghost before = colon;
        if c == ':' {
            colon = Some(i);
        } else if !(c >= '0' && c <= '9') {
            colon = None;
            proof {
                assert forall|k: int| 0 <= k < i + 1 implies !(#[trigger] host@[k] == ':'
                    && forall|j: int| k < j < i + 1 ==> is_port_digit(#[trigger] host@[j])) by {
                    if k < i {
                        assert(!is_port_digit(host@[i as int]));
                    }
                }
            }
        } else {
            proof {
                if before is None {
                    assert forall|k: int| 0 <= k < i + 1 implies !(#[trigger] host@[k] == ':'
                        && forall|j: int| k < j < i + 1 ==> is_port_digit(#[trigger] host@[j])) by {
                        if k < i && host@[k] == ':' {
                            let j: int = choose|j: int| k < j < i && !is_port_digit(host@[j]);
                            assert(k < j < i + 1 && !is_port_digit(host@[j]));
                        }
                    }
                }
            }
        }
        i = i + 1;
    }
    match colon {
        Some(k) => {
            proof {
                assert(port_suffix_at(host@, k as int));
                let w: int = choose|w: int| port_suffix_at(host@, w);
                lemma_port_suffix_unique(host@, k as int, w);
            }
            host.substring_char(0, k).to_owned()
        },
        None => {
            proof {
                assert forall|k: int| !port_suffix_at(host@, k) by {
                    if 0 <= k < host@.len() {
                        assert(!(host@[k] == ':' && forall|j: int|
                            k < j < i ==> is_port_digit(#[trigger] host@[j])));
                    }
                }
            }
            host.to_owned()
        },
    }
}

/// The text of the URI a forwarded request goes to: plain HTTP to the target
/// authority, then the request's own path, then its query behind a `?` when
/// it has one. Path and query are taken over character for character.
pub open spec fn upstream_uri(target: Seq<char>, path: Seq<char>, query: Option<Seq<char>>) -> Seq<
    char,
> {
    "http://"@ + target + path + match query {
        Some(q) => "?"@ + q,
        None => Seq::empty(),
    }
}

/// Builds the text of the upstream URI.
pub fn build_upstream_uri(target: &str, path: &str, query: Option<&str>) -> (uri: String)
    ensures
        uri@ == upstream_uri(
            target@,
            path@,
            match query {
                Some(q) => Some(q@),
                None => None,
            },
        ),
{
    let mut uri = String::from_str("http://");
    uri.append(target);
    uri.append(path);
    match query {
        Some(q) => {
            uri.append("?");
            uri.append(q);
            assert(uri@ == "http://"@ + target@ + path@ + ("?"@ + q@));
        },
        None => {
            assert(uri@ == "http://"@ + target@ + path@ + Seq::<char>::empty());
        },
    }
    uri
}

} // verus!
