//! Decoding the event-ingestion URL embedded in an SDK key.
//!
//! SDK keys have the form `{random}.{url-safe-base64-without-padding}`.
//! The second segment decodes to a `x-www-form-urlencoded` string whose
//! `eh` parameter names the event-ingestion host; the final URL appends
//! the `v0/i` path and defaults to the `https` scheme. A key without an
//! `eh` parameter disables event ingestion.

use vstd::prelude::*;
use vstd::string::*;
use vstd::utf8::{encode_utf8, valid_utf8};

use crate::text::{has_prefix, str_ends_with_char, str_has_prefix};

verus! {

/// The bytes denoted by a URL-safe unpadded base64 string, as the
/// `base64` crate decodes it; `None` when the string is not valid base64.
pub uninterp spec fn b64url_decode(s: Seq<char>) -> Option<Seq<u8>>;

/// Relies on base64::Engine::decode with the URL_SAFE_NO_PAD engine: the
/// decoded bytes are a function of the input string alone.
#[verifier::external_body]
fn base64_url_decode(s: &str) -> (r: Option<Vec<u8>>)
    ensures
        match r {
            Some(v) => b64url_decode(s@) == Some(v@),
            None => b64url_decode(s@) is None,
        },
{
    match base64::Engine::decode(&base64::engine::general_purpose::URL_SAFE_NO_PAD, s) {
        Ok(v) => Some(v),
        Err(_) => None,
    }
}

/// Relies on String::from_utf8: succeeds exactly on valid UTF-8 and
/// returns the string those bytes encode.
#[verifier::external_body]
fn string_from_utf8(bytes: Vec<u8>) -> (r: Option<String>)
    ensures
        r is Some <==> valid_utf8(bytes@),
        match r {
            Some(s) => encode_utf8(s@) == bytes@,
            None => true,
        },
{
    match String::from_utf8(bytes) {
        Ok(s) => Some(s),
        Err(_) => None,
    }
}

/// The name-value pairs denoted by a `x-www-form-urlencoded` byte string,
/// percent-decoded, as the `form_urlencoded` crate parses it.
pub uninterp spec fn form_params(input: Seq<u8>) -> Seq<(Seq<char>, Seq<char>)>;

/// Relies on form_urlencoded::parse: the decoded name-value pairs are a
/// function of the input bytes alone.
#[verifier::external_body]
fn parse_form_urlencoded(input: &Vec<u8>) -> (r: Vec<(String, String)>)
    ensures
        r@.map_values(|p: (String, String)| (p.0@, p.1@)) == form_params(input@),
{
    form_urlencoded::parse(input.as_slice()).map(
        |(k, v)| (k.into_owned(), v.into_owned()),
    ).collect()
}

/// The second dot-separated segment of an SDK key: the characters between
/// the first dot and the following dot, or the end. `None` when the key
/// has no dot.
pub open spec fn payload_segment(s: Seq<char>) -> Option<Seq<char>>
    decreases s.len(),
{
    if s.len() == 0 {
        None
    } else if s[0] == '.' {
        Some(segment_until_dot(s.drop_first()))
    } else {
        payload_segment(s.drop_first())
    }
}

/// The longest dot-free prefix.
pub open spec fn segment_until_dot(s: Seq<char>) -> Seq<char>
    decreases s.len(),
{
    if s.len() == 0 {
        Seq::empty()
    } else if s[0] == '.' {
        Seq::empty()
    } else {
        seq![s[0]] + segment_until_dot(s.drop_first())
    }
}

/// The value of the first parameter named `key`.
pub open spec fn first_param(params: Seq<(Seq<char>, Seq<char>)>, key: Seq<char>) -> Option<
    Seq<char>,
>
    decreases params.len(),
{
    if params.len() == 0 {
        None
    } else if params[0].0 == key {
        Some(params[0].1)
    } else {
        first_param(params.drop_first(), key)
    }
}

/// The ingestion URL built from an event host: the `v0/i` path appended
/// with the right separator, and the `https` scheme added when the host
/// names none.
pub open spec fn ingestion_url_of(hostname: Seq<char>) -> Seq<char> {
    let with_path = if hostname.len() > 0 && hostname.last() == '/' {
        hostname + "v0/i"@
    } else {
        hostname + "/v0/i"@
    };
    if has_prefix(with_path, "http://"@) || has_prefix(with_path, "https://"@) {
        with_path
    } else {
        "https://"@ + with_path
    }
}

/// The event-ingestion URL embedded in an SDK key, if any: the base64
/// payload of the second key segment, decoded as a form-urlencoded
/// string, must supply an `eh` parameter.
pub open spec fn decoded_ingestion_url(sdk_key: Seq<char>) -> Option<Seq<char>> {
    match payload_segment(sdk_key) {
        None => None,
        Some(payload) => match b64url_decode(payload) {
            None => None,
            Some(bytes) => if !valid_utf8(bytes) {
                None
            } else {
                match first_param(form_params(bytes), "eh"@) {
                    None => None,
                    Some(host) => Some(ingestion_url_of(host)),
                }
            },
        },
    }
}

proof fn lemma_payload_segment_skip(s: Seq<char>, i: int)
    requires
        0 <= i <= s.len(),
        forall|k: int| 0 <= k < i ==> s[k] != '.',
    ensures
        payload_segment(s) == payload_segment(s.skip(i)),
    decreases i,
{
    if i > 0 {
        assert(s.skip(1).skip(i - 1) == s.skip(i));
        assert(forall|k: int| 0 <= k < i - 1 ==> #[trigger] s.skip(1)[k] == s[k + 1]);
        lemma_payload_segment_skip(s.skip(1), i - 1);
        assert(s.drop_first() == s.skip(1));
    } else {
        assert(s.skip(0) == s);
    }
}

proof fn lemma_segment_until_dot(s: Seq<char>, d: int)
    requires
        0 <= d <= s.len(),
        forall|k: int| 0 <= k < d ==> s[k] != '.',
        d < s.len() ==> s[d] == '.',
    ensures
        segment_until_dot(s) == s.take(d),
    decreases d,
{
    if s.len() == 0 {
        assert(s.take(d) =~= Seq::<char>::empty());
    } else if d == 0 {
        if s.len() > 0 && s[0] != '.' {
            assert(false);
        }
        assert(s.take(0) =~= Seq::<char>::empty());
    } else {
        assert(forall|k: int| 0 <= k < d - 1 ==> #[trigger] s.drop_first()[k] == s[k + 1]);
        lemma_segment_until_dot(s.drop_first(), d - 1);
        assert(seq![s[0]] + s.drop_first().take(d - 1) =~= s.take(d));
    }
}

proof fn lemma_first_param_skip(params: Seq<(Seq<char>, Seq<char>)>, key: Seq<char>, i: int)
    requires
        0 <= i <= params.len(),
        forall|k: int| 0 <= k < i ==> params[k].0 != key,
    ensures
        first_param(params, key) == first_param(params.skip(i), key),
    decreases i,
{
    if i > 0 {
        assert(params.skip(1).skip(i - 1) == params.skip(i));
        assert(forall|k: int| 0 <= k < i - 1 ==> #[trigger] params.skip(1)[k] == params[k + 1]);
        lemma_first_param_skip(params.skip(1), key, i - 1);
        assert(params.drop_first() == params.skip(1));
    } else {
        assert(params.skip(0) == params);
    }
}

/// Extracts the second dot-separated segment of the key.
#[verifier::loop_isolation(false)]
fn extract_payload_segment(sdk_key: &str) -> (r: Option<&str>)
    ensures
        match r {
            Some(p) => payload_segment(sdk_key@) == Some(p@),
            None => payload_segment(sdk_key@) is None,
        },
{
    let n = sdk_key.unicode_len();
    let mut d0: usize = 0;
    let mut found = false;
    let mut i: usize = 0;
    while i < n && !found
        invariant
            0 <= i <= n,
            !found ==> forall|k: int| 0 <= k < i ==> sdk_key@[k] != '.',
            found ==> 0 <= d0 < n && sdk_key@[d0 as int] == '.' && (forall|k: int|
                0 <= k < d0 ==> sdk_key@[k] != '.') && i == d0 + 1,
        decreases n - i,
    {
        if sdk_key.get_char(i) == '.' {
            d0 = i;
            found = true;
        }
        i = i + 1;
    }
    if !found {
        proof {
            lemma_payload_segment_skip(sdk_key@, n as int);
            assert(sdk_key@.skip(n as int) =~= Seq::<char>::empty());
        }
        return None;
    }
    // find the end of the second segment
    let mut j: usize = d0 + 1;
    while j < n && sdk_key.get_char(j) != '.'
        invariant
            d0 + 1 <= j <= n,
            forall|k: int| d0 + 1 <= k < j ==> sdk_key@[k] != '.',
        decreases n - j,
    {
        j = j + 1;
    }
    let seg = sdk_key.substring_char(d0 + 1, j);
    proof {
        lemma_payload_segment_skip(sdk_key@, d0 as int);
        let rest = sdk_key@.skip(d0 as int);
        assert(rest[0] == '.');
        assert(rest.drop_first() =~= sdk_key@.skip(d0 + 1));
        let tail = sdk_key@.skip(d0 + 1);
        assert(forall|k: int| 0 <= k < j - d0 - 1 ==> #[trigger] tail[k] == sdk_key@[d0 + 1 + k]);
        lemma_segment_until_dot(tail, j - d0 - 1);
        assert(tail.take(j - d0 - 1) =~= sdk_key@.subrange(d0 + 1, j as int));
    }
    Some(seg)
}

/// Finds the first `eh` parameter.
#[verifier::loop_isolation(false)]
fn find_event_host(params: &Vec<(String, String)>) -> (r: Option<&String>)
    ensures
        ({
            let ps = params@.map_values(|p: (String, String)| (p.0@, p.1@));
            match r {
                Some(h) => first_param(ps, "eh"@) == Some(h@),
                None => first_param(ps, "eh"@) is None,
            }
        }),
{
    let ghost ps = params@.map_values(|p: (String, String)| (p.0@, p.1@));
    let n = params.len();
    let mut i: usize = 0;
    while i < n
        invariant
            0 <= i <= n,
            forall|k: int| 0 <= k < i ==> ps[k].0 != "eh"@,
        decreases n - i,
    {
        if crate::text::str_eq(params[i].0.as_str(), "eh") {
            proof {
                lemma_first_param_skip(ps, "eh"@, i as int);
                assert(ps.skip(i as int)[0] == ps[i as int]);
            }
            return Some(&params[i].1);
        }
        i = i + 1;
    }
    proof {
        lemma_first_param_skip(ps, "eh"@, n as int);
    }
    None
}

/// Decodes the event-ingestion URL embedded in an SDK key. Returns `None`
/// when the key has no payload segment, the payload is not valid base64
/// or UTF-8, or no `eh` parameter is present.
pub fn decode_event_ingestion_url(sdk_key: &str) -> (r: Option<String>)
    ensures
        match r {
            Some(url) => decoded_ingestion_url(sdk_key@) == Some(url@),
            None => decoded_ingestion_url(sdk_key@) is None,
        },
{
    let payload = match extract_payload_segment(sdk_key) {
        Some(p) => p,
        None => {
            return None;
        },
    };
    let bytes = match base64_url_decode(payload) {
        Some(b) => b,
        None => {
            return None;
        },
    };
    let decoded = match string_from_utf8(bytes) {
        Some(s) => s,
        None => {
            return None;
        },
    };
    let reencoded = decoded.as_str().as_bytes_vec();
    let params = parse_form_urlencoded(&reencoded);
    let hostname = match find_event_host(&params) {
        Some(h) => h,
        None => {
            return None;
        },
    };
    let mut with_path = String::from_str(hostname.as_str());
    if str_ends_with_char(hostname.as_str(), '/') {
        with_path.append("v0/i");
    } else {
        with_path.append("/v0/i");
    }
    if str_has_prefix(with_path.as_str(), "http://") || str_has_prefix(
        with_path.as_str(),
        "https://",
    ) {
        Some(with_path)
    } else {
        let mut url = String::from_str("https://");
        url.append(with_path.as_str());
        Some(url)
    }
}

} // verus!
