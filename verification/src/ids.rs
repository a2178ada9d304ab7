//! Clock readings and random identifiers.

use vstd::prelude::*;
use crate::text::string_of;

verus! {

/// Seconds since the Unix epoch, zero when the clock reads earlier (std
/// `SystemTime::now`, `duration_since(UNIX_EPOCH)`, `unwrap_or_default`, `as_secs`).
/// The clock is outside the library: nothing is claimed of the reading.
#[verifier::external_body]
pub(crate) fn unix_time_secs() -> u64 {
    std::time::SystemTime::now().duration_since(std::time::UNIX_EPOCH).unwrap_or_default().as_secs()
}

/// Seconds since the Unix epoch, zero when the clock reads earlier.
pub fn now_secs() -> u64 {
    unix_time_secs()
}

/// The id of a request: the one its `x-request-id` header carries, else a
/// fresh random UUID.
pub fn request_id(header: Option<String>) -> (r: String)
    ensures
        match header {
            Some(h) => r@ == h@,
            None => uuid_shape(r@),
        },
{
    match header {
        Some(h) => h,
        None => new_uuid_string(),
    }
}

/// A lowercase hexadecimal digit.
pub open spec fn is_hex_lower(c: char) -> bool {
    ('0' <= c && c <= '9') || ('a' <= c && c <= 'f')
}

/// Position `i` of the hyphenated UUID text holds a hyphen.
pub open spec fn is_uuid_hyphen_pos(i: int) -> bool {
    i == 8 || i == 13 || i == 18 || i == 23
}

/// The shape of a hyphenated lowercase UUID: 36 characters, hyphens at
/// positions 8, 13, 18 and 23, lowercase hexadecimal digits elsewhere.
pub open spec fn uuid_shape(s: Seq<char>) -> bool {
    &&& s.len() == 36
    &&& forall|i: int|
        0 <= i < 36 ==> if is_uuid_hyphen_pos(i) {
            s[i] == '-'
        } else {
            is_hex_lower(#[trigger] s[i])
        }
}

/// A fresh random (version 4) UUID as text (uuid `Uuid::new_v4`, then
/// `ToString`). The uuid crate writes the hyphenated lowercase form; which
/// digits come out is left open, being random.
#[verifier::external_body]
fn uuid_v4_text() -> (s: String)
    ensures
        uuid_shape(s@),
{
    uuid::Uuid::new_v4().to_string()
}

/// A fresh random hyphenated UUID, as a string (`Uuid::new_v4().to_string()`).
pub fn new_uuid_string() -> (s: String)
    ensures
        uuid_shape(s@),
{
    uuid_v4_text()
}

/// `prefix` followed by `n` lowercase hexadecimal digits.
pub open spec fn is_prefixed_hex_id(id: Seq<char>, prefix: Seq<char>, n: nat) -> bool {
    &&& id.len() == prefix.len() + n
    &&& id.subrange(0, prefix.len() as int) == prefix
    &&& forall|i: int| prefix.len() <= i < id.len() ==> is_hex_lower(#[trigger] id[i])
}

spec fn hyphens_before(i: int) -> int {
    (if i > 8 {
        1int
    } else {
        0
    }) + (if i > 13 {
        1int
    } else {
        0
    }) + (if i > 18 {
        1int
    } else {
        0
    }) + (if i > 23 {
        1int
    } else {
        0
    })
}

/// `prefix` followed by the first `n` digits of a fresh random UUID with its
/// hyphens removed (the identifiers `chatcmpl-…`, `msg_…`, `batch_…` and so on).
pub fn prefixed_random_id(prefix: &str, n: usize) -> (id: String)
    requires
        n <= 32,
    ensures
        is_prefixed_hex_id(id@, prefix@, n as nat),
{
    let u = crate::text::chars_of(uuid_v4_text().as_str());
    let mut out = crate::text::chars_of(prefix);
    let ghost p = prefix@;
    let plen = out.len();
    let mut i: usize = 0;
    while i < 36 && out.len() - plen < n
        invariant
            plen == p.len(),
            uuid_shape(u@),
            p == prefix@,
            0 <= i <= 36,
            n <= 32,
            out@.len() <= p.len() + n,
            out@.len() == p.len() + if i - hyphens_before(i as int) < n {
                i - hyphens_before(i as int)
            } else {
                n as int
            },
            out@.subrange(0, p.len() as int) == p,
            forall|k: int| p.len() <= k < out@.len() ==> is_hex_lower(#[trigger] out@[k]),
        decreases 36 - i,
    {
        let c = u[i];
        if c != '-' {
            assert(!is_uuid_hyphen_pos(i as int));
            let ghost before = out@;
            out.push(c);
            assert(out@.subrange(0, p.len() as int) =~= before.subrange(0, p.len() as int));
        } else {
            assert(is_uuid_hyphen_pos(i as int)) by {
                if !is_uuid_hyphen_pos(i as int) {
                    assert(is_hex_lower(u@[i as int]));
                }
            }
        }
        i = i + 1;
    }
    string_of(out.as_slice())
}

} // verus!
