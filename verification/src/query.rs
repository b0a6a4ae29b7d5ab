//! From a raw query string to an instruction dictionary.
//!
//! The splitting itself is done by an outside crate; its behaviour is small
//! enough to state exactly: each `&`-separated segment that contains a `=`
//! becomes one key/value pair, and segments without one are dropped.  No
//! percent-decoding takes place.

use crate::device::Device;
use crate::dict::DeviceDict;
use crate::errors::{ErrorModel, HandleRequestError};
use crate::home::{home_wf, Home};
use crate::protocol::{create_device_from, spec_update_home, update_device};
use vstd::prelude::*;

verus! {

/// `s` split on `c`: the separators themselves vanish, empty segments
/// stay, and an empty string is one empty segment.
pub open spec fn split_on(s: Seq<char>, c: char) -> Seq<Seq<char>>
    decreases s.len(),
{
    if s.len() == 0 {
        seq![Seq::<char>::empty()]
    } else {
        let rest = split_on(s.drop_first(), c);
        if s[0] == c {
            seq![Seq::<char>::empty()] + rest
        } else {
            seq![seq![s[0]] + rest[0]] + rest.drop_first()
        }
    }
}

/// One query segment as a pair: the text before the first `=` and the text
/// between the first and the second; `None` when the segment has no `=`.
pub open spec fn query_pair(seg: Seq<char>) -> Option<(Seq<char>, Seq<char>)> {
    let parts = split_on(seg, '=');
    if parts.len() >= 2 {
        Some((parts[0], parts[1]))
    } else {
        None
    }
}

/// The key/value pairs of a query string, in order of appearance.
pub open spec fn querify_of(s: Seq<char>) -> Seq<(Seq<char>, Seq<char>)> {
    split_on(s, '&').map_values(|seg: Seq<char>| query_pair(seg)).filter(
        |o: Option<(Seq<char>, Seq<char>)>| o is Some,
    ).map_values(|o: Option<(Seq<char>, Seq<char>)>| o->0)
}

/// Relies on querystring::querify: it splits the query on `&`, and each
/// segment with at least one `=` yields the pair of the text before the
/// first `=` and the text between the first and the second; segments
/// without `=` are ignored, and nothing is percent-decoded.
#[verifier::external_body]
fn querify_pairs(query: &str) -> (r: Vec<(String, String)>)
    ensures
        r@.map_values(|p: (String, String)| (p.0@, p.1@)) == querify_of(query@),
{
    let mut out: Vec<(String, String)> = Vec::new();
    for (k, v) in querystring::querify(query) {
        out.push((k.to_string(), v.to_string()));
    }
    out
}

/// Parse a query string into an instruction dictionary.
pub fn parse_query(query: &str) -> (r: DeviceDict)
    ensures
        r@ == querify_of(query@),
{
    let pairs = querify_pairs(query);
    let ghost pview = pairs@.map_values(|p: (String, String)| (p.0@, p.1@));
    let mut r = DeviceDict::new();
    let n = pairs.len();
    let mut i: usize = 0;
    while i < n
        invariant
            0 <= i <= n,
            n == pairs@.len(),
            pview == pairs@.map_values(|p: (String, String)| (p.0@, p.1@)),
            pview == querify_of(query@),
            r@ =~= pview.take(i as int),
        decreases n - i,
    {
        let (k, v) = (pairs[i].0.clone(), pairs[i].1.clone());
        r.push(k, v);
        proof {
            assert(r@ =~= pview.take(i + 1));
        }
        i += 1;
    }
    proof {
        assert(r@ =~= querify_of(query@));
    }
    r
}

/// Build a device from the instruction set an arriving query string
/// carries, every field of the claimed kind mandatory.
pub fn device_from_query(query: &str) -> (r: Result<Device, HandleRequestError>)
    ensures
        (match r {
            Result::Ok(dev) => Ok::<crate::device::DeviceModel, ErrorModel>(dev@),
            Result::Err(e) => Err(e@),
        }) == crate::device::spec_from_dict(querify_of(query@)),
{
    let data = parse_query(query);
    create_device_from(&data)
}

/// Run the update protocol on the instruction set an arriving query string
/// carries.
pub fn update_from_query(
    home: &mut Home,
    room_name: &str,
    device_name: &str,
    query: &str,
) -> (r: Result<(), HandleRequestError>)
    requires
        home_wf(old(home)@),
    ensures
        home_wf(final(home)@),
        final(home)@ == spec_update_home(
            old(home)@,
            room_name@,
            device_name@,
            querify_of(query@),
        ).0,
        (match r {
            Result::Ok(_) => Ok::<(), ErrorModel>(()),
            Result::Err(e) => Err(e@),
        }) == spec_update_home(old(home)@, room_name@, device_name@, querify_of(query@)).1,
{
    let data = parse_query(query);
    update_device(home, room_name, device_name, &data)
}

} // verus!
