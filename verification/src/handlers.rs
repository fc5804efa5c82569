//! The routing decisions of the wrapping handlers: which TLS target a
//! client hello's server name selects, and whether a WebSocket upgrade
//! request satisfies a target's path and header requirements. The
//! handshakes themselves (TLS, HTTP upgrade) are outside collaborators;
//! these functions take what they decoded and decide.

use vstd::prelude::*;

use crate::clone_util::DeepClone;
use crate::config::{TlsServerConfig, TlsServerConfigV};

verus! {

/// The TLS target a server name selects: the first entry of the SNI
/// table carrying that name, else the default target, else nothing —
/// and a connection with nothing selected is closed.
pub open spec fn spec_select_tls_target(
    targets: Seq<(Seq<char>, TlsServerConfigV)>,
    default_target: Option<TlsServerConfigV>,
    sni: Seq<char>,
) -> Option<TlsServerConfigV>
    decreases targets.len(),
{
    if targets.len() == 0 {
        default_target
    } else if targets.first().0 == sni {
        Option::Some(targets.first().1)
    } else {
        spec_select_tls_target(targets.drop_first(), default_target, sni)
    }
}

/// The target a decoded server name selects among a TLS wrapper's
/// named targets, falling back to the default target.
#[verifier::loop_isolation(false)]
pub fn select_tls_target<'a>(
    sni_targets: &'a Vec<(String, TlsServerConfig)>,
    default_target: &'a Option<Box<TlsServerConfig>>,
    sni: &String,
) -> (r: Option<&'a TlsServerConfig>)
    ensures
        r.deep_view() == spec_select_tls_target(
            crate::config::view_tls_targets(sni_targets@),
            default_target.deep_view(),
            sni@,
        ),
{
    let ghost tv = crate::config::view_tls_targets(sni_targets@);
    let ghost dv = default_target.deep_view();
    proof {
        crate::config::lemma_view_tls_targets(sni_targets@);
        assert(tv.skip(0) =~= tv);
    }
    let mut i: usize = 0;
    while i < sni_targets.len()
        invariant
            i <= sni_targets@.len(),
            spec_select_tls_target(tv, dv, sni@) == spec_select_tls_target(
                tv.skip(i as int),
                dv,
                sni@,
            ),
        decreases sni_targets@.len() - i,
    {
        proof {
            assert(tv.skip(i as int).first() == tv[i as int]);
            assert(tv.skip(i as int).drop_first() =~= tv.skip(i + 1));
        }
        if sni_targets[i].0 == *sni {
            return Option::Some(&sni_targets[i].1);
        }
        i = i + 1;
    }
    proof {
        assert(tv.skip(tv.len() as int) =~= Seq::<(Seq<char>, TlsServerConfigV)>::empty());
    }
    match default_target {
        Option::Some(t) => Option::Some(&**t),
        Option::None => Option::None,
    }
}

/// Whether a header pair appears among a request's headers.
pub open spec fn header_present(
    request_headers: Seq<(Seq<char>, Seq<char>)>,
    header: (Seq<char>, Seq<char>),
) -> bool {
    exists|j: int| 0 <= j < request_headers.len() && request_headers[j] == header
}

/// Whether an upgrade request satisfies a WebSocket target: the request
/// path equals the required path when one is set, and every required
/// header appears among the request's headers with the required value.
/// A request that fails is answered with a not-found status.
pub open spec fn spec_ws_request_matches(
    matching_path: Option<Seq<char>>,
    matching_headers: Option<Seq<(Seq<char>, Seq<char>)>>,
    request_path: Seq<char>,
    request_headers: Seq<(Seq<char>, Seq<char>)>,
) -> bool {
    &&& match matching_path {
        Option::Some(p) => p == request_path,
        Option::None => true,
    }
    &&& match matching_headers {
        Option::Some(hs) => forall|i: int|
            0 <= i < hs.len() ==> header_present(request_headers, #[trigger] hs[i]),
        Option::None => true,
    }
}

/// Whether a header with the given name and value is present.
#[verifier::loop_isolation(false)]
fn has_header(request_headers: &Vec<(String, String)>, name: &String, value: &String) -> (r: bool)
    ensures
        r == header_present(request_headers.deep_view(), (name@, value@)),
{
    let mut j: usize = 0;
    while j < request_headers.len()
        invariant
            j <= request_headers@.len(),
            forall|l: int|
                0 <= l < j ==> request_headers.deep_view()[l] != (name@, value@),
        decreases request_headers@.len() - j,
    {
        if request_headers[j].0 == *name && request_headers[j].1 == *value {
            proof {
                assert(request_headers.deep_view()[j as int] == (name@, value@));
                assert(header_present(request_headers.deep_view(), (name@, value@)));
            }
            return true;
        }
        proof {
            assert(request_headers.deep_view()[j as int] != (name@, value@));
        }
        j = j + 1;
    }
    false
}

/// Whether an upgrade request satisfies a WebSocket target's matching
/// path and matching headers.
#[verifier::loop_isolation(false)]
pub fn websocket_request_matches(
    matching_path: &Option<String>,
    matching_headers: &Option<Vec<(String, String)>>,
    request_path: &String,
    request_headers: &Vec<(String, String)>,
) -> (r: bool)
    ensures
        r == spec_ws_request_matches(
            matching_path.deep_view(),
            matching_headers.deep_view(),
            request_path@,
            request_headers.deep_view(),
        ),
{
    match matching_path {
        Option::Some(p) => {
            if !(*p == *request_path) {
                return false;
            }
        },
        Option::None => {},
    }
    match matching_headers {
        Option::Some(hs) => {
            let mut i: usize = 0;
            while i < hs.len()
                invariant
                    i <= hs@.len(),
                    forall|l: int|
                        0 <= l < i ==> header_present(
                            request_headers.deep_view(),
                            #[trigger] hs.deep_view()[l],
                        ),
                decreases hs@.len() - i,
            {
                let hit = has_header(request_headers, &hs[i].0, &hs[i].1);
                proof {
                    assert(hs.deep_view()[i as int] == (hs@[i as int].0@, hs@[i as int].1@));
                }
                if !hit {
                    proof {
                        assert(matching_headers.deep_view() == Option::Some(hs.deep_view()));
                        let hv = matching_headers.deep_view()->Some_0;
                        let rv = request_headers.deep_view();
                        assert(!(forall|l: int|
                            0 <= l < hv.len() ==> header_present(rv, #[trigger] hv[l]))) by {
                            if forall|l: int|
                                0 <= l < hv.len() ==> header_present(rv, #[trigger] hv[l]) {
                                assert(header_present(rv, hv[i as int]));
                            }
                        }
                    }
                    return false;
                }
                i = i + 1;
            }
            proof {
                assert(matching_headers.deep_view() == Option::Some(hs.deep_view()));
                let hv = matching_headers.deep_view()->Some_0;
                let rv = request_headers.deep_view();
                assert(forall|l: int|
                    0 <= l < hv.len() ==> header_present(rv, #[trigger] hv[l]));
            }
            true
        },
        Option::None => true,
    }
}

} // verus!
