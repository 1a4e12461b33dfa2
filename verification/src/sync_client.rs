//! The synchronization client's verified half: build the request (endpoint,
//! Basic-auth header, body of identifier/annotation pairs) and merge the
//! server's authoritative response back into a dataset. The POST itself is
//! the shell's job; synchronization is best-effort, so the shell logs and
//! swallows transport failures.

use vstd::prelude::*;
use vstd::string::StringExecFns;
use crate::dataset::{ids_unique, RoadworkData};
use crate::descriptor::Settings;
use crate::record::Roadwork;
use crate::sync::SyncData;

verus! {

/// The base64 form of a text's UTF-8 bytes, under the standard alphabet
/// with padding.
pub uninterp spec fn b64_of(s: Seq<char>) -> Seq<char>;

/// Relies on base64's standard engine (Engine::encode with the standard
/// alphabet, padded): the base64 form of the text's UTF-8 bytes; a function
/// of the text alone.
#[verifier::external_body]
fn b64_encode(s: &str) -> (r: String)
    ensures
        r@ == b64_of(s@),
{
    base64::Engine::encode(&base64::prelude::BASE64_STANDARD, s)
}

/// The synchronization endpoint for one source.
pub open spec fn spec_sync_url(base: Seq<char>, team: Seq<char>, source: Seq<char>) -> Seq<char> {
    base + "/setData/"@ + team + seq!['/'] + source
}

/// The Basic-auth header value for the configured credentials.
pub open spec fn spec_auth_header(login: Seq<char>, password: Seq<char>) -> Seq<char> {
    "Basic "@ + b64_of(login + seq![':'] + password)
}

/// One synchronization request, ready for the shell to POST: the endpoint,
/// the Authorization header value, and the body entries — the identifier and
/// annotation of every record of the dataset, in dataset order.
#[derive(Debug)]
pub struct SyncRequest {
    pub url: String,
    pub auth_header: String,
    pub body: Vec<(String, SyncData)>,
}

/// Build the synchronization request for a dataset, or nothing where
/// synchronization is disabled in the settings.
pub fn prepare_sync(data: &RoadworkData, settings: &Settings) -> (r: Option<SyncRequest>)
    ensures
        r is Some <==> settings.synchronization_enabled,
        r matches Some(req) ==> {
            &&& req.url@ == spec_sync_url(
                settings.synchronization_url@,
                settings.synchronization_team@,
                data.source@,
            )
            &&& req.auth_header@ == spec_auth_header(
                settings.synchronization_login@,
                settings.synchronization_password@,
            )
            &&& req.body@.len() == data.roadworks@.len()
            &&& forall|i: int|
                0 <= i < req.body@.len() ==> (#[trigger] req.body@[i]).0@
                    == data.roadworks@[i].id@ && req.body@[i].1 == data.roadworks@[i].sync_data
        },
{
    if !settings.synchronization_enabled {
        return Option::None;
    }
    let mut url = settings.synchronization_url.clone();
    proof {
        reveal_strlit("/setData/");
        reveal_strlit("/");
        assert("/"@ =~= seq!['/']);
    }
    url.append("/setData/");
    url.append(settings.synchronization_team.as_str());
    url.append("/");
    url.append(data.source.as_str());
    let mut auth = settings.synchronization_login.clone();
    proof {
        reveal_strlit(":");
        reveal_strlit("Basic ");
        assert(":"@ =~= seq![':']);
    }
    auth.append(":");
    auth.append(settings.synchronization_password.as_str());
    let encoded = b64_encode(auth.as_str());
    let mut auth_header = <String as StringExecFns>::from_str("Basic ");
    auth_header.append(encoded.as_str());
    let mut body: Vec<(String, SyncData)> = Vec::new();
    let mut i: usize = 0;
    while i < data.roadworks.len()
        invariant
            0 <= i <= data.roadworks@.len(),
            body@.len() == i,
            forall|l: int|
                0 <= l < body@.len() ==> (#[trigger] body@[l]).0@ == data.roadworks@[l].id@
                    && body@[l].1 == data.roadworks@[l].sync_data,
        decreases data.roadworks.len() - i,
    {
        let rec = &data.roadworks[i];
        body.push((rec.id.clone(), rec.sync_data));
        i = i + 1;
    }
    Option::Some(SyncRequest { url, auth_header, body })
}

/// The server's last entry for an identifier, where the response names it.
pub open spec fn last_entry(es: Seq<(String, SyncData)>, id: Seq<char>) -> Option<SyncData>
    decreases es.len(),
{
    if es.len() == 0 {
        None
    } else if es.last().0@ == id {
        Some(es.last().1)
    } else {
        last_entry(es.drop_last(), id)
    }
}

/// A record after the server's response: where the server named its
/// identifier, the server's timestamps and status overwrite the local
/// annotation (full replace of those fields; the dirty flag is left as it
/// was). An unmatched record is left untouched, and unmatched server entries
/// are ignored.
pub open spec fn spec_responded(es: Seq<(String, SyncData)>, r: Roadwork) -> Roadwork {
    match last_entry(es, r.id@) {
        Some(sd) => Roadwork {
            sync_data: SyncData {
                local_update_time: sd.local_update_time,
                server_update_time: sd.server_update_time,
                status: sd.status,
                dirty: r.sync_data.dirty,
            },
            ..r
        },
        None => r,
    }
}

/// The server's entry for an identifier, scanning from the end.
fn find_last_entry(es: &Vec<(String, SyncData)>, id: &String) -> (r: Option<SyncData>)
    ensures
        r == last_entry(es@, id@),
{
    let mut j: usize = es.len();
    assert(es@.subrange(0, es@.len() as int) =~= es@);
    while j > 0
        invariant
            0 <= j <= es@.len(),
            last_entry(es@, id@) == last_entry(es@.subrange(0, j as int), id@),
        decreases j,
    {
        j = j - 1;
        let ghost pre1 = es@.subrange(0, j as int + 1);
        proof {
            assert(pre1.last() == es@[j as int]);
            assert(pre1.drop_last() =~= es@.subrange(0, j as int));
        }
        let entry = &es[j];
        if entry.0 == *id {
            return Option::Some(entry.1);
        }
    }
    assert(es@.subrange(0, 0) =~= Seq::<(String, SyncData)>::empty());
    Option::None
}

/// Merge the server's authoritative response into a dataset, by identifier.
pub fn apply_server_response(data: RoadworkData, response: &Vec<(String, SyncData)>) -> (r:
    RoadworkData)
    ensures
        r.source == data.source,
        r.created == data.created,
        r.roadworks@ == data.roadworks@.map_values(|x: Roadwork| spec_responded(response@, x)),
        data.wf() ==> r.wf(),
{
    let ghost input = data.roadworks@;
    let mut rest = data.roadworks;
    let mut out: Vec<Roadwork> = Vec::new();
    proof {
        assert(rest@ =~= input.subrange(0, input.len() as int));
        assert(out@ =~= input.subrange(0, 0).map_values(
            |x: Roadwork| spec_responded(response@, x),
        ));
    }
    let ghost k: int = 0;
    while rest.len() > 0
        invariant
            0 <= k <= input.len(),
            rest@ == input.subrange(k, input.len() as int),
            out@ == input.subrange(0, k).map_values(|x: Roadwork| spec_responded(response@, x)),
        decreases rest.len(),
    {
        let mut rec = rest.remove(0);
        let ghost prefix = input.subrange(0, k);
        let ghost prefix1 = input.subrange(0, k + 1);
        proof {
            assert(rec == input[k]);
            assert(rest@ =~= input.subrange(k + 1, input.len() as int));
            assert(prefix1.drop_last() =~= prefix);
        }
        match find_last_entry(response, &rec.id) {
            Option::Some(sd) => {
                rec.sync_data = SyncData {
                    local_update_time: sd.local_update_time,
                    server_update_time: sd.server_update_time,
                    status: sd.status,
                    dirty: rec.sync_data.dirty,
                };
            },
            Option::None => {},
        }
        out.push(rec);
        proof {
            assert(prefix1.map_values(|x: Roadwork| spec_responded(response@, x))
                =~= prefix.map_values(|x: Roadwork| spec_responded(response@, x)).push(
                spec_responded(response@, prefix1.last()),
            ));
            k = k + 1;
        }
    }
    proof {
        assert(input.subrange(0, input.len() as int) =~= input);
        assert(k == input.len());
        if ids_unique(input) {
            let mapped = input.map_values(|x: Roadwork| spec_responded(response@, x));
            assert forall|i: int, j: int| 0 <= i < j < mapped.len() implies (
            #[trigger] mapped[i].id@) != (#[trigger] mapped[j].id@) by {
                assert(mapped[i] == spec_responded(response@, input[i]));
                assert(mapped[j] == spec_responded(response@, input[j]));
            }
        }
    }
    RoadworkData { source: data.source, roadworks: out, created: data.created }
}

} // verus!
