//! Fetch & parse: compose the request URL from a descriptor, and turn a
//! fetched body into a dataset. Retrieving the body itself is the shell's
//! job (or a fixture's, in offline runs); this module does everything around
//! it.

use vstd::prelude::*;
use vstd::string::{StrSliceExecFns, StringExecFns};
use crate::dataset::{
    insert_all, last_insert, lemma_find_self, lemma_insert_all_find, lemma_last_insert_member,
    RoadworkData,
};
use crate::descriptor::{Metadata, ServiceDescriptor};
use crate::errors::{BuildError, FetchError};
use crate::jsonio::{
    arr_elems, array_items, json_parsed, matches_in, parse_value, query_nodes, tree_of,
    JsonValue,
};
use crate::record::{build_roadwork, rec_built, spec_is_valid, Roadwork};

verus! {

/// The percent-encoding of a text.
pub uninterp spec fn urlenc(s: Seq<char>) -> Seq<char>;

/// Relies on urlencoding::encode: the percent-encoded form of the text; a
/// function of the text alone.
#[verifier::external_body]
fn encode_component(s: &str) -> (r: String)
    ensures
        r@ == urlenc(s@),
{
    urlencoding::encode(s).into_owned()
}

pub open spec fn contains_qmark(s: Seq<char>) -> bool {
    exists|i: int| 0 <= i < s.len() && s[i] == '?'
}

/// One static parameter as query text: the key, `=`, the encoded value.
pub open spec fn spec_param(p: (String, String)) -> Seq<char> {
    p.0@ + seq!['='] + urlenc(p.1@)
}

/// The parameters joined with `&`, in their declared order (deterministic,
/// for reproducible request URLs).
pub open spec fn spec_query_string(ps: Seq<(String, String)>) -> Seq<char>
    decreases ps.len(),
{
    if ps.len() == 0 {
        Seq::empty()
    } else if ps.len() == 1 {
        spec_param(ps[0])
    } else {
        spec_query_string(ps.drop_last()) + seq!['&'] + spec_param(ps.last())
    }
}

/// The request URL: the base URL alone where no static parameters are
/// configured; else the base, a `&` where the base already carries a query
/// (`?` otherwise), and the joined parameters.
pub open spec fn spec_build_url(url: Seq<char>, params: Option<Seq<(String, String)>>) -> Seq<
    char,
> {
    match params {
        None => url,
        Some(ps) => url + (if contains_qmark(url) {
            seq!['&']
        } else {
            seq!['?']
        }) + spec_query_string(ps),
    }
}

/// Whether the text holds a `?`.
fn has_qmark(s: &str) -> (r: bool)
    ensures
        r == contains_qmark(s@),
{
    let n = s.unicode_len();
    let mut i: usize = 0;
    while i < n
        invariant
            0 <= i <= n,
            n == s@.len(),
            forall|l: int| 0 <= l < i ==> s@[l] != '?',
        decreases n - i,
    {
        if s.get_char(i) == '?' {
            return true;
        }
        i = i + 1;
    }
    false
}

/// Compose the request URL of a source.
pub fn build_url(metadata: &Metadata) -> (r: String)
    ensures
        r@ == spec_build_url(
            metadata.url@,
            match metadata.url_params {
                Some(ps) => Some(ps@),
                None => None,
            },
        ),
{
    match &metadata.url_params {
        Option::None => metadata.url.clone(),
        Option::Some(ps) => {
            let mut qs = String::new();
            let mut i: usize = 0;
            assert(ps@.subrange(0, 0) =~= Seq::<(String, String)>::empty());
            while i < ps.len()
                invariant
                    0 <= i <= ps@.len(),
                    qs@ == spec_query_string(ps@.subrange(0, i as int)),
                decreases ps.len() - i,
            {
                let ghost prefix = ps@.subrange(0, i as int);
                let ghost prefix1 = ps@.subrange(0, i as int + 1);
                proof {
                    assert(prefix1.drop_last() =~= prefix);
                    assert(prefix1.last() == ps@[i as int]);
                    reveal_strlit("&");
                    reveal_strlit("=");
                    assert("&"@ =~= seq!['&']);
                    assert("="@ =~= seq!['=']);
                }
                if i > 0 {
                    qs.append("&");
                }
                let p = &ps[i];
                qs.append(p.0.as_str());
                qs.append("=");
                let enc = encode_component(p.1.as_str());
                qs.append(enc.as_str());
                proof {
                    assert(qs@ =~= spec_query_string(prefix1));
                }
                i = i + 1;
            }
            assert(ps@.subrange(0, ps@.len() as int) =~= ps@);
            let mut url = metadata.url.clone();
            proof {
                reveal_strlit("&");
                reveal_strlit("?");
                assert("&"@ =~= seq!['&']);
                assert("?"@ =~= seq!['?']);
            }
            if has_qmark(url.as_str()) {
                url.append("&");
            } else {
                url.append("?");
            }
            url.append(qs.as_str());
            url
        },
    }
}

/// Whether the root-array path resolves in a parsed body: the query
/// matches, and the first match is an array.
pub open spec fn spec_root_ok(t: JsonValue, path: Seq<char>) -> bool {
    match matches_in(t, path) {
        Some(ms) => ms.len() > 0 && ms[0] is Arr,
        None => false,
    }
}

/// The root-array elements of a parsed body.
pub open spec fn spec_root_elems(t: JsonValue, path: Seq<char>) -> Seq<JsonValue> {
    arr_elems(matches_in(t, path)->Some_0[0])
}

/// The records a parse keeps from the root-array elements, in element order:
/// one build per element, keeping exactly the results that built and carry a
/// location — complete (no valid buildable element missing) and sound
/// (nothing else included).
pub open spec fn built_valid(
    built: Seq<Roadwork>,
    d: ServiceDescriptor,
    items: Seq<JsonValue>,
    year: int,
) -> bool
    decreases items.len(),
{
    if items.len() == 0 {
        built.len() == 0
    } else {
        exists|res: Result<Roadwork, BuildError>|
            #[trigger] rec_built(d, items.last(), year, res) && match res {
                Ok(rec) => {
                    if spec_is_valid(rec.latitude@, rec.longitude@) {
                        &&& built.len() > 0
                        &&& built.last() == rec
                        &&& built_valid(built.drop_last(), d, items.drop_last(), year)
                    } else {
                        built_valid(built, d, items.drop_last(), year)
                    }
                },
                Err(_) => built_valid(built, d, items.drop_last(), year),
            }
    }
}

/// Parse a fetched body into a dataset: locate the root array, build one
/// record per element, keep the valid ones, keyed by identifier. Failed or
/// invalid records are skipped; only a malformed body or an unresolvable
/// root array aborts the fetch.
pub fn parse_dataset(
    d: &ServiceDescriptor,
    source_name: &str,
    body: &str,
    created: i64,
    current_year: i32,
) -> (r: Result<RoadworkData, FetchError>)
    requires
        current_year < i32::MAX,
    ensures
        r is Ok <==> (json_parsed(body@) matches Some(t) && spec_root_ok(t, d.roadwork_array@)),
        r matches Err(e) ==> e == (if json_parsed(body@) is None {
            FetchError::MalformedJson
        } else {
            FetchError::RootNotFound
        }),
        r matches Ok(data) ==> {
            &&& data.wf()
            &&& data.source@ == source_name@
            &&& data.created == created
            &&& (forall|i: int|
                0 <= i < data.roadworks@.len() ==> spec_is_valid(
                    (#[trigger] data.roadworks@[i]).latitude@,
                    data.roadworks@[i].longitude@,
                ))
            &&& exists|built: Seq<Roadwork>|
                #[trigger] built_valid(
                    built,
                    *d,
                    spec_root_elems(json_parsed(body@)->Some_0, d.roadwork_array@),
                    current_year as int,
                ) && data.roadworks@ == insert_all(built)
        },
{
    let root = match parse_value(body) {
        Option::Some(v) => v,
        Option::None => {
            return Err(FetchError::MalformedJson);
        },
    };
    let matches = match query_nodes(&root, d.roadwork_array.as_str()) {
        Option::Some(ms) => ms,
        Option::None => {
            return Err(FetchError::RootNotFound);
        },
    };
    let ghost match_trees = matches@.map_values(|m: serde_json::Value| tree_of(m));
    if matches.len() == 0 {
        return Err(FetchError::RootNotFound);
    }
    let items = match array_items(&matches[0]) {
        Option::Some(it) => it,
        Option::None => {
            proof {
                assert(matches_in(tree_of(root), d.roadwork_array@)->Some_0[0] == match_trees[0]);
            }
            return Err(FetchError::RootNotFound);
        },
    };
    let ghost item_trees = items@.map_values(|m: serde_json::Value| tree_of(m));
    proof {
        assert(matches_in(tree_of(root), d.roadwork_array@)->Some_0[0] == match_trees[0]);
        assert(item_trees == spec_root_elems(tree_of(root), d.roadwork_array@));
        assert(item_trees.subrange(0, 0) =~= Seq::<JsonValue>::empty());
    }
    let mut records: Vec<Roadwork> = Vec::new();
    let mut i: usize = 0;
    while i < items.len()
        invariant
            0 <= i <= items@.len(),
            current_year < i32::MAX,
            item_trees == items@.map_values(|m: serde_json::Value| tree_of(m)),
            built_valid(records@, *d, item_trees.subrange(0, i as int), current_year as int),
            forall|l: int|
                0 <= l < records@.len() ==> spec_is_valid(
                    (#[trigger] records@[l]).latitude@,
                    records@[l].longitude@,
                ),
        decreases items.len() - i,
    {
        let ghost prefix = item_trees.subrange(0, i as int);
        let ghost prefix1 = item_trees.subrange(0, i as int + 1);
        proof {
            assert(prefix1.drop_last() =~= prefix);
            assert(prefix1.last() == item_trees[i as int]);
            assert(item_trees[i as int] == tree_of(items@[i as int]));
        }
        let res = build_roadwork(d, &items[i], current_year);
        let ghost res_g = res;
        let ghost old_records = records@;
        match res {
            Ok(rec) => {
                if rec.is_valid() {
                    records.push(rec);
                }
            },
            Err(_) => {},
        }
        proof {
            assert(rec_built(*d, prefix1.last(), current_year as int, res_g));
            match res_g {
                Ok(rec) => {
                    if spec_is_valid(rec.latitude@, rec.longitude@) {
                        assert(records@.last() == rec);
                        assert(records@.drop_last() =~= old_records);
                    }
                },
                Err(_) => {},
            }
            assert(built_valid(records@, *d, prefix1, current_year as int));
        }
        i = i + 1;
    }
    assert(item_trees.subrange(0, item_trees.len() as int) =~= item_trees);
    let ghost built_g = records@;
    let data = RoadworkData::new(source_name, records, created);
    proof {
        assert forall|l: int| 0 <= l < data.roadworks@.len() implies spec_is_valid(
            (#[trigger] data.roadworks@[l]).latitude@,
            data.roadworks@[l].longitude@,
        ) by {
            lemma_find_self(data.roadworks@, l);
            lemma_insert_all_find(built_g, data.roadworks@[l].id@);
            lemma_last_insert_member(built_g, data.roadworks@[l].id@);
            let x = last_insert(built_g, data.roadworks@[l].id@)->Some_0;
            assert(x == data.roadworks@[l]);
            let k = choose|k: int| 0 <= k < built_g.len() && built_g[k] == x;
            assert(spec_is_valid(built_g[k].latitude@, built_g[k].longitude@));
        }
        assert(built_valid(
            built_g,
            *d,
            spec_root_elems(json_parsed(body@)->Some_0, d.roadwork_array@),
            current_year as int,
        ));
    }
    Ok(data)
}

} // verus!
