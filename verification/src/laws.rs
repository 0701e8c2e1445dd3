//! Crate-level laws of the conversion, stated over the specification model
//! and proved once and for all.

use vstd::prelude::*;

use crate::converter::{
    spec_convert, spec_extract_paths, spec_route_props, spec_stop_features,
    spec_stop_props, PathAcc,
};
use crate::feature::{spec_has_key, FeatureModel};
use crate::feed::{Route, Stop, Trip};

verus! {

// ---------------------------------------------------------------------------
// Feature counts
// ---------------------------------------------------------------------------

/// Every feed yields exactly one stop feature per stop.
pub proof fn lemma_stop_feature_count<C>(stops: Seq<Stop<C>>)
    ensures
        spec_stop_features(stops).len() == stops.len(),
{
}

/// The distinct shape ids declared across a trip sequence.
pub open spec fn spec_trip_shape_ids(trips: Seq<Trip>) -> Set<Seq<char>>
    decreases trips.len(),
{
    if trips.len() == 0 {
        Set::empty()
    } else {
        let rest = spec_trip_shape_ids(trips.drop_last());
        match trips.last().shape_id {
            Some(sid) => rest.insert(sid@),
            None => rest,
        }
    }
}

/// The distinct route ids of the trips that declare no shape id.
pub open spec fn spec_fallback_route_ids(trips: Seq<Trip>) -> Set<Seq<char>>
    decreases trips.len(),
{
    if trips.len() == 0 {
        Set::empty()
    } else {
        let rest = spec_fallback_route_ids(trips.drop_last());
        match trips.last().shape_id {
            Some(_) => rest,
            None => rest.insert(trips.last().route_id@),
        }
    }
}

proof fn lemma_paths_state<C>(feed: crate::feed::Feed<C>, trips: Seq<Trip>)
    ensures
        match spec_extract_paths(feed, trips) {
            Ok(acc) => {
                &&& acc.shape_ids == spec_trip_shape_ids(trips)
                &&& acc.route_ids == spec_fallback_route_ids(trips)
                &&& acc.shape_ids.finite()
                &&& acc.route_ids.finite()
                &&& acc.features.len() == acc.shape_ids.len() + acc.route_ids.len()
            },
            Err(_) => true,
        },
    decreases trips.len(),
{
    if trips.len() > 0 {
        lemma_paths_state(feed, trips.drop_last());
        match spec_extract_paths(feed, trips.drop_last()) {
            Ok(acc) => {
                match trips.last().shape_id {
                    Some(sid) => {
                        if acc.shape_ids.contains(sid@) {
                            assert(acc.shape_ids.insert(sid@) =~= acc.shape_ids);
                        }
                    },
                    None => {
                        if acc.route_ids.contains(trips.last().route_id@) {
                            assert(acc.route_ids.insert(trips.last().route_id@) =~= acc.route_ids);
                        }
                    },
                }
            },
            Err(_) => {},
        }
    }
}

/// For every feed whose path extraction succeeds, the number of path
/// features equals the number of distinct shape ids across the trips, plus
/// the number of distinct fallback route ids among the trips that declare no
/// shape id.
pub proof fn lemma_path_feature_count<C>(feed: crate::feed::Feed<C>, acc: PathAcc<C>)
    requires
        spec_extract_paths(feed, feed.trips@) == Ok::<PathAcc<C>, Seq<char>>(acc),
    ensures
        acc.features.len() == spec_trip_shape_ids(feed.trips@).len() + spec_fallback_route_ids(
            feed.trips@,
        ).len(),
{
    lemma_paths_state(feed, feed.trips@);
}

// ---------------------------------------------------------------------------
// Idempotence
// ---------------------------------------------------------------------------

/// The conversion is a pure function of the feed snapshot: two runs over the
/// same snapshot yield the same feature sequence, and so in particular the
/// same features under unordered comparison.
pub proof fn lemma_convert_deterministic<C>(
    feed: crate::feed::Feed<C>,
    c1: Seq<FeatureModel<C>>,
    c2: Seq<FeatureModel<C>>,
)
    requires
        spec_convert(feed) == Ok::<Seq<FeatureModel<C>>, Seq<char>>(c1),
        spec_convert(feed) == Ok::<Seq<FeatureModel<C>>, Seq<char>>(c2),
    ensures
        c1 == c2,
        c1.to_multiset() == c2.to_multiset(),
{
}

// ---------------------------------------------------------------------------
// Property maps only carry keys whose source value was present
// ---------------------------------------------------------------------------

proof fn lemma_has_key_concat(
    a: Seq<(Seq<char>, Seq<char>)>,
    b: Seq<(Seq<char>, Seq<char>)>,
    key: Seq<char>,
)
    ensures
        spec_has_key(a + b, key) <==> spec_has_key(a, key) || spec_has_key(b, key),
{
    if spec_has_key(a + b, key) {
        let i = choose|i: int| 0 <= i < (a + b).len() && (a + b)[i].0 == key;
        if i < a.len() {
            assert(a[i].0 == key);
        } else {
            assert(b[i - a.len()].0 == key);
        }
    }
    if spec_has_key(a, key) {
        let i = choose|i: int| 0 <= i < a.len() && a[i].0 == key;
        assert((a + b)[i].0 == key);
    }
    if spec_has_key(b, key) {
        let i = choose|i: int| 0 <= i < b.len() && b[i].0 == key;
        assert((a + b)[a.len() + i].0 == key);
    }
}

proof fn lemma_has_key_three(a: Seq<(Seq<char>, Seq<char>)>, key: Seq<char>)
    requires
        a.len() == 3,
    ensures
        spec_has_key(a, key) <==> (a[0].0 == key || a[1].0 == key || a[2].0 == key),
{
    if a[0].0 == key {
        assert(spec_has_key(a, key)) by {
            assert(a[0].0 == key);
        }
    }
    if a[1].0 == key {
        assert(spec_has_key(a, key)) by {
            assert(a[1].0 == key);
        }
    }
    if a[2].0 == key {
        assert(spec_has_key(a, key)) by {
            assert(a[2].0 == key);
        }
    }
    if spec_has_key(a, key) {
        let i = choose|i: int| 0 <= i < a.len() && a[i].0 == key;
        assert(i == 0 || i == 1 || i == 2);
    }
}

proof fn lemma_has_key_opt(a: Seq<(Seq<char>, Seq<char>)>, key: Seq<char>)
    requires
        a.len() <= 1,
    ensures
        spec_has_key(a, key) <==> (a.len() == 1 && a[0].0 == key),
{
    if a.len() == 1 && a[0].0 == key {
        assert(spec_has_key(a, key)) by {
            assert(a[0].0 == key);
        }
    }
    if spec_has_key(a, key) {
        let i = choose|i: int| 0 <= i < a.len() && a[i].0 == key;
        assert(i == 0);
    }
}

/// Characterizes exactly which keys a stop's property map carries.
proof fn lemma_stop_props_key<C>(s: Stop<C>, key: Seq<char>)
    ensures
        spec_has_key(spec_stop_props(s), key) == ("name"@ == key || "id"@ == key || "description"@
            == key || "wheelchair_boarding"@ == key || (s.code is Some && "code"@ == key) || (
        s.parent_station is Some && "parent_station"@ == key) || (s.timezone is Some && "timezone"@
            == key)),
{
    let head = seq![("name"@, s.name@), ("id"@, s.id@), ("description"@, s.description@)];
    let code = crate::converter::spec_opt_prop("code"@, s.code);
    let parent = crate::converter::spec_opt_prop("parent_station"@, s.parent_station);
    let tz = crate::converter::spec_opt_prop("timezone"@, s.timezone);
    let tail = seq![
        ("wheelchair_boarding"@, crate::feed::spec_availability_label(s.wheelchair_boarding)),
    ];
    assert(spec_stop_props(s) == head + code + parent + tz + tail);
    lemma_has_key_concat(head + code + parent + tz, tail, key);
    lemma_has_key_concat(head + code + parent, tz, key);
    lemma_has_key_concat(head + code, parent, key);
    lemma_has_key_concat(head, code, key);
    lemma_has_key_three(head, key);
    lemma_has_key_opt(code, key);
    lemma_has_key_opt(parent, key);
    lemma_has_key_opt(tz, key);
    lemma_has_key_opt(tail, key);
}

/// A stop's property map carries the keys of its optional fields exactly
/// when the source values are present, and always carries the keys of the
/// required fields.
pub proof fn lemma_stop_props_absent_keys<C>(s: Stop<C>)
    ensures
        spec_has_key(spec_stop_props(s), "code"@) <==> s.code is Some,
        spec_has_key(spec_stop_props(s), "parent_station"@) <==> s.parent_station is Some,
        spec_has_key(spec_stop_props(s), "timezone"@) <==> s.timezone is Some,
        spec_has_key(spec_stop_props(s), "name"@),
        spec_has_key(spec_stop_props(s), "id"@),
        spec_has_key(spec_stop_props(s), "description"@),
        spec_has_key(spec_stop_props(s), "wheelchair_boarding"@),
{
    reveal_strlit("name");
    reveal_strlit("id");
    reveal_strlit("description");
    reveal_strlit("code");
    reveal_strlit("parent_station");
    reveal_strlit("timezone");
    reveal_strlit("wheelchair_boarding");
    assert("code"@[0] == 'c');
    assert("name"@[0] == 'n');
    assert("name"@.len() == 4);
    assert("id"@.len() == 2);
    assert("description"@.len() == 11);
    assert("code"@.len() == 4);
    assert("parent_station"@.len() == 14);
    assert("timezone"@.len() == 8);
    assert("wheelchair_boarding"@.len() == 19);
    lemma_stop_props_key(s, "code"@);
    lemma_stop_props_key(s, "parent_station"@);
    lemma_stop_props_key(s, "timezone"@);
    lemma_stop_props_key(s, "name"@);
    lemma_stop_props_key(s, "id"@);
    lemma_stop_props_key(s, "description"@);
    lemma_stop_props_key(s, "wheelchair_boarding"@);
}

/// Characterizes exactly which keys a route's property map carries.
proof fn lemma_route_props_key(r: Route, key: Seq<char>)
    ensures
        spec_has_key(spec_route_props(r), key) == ("route_id"@ == key || "route_short_name"@ == key
            || "route_long_name"@ == key || (r.color is Some && "route_color"@ == key) || (
        r.text_color is Some && "route_text_color"@ == key)),
{
    let head = seq![
        ("route_id"@, r.id@),
        ("route_short_name"@, r.short_name@),
        ("route_long_name"@, r.long_name@),
    ];
    let color = crate::converter::spec_color_prop("route_color"@, r.color);
    let text = crate::converter::spec_color_prop("route_text_color"@, r.text_color);
    assert(spec_route_props(r) == head + color + text);
    lemma_has_key_concat(head + color, text, key);
    lemma_has_key_concat(head, color, key);
    lemma_has_key_three(head, key);
    lemma_has_key_opt(color, key);
    lemma_has_key_opt(text, key);
}

/// A route's property map always carries the id and name keys, and carries a
/// colour key exactly when that colour was set.
pub proof fn lemma_route_props_absent_keys(r: Route)
    ensures
        spec_has_key(spec_route_props(r), "route_id"@),
        spec_has_key(spec_route_props(r), "route_short_name"@),
        spec_has_key(spec_route_props(r), "route_long_name"@),
        spec_has_key(spec_route_props(r), "route_color"@) <==> r.color is Some,
        spec_has_key(spec_route_props(r), "route_text_color"@) <==> r.text_color is Some,
{
    reveal_strlit("route_id");
    reveal_strlit("route_short_name");
    reveal_strlit("route_long_name");
    reveal_strlit("route_color");
    reveal_strlit("route_text_color");
    assert("route_id"@.len() == 8);
    assert("route_short_name"@.len() == 16);
    assert("route_long_name"@.len() == 15);
    assert("route_color"@.len() == 11);
    assert("route_text_color"@.len() == 16);
    assert("route_short_name"@[6] == 's');
    assert("route_text_color"@[6] == 't');
    lemma_route_props_key(r, "route_id"@);
    lemma_route_props_key(r, "route_short_name"@);
    lemma_route_props_key(r, "route_long_name"@);
    lemma_route_props_key(r, "route_color"@);
    lemma_route_props_key(r, "route_text_color"@);
}

// ---------------------------------------------------------------------------
// Property maps never repeat a key
// ---------------------------------------------------------------------------

/// No two entries of the property map share a key.
pub open spec fn spec_keys_unique(props: Seq<(Seq<char>, Seq<char>)>) -> bool {
    forall|i: int, j: int| 0 <= i < j < props.len() ==> props[i].0 != props[j].0
}

/// A stop's property map never carries the same key twice.
pub proof fn lemma_stop_props_keys_unique<C>(s: Stop<C>)
    ensures
        spec_keys_unique(spec_stop_props(s)),
{
    reveal_strlit("name");
    reveal_strlit("id");
    reveal_strlit("description");
    reveal_strlit("code");
    reveal_strlit("parent_station");
    reveal_strlit("timezone");
    reveal_strlit("wheelchair_boarding");
    assert("name"@.len() == 4);
    assert("id"@.len() == 2);
    assert("description"@.len() == 11);
    assert("code"@.len() == 4);
    assert("parent_station"@.len() == 14);
    assert("timezone"@.len() == 8);
    assert("wheelchair_boarding"@.len() == 19);
    assert("code"@[0] == 'c');
    assert("name"@[0] == 'n');
    let props = spec_stop_props(s);
    let head = seq![("name"@, s.name@), ("id"@, s.id@), ("description"@, s.description@)];
    let code = crate::converter::spec_opt_prop("code"@, s.code);
    let parent = crate::converter::spec_opt_prop("parent_station"@, s.parent_station);
    let tz = crate::converter::spec_opt_prop("timezone"@, s.timezone);
    let tail = seq![
        ("wheelchair_boarding"@, crate::feed::spec_availability_label(s.wheelchair_boarding)),
    ];
    assert(props == head + code + parent + tz + tail);
    assert forall|i: int, j: int| 0 <= i < j < props.len() implies props[i].0 != props[j].0 by {
        assert(props[i] == (head + code + parent + tz + tail)[i]);
        assert(props[j] == (head + code + parent + tz + tail)[j]);
    }
}

/// A route's property map never carries the same key twice.
pub proof fn lemma_route_props_keys_unique(r: Route)
    ensures
        spec_keys_unique(spec_route_props(r)),
{
    reveal_strlit("route_id");
    reveal_strlit("route_short_name");
    reveal_strlit("route_long_name");
    reveal_strlit("route_color");
    reveal_strlit("route_text_color");
    assert("route_id"@.len() == 8);
    assert("route_short_name"@.len() == 16);
    assert("route_long_name"@.len() == 15);
    assert("route_color"@.len() == 11);
    assert("route_text_color"@.len() == 16);
    assert("route_short_name"@[6] == 's');
    assert("route_text_color"@[6] == 't');
    let props = spec_route_props(r);
    let head = seq![
        ("route_id"@, r.id@),
        ("route_short_name"@, r.short_name@),
        ("route_long_name"@, r.long_name@),
    ];
    let color = crate::converter::spec_color_prop("route_color"@, r.color);
    let text = crate::converter::spec_color_prop("route_text_color"@, r.text_color);
    assert(props == head + color + text);
    assert forall|i: int, j: int| 0 <= i < j < props.len() implies props[i].0 != props[j].0 by {
        assert(props[i] == (head + color + text)[i]);
        assert(props[j] == (head + color + text)[j]);
    }
}

/// Every property map among `features` (when present) is free of repeated
/// keys.
pub open spec fn spec_props_unique_in<C>(features: Seq<FeatureModel<C>>) -> bool {
    forall|k: int|
        #![trigger features[k]]
        0 <= k < features.len() ==> match features[k].properties {
            Some(p) => spec_keys_unique(p),
            None => true,
        }
}

proof fn lemma_paths_props_unique<C>(feed: crate::feed::Feed<C>, trips: Seq<Trip>)
    ensures
        match spec_extract_paths(feed, trips) {
            Ok(acc) => spec_props_unique_in(acc.features),
            Err(_) => true,
        },
    decreases trips.len(),
{
    if trips.len() > 0 {
        lemma_paths_props_unique(feed, trips.drop_last());
        match spec_extract_paths(feed, trips.drop_last()) {
            Ok(acc) => {
                match crate::converter::spec_find_route(feed.routes@, trips.last().route_id@) {
                    Some(rt) => lemma_route_props_keys_unique(rt),
                    None => {},
                }
            },
            Err(_) => {},
        }
    }
}

/// Every property map in a successful conversion's output is free of
/// repeated keys: the stop maps and the route maps alike.
pub proof fn lemma_convert_props_keys_unique<C>(
    feed: crate::feed::Feed<C>,
    features: Seq<FeatureModel<C>>,
)
    requires
        spec_convert(feed) == Ok::<Seq<FeatureModel<C>>, Seq<char>>(features),
    ensures
        spec_props_unique_in(features),
{
    lemma_paths_props_unique(feed, feed.trips@);
    let stops_part = spec_stop_features(feed.stops@);
    let acc = spec_extract_paths(feed, feed.trips@)->Ok_0;
    assert forall|k: int|
        #![trigger features[k]]
        0 <= k < features.len() implies match features[k].properties {
        Some(p) => spec_keys_unique(p),
        None => true,
    } by {
        if k < stops_part.len() {
            lemma_stop_props_keys_unique(feed.stops@[k]);
            assert(features[k] == crate::converter::spec_stop_feature(feed.stops@[k]));
        } else {
            assert(features[k] == acc.features[k - stops_part.len()]);
        }
    }
}

// ---------------------------------------------------------------------------
// Every property map in the output comes from a source record
// ---------------------------------------------------------------------------

/// Every property map among `features` (when present) is the property set of
/// one of the feed's stops or one of its routes.
pub open spec fn spec_props_from_sources<C>(
    feed: crate::feed::Feed<C>,
    features: Seq<FeatureModel<C>>,
) -> bool {
    forall|k: int|
        #![trigger features[k]]
        0 <= k < features.len() ==> match features[k].properties {
            Some(p) => (exists|i: int|
                0 <= i < feed.stops@.len() && p == spec_stop_props(feed.stops@[i])) || (exists|
                i: int|
                0 <= i < feed.routes@.len() && p == spec_route_props(feed.routes@[i])),
            None => true,
        }
}

proof fn lemma_find_route_member(routes: Seq<Route>, id: Seq<char>)
    ensures
        match crate::converter::spec_find_route(routes, id) {
            Some(rt) => exists|i: int| 0 <= i < routes.len() && routes[i] == rt,
            None => true,
        },
    decreases routes.len(),
{
    if routes.len() > 0 {
        if routes[0].id@ == id {
            assert(routes[0] == crate::converter::spec_find_route(routes, id)->Some_0);
        } else {
            lemma_find_route_member(routes.drop_first(), id);
            match crate::converter::spec_find_route(routes.drop_first(), id) {
                Some(rt) => {
                    let i = choose|i: int|
                        0 <= i < routes.drop_first().len() && routes.drop_first()[i] == rt;
                    assert(routes[i + 1] == rt);
                },
                None => {},
            }
        }
    }
}

proof fn lemma_paths_props_from_sources<C>(feed: crate::feed::Feed<C>, trips: Seq<Trip>)
    ensures
        match spec_extract_paths(feed, trips) {
            Ok(acc) => spec_props_from_sources(feed, acc.features),
            Err(_) => true,
        },
    decreases trips.len(),
{
    if trips.len() > 0 {
        lemma_paths_props_from_sources(feed, trips.drop_last());
        match spec_extract_paths(feed, trips.drop_last()) {
            Ok(acc) => {
                lemma_find_route_member(feed.routes@, trips.last().route_id@);
            },
            Err(_) => {},
        }
    }
}

/// Every property map in a successful conversion's output is the property
/// set of one of the feed's stops or one of its routes; together with the
/// per-record key lemmas this says that no output map carries a key whose
/// source value was absent.
pub proof fn lemma_convert_props_from_sources<C>(
    feed: crate::feed::Feed<C>,
    features: Seq<FeatureModel<C>>,
)
    requires
        spec_convert(feed) == Ok::<Seq<FeatureModel<C>>, Seq<char>>(features),
    ensures
        spec_props_from_sources(feed, features),
{
    lemma_paths_props_from_sources(feed, feed.trips@);
    let stops_part = spec_stop_features(feed.stops@);
    let acc = spec_extract_paths(feed, feed.trips@)->Ok_0;
    assert forall|k: int|
        #![trigger features[k]]
        0 <= k < features.len() implies match features[k].properties {
        Some(p) => (exists|i: int|
            0 <= i < feed.stops@.len() && p == spec_stop_props(feed.stops@[i])) || (exists|i: int|
            0 <= i < feed.routes@.len() && p == spec_route_props(feed.routes@[i])),
        None => true,
    } by {
        if k < stops_part.len() {
            assert(features[k] == crate::converter::spec_stop_feature(feed.stops@[k]));
            assert(features[k].properties == Some(spec_stop_props(feed.stops@[k])));
        } else {
            assert(features[k] == acc.features[k - stops_part.len()]);
        }
    }
}

} // verus!

