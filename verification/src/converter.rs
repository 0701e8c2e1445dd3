//! The conversion engine: one point feature per stop, and at most one path
//! feature per shape identity or per route fallback identity, with route
//! properties attached through the route resolver.

use vstd::prelude::*;
use vstd::string::StringExecFns;

use crate::feature::{
    spec_features_view, Feature, FeatureCollection, FeatureModel, Geometry, GeometryModel,
    Properties,
};
use crate::feed::{spec_availability_label, Availability, Color, Feed, Route, Shape, Stop, StopTime, Trip};
use crate::text::{int_string, push_decimal, spec_dec, string_eq};

verus! {

// ---------------------------------------------------------------------------
// Errors
// ---------------------------------------------------------------------------

/// Fatal conversion failure: deriving a fallback straight-line path needed a
/// stop's coordinates, and the stop named by the carried id lacks them or is
/// absent from the stop collection.
#[derive(Debug, PartialEq)]
pub enum ConvertError {
    MissingCoordinate(String),
}

/// The mathematical value of a conversion error.
pub enum ErrorModel {
    MissingCoordinate(Seq<char>),
}

impl View for ConvertError {
    type V = ErrorModel;

    open spec fn view(&self) -> ErrorModel {
        match self {
            ConvertError::MissingCoordinate(id) => ErrorModel::MissingCoordinate(id@),
        }
    }
}

// ---------------------------------------------------------------------------
// Route property resolver
// ---------------------------------------------------------------------------

/// The first route whose id is `id`, if any.
pub open spec fn spec_find_route(routes: Seq<Route>, id: Seq<char>) -> Option<Route>
    decreases routes.len(),
{
    if routes.len() == 0 {
        None
    } else if routes[0].id@ == id {
        Some(routes[0])
    } else {
        spec_find_route(routes.drop_first(), id)
    }
}

fn find_route<'a>(routes: &'a Vec<Route>, id: &str) -> (r: Option<&'a Route>)
    ensures
        match r {
            Some(rt) => spec_find_route(routes@, id@) == Some(*rt),
            None => spec_find_route(routes@, id@) is None,
        },
{
    let id_owned = id.to_owned();
    let mut i: usize = 0;
    proof {
        assert(routes@.skip(0) =~= routes@);
    }
    while i < routes.len()
        invariant
            i <= routes@.len(),
            id_owned@ == id@,
            spec_find_route(routes@, id@) == spec_find_route(routes@.skip(i as int), id@),
        decreases routes@.len() - i,
    {
        proof {
            assert(routes@.skip(i as int).drop_first() =~= routes@.skip(i + 1));
            assert(routes@.skip(i as int)[0] == routes@[i as int]);
        }
        let route = &routes[i];
        if string_eq(&route.id, &id_owned) {
            return Some(route);
        }
        i = i + 1;
    }
    proof {
        assert(routes@.skip(i as int) =~= Seq::<Route>::empty());
    }
    None
}

/// The canonical string form of a colour.
pub open spec fn spec_rgb_string(c: Color) -> Seq<char> {
    "rgb("@ + spec_dec(c.r as nat) + ","@ + spec_dec(c.g as nat) + ","@ + spec_dec(c.b as nat)
        + ")"@
}

/// Renders a colour as `rgb(r,g,b)`.
pub fn rgb_string(c: Color) -> (r: String)
    ensures
        r@ == spec_rgb_string(c),
{
    let mut out = "rgb(".to_owned();
    push_decimal(&mut out, c.r as u16);
    out.append(",");
    push_decimal(&mut out, c.g as u16);
    out.append(",");
    push_decimal(&mut out, c.b as u16);
    out.append(")");
    proof {
        assert(out@ =~= spec_rgb_string(c));
    }
    out
}

/// The property entry for an optional colour: nothing when the colour was
/// left unset in the feed.
pub open spec fn spec_color_prop(key: Seq<char>, c: Option<Color>) -> Seq<(Seq<char>, Seq<char>)> {
    match c {
        Some(col) => seq![(key, spec_rgb_string(col))],
        None => seq![],
    }
}

/// The property set describing a route: its id, names, and colours, the
/// colours only when present.
pub open spec fn spec_route_props(r: Route) -> Seq<(Seq<char>, Seq<char>)> {
    seq![("route_id"@, r.id@), ("route_short_name"@, r.short_name@), ("route_long_name"@, r.long_name@)]
        + spec_color_prop("route_color"@, r.color) + spec_color_prop("route_text_color"@, r.text_color)
}

/// Looks a route id up and, when the route exists, produces its property
/// set; an unknown route id yields no properties.
pub fn get_route_properties<C>(feed: &Feed<C>, route_id: &str) -> (r: Option<Properties>)
    ensures
        match spec_find_route(feed.routes@, route_id@) {
            Some(rt) => r is Some && r->Some_0@ == spec_route_props(rt),
            None => r is None,
        },
{
    match find_route(&feed.routes, route_id) {
        None => None,
        Some(rt) => {
            let mut props = Properties::new();
            props.push_pair("route_id", rt.id.clone());
            props.push_pair("route_short_name", rt.short_name.clone());
            props.push_pair("route_long_name", rt.long_name.clone());
            if let Some(c) = rt.color {
                props.push_pair("route_color", rgb_string(c));
            }
            if let Some(c) = rt.text_color {
                props.push_pair("route_text_color", rgb_string(c));
            }
            proof {
                assert(props@ =~= spec_route_props(spec_find_route(
                    feed.routes@,
                    route_id@,
                )->Some_0));
            }
            Some(props)
        },
    }
}

// ---------------------------------------------------------------------------
// Stop feature extractor
// ---------------------------------------------------------------------------

/// The property entry for an optional string field: nothing when the field
/// was absent in the feed.
pub open spec fn spec_opt_prop(key: Seq<char>, v: Option<String>) -> Seq<(Seq<char>, Seq<char>)> {
    match v {
        Some(s) => seq![(key, s@)],
        None => seq![],
    }
}

/// The property set describing a stop. Keys for absent optional fields are
/// omitted; the description is kept even when it is the empty string.
pub open spec fn spec_stop_props<C>(s: Stop<C>) -> Seq<(Seq<char>, Seq<char>)> {
    seq![("name"@, s.name@), ("id"@, s.id@), ("description"@, s.description@)]
        + spec_opt_prop("code"@, s.code) + spec_opt_prop("parent_station"@, s.parent_station)
        + spec_opt_prop("timezone"@, s.timezone)
        + seq![("wheelchair_boarding"@, spec_availability_label(s.wheelchair_boarding))]
}

/// The feature a stop maps to: a point exactly when both coordinates are
/// present, and always the stop's property set.
pub open spec fn spec_stop_feature<C>(s: Stop<C>) -> FeatureModel<C> {
    FeatureModel {
        geometry: match (s.longitude, s.latitude) {
            (Some(lon), Some(lat)) => Some(GeometryModel::Point((lon, lat))),
            _ => None,
        },
        properties: Some(spec_stop_props(s)),
    }
}

/// One feature per stop, in input order.
pub open spec fn spec_stop_features<C>(stops: Seq<Stop<C>>) -> Seq<FeatureModel<C>> {
    stops.map_values(|s: Stop<C>| spec_stop_feature(s))
}

/// Renders the wheelchair-boarding label: a fixed word for the recognized
/// statuses, the decimal raw code otherwise.
fn availability_label(a: &Availability) -> (r: String)
    ensures
        r@ == spec_availability_label(*a),
{
    match a {
        Availability::InformationNotAvailable => "unknown".to_owned(),
        Availability::Available => "available".to_owned(),
        Availability::NotAvailable => "not available".to_owned(),
        Availability::Unknown(code) => int_string(*code),
    }
}

/// Maps one stop to its feature.
fn stop_feature<C: Copy>(stop: &Stop<C>) -> (r: Feature<C>)
    ensures
        r@ == spec_stop_feature(*stop),
{
    let mut props = Properties::new();
    props.push_pair("name", stop.name.clone());
    props.push_pair("id", stop.id.clone());
    props.push_pair("description", stop.description.clone());
    if let Some(code) = &stop.code {
        props.push_pair("code", code.clone());
    }
    if let Some(parent) = &stop.parent_station {
        props.push_pair("parent_station", parent.clone());
    }
    if let Some(tz) = &stop.timezone {
        props.push_pair("timezone", tz.clone());
    }
    props.push_pair("wheelchair_boarding", availability_label(&stop.wheelchair_boarding));
    proof {
        assert(props@ =~= spec_stop_props(*stop));
    }
    let geometry = match (stop.longitude, stop.latitude) {
        (Some(lon), Some(lat)) => Some(Geometry::Point((lon, lat))),
        _ => None,
    };
    Feature { geometry, properties: Some(props) }
}

/// Maps each stop of the feed to a point feature with its descriptive
/// properties. Exactly one feature per stop, whether or not the stop has
/// coordinates.
pub fn extract_stops<C: Copy>(feed: &Feed<C>) -> (r: Vec<Feature<C>>)
    ensures
        spec_features_view(r@) == spec_stop_features(feed.stops@),
        r@.len() == feed.stops@.len(),
{
    let mut features: Vec<Feature<C>> = Vec::new();
    let mut i: usize = 0;
    proof {
        assert(spec_features_view(features@) =~= spec_stop_features(feed.stops@.take(0)));
    }
    while i < feed.stops.len()
        invariant
            i <= feed.stops@.len(),
            features@.len() == i,
            spec_features_view(features@) == spec_stop_features(feed.stops@.take(i as int)),
        decreases feed.stops@.len() - i,
    {
        let ghost prev = features@;
        let f = stop_feature(&feed.stops[i]);
        features.push(f);
        proof {
            feed.stops@.lemma_map_take_succ(|s: Stop<C>| spec_stop_feature(s), i as int);
            prev.lemma_push_map_commute(|ft: Feature<C>| ft@, f);
            assert(spec_features_view(features@) =~= spec_stop_features(
                feed.stops@.take(i as int + 1),
            ));
        }
        i = i + 1;
    }
    proof {
        assert(feed.stops@.take(feed.stops@.len() as int) =~= feed.stops@);
    }
    features
}

// ---------------------------------------------------------------------------
// Shape/path feature extractor
// ---------------------------------------------------------------------------

/// The first stop whose id is `id`, if any.
pub open spec fn spec_find_stop<C>(stops: Seq<Stop<C>>, id: Seq<char>) -> Option<Stop<C>>
    decreases stops.len(),
{
    if stops.len() == 0 {
        None
    } else if stops[0].id@ == id {
        Some(stops[0])
    } else {
        spec_find_stop(stops.drop_first(), id)
    }
}

fn find_stop<'a, C>(stops: &'a Vec<Stop<C>>, id: &String) -> (r: Option<&'a Stop<C>>)
    ensures
        match r {
            Some(s) => spec_find_stop(stops@, id@) == Some(*s),
            None => spec_find_stop(stops@, id@) is None,
        },
{
    let mut i: usize = 0;
    proof {
        assert(stops@.skip(0) =~= stops@);
    }
    while i < stops.len()
        invariant
            i <= stops@.len(),
            spec_find_stop(stops@, id@) == spec_find_stop(stops@.skip(i as int), id@),
        decreases stops@.len() - i,
    {
        proof {
            assert(stops@.skip(i as int).drop_first() =~= stops@.skip(i + 1));
            assert(stops@.skip(i as int)[0] == stops@[i as int]);
        }
        let stop = &stops[i];
        if string_eq(&stop.id, id) {
            return Some(stop);
        }
        i = i + 1;
    }
    proof {
        assert(stops@.skip(i as int) =~= Seq::<Stop<C>>::empty());
    }
    None
}

/// The first shape whose id is `id`, if any.
pub open spec fn spec_find_shape<C>(shapes: Seq<Shape<C>>, id: Seq<char>) -> Option<Shape<C>>
    decreases shapes.len(),
{
    if shapes.len() == 0 {
        None
    } else if shapes[0].id@ == id {
        Some(shapes[0])
    } else {
        spec_find_shape(shapes.drop_first(), id)
    }
}

fn find_shape<'a, C>(shapes: &'a Vec<Shape<C>>, id: &String) -> (r: Option<&'a Shape<C>>)
    ensures
        match r {
            Some(s) => spec_find_shape(shapes@, id@) == Some(*s),
            None => spec_find_shape(shapes@, id@) is None,
        },
{
    let mut i: usize = 0;
    proof {
        assert(shapes@.skip(0) =~= shapes@);
    }
    while i < shapes.len()
        invariant
            i <= shapes@.len(),
            spec_find_shape(shapes@, id@) == spec_find_shape(shapes@.skip(i as int), id@),
        decreases shapes@.len() - i,
    {
        proof {
            assert(shapes@.skip(i as int).drop_first() =~= shapes@.skip(i + 1));
            assert(shapes@.skip(i as int)[0] == shapes@[i as int]);
        }
        let shape = &shapes[i];
        if string_eq(&shape.id, id) {
            return Some(shape);
        }
        i = i + 1;
    }
    proof {
        assert(shapes@.skip(i as int) =~= Seq::<Shape<C>>::empty());
    }
    None
}

/// The fallback straight-line path for a stop-time sequence: the coordinates
/// of the referenced stops, in stop-time order. Fails with the id of the
/// first stop reference that yields no coordinates, either because the stop
/// is absent from the stop collection or because it lacks a coordinate.
pub open spec fn spec_stops_line<C>(stops: Seq<Stop<C>>, stop_times: Seq<StopTime>) -> Result<
    Seq<(C, C)>,
    Seq<char>,
>
    decreases stop_times.len(),
{
    if stop_times.len() == 0 {
        Ok(Seq::empty())
    } else {
        match spec_stops_line(stops, stop_times.drop_last()) {
            Ok(pts) => match spec_find_stop(stops, stop_times.last().stop_id@) {
                Some(stop) => match (stop.longitude, stop.latitude) {
                    (Some(lon), Some(lat)) => Ok(pts.push((lon, lat))),
                    _ => Err(stop_times.last().stop_id@),
                },
                None => Err(stop_times.last().stop_id@),
            },
            Err(e) => Err(e),
        }
    }
}

/// Once a prefix of the stop-time sequence fails, the whole sequence fails
/// the same way: the first failure wins.
proof fn lemma_stops_line_err<C>(stops: Seq<Stop<C>>, stop_times: Seq<StopTime>, i: int)
    requires
        0 <= i <= stop_times.len(),
        spec_stops_line(stops, stop_times.take(i)) is Err,
    ensures
        spec_stops_line(stops, stop_times) == spec_stops_line(stops, stop_times.take(i)),
    decreases stop_times.len() - i,
{
    if i == stop_times.len() {
        assert(stop_times.take(i) =~= stop_times);
    } else {
        assert(stop_times.take(i + 1).drop_last() =~= stop_times.take(i));
        lemma_stops_line_err(stops, stop_times, i + 1);
    }
}

fn build_stops_line<C: Copy>(stops: &Vec<Stop<C>>, stop_times: &Vec<StopTime>) -> (r: Result<
    Vec<(C, C)>,
    ConvertError,
>)
    ensures
        ({
            let m = spec_stops_line(stops@, stop_times@);
            match r {
                Ok(pts) => m is Ok && pts@ == m->Ok_0,
                Err(e) => m is Err && e@ == ErrorModel::MissingCoordinate(m->Err_0),
            }
        }),
{
    let mut line: Vec<(C, C)> = Vec::new();
    let mut i: usize = 0;
    proof {
        assert(stop_times@.take(0) =~= Seq::<StopTime>::empty());
        assert(line@ =~= Seq::<(C, C)>::empty());
    }
    while i < stop_times.len()
        invariant
            i <= stop_times@.len(),
            spec_stops_line(stops@, stop_times@.take(i as int)) == Ok::<Seq<(C, C)>, Seq<char>>(
                line@,
            ),
        decreases stop_times@.len() - i,
    {
        proof {
            assert(stop_times@.take(i as int + 1).drop_last() =~= stop_times@.take(i as int));
            assert(stop_times@.take(i as int + 1).last() == stop_times@[i as int]);
        }
        let st = &stop_times[i];
        let mut coords: Option<(C, C)> = None;
        match find_stop(stops, &st.stop_id) {
            Some(stop) => match (stop.longitude, stop.latitude) {
                (Some(lon), Some(lat)) => {
                    coords = Some((lon, lat));
                },
                _ => {
                },
            },
            None => {
            },
        }
        match coords {
            Some(p) => {
                line.push(p);
            },
            None => {
                proof {
                    lemma_stops_line_err(stops@, stop_times@, i as int + 1);
                }
                return Err(ConvertError::MissingCoordinate(st.stop_id.clone()));
            },
        }
        i = i + 1;
    }
    proof {
        assert(stop_times@.take(stop_times@.len() as int) =~= stop_times@);
    }
    Ok(line)
}

/// A fresh copy of a shape's point list.
fn copy_points<C: Copy>(points: &Vec<(C, C)>) -> (r: Vec<(C, C)>)
    ensures
        r@ == points@,
{
    let mut out: Vec<(C, C)> = Vec::new();
    let mut i: usize = 0;
    while i < points.len()
        invariant
            i <= points@.len(),
            out@ == points@.take(i as int),
        decreases points@.len() - i,
    {
        out.push(points[i]);
        proof {
            assert(out@ =~= points@.take(i as int + 1));
        }
        i = i + 1;
    }
    proof {
        assert(points@.take(points@.len() as int) =~= points@);
    }
    out
}

/// The route properties attached to a path feature: present exactly when the
/// trip's route id resolves.
pub open spec fn spec_trip_props(routes: Seq<Route>, route_id: Seq<char>) -> Option<
    Seq<(Seq<char>, Seq<char>)>,
> {
    match spec_find_route(routes, route_id) {
        Some(rt) => Some(spec_route_props(rt)),
        None => None,
    }
}

/// The path points for a trip that declares `shape_id`: the stored points of
/// that shape when the shapes table has it, and otherwise the fallback
/// straight line through the trip's stop-time sequence.
pub open spec fn spec_shape_points<C>(feed: Feed<C>, shape_id: Seq<char>, trip: Trip) -> Result<
    Seq<(C, C)>,
    Seq<char>,
> {
    match spec_find_shape(feed.shapes@, shape_id) {
        Some(sh) => Ok(sh.points@),
        None => spec_stops_line(feed.stops@, trip.stop_times@),
    }
}

/// The feature emitted for a trip that declares `shape_id`.
pub open spec fn spec_shape_feature<C>(feed: Feed<C>, shape_id: Seq<char>, trip: Trip) -> Result<
    FeatureModel<C>,
    Seq<char>,
> {
    match spec_shape_points(feed, shape_id, trip) {
        Ok(pts) => Ok(
            FeatureModel {
                geometry: Some(GeometryModel::LineString(pts)),
                properties: spec_trip_props(feed.routes@, trip.route_id@),
            },
        ),
        Err(e) => Err(e),
    }
}

/// The feature emitted for a trip without a shape id: the fallback straight
/// line, with the same route properties.
pub open spec fn spec_fallback_feature<C>(feed: Feed<C>, trip: Trip) -> Result<
    FeatureModel<C>,
    Seq<char>,
> {
    match spec_stops_line(feed.stops@, trip.stop_times@) {
        Ok(pts) => Ok(
            FeatureModel {
                geometry: Some(GeometryModel::LineString(pts)),
                properties: spec_trip_props(feed.routes@, trip.route_id@),
            },
        ),
        Err(e) => Err(e),
    }
}

/// Wraps a finished point list into a path feature carrying the route's
/// properties.
fn feature_from_points<C>(feed: &Feed<C>, route_id: &String, points: Vec<(C, C)>) -> (r: Feature<
    C,
>)
    ensures
        r@.geometry == Some(GeometryModel::LineString(points@)),
        r@.properties == spec_trip_props(feed.routes@, route_id@),
{
    let properties = get_route_properties(feed, route_id.as_str());
    Feature { geometry: Some(Geometry::LineString(points)), properties }
}

/// Builds the path feature for a trip that declares `shape_id`: a line from
/// the shape's stored points when the shape resolves, and otherwise from the
/// trip's stop-time sequence.
pub fn get_new_feature_from_shape<C: Copy>(feed: &Feed<C>, shape_id: &String, trip: &Trip) -> (r:
    Result<Feature<C>, ConvertError>)
    ensures
        ({
            let m = spec_shape_feature(*feed, shape_id@, *trip);
            match r {
                Ok(f) => m is Ok && f@ == m->Ok_0,
                Err(e) => m is Err && e@ == ErrorModel::MissingCoordinate(m->Err_0),
            }
        }),
{
    let points = match find_shape(&feed.shapes, shape_id) {
        Some(sh) => copy_points(&sh.points),
        None => match build_stops_line(&feed.stops, &trip.stop_times) {
            Ok(p) => p,
            Err(e) => {
                return Err(e);
            },
        },
    };
    Ok(feature_from_points(feed, &trip.route_id, points))
}

/// Builds the path feature for a trip without a shape id.
fn get_new_feature_from_stops<C: Copy>(feed: &Feed<C>, trip: &Trip) -> (r: Result<
    Feature<C>,
    ConvertError,
>)
    ensures
        ({
            let m = spec_fallback_feature(*feed, *trip);
            match r {
                Ok(f) => m is Ok && f@ == m->Ok_0,
                Err(e) => m is Err && e@ == ErrorModel::MissingCoordinate(m->Err_0),
            }
        }),
{
    match build_stops_line(&feed.stops, &trip.stop_times) {
        Ok(p) => Ok(feature_from_points(feed, &trip.route_id, p)),
        Err(e) => Err(e),
    }
}

// ---------------------------------------------------------------------------
// Deduplicated extraction over the trip collection
// ---------------------------------------------------------------------------

/// The set of views of a list of id strings.
pub open spec fn spec_id_set(ids: Seq<String>) -> Set<Seq<char>>
    decreases ids.len(),
{
    if ids.len() == 0 {
        Set::empty()
    } else {
        spec_id_set(ids.drop_last()).insert(ids.last()@)
    }
}

proof fn lemma_id_set_contains(ids: Seq<String>, x: Seq<char>)
    ensures
        spec_id_set(ids).contains(x) <==> exists|j: int| 0 <= j < ids.len() && ids[j]@ == x,
    decreases ids.len(),
{
    if ids.len() > 0 {
        lemma_id_set_contains(ids.drop_last(), x);
        if exists|j: int| 0 <= j < ids.len() && ids[j]@ == x {
            let j = choose|j: int| 0 <= j < ids.len() && ids[j]@ == x;
            if j < ids.len() - 1 {
                assert(ids.drop_last()[j]@ == x);
            }
        }
    }
}

proof fn lemma_id_set_push(ids: Seq<String>, id: String)
    ensures
        spec_id_set(ids.push(id)) == spec_id_set(ids).insert(id@),
{
    assert(ids.push(id).drop_last() =~= ids);
    assert(ids.push(id).last() == id);
}

/// Whether `id`'s view is among the views of `ids`.
fn contains_id(ids: &Vec<String>, id: &String) -> (r: bool)
    ensures
        r == spec_id_set(ids@).contains(id@),
{
    proof {
        lemma_id_set_contains(ids@, id@);
    }
    let mut j: usize = 0;
    while j < ids.len()
        invariant
            j <= ids@.len(),
            forall|k: int| 0 <= k < j ==> ids@[k]@ != id@,
            spec_id_set(ids@).contains(id@) <==> exists|k: int|
                0 <= k < ids@.len() && ids@[k]@ == id@,
        decreases ids@.len() - j,
    {
        let candidate = &ids[j];
        if string_eq(candidate, id) {
            return true;
        }
        j = j + 1;
    }
    false
}

/// The running state of the path extractor: which shape identities and which
/// fallback route identities have already been emitted (two separate key
/// spaces), and the features emitted so far.
pub struct PathAcc<C> {
    pub shape_ids: Set<Seq<char>>,
    pub route_ids: Set<Seq<char>>,
    pub features: Seq<FeatureModel<C>>,
}

/// The extractor's starting state: nothing emitted.
pub open spec fn spec_empty_acc<C>() -> PathAcc<C> {
    PathAcc { shape_ids: Set::empty(), route_ids: Set::empty(), features: Seq::empty() }
}

/// One step of the path extractor. A trip with a shape id is keyed by that
/// id; a trip without one is keyed by its route id, in a key space of its
/// own. A trip whose key was already emitted yields nothing.
pub open spec fn spec_path_step<C>(feed: Feed<C>, acc: PathAcc<C>, trip: Trip) -> Result<
    PathAcc<C>,
    Seq<char>,
> {
    match trip.shape_id {
        Some(sid) => if acc.shape_ids.contains(sid@) {
            Ok(acc)
        } else {
            match spec_shape_feature(feed, sid@, trip) {
                Ok(f) => Ok(
                    PathAcc {
                        shape_ids: acc.shape_ids.insert(sid@),
                        route_ids: acc.route_ids,
                        features: acc.features.push(f),
                    },
                ),
                Err(e) => Err(e),
            }
        },
        None => if acc.route_ids.contains(trip.route_id@) {
            Ok(acc)
        } else {
            match spec_fallback_feature(feed, trip) {
                Ok(f) => Ok(
                    PathAcc {
                        shape_ids: acc.shape_ids,
                        route_ids: acc.route_ids.insert(trip.route_id@),
                        features: acc.features.push(f),
                    },
                ),
                Err(e) => Err(e),
            }
        },
    }
}

/// The path extractor folded over a trip sequence, in order.
pub open spec fn spec_extract_paths<C>(feed: Feed<C>, trips: Seq<Trip>) -> Result<
    PathAcc<C>,
    Seq<char>,
>
    decreases trips.len(),
{
    if trips.len() == 0 {
        Ok(spec_empty_acc())
    } else {
        match spec_extract_paths(feed, trips.drop_last()) {
            Ok(acc) => spec_path_step(feed, acc, trips.last()),
            Err(e) => Err(e),
        }
    }
}

/// Once a prefix of the trip sequence fails, the whole sequence fails the
/// same way: the first failure wins.
proof fn lemma_extract_paths_err<C>(feed: Feed<C>, trips: Seq<Trip>, i: int)
    requires
        0 <= i <= trips.len(),
        spec_extract_paths(feed, trips.take(i)) is Err,
    ensures
        spec_extract_paths(feed, trips) == spec_extract_paths(feed, trips.take(i)),
    decreases trips.len() - i,
{
    if i == trips.len() {
        assert(trips.take(i) =~= trips);
    } else {
        assert(trips.take(i + 1).drop_last() =~= trips.take(i));
        lemma_extract_paths_err(feed, trips, i + 1);
    }
}

/// Walks the trips in their stored order and emits at most one path feature
/// per shape identity, and at most one per route fallback identity among the
/// trips that carry no shape id.
pub fn extract_trips_shapes<C: Copy>(feed: &Feed<C>) -> (r: Result<Vec<Feature<C>>, ConvertError>)
    ensures
        ({
            let m = spec_extract_paths(*feed, feed.trips@);
            match r {
                Ok(fs) => m is Ok && spec_features_view(fs@) == m->Ok_0.features,
                Err(e) => m is Err && e@ == ErrorModel::MissingCoordinate(m->Err_0),
            }
        }),
{
    let mut features: Vec<Feature<C>> = Vec::new();
    let mut shape_seen: Vec<String> = Vec::new();
    let mut route_seen: Vec<String> = Vec::new();
    let mut i: usize = 0;
    proof {
        assert(feed.trips@.take(0) =~= Seq::<Trip>::empty());
        assert(spec_features_view(features@) =~= Seq::<FeatureModel<C>>::empty());
    }
    while i < feed.trips.len()
        invariant
            i <= feed.trips@.len(),
            ({
                let m = spec_extract_paths(*feed, feed.trips@.take(i as int));
                &&& m is Ok
                &&& m->Ok_0.shape_ids == spec_id_set(shape_seen@)
                &&& m->Ok_0.route_ids == spec_id_set(route_seen@)
                &&& m->Ok_0.features == spec_features_view(features@)
            }),
        decreases feed.trips@.len() - i,
    {
        proof {
            assert(feed.trips@.take(i as int + 1).drop_last() =~= feed.trips@.take(i as int));
            assert(feed.trips@.take(i as int + 1).last() == feed.trips@[i as int]);
        }
        let trip = &feed.trips[i];
        match &trip.shape_id {
            Some(sid) => {
                if !contains_id(&shape_seen, sid) {
                    match get_new_feature_from_shape(feed, sid, trip) {
                        Ok(f) => {
                            let ghost prev_features = features@;
                            let ghost prev_seen = shape_seen@;
                            features.push(f);
                            shape_seen.push(sid.clone());
                            proof {
                                lemma_id_set_push(prev_seen, shape_seen@.last());
                                prev_features.lemma_push_map_commute(|ft: Feature<C>| ft@, f);
                            }
                        },
                        Err(e) => {
                            proof {
                                lemma_extract_paths_err(*feed, feed.trips@, i as int + 1);
                            }
                            return Err(e);
                        },
                    }
                }
            },
            None => {
                if !contains_id(&route_seen, &trip.route_id) {
                    match get_new_feature_from_stops(feed, trip) {
                        Ok(f) => {
                            let ghost prev_features = features@;
                            let ghost prev_seen = route_seen@;
                            features.push(f);
                            route_seen.push(trip.route_id.clone());
                            proof {
                                lemma_id_set_push(prev_seen, route_seen@.last());
                                prev_features.lemma_push_map_commute(|ft: Feature<C>| ft@, f);
                            }
                        },
                        Err(e) => {
                            proof {
                                lemma_extract_paths_err(*feed, feed.trips@, i as int + 1);
                            }
                            return Err(e);
                        },
                    }
                }
            },
        }
        i = i + 1;
    }
    proof {
        assert(feed.trips@.take(feed.trips@.len() as int) =~= feed.trips@);
    }
    Ok(features)
}

// ---------------------------------------------------------------------------
// Feature collection assembler
// ---------------------------------------------------------------------------

/// The whole conversion: the stop features, followed by the path features,
/// or the first fatal failure of the path extractor.
pub open spec fn spec_convert<C>(feed: Feed<C>) -> Result<Seq<FeatureModel<C>>, Seq<char>> {
    match spec_extract_paths(feed, feed.trips@) {
        Ok(acc) => Ok(spec_stop_features(feed.stops@) + acc.features),
        Err(e) => Err(e),
    }
}

/// Converts a feed snapshot into one feature collection: the stop features
/// first, then the deduplicated path features, each sub-list in its own
/// order.
pub fn convert_to_geojson<C: Copy>(feed: &Feed<C>) -> (r: Result<
    FeatureCollection<C>,
    ConvertError,
>)
    ensures
        ({
            let m = spec_convert(*feed);
            match r {
                Ok(fc) => m is Ok && fc@ == m->Ok_0,
                Err(e) => m is Err && e@ == ErrorModel::MissingCoordinate(m->Err_0),
            }
        }),
{
    let mut features = extract_stops(feed);
    match extract_trips_shapes(feed) {
        Ok(mut shape_features) => {
            let ghost stops_part = features@;
            let ghost paths_part = shape_features@;
            features.append(&mut shape_features);
            proof {
                assert(spec_features_view(features@) =~= spec_features_view(stops_part)
                    + spec_features_view(paths_part));
            }
            Ok(FeatureCollection { features })
        },
        Err(e) => Err(e),
    }
}

} // verus!
