use gtfs_geojson::converter::{
    convert_to_geojson, extract_stops, extract_trips_shapes, get_new_feature_from_shape,
    get_route_properties, rgb_string, ConvertError,
};
use gtfs_geojson::feature::Geometry;
use gtfs_geojson::feed::{Availability, Color, Feed, Route, Shape, Stop, StopTime, Trip};

fn plain_stop(id: &str, coords: Option<(f64, f64)>) -> Stop<f64> {
    Stop {
        id: id.to_string(),
        name: format!("stop named {}", id),
        description: "d".to_string(),
        code: None,
        parent_station: None,
        timezone: None,
        wheelchair_boarding: Availability::InformationNotAvailable,
        longitude: coords.map(|c| c.0),
        latitude: coords.map(|c| c.1),
    }
}

fn plain_route(id: &str) -> Route {
    Route {
        id: id.to_string(),
        short_name: "s".to_string(),
        long_name: "l".to_string(),
        color: Some(Color { r: 1, g: 2, b: 3 }),
        text_color: None,
    }
}

fn trip(route_id: &str, shape_id: Option<&str>, stop_ids: &[&str]) -> Trip {
    Trip {
        route_id: route_id.to_string(),
        shape_id: shape_id.map(|s| s.to_string()),
        stop_times: stop_ids
            .iter()
            .enumerate()
            .map(|(i, s)| StopTime { stop_id: s.to_string(), stop_sequence: i as u32 })
            .collect(),
    }
}

fn mixed_feed() -> Feed<f64> {
    Feed {
        stops: vec![
            plain_stop("s1", Some((0.5, 1.5))),
            plain_stop("s2", Some((2.5, 3.5))),
            plain_stop("s3", None),
        ],
        routes: vec![plain_route("r1"), plain_route("r2")],
        trips: vec![
            trip("r1", Some("sh1"), &["s1", "s2"]),
            trip("r2", Some("sh1"), &[]),
            trip("r1", None, &["s1"]),
            trip("r1", None, &["s2"]),
            trip("r2", None, &["s2", "s1"]),
        ],
        shapes: vec![Shape { id: "sh1".to_string(), points: vec![(9.0, 8.0)] }],
    }
}

#[test]
fn one_point_feature_per_stop() {
    let feed = mixed_feed();
    let stops = extract_stops(&feed);
    assert_eq!(stops.len(), feed.stops.len());
    // A stop without coordinates still yields a feature, just without geometry.
    assert_eq!(stops[2].geometry, None);
    assert!(stops[2].properties.is_some());
}

#[test]
fn one_path_feature_per_identity() {
    let feed = mixed_feed();
    // Distinct shape ids among the trips: sh1. Distinct fallback route ids
    // among the trips without a shape id: r1, r2.
    let paths = extract_trips_shapes(&feed).unwrap();
    assert_eq!(paths.len(), 3);
}

#[test]
fn conversion_is_repeatable() {
    let feed = mixed_feed();
    let once = convert_to_geojson(&feed).unwrap();
    let twice = convert_to_geojson(&feed).unwrap();
    assert_eq!(once, twice);
}

#[test]
fn absent_fields_leave_no_keys() {
    let feed = mixed_feed();
    let stops = extract_stops(&feed);
    let props = stops[0].properties.as_ref().unwrap();
    assert!(props.get("code").is_none());
    assert!(props.get("parent_station").is_none());
    assert!(props.get("timezone").is_none());
    assert!(props.get("name").is_some());
    assert!(props.get("id").is_some());
    assert!(props.get("description").is_some());
    assert!(props.get("wheelchair_boarding").is_some());

    let route_props = get_route_properties(&feed, "r1").unwrap();
    assert_eq!(route_props.get("route_color").map(|v| v.as_str()), Some("rgb(1,2,3)"));
    assert!(route_props.get("route_text_color").is_none());
}

#[test]
fn present_fields_all_have_keys() {
    let stop = Stop {
        id: "sX".to_string(),
        name: "Full".to_string(),
        description: "desc".to_string(),
        code: Some("77".to_string()),
        parent_station: Some("sP".to_string()),
        timezone: Some("Europe/Paris".to_string()),
        wheelchair_boarding: Availability::Available,
        longitude: Some(1.0),
        latitude: Some(2.0),
    };
    let feed = Feed { stops: vec![stop], routes: vec![], trips: vec![], shapes: vec![] };
    let stops = extract_stops(&feed);
    let props = stops[0].properties.as_ref().unwrap();
    assert_eq!(props.len(), 7);
    assert_eq!(props.get("code").map(|v| v.as_str()), Some("77"));
    assert_eq!(props.get("parent_station").map(|v| v.as_str()), Some("sP"));
    assert_eq!(props.get("timezone").map(|v| v.as_str()), Some("Europe/Paris"));
    assert_eq!(props.get("wheelchair_boarding").map(|v| v.as_str()), Some("available"));
}

#[test]
fn wheelchair_labels() {
    let labels = [
        (Availability::InformationNotAvailable, "unknown"),
        (Availability::Available, "available"),
        (Availability::NotAvailable, "not available"),
        (Availability::Unknown(7), "7"),
        (Availability::Unknown(-3), "-3"),
        (Availability::Unknown(32767), "32767"),
        (Availability::Unknown(-32768), "-32768"),
    ];
    for (availability, expected) in labels {
        let mut stop = plain_stop("s1", None);
        stop.wheelchair_boarding = availability;
        let feed = Feed { stops: vec![stop], routes: vec![], trips: vec![], shapes: vec![] };
        let stops = extract_stops(&feed);
        let props = stops[0].properties.as_ref().unwrap();
        assert_eq!(props.get("wheelchair_boarding").map(|v| v.as_str()), Some(expected));
    }
}

#[test]
fn rgb_rendering() {
    assert_eq!(rgb_string(Color { r: 0, g: 0, b: 0 }), "rgb(0,0,0)");
    assert_eq!(rgb_string(Color { r: 255, g: 255, b: 255 }), "rgb(255,255,255)");
    assert_eq!(rgb_string(Color { r: 12, g: 205, b: 9 }), "rgb(12,205,9)");
}

#[test]
fn unknown_route_yields_feature_without_properties() {
    let feed = Feed {
        stops: vec![plain_stop("s1", Some((1.0, 2.0)))],
        routes: vec![],
        trips: vec![trip("ghost", None, &["s1"])],
        shapes: vec![],
    };
    let paths = extract_trips_shapes(&feed).unwrap();
    assert_eq!(paths.len(), 1);
    assert!(paths[0].properties.is_none());
    assert_eq!(paths[0].geometry, Some(Geometry::LineString(vec![(1.0, 2.0)])));
}

#[test]
fn missing_coordinates_abort_the_conversion() {
    let feed = Feed {
        stops: vec![plain_stop("s1", Some((1.0, 2.0))), plain_stop("nowhere", None)],
        routes: vec![plain_route("r1")],
        trips: vec![trip("r1", None, &["s1", "nowhere"])],
        shapes: vec![],
    };
    let result = convert_to_geojson(&feed);
    assert_eq!(result, Err(ConvertError::MissingCoordinate("nowhere".to_string())));
}

#[test]
fn dangling_stop_reference_aborts_the_conversion() {
    let feed = Feed {
        stops: vec![plain_stop("s1", Some((1.0, 2.0)))],
        routes: vec![plain_route("r1")],
        trips: vec![trip("r1", None, &["s1", "missing"])],
        shapes: vec![],
    };
    let result = convert_to_geojson(&feed);
    assert_eq!(result, Err(ConvertError::MissingCoordinate("missing".to_string())));
}

#[test]
fn resolved_shape_needs_no_stop_coordinates() {
    // The shape resolves, so the stop without coordinates is never consulted.
    let feed = Feed {
        stops: vec![plain_stop("nowhere", None)],
        routes: vec![plain_route("r1")],
        trips: vec![trip("r1", Some("sh1"), &["nowhere"])],
        shapes: vec![Shape { id: "sh1".to_string(), points: vec![(4.0, 5.0), (6.0, 7.0)] }],
    };
    let paths = extract_trips_shapes(&feed).unwrap();
    assert_eq!(paths.len(), 1);
    assert_eq!(paths[0].geometry, Some(Geometry::LineString(vec![(4.0, 5.0), (6.0, 7.0)])));
}

#[test]
fn duplicate_shape_id_emits_first_trip_only() {
    let mut feed = mixed_feed();
    feed.routes = vec![plain_route("r1"), {
        let mut r = plain_route("r2");
        r.short_name = "second".to_string();
        r
    }];
    feed.trips = vec![trip("r1", Some("sh1"), &[]), trip("r2", Some("sh1"), &[])];
    let paths = extract_trips_shapes(&feed).unwrap();
    assert_eq!(paths.len(), 1);
    // The route properties come from the first trip that carried the shape.
    let props = paths[0].properties.as_ref().unwrap();
    assert_eq!(props.get("route_id").map(|v| v.as_str()), Some("r1"));
}

#[test]
fn shape_and_route_identities_do_not_collide() {
    // A shape id and a route id that are textually identical live in
    // separate key spaces: both features are emitted.
    let feed = Feed {
        stops: vec![plain_stop("s1", Some((1.0, 2.0)))],
        routes: vec![plain_route("same")],
        trips: vec![
            trip("same", Some("same"), &[]),
            trip("same", None, &["s1"]),
        ],
        shapes: vec![Shape { id: "same".to_string(), points: vec![(0.0, 0.0)] }],
    };
    let paths = extract_trips_shapes(&feed).unwrap();
    assert_eq!(paths.len(), 2);
}

#[test]
fn degenerate_shapes_pass_through() {
    let feed: Feed<f64> = Feed {
        stops: vec![],
        routes: vec![plain_route("r1")],
        trips: vec![
            trip("r1", Some("empty"), &[]),
            trip("r1", Some("single"), &[]),
        ],
        shapes: vec![
            Shape { id: "empty".to_string(), points: vec![] },
            Shape { id: "single".to_string(), points: vec![(3.0, 4.0)] },
        ],
    };
    let paths = extract_trips_shapes(&feed).unwrap();
    assert_eq!(paths[0].geometry, Some(Geometry::LineString(vec![])));
    assert_eq!(paths[1].geometry, Some(Geometry::LineString(vec![(3.0, 4.0)])));
}

#[test]
fn empty_stop_times_fall_back_to_empty_line() {
    let feed: Feed<f64> = Feed {
        stops: vec![],
        routes: vec![plain_route("r1")],
        trips: vec![trip("r1", None, &[])],
        shapes: vec![],
    };
    let paths = extract_trips_shapes(&feed).unwrap();
    assert_eq!(paths.len(), 1);
    assert_eq!(paths[0].geometry, Some(Geometry::LineString(vec![])));
}

#[test]
fn shape_feature_builder_matches_extractor() {
    let feed = mixed_feed();
    let built = get_new_feature_from_shape(
        &feed,
        &"sh1".to_string(),
        &trip("r1", Some("sh1"), &["s1", "s2"]),
    )
    .unwrap();
    let paths = extract_trips_shapes(&feed).unwrap();
    assert_eq!(paths[0], built);
}

#[test]
fn empty_feed_yields_empty_collection() {
    let feed: Feed<f64> = Feed { stops: vec![], routes: vec![], trips: vec![], shapes: vec![] };
    let collection = convert_to_geojson(&feed).unwrap();
    assert_eq!(collection.features.len(), 0);
}
