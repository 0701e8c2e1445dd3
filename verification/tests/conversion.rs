use gtfs_geojson::converter::convert_to_geojson;
use gtfs_geojson::feature::{Feature, FeatureCollection, Geometry};
use gtfs_geojson::feed::{Availability, Color, Feed, Route, Shape, Stop, StopTime, Trip};

fn stop_area(id: &str, name: &str, lon: f64, lat: f64) -> Stop<f64> {
    Stop {
        id: id.to_string(),
        name: name.to_string(),
        description: String::new(),
        code: None,
        parent_station: None,
        timezone: None,
        wheelchair_boarding: Availability::InformationNotAvailable,
        longitude: Some(lon),
        latitude: Some(lat),
    }
}

/// The feed the basic conversion tests run on: two stops, one route with a
/// four-point shape, and one trip over both stops.
fn basic_feed() -> Feed<f64> {
    let mut stop2 = stop_area("stop2", "StopPoint", 1.0, 47.0);
    stop2.code = Some("0001".to_string());
    Feed {
        stops: vec![stop_area("stop1", "Stop Area", 0.0, 48.0), stop2],
        routes: vec![Route {
            id: "route1".to_string(),
            short_name: "100".to_string(),
            long_name: "100".to_string(),
            color: Some(Color { r: 0, g: 0, b: 0 }),
            text_color: Some(Color { r: 255, g: 255, b: 255 }),
        }],
        trips: vec![Trip {
            route_id: "route1".to_string(),
            shape_id: Some("shape1".to_string()),
            stop_times: vec![
                StopTime { stop_id: "stop1".to_string(), stop_sequence: 1 },
                StopTime { stop_id: "stop2".to_string(), stop_sequence: 2 },
            ],
        }],
        shapes: vec![Shape {
            id: "shape1".to_string(),
            points: vec![(0.0, 48.0), (1.0, 47.0), (1.0, 45.0), (2.0, 44.0)],
        }],
    }
}

fn find_by_prop<'a>(
    collection: &'a FeatureCollection<f64>,
    key: &str,
    value: &str,
) -> Option<&'a Feature<f64>> {
    collection.features.iter().find(|f| {
        f.properties
            .as_ref()
            .and_then(|p| p.get(key))
            .map(|v| v.as_str())
            == Some(value)
    })
}

fn pairs(entries: &[(&str, &str)]) -> Vec<(String, String)> {
    entries
        .iter()
        .map(|(k, v)| (k.to_string(), v.to_string()))
        .collect()
}

#[test]
fn with_code_test() {
    let geojson = convert_to_geojson(&basic_feed()).unwrap();
    let given_feature = find_by_prop(&geojson, "id", "stop2").unwrap();

    assert_eq!(
        given_feature.properties.as_ref().unwrap().entries,
        pairs(&[
            ("name", "StopPoint"),
            ("id", "stop2"),
            ("description", ""),
            ("code", "0001"),
            ("wheelchair_boarding", "unknown"),
        ])
    );

    // long and lat
    assert_eq!(given_feature.geometry, Some(Geometry::Point((1.0, 47.0))));
}

#[test]
fn no_code_test() {
    let geojson = convert_to_geojson(&basic_feed()).unwrap();
    let given_feature = find_by_prop(&geojson, "id", "stop1").unwrap();

    assert_eq!(
        given_feature.properties.as_ref().unwrap().entries,
        pairs(&[
            ("name", "Stop Area"),
            ("id", "stop1"),
            ("description", ""),
            ("wheelchair_boarding", "unknown"),
        ])
    );

    assert_eq!(given_feature.geometry, Some(Geometry::Point((0.0, 48.0))));
}

#[test]
fn shape_test() {
    let geojson = convert_to_geojson(&basic_feed()).unwrap();
    let given_feature = find_by_prop(&geojson, "route_id", "route1").unwrap();

    assert_eq!(
        given_feature.properties.as_ref().unwrap().entries,
        pairs(&[
            ("route_id", "route1"),
            ("route_short_name", "100"),
            ("route_long_name", "100"),
            ("route_color", "rgb(0,0,0)"),
            ("route_text_color", "rgb(255,255,255)"),
        ])
    );

    assert_eq!(
        given_feature.geometry,
        Some(Geometry::LineString(vec![
            (0.0, 48.0),
            (1.0, 47.0),
            (1.0, 45.0),
            (2.0, 44.0),
        ]))
    );
}

#[test]
fn empty_shapes_file_generates_line_geometries() {
    // The trip references a shape id that the (empty) shapes table cannot
    // resolve: the path falls back to the stop-time sequence.
    let feed = Feed {
        stops: vec![
            stop_area("stopA", "First", 1.0, 47.0),
            stop_area("stopB", "Second", 1.0, 45.0),
        ],
        routes: vec![Route {
            id: "route1".to_string(),
            short_name: "100".to_string(),
            long_name: "100".to_string(),
            color: None,
            text_color: None,
        }],
        trips: vec![Trip {
            route_id: "route1".to_string(),
            shape_id: Some("shape1".to_string()),
            stop_times: vec![
                StopTime { stop_id: "stopA".to_string(), stop_sequence: 1 },
                StopTime { stop_id: "stopB".to_string(), stop_sequence: 2 },
            ],
        }],
        shapes: vec![],
    };
    let geojson = convert_to_geojson(&feed).unwrap();
    let given_feature = find_by_prop(&geojson, "route_id", "route1").unwrap();

    assert_eq!(
        given_feature.geometry,
        Some(Geometry::LineString(vec![(1.0, 47.0), (1.0, 45.0)]))
    );
}

#[test]
fn stops_first_then_paths_in_collection_order() {
    let geojson = convert_to_geojson(&basic_feed()).unwrap();
    assert_eq!(geojson.features.len(), 3);
    assert!(geojson.features[0].properties.as_ref().unwrap().get("id").is_some());
    assert!(geojson.features[1].properties.as_ref().unwrap().get("id").is_some());
    assert!(geojson.features[2]
        .properties
        .as_ref()
        .unwrap()
        .get("route_id")
        .is_some());
}
