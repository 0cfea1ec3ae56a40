use gis_map::cache::{
    cached_tile, insert_tile_sql, schema_steps, select_tile_sql, table_probe_sql, Column, SchemaStep,
};
use gis_map::route::{next_tile, parse_tile_path, route, ContentType, Route};
use gis_map::tile::{draw_tile, GisXYZ};

#[test]
fn root_path_is_home() {
    let r = route("/");
    assert_eq!(r, Route::Home);
    assert_eq!(r.status(), 200);
    assert_eq!(r.content_type(), ContentType::Html);
}

#[test]
fn tile_path_is_tile() {
    let r = route("/maps/3/4/2.png");
    assert_eq!(r, Route::Tile(GisXYZ { x: 4, y: 2, z: 3 }));
    assert_eq!(r.status(), 200);
    assert_eq!(r.content_type(), ContentType::Png);
}

#[test]
fn other_path_is_not_found() {
    let r = route("/bogus");
    assert_eq!(r, Route::NotFound);
    assert_eq!(r.status(), 404);
    assert_eq!(r.content_type(), ContentType::Html);
}

#[test]
fn malformed_tile_paths_are_rejected() {
    for p in [
        "",
        "/maps/3/4/2.pngx",
        "/x/maps/3/4/2.png",
        "/maps/3/4/.png",
        "/maps//4/2.png",
        "/maps/3/4/2",
        "/maps/3/a/2.png",
        "/maps/1/2/0.png",
        "/maps/31/0/0.png",
        "/maps/99999999999999999999/0/0.png",
    ] {
        assert_eq!(parse_tile_path(p), None, "{}", p);
        assert_eq!(route(p), Route::NotFound, "{}", p);
    }
}

#[test]
fn tile_numbers_are_decimal() {
    assert_eq!(parse_tile_path("/maps/03/7/0.png"), Some(GisXYZ { x: 7, y: 0, z: 3 }));
    assert_eq!(parse_tile_path("/maps/0/0/0.png"), Some(GisXYZ { x: 0, y: 0, z: 0 }));
    assert_eq!(
        parse_tile_path("/maps/30/1073741823/5.png"),
        Some(GisXYZ { x: 1073741823, y: 5, z: 30 })
    );
}

#[test]
fn empty_cache_entry_is_a_miss() {
    assert_eq!(cached_tile(vec![]), None);
    assert_eq!(cached_tile(vec![1, 2, 3]), Some(vec![1, 2, 3]));
}

#[test]
fn schema_steps_create_what_is_missing() {
    assert_eq!(
        schema_steps(false, false, false, false),
        vec![
            SchemaStep::CreateTable,
            SchemaStep::CreateIndex(Column::X),
            SchemaStep::CreateIndex(Column::Y),
            SchemaStep::CreateIndex(Column::Z),
        ]
    );
    assert_eq!(schema_steps(true, true, false, true), vec![SchemaStep::CreateIndex(Column::Y)]);
    assert_eq!(schema_steps(true, true, true, true), vec![]);
}

#[test]
fn pyramid_walk_order() {
    assert_eq!(next_tile(&GisXYZ { x: 0, y: 0, z: 0 }, 1), Some(GisXYZ { x: 0, y: 0, z: 1 }));
    assert_eq!(next_tile(&GisXYZ { x: 0, y: 0, z: 1 }, 1), Some(GisXYZ { x: 0, y: 1, z: 1 }));
    assert_eq!(next_tile(&GisXYZ { x: 0, y: 1, z: 1 }, 1), Some(GisXYZ { x: 1, y: 0, z: 1 }));
    assert_eq!(next_tile(&GisXYZ { x: 1, y: 1, z: 1 }, 1), None);
    let mut t = GisXYZ { x: 0, y: 0, z: 0 };
    let mut count = 1;
    while let Some(u) = next_tile(&t, 3) {
        t = u;
        count += 1;
    }
    assert_eq!(count, 1 + 4 + 16 + 64);
}

fn open_cache() -> sqlite::Connection {
    let conn = sqlite::open(":memory:").unwrap();
    let mut exists = false;
    conn.iterate(table_probe_sql(), |_| {
        exists = true;
        true
    })
    .unwrap();
    for step in schema_steps(exists, false, false, false) {
        conn.execute(step.sql()).unwrap();
    }
    conn
}

fn cache_get(conn: &sqlite::Connection, t: &GisXYZ) -> Vec<u8> {
    let mut st = conn.prepare(select_tile_sql()).unwrap();
    st.bind((1, t.x as i64)).unwrap();
    st.bind((2, t.y as i64)).unwrap();
    st.bind((3, t.z as i64)).unwrap();
    match st.next().unwrap() {
        sqlite::State::Row => st.read::<Vec<u8>, _>(0).unwrap(),
        sqlite::State::Done => Vec::new(),
    }
}

fn cache_set(conn: &sqlite::Connection, t: &GisXYZ, bytes: &[u8]) {
    let mut st = conn.prepare(insert_tile_sql()).unwrap();
    st.bind((1, t.x as i64)).unwrap();
    st.bind((2, t.y as i64)).unwrap();
    st.bind((3, t.z as i64)).unwrap();
    st.bind((4, bytes)).unwrap();
    while st.next().unwrap() != sqlite::State::Done {}
}

#[test]
fn cache_returns_what_was_set() {
    let conn = open_cache();
    let t = GisXYZ { x: 4, y: 2, z: 3 };
    assert!(cache_get(&conn, &t).is_empty());
    cache_set(&conn, &t, &[1, 2, 3]);
    assert_eq!(cache_get(&conn, &t), vec![1, 2, 3]);
    cache_set(&conn, &t, &[9]);
    assert_eq!(cache_get(&conn, &t), vec![9]);
    assert!(cache_get(&conn, &GisXYZ { x: 2, y: 4, z: 3 }).is_empty());
}

#[test]
fn tile_request_on_empty_cache_renders_and_stores() {
    let conn = open_cache();
    let t = match route("/maps/3/4/2.png") {
        Route::Tile(t) => t,
        other => panic!("{:?}", other),
    };
    let body = match cached_tile(cache_get(&conn, &t)) {
        Some(bytes) => bytes,
        None => {
            let bytes = draw_tile(&t, &vec![]).unwrap();
            cache_set(&conn, &t, &bytes);
            bytes
        }
    };
    assert!(!body.is_empty());
    assert_eq!(cache_get(&conn, &GisXYZ { x: 4, y: 2, z: 3 }), body);
}
