//! End-to-end tests: messages through the queue and the worker, read back
//! from storage with the storage engine itself.

use graph_mirror::channel::DatabaseThread;
use graph_mirror::gateway::Database;
use graph_mirror::model::{
    Client, DbError, DbMessage, Device, EnumRoute, Link, Metadata, Node, ObjectId, Profile,
    PropertyBag, Route,
};
use tempfile::{NamedTempFile, TempDir};
use turso::Value;

fn db_path(dir: &TempDir) -> String {
    dir.path().join("mirror.db").to_str().unwrap().to_string()
}

fn bag(entries: &[(&str, &str)]) -> PropertyBag {
    let mut b = PropertyBag::new();
    for (k, v) in entries {
        b.push(k.to_string(), v.to_string());
    }
    b
}

fn client(id: u32, entries: &[(&str, &str)]) -> Client {
    Client { object_id: ObjectId::from_raw_id(id), props: bag(entries) }
}

/// Drain the queue and let the worker exit; every producer handle must be
/// dropped first.
fn run_worker(mut t: DatabaseThread) {
    while t.step().is_some() {}
}

fn exec_direct(path: &str, sql: &str) {
    let db = futures::executor::block_on(turso::Builder::new_local(path).build()).unwrap();
    let conn = db.connect().unwrap();
    futures::executor::block_on(conn.execute(sql, ())).unwrap();
}

fn fetch_rows(path: &str, sql: &str, params: Vec<Value>) -> Vec<Vec<Value>> {
    let db = futures::executor::block_on(turso::Builder::new_local(path).build()).unwrap();
    let conn = db.connect().unwrap();
    let mut rows = futures::executor::block_on(conn.query(sql, params)).unwrap();
    let mut out = Vec::new();
    loop {
        match futures::executor::block_on(rows.next()) {
            Ok(Some(row)) => {
                let mut vals = Vec::new();
                for i in 0..row.column_count() {
                    vals.push(row.get_value(i).unwrap());
                }
                out.push(vals);
            }
            Ok(None) => break,
            Err(e) => panic!("read-back query failed: {e}"),
        }
    }
    out
}

#[test]
fn test_database_creation() {
    let temp_file = NamedTempFile::new().unwrap();
    let db_path = temp_file.path().to_str().unwrap();

    let db = Database::new(db_path);
    assert!(db.is_ok(), "Failed to create database: {:?}", db.err());

    println!("Database created successfully at {}", db_path);
}

#[test]
fn end_to_end_client_round_trip() {
    let dir = TempDir::new().unwrap();
    let path = db_path(&dir);

    let (t, h) = DatabaseThread::new(&path).expect("Failed to create database");
    h.send(DbMessage::UpsertClient(client(42, &[("app", "Test")]))).unwrap();
    drop(h);
    run_worker(t);

    let rows = fetch_rows(
        &path,
        "SELECT props_json FROM clients WHERE object_id = ?",
        vec![Value::Integer(42)],
    );
    assert_eq!(rows, vec![vec![Value::Text("{\"app\":\"Test\"}".to_string())]]);

    let (t, h) = DatabaseThread::new(&path).expect("Failed to create database");
    h.send(DbMessage::RemoveObject(ObjectId::from_raw_id(42))).unwrap();
    drop(h);
    run_worker(t);

    let rows = fetch_rows(
        &path,
        "SELECT props_json FROM clients WHERE object_id = ?",
        vec![Value::Integer(42)],
    );
    assert!(rows.is_empty());
}

#[test]
fn ordering_terminal_remove_wins() {
    let dir = TempDir::new().unwrap();
    let path = db_path(&dir);

    let (t, h) = DatabaseThread::new(&path).unwrap();
    h.send(DbMessage::UpsertNode(node_with_volumes(9, Some(vec![1, 2])))).unwrap();
    h.send(DbMessage::UpsertNode(node_with_volumes(9, None))).unwrap();
    h.send(DbMessage::RemoveObject(ObjectId::from_raw_id(9))).unwrap();
    drop(h);
    run_worker(t);

    let rows = fetch_rows(&path, "SELECT object_id FROM nodes", vec![]);
    assert!(rows.is_empty());
}

fn node_with_volumes(id: u32, volumes: Option<Vec<u32>>) -> Node {
    Node {
        object_id: ObjectId::from_raw_id(id),
        props: bag(&[("node.name", "n")]),
        volumes,
        mute: Some(false),
        peaks: None,
        rate: Some(48000),
        positions: None,
    }
}

#[test]
fn upsert_is_idempotent_in_storage() {
    let dir = TempDir::new().unwrap();
    let path = db_path(&dir);

    let (t, h) = DatabaseThread::new(&path).unwrap();
    h.send(DbMessage::UpsertClient(client(100, &[("app", "A")]))).unwrap();
    h.send(DbMessage::UpsertClient(client(100, &[("app", "A")]))).unwrap();
    drop(h);
    run_worker(t);

    let rows = fetch_rows(&path, "SELECT props_json FROM clients", vec![]);
    assert_eq!(rows, vec![vec![Value::Text("{\"app\":\"A\"}".to_string())]]);
}

#[test]
fn upsert_overwrites_every_governed_column() {
    let dir = TempDir::new().unwrap();
    let path = db_path(&dir);

    let (t, h) = DatabaseThread::new(&path).unwrap();
    h.send(DbMessage::UpsertNode(node_with_volumes(5, Some(vec![7, 8])))).unwrap();
    h.send(DbMessage::UpsertNode(node_with_volumes(5, None))).unwrap();
    drop(h);
    run_worker(t);

    // the later value defines no volumes, so the column is null again;
    // absent is distinguishable from an empty list
    let rows = fetch_rows(
        &path,
        "SELECT volumes_json, rate FROM nodes WHERE object_id = ?",
        vec![Value::Integer(5)],
    );
    assert_eq!(rows, vec![vec![Value::Null, Value::Integer(48000)]]);

    let (t, h) = DatabaseThread::new(&path).unwrap();
    h.send(DbMessage::UpsertNode(node_with_volumes(5, Some(vec![])))).unwrap();
    drop(h);
    run_worker(t);
    let rows = fetch_rows(
        &path,
        "SELECT volumes_json FROM nodes WHERE object_id = ?",
        vec![Value::Integer(5)],
    );
    assert_eq!(rows, vec![vec![Value::Text("[]".to_string())]]);
}

fn sample_device(id: u32, desc: &str) -> Device {
    Device {
        object_id: ObjectId::from_raw_id(id),
        props: bag(&[("device.name", "d")]),
        profile_index: Some(0),
        profiles: vec![(
            0,
            Profile {
                description: desc.to_string(),
                available: true,
                classes: vec!["Audio/Device".to_string()],
            },
        )],
        routes: vec![(
            1,
            Route {
                index: 2,
                description: "route".to_string(),
                available: true,
                profiles: vec![0, -1],
                volumes: vec![10, 20],
                mute: false,
            },
        )],
        enum_routes: vec![(
            3,
            EnumRoute {
                description: "enum-route".to_string(),
                available: false,
                profiles: vec![0],
                devices: vec![1, 3],
            },
        )],
    }
}

#[test]
fn device_upsert_writes_all_sub_rows() {
    let dir = TempDir::new().unwrap();
    let path = db_path(&dir);

    let (t, h) = DatabaseThread::new(&path).unwrap();
    h.send(DbMessage::UpsertDevice(sample_device(200, "Analog Stereo"))).unwrap();
    drop(h);
    run_worker(t);

    let rows = fetch_rows(
        &path,
        "SELECT description, classes_json FROM device_profiles WHERE device_id = ? AND profile_index = ?",
        vec![Value::Integer(200), Value::Integer(0)],
    );
    assert_eq!(
        rows,
        vec![vec![
            Value::Text("Analog Stereo".to_string()),
            Value::Text("[\"Audio/Device\"]".to_string()),
        ]],
    );
    let rows = fetch_rows(
        &path,
        "SELECT route_device, profiles_json, volumes_json FROM device_routes WHERE device_id = ? AND route_index = ?",
        vec![Value::Integer(200), Value::Integer(2)],
    );
    assert_eq!(
        rows,
        vec![vec![
            Value::Integer(1),
            Value::Text("[0,-1]".to_string()),
            Value::Text("[10,20]".to_string()),
        ]],
    );
    let rows = fetch_rows(
        &path,
        "SELECT devices_json FROM device_enum_routes WHERE device_id = ? AND enum_route_index = ?",
        vec![Value::Integer(200), Value::Integer(3)],
    );
    assert_eq!(rows, vec![vec![Value::Text("[1,3]".to_string())]]);
}

#[test]
fn device_overwrite_updates_sub_row_in_place() {
    let dir = TempDir::new().unwrap();
    let path = db_path(&dir);

    let (t, h) = DatabaseThread::new(&path).unwrap();
    h.send(DbMessage::UpsertDevice(sample_device(201, "first"))).unwrap();
    h.send(DbMessage::UpsertDevice(sample_device(201, "second"))).unwrap();
    drop(h);
    run_worker(t);

    let rows = fetch_rows(
        &path,
        "SELECT description FROM device_profiles WHERE device_id = ?",
        vec![Value::Integer(201)],
    );
    assert_eq!(rows, vec![vec![Value::Text("second".to_string())]]);
}

#[test]
fn cascade_on_delete_clears_sub_rows() {
    let dir = TempDir::new().unwrap();
    let path = db_path(&dir);

    let (t, h) = DatabaseThread::new(&path).unwrap();
    h.send(DbMessage::UpsertDevice(sample_device(300, "gone"))).unwrap();
    drop(h);
    run_worker(t);

    let (t, h) = DatabaseThread::new(&path).unwrap();
    h.send(DbMessage::RemoveObject(ObjectId::from_raw_id(300))).unwrap();
    drop(h);
    run_worker(t);

    for table in ["devices", "device_profiles", "device_routes", "device_enum_routes"] {
        let sql = format!("SELECT * FROM {table}");
        let rows = fetch_rows(&path, &sql, vec![]);
        assert!(rows.is_empty(), "{table} still holds rows after removal");
    }
}

fn sample_metadata(id: u32) -> Metadata {
    Metadata {
        object_id: ObjectId::from_raw_id(id),
        metadata_name: "default".to_string(),
        properties: vec![
            (1, vec![("k1".to_string(), "a".to_string()), ("k2".to_string(), "b".to_string())]),
            (2, vec![("k3".to_string(), "c".to_string())]),
        ],
    }
}

fn metadata_props(path: &str, id: u32) -> Vec<(i64, String, String)> {
    let rows = fetch_rows(
        path,
        "SELECT subject, key, value FROM metadata_properties WHERE metadata_id = ? ORDER BY subject, key",
        vec![Value::Integer(id as i64)],
    );
    rows.into_iter()
        .map(|r| {
            let subject = match &r[0] {
                Value::Integer(i) => *i,
                other => panic!("unexpected subject value {other:?}"),
            };
            let key = match &r[1] {
                Value::Text(t) => t.clone(),
                other => panic!("unexpected key value {other:?}"),
            };
            let value = match &r[2] {
                Value::Text(t) => t.clone(),
                other => panic!("unexpected value {other:?}"),
            };
            (subject, key, value)
        })
        .collect()
}

#[test]
fn scoped_metadata_deletion() {
    let dir = TempDir::new().unwrap();
    let path = db_path(&dir);

    let (t, h) = DatabaseThread::new(&path).unwrap();
    h.send(DbMessage::UpsertMetadata(sample_metadata(400))).unwrap();
    drop(h);
    run_worker(t);
    assert_eq!(
        metadata_props(&path, 400),
        vec![
            (1, "k1".to_string(), "a".to_string()),
            (1, "k2".to_string(), "b".to_string()),
            (2, "k3".to_string(), "c".to_string()),
        ],
    );

    let (t, h) = DatabaseThread::new(&path).unwrap();
    h.send(DbMessage::RemoveMetadataProperty {
        object_id: ObjectId::from_raw_id(400),
        subject: 1,
        key: "k1".to_string(),
    })
    .unwrap();
    drop(h);
    run_worker(t);
    assert_eq!(
        metadata_props(&path, 400),
        vec![(1, "k2".to_string(), "b".to_string()), (2, "k3".to_string(), "c".to_string())],
    );

    let (t, h) = DatabaseThread::new(&path).unwrap();
    h.send(DbMessage::ClearMetadataProperties {
        object_id: ObjectId::from_raw_id(400),
        subject: 1,
    })
    .unwrap();
    drop(h);
    run_worker(t);
    assert_eq!(metadata_props(&path, 400), vec![(2, "k3".to_string(), "c".to_string())]);
}

#[test]
fn failure_isolation_keeps_worker_alive() {
    let dir = TempDir::new().unwrap();
    let path = db_path(&dir);
    // poison one table before migration: the schema step is idempotent and
    // leaves it as it is, so the client upsert alone must fail
    exec_direct(&path, "CREATE TABLE clients (object_id INTEGER PRIMARY KEY, wrong_column TEXT)");

    let (mut t, h) = DatabaseThread::new(&path).unwrap();
    h.send(DbMessage::UpsertClient(client(42, &[("app", "Test")]))).unwrap();
    h.send(DbMessage::UpsertLink {
        object_id: ObjectId::from_raw_id(4),
        link: Link { output_id: ObjectId::from_raw_id(5), input_id: ObjectId::from_raw_id(6) },
    })
    .unwrap();
    drop(h);
    // the failed mutation is reported to the caller and the worker goes on
    assert!(matches!(t.step(), Some(Err(DbError::Storage(_)))));
    assert!(matches!(t.step(), Some(Ok(()))));
    assert!(t.step().is_none());

    let rows = fetch_rows(
        &path,
        "SELECT output_id, input_id FROM links WHERE object_id = ?",
        vec![Value::Integer(4)],
    );
    assert_eq!(rows, vec![vec![Value::Integer(5), Value::Integer(6)]]);
}

#[test]
fn storage_failure_is_reported_by_the_gateway() {
    let dir = TempDir::new().unwrap();
    let path = db_path(&dir);
    exec_direct(&path, "CREATE TABLE clients (object_id INTEGER PRIMARY KEY, wrong_column TEXT)");

    let mut db = Database::new(&path).unwrap();
    let e = db.upsert_client(&client(1, &[("app", "x")])).unwrap_err();
    assert!(matches!(e, DbError::Storage(_)));
}

#[test]
fn send_after_worker_drop_reports_closed_channel() {
    let (t, h) = DatabaseThread::new(":memory:").unwrap();
    drop(t);
    let e = h.send(DbMessage::Shutdown).unwrap_err();
    assert!(matches!(e, DbError::ChannelClosed));
}

#[test]
fn enqueue_stays_available_under_backlog() {
    let (t, h) = DatabaseThread::new(":memory:").unwrap();
    for i in 0..10_000u32 {
        h.send(DbMessage::UpsertClient(client(i, &[("app", "bulk")]))).unwrap();
    }
    // the worker has not started; a producer can still enqueue at once
    h.send(DbMessage::UpsertClient(client(10_000, &[("app", "late")]))).unwrap();
    drop(h);
    drop(t);
}

#[test]
fn shutdown_is_advisory() {
    let dir = TempDir::new().unwrap();
    let path = db_path(&dir);

    let (t, h) = DatabaseThread::new(&path).unwrap();
    h.send(DbMessage::Shutdown).unwrap();
    h.send(DbMessage::UpsertClient(client(77, &[("app", "after")]))).unwrap();
    drop(h);
    run_worker(t);

    let rows = fetch_rows(
        &path,
        "SELECT props_json FROM clients WHERE object_id = ?",
        vec![Value::Integer(77)],
    );
    assert_eq!(rows, vec![vec![Value::Text("{\"app\":\"after\"}".to_string())]]);
}

#[test]
fn cloned_handles_feed_the_same_worker() {
    let dir = TempDir::new().unwrap();
    let path = db_path(&dir);

    let (t, h1) = DatabaseThread::new(&path).unwrap();
    let h2 = h1.clone();
    h1.send(DbMessage::UpsertClient(client(10, &[("app", "one")]))).unwrap();
    h2.send(DbMessage::UpsertClient(client(11, &[("app", "two")]))).unwrap();
    drop(h1);
    drop(h2);
    run_worker(t);

    let rows = fetch_rows(&path, "SELECT object_id FROM clients ORDER BY object_id", vec![]);
    assert_eq!(rows, vec![vec![Value::Integer(10)], vec![Value::Integer(11)]]);
}

#[test]
fn metadata_header_round_trip() {
    let dir = TempDir::new().unwrap();
    let path = db_path(&dir);

    let (t, h) = DatabaseThread::new(&path).unwrap();
    h.send(DbMessage::UpsertMetadata(sample_metadata(500))).unwrap();
    drop(h);
    run_worker(t);

    let rows = fetch_rows(
        &path,
        "SELECT metadata_name FROM metadata WHERE object_id = ?",
        vec![Value::Integer(500)],
    );
    assert_eq!(rows, vec![vec![Value::Text("default".to_string())]]);
}
