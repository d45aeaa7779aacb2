//! The storage gateway: owns the storage handle, translates typed entity
//! values into keyed insert-or-update statements and explicit deletes, and
//! tracks the stored state it has produced as a ghost [`StoreModel`].
//!
//! Every statement reaches the storage engine through a small trusted
//! wrapper; everything around the calls — parameter encoding, statement
//! sequencing, and the model transitions the contracts promise — is
//! verified.  One correspondence is trusted without a contract, because
//! the engine's SQL semantics are not modelled here: that each fixed
//! statement, run with the parameters built for it, effects on storage
//! exactly the model transition recorded beside the call.  The tests
//! anchor that correspondence by reading rows back from real storage.

use vstd::prelude::*;

use crate::encode::{encode_i32_list, encode_props, encode_string_list, encode_u32_list};
use crate::model::{Client, DbError, Device, Link, Metadata, Node, ObjectId};
use crate::store::{
    client_row, device_partial_m, device_prefix_m, device_row, enum_route_row, link_row,
    lemma_insert_all_concat, lemma_meta_entries_step, lemma_remove_upto_full, meta_entries,
    meta_prefix_m, meta_partial_m, node_row, profile_row, remove_metadata_property_m,
    clear_metadata_properties_m, remove_object_m, remove_upto_m, route_row, subject_entries,
    upsert_client_m, upsert_device_m, upsert_link_m, upsert_metadata_header_m,
    upsert_metadata_m, upsert_node_m,
    StoreModel,
};

verus! {

#[verifier::external_type_specification]
#[verifier::external_body]
pub struct ExTursoConnection(turso::Connection);

/// One positional SQL parameter.
#[derive(Debug)]
pub enum Arg {
    Null,
    Int(i64),
    Text(String),
}

/// The mathematical value of one parameter.
pub ghost enum ArgV {
    Null,
    Int(int),
    Text(Seq<char>),
}

impl View for Arg {
    type V = ArgV;

    open spec fn view(&self) -> ArgV {
        match self {
            Arg::Null => ArgV::Null,
            Arg::Int(i) => ArgV::Int(*i as int),
            Arg::Text(s) => ArgV::Text(s@),
        }
    }
}

pub open spec fn args_view(s: Seq<Arg>) -> Seq<ArgV> {
    s.map_values(|a: Arg| a@)
}

pub open spec fn opt_text_arg(o: Option<Seq<char>>) -> ArgV {
    match o {
        Some(t) => ArgV::Text(t),
        None => ArgV::Null,
    }
}

pub open spec fn bool_arg(b: bool) -> ArgV {
    ArgV::Int(
        if b {
            1
        } else {
            0
        },
    )
}

pub open spec fn opt_bool_arg(o: Option<bool>) -> ArgV {
    match o {
        Some(b) => bool_arg(b),
        None => ArgV::Null,
    }
}

pub open spec fn opt_u32_arg(o: Option<u32>) -> ArgV {
    match o {
        Some(x) => ArgV::Int(x as int),
        None => ArgV::Null,
    }
}

pub open spec fn opt_i32_arg(o: Option<int>) -> ArgV {
    match o {
        Some(x) => ArgV::Int(x),
        None => ArgV::Null,
    }
}

// ---------------------------------------------------------------------------
// Trusted calls into the storage engine
// ---------------------------------------------------------------------------

/// Relies on `turso::Builder::new_local`, `turso::Builder::build` and
/// `turso::Database::connect`: opens or creates the local storage target
/// named by `path` (":memory:" names a fresh in-memory instance) and hands
/// back the process's single connection to it.
#[verifier::external_body]
fn open_connection(path: &str) -> (r: Result<turso::Connection, DbError>) {
    let opened = futures::executor::block_on(turso::Builder::new_local(path).build());
    match opened.and_then(|db| db.connect()) {
        Ok(c) => Ok(c),
        Err(e) => Err(DbError::Storage(format!("{e}"))),
    }
}

/// Relies on `turso::Connection::execute`: runs one SQL statement with the
/// given positional parameters and returns the count of changed rows.
#[verifier::external_body]
fn exec_stmt(conn: &turso::Connection, sql: &str, args: Vec<Arg>) -> (r: Result<u64, DbError>) {
    let mut vals: Vec<turso::Value> = Vec::with_capacity(args.len());
    for a in args {
        vals.push(match a {
            Arg::Null => turso::Value::Null,
            Arg::Int(i) => turso::Value::Integer(i),
            Arg::Text(t) => turso::Value::Text(t),
        });
    }
    match futures::executor::block_on(conn.execute(sql, vals)) {
        Ok(n) => Ok(n),
        Err(e) => Err(DbError::Storage(format!("{e}"))),
    }
}

// ---------------------------------------------------------------------------
// Parameter encoding
// ---------------------------------------------------------------------------

pub open spec fn client_args_spec(c: Client) -> Seq<ArgV> {
    seq![ArgV::Int(c.object_id.raw as int), ArgV::Text(client_row(c))]
}

/// The parameters of the client upsert, in statement order.
pub fn client_args(c: &Client) -> (r: Vec<Arg>)
    ensures
        args_view(r@) == client_args_spec(*c),
{
    let mut v: Vec<Arg> = Vec::new();
    v.push(Arg::Int(c.object_id.raw as i64));
    v.push(Arg::Text(encode_props(&c.props)));
    proof {
        assert(args_view(v@) =~= client_args_spec(*c));
    }
    v
}

pub open spec fn node_args_spec(n: Node) -> Seq<ArgV> {
    let row = node_row(n);
    seq![
        ArgV::Int(n.object_id.raw as int),
        ArgV::Text(row.props),
        opt_text_arg(row.volumes),
        opt_bool_arg(row.mute),
        opt_text_arg(row.peaks),
        opt_u32_arg(row.rate),
        opt_text_arg(row.positions),
    ]
}

/// The parameters of the node upsert, in statement order; an absent
/// optional field becomes a null parameter.
pub fn node_args(n: &Node) -> (r: Vec<Arg>)
    ensures
        args_view(r@) == node_args_spec(*n),
{
    let mut v: Vec<Arg> = Vec::new();
    v.push(Arg::Int(n.object_id.raw as i64));
    v.push(Arg::Text(encode_props(&n.props)));
    match &n.volumes {
        Some(x) => v.push(Arg::Text(encode_u32_list(x))),
        None => v.push(Arg::Null),
    }
    match n.mute {
        Some(b) => v.push(
            Arg::Int(
                if b {
                    1
                } else {
                    0
                },
            ),
        ),
        None => v.push(Arg::Null),
    }
    match &n.peaks {
        Some(x) => v.push(Arg::Text(encode_u32_list(x))),
        None => v.push(Arg::Null),
    }
    match n.rate {
        Some(x) => v.push(Arg::Int(x as i64)),
        None => v.push(Arg::Null),
    }
    match &n.positions {
        Some(x) => v.push(Arg::Text(encode_string_list(x))),
        None => v.push(Arg::Null),
    }
    proof {
        assert(args_view(v@) =~= node_args_spec(*n));
    }
    v
}

pub open spec fn device_args_spec(d: Device) -> Seq<ArgV> {
    let row = device_row(d);
    seq![ArgV::Int(d.object_id.raw as int), ArgV::Text(row.props), opt_i32_arg(row.profile_index)]
}

/// The parameters of the device-row upsert, in statement order.
pub fn device_args(d: &Device) -> (r: Vec<Arg>)
    ensures
        args_view(r@) == device_args_spec(*d),
{
    let mut v: Vec<Arg> = Vec::new();
    v.push(Arg::Int(d.object_id.raw as i64));
    v.push(Arg::Text(encode_props(&d.props)));
    match d.profile_index {
        Some(i) => v.push(Arg::Int(i as i64)),
        None => v.push(Arg::Null),
    }
    proof {
        assert(args_view(v@) =~= device_args_spec(*d));
    }
    v
}

pub open spec fn profile_args_spec(id: ObjectId, index: i32, p: crate::model::Profile) -> Seq<
    ArgV,
> {
    let row = profile_row(p);
    seq![
        ArgV::Int(id.raw as int),
        ArgV::Int(index as int),
        ArgV::Text(row.description),
        bool_arg(row.available),
        ArgV::Text(row.classes),
    ]
}

/// The parameters of one profile sub-row upsert.
pub fn profile_args(id: ObjectId, index: i32, p: &crate::model::Profile) -> (r: Vec<Arg>)
    ensures
        args_view(r@) == profile_args_spec(id, index, *p),
{
    let mut v: Vec<Arg> = Vec::new();
    v.push(Arg::Int(id.raw as i64));
    v.push(Arg::Int(index as i64));
    v.push(Arg::Text(p.description.clone()));
    v.push(
        Arg::Int(
            if p.available {
                1
            } else {
                0
            },
        ),
    );
    v.push(Arg::Text(encode_string_list(&p.classes)));
    proof {
        assert(args_view(v@) =~= profile_args_spec(id, index, *p));
    }
    v
}

pub open spec fn route_args_spec(id: ObjectId, route_device: i32, rt: crate::model::Route) -> Seq<
    ArgV,
> {
    let row = route_row(route_device, rt);
    seq![
        ArgV::Int(id.raw as int),
        ArgV::Int(rt.index as int),
        ArgV::Int(row.route_device),
        ArgV::Text(row.profiles),
        ArgV::Text(row.description),
        bool_arg(row.available),
        ArgV::Text(row.volumes),
        bool_arg(row.mute),
    ]
}

/// The parameters of one route sub-row upsert.
pub fn route_args(id: ObjectId, route_device: i32, rt: &crate::model::Route) -> (r: Vec<Arg>)
    ensures
        args_view(r@) == route_args_spec(id, route_device, *rt),
{
    let mut v: Vec<Arg> = Vec::new();
    v.push(Arg::Int(id.raw as i64));
    v.push(Arg::Int(rt.index as i64));
    v.push(Arg::Int(route_device as i64));
    v.push(Arg::Text(encode_i32_list(&rt.profiles)));
    v.push(Arg::Text(rt.description.clone()));
    v.push(
        Arg::Int(
            if rt.available {
                1
            } else {
                0
            },
        ),
    );
    v.push(Arg::Text(encode_u32_list(&rt.volumes)));
    v.push(
        Arg::Int(
            if rt.mute {
                1
            } else {
                0
            },
        ),
    );
    proof {
        assert(args_view(v@) =~= route_args_spec(id, route_device, *rt));
    }
    v
}

pub open spec fn enum_route_args_spec(id: ObjectId, index: i32, e: crate::model::EnumRoute) -> Seq<
    ArgV,
> {
    let row = enum_route_row(e);
    seq![
        ArgV::Int(id.raw as int),
        ArgV::Int(index as int),
        ArgV::Text(row.description),
        bool_arg(row.available),
        ArgV::Text(row.profiles),
        ArgV::Text(row.devices),
    ]
}

/// The parameters of one enumerated-route sub-row upsert.
pub fn enum_route_args(id: ObjectId, index: i32, e: &crate::model::EnumRoute) -> (r: Vec<Arg>)
    ensures
        args_view(r@) == enum_route_args_spec(id, index, *e),
{
    let mut v: Vec<Arg> = Vec::new();
    v.push(Arg::Int(id.raw as i64));
    v.push(Arg::Int(index as i64));
    v.push(Arg::Text(e.description.clone()));
    v.push(
        Arg::Int(
            if e.available {
                1
            } else {
                0
            },
        ),
    );
    v.push(Arg::Text(encode_i32_list(&e.profiles)));
    v.push(Arg::Text(encode_i32_list(&e.devices)));
    proof {
        assert(args_view(v@) =~= enum_route_args_spec(id, index, *e));
    }
    v
}

pub open spec fn link_args_spec(id: ObjectId, l: Link) -> Seq<ArgV> {
    let row = link_row(l);
    seq![ArgV::Int(id.raw as int), ArgV::Int(row.output as int), ArgV::Int(row.input as int)]
}

/// The parameters of the link upsert, in statement order.
pub fn link_args(id: ObjectId, l: &Link) -> (r: Vec<Arg>)
    ensures
        args_view(r@) == link_args_spec(id, *l),
{
    let mut v: Vec<Arg> = Vec::new();
    v.push(Arg::Int(id.raw as i64));
    v.push(Arg::Int(l.output_id.raw as i64));
    v.push(Arg::Int(l.input_id.raw as i64));
    proof {
        assert(args_view(v@) =~= link_args_spec(id, *l));
    }
    v
}

pub open spec fn metadata_args_spec(md: Metadata) -> Seq<ArgV> {
    seq![ArgV::Int(md.object_id.raw as int), ArgV::Text(md.metadata_name@)]
}

/// The parameters of the metadata-header upsert.
pub fn metadata_args(md: &Metadata) -> (r: Vec<Arg>)
    ensures
        args_view(r@) == metadata_args_spec(*md),
{
    let mut v: Vec<Arg> = Vec::new();
    v.push(Arg::Int(md.object_id.raw as i64));
    v.push(Arg::Text(md.metadata_name.clone()));
    proof {
        assert(args_view(v@) =~= metadata_args_spec(*md));
    }
    v
}

pub open spec fn meta_prop_args_spec(id: u32, subject: u32, key: Seq<char>, value: Seq<char>) -> Seq<
    ArgV,
> {
    seq![ArgV::Int(id as int), ArgV::Int(subject as int), ArgV::Text(key), ArgV::Text(value)]
}

/// The parameters of one metadata property-row upsert.
pub fn meta_prop_args(id: u32, subject: u32, key: &String, value: &String) -> (r: Vec<Arg>)
    ensures
        args_view(r@) == meta_prop_args_spec(id, subject, key@, value@),
{
    let mut v: Vec<Arg> = Vec::new();
    v.push(Arg::Int(id as i64));
    v.push(Arg::Int(subject as i64));
    v.push(Arg::Text(key.clone()));
    v.push(Arg::Text(value.clone()));
    proof {
        assert(args_view(v@) =~= meta_prop_args_spec(id, subject, key@, value@));
    }
    v
}

/// The single identifying parameter of a keyed delete.
pub fn id_args(id: u32) -> (r: Vec<Arg>)
    ensures
        args_view(r@) == seq![ArgV::Int(id as int)],
{
    let mut v: Vec<Arg> = Vec::new();
    v.push(Arg::Int(id as i64));
    proof {
        assert(args_view(v@) =~= seq![ArgV::Int(id as int)]);
    }
    v
}

// ---------------------------------------------------------------------------
// The gateway
// ---------------------------------------------------------------------------

/// The storage gateway.  It owns the storage handle for the process
/// lifetime; `self@` is the stored state produced so far, starting from the
/// freshly migrated empty state.
pub struct Database {
    conn: turso::Connection,
    state: Ghost<StoreModel>,
}

impl View for Database {
    type V = StoreModel;

    closed spec fn view(&self) -> StoreModel {
        self.state@
    }
}

impl Database {
    /// Open (or create) the storage target and apply the schema.  Schema
    /// application is the one fatal-at-startup condition: any failure here
    /// is surfaced and no gateway is handed out.
    pub fn new(database_url: &str) -> (r: Result<Database, DbError>)
        ensures
            r matches Ok(d) ==> d@ == StoreModel::init(),
    {
        let conn = match open_connection(database_url) {
            Ok(c) => c,
            Err(e) => return Err(e),
        };
        match Self::run_migrations(&conn) {
            Ok(()) => {},
            Err(e) => return Err(e),
        }
        Ok(Database { conn, state: Ghost(StoreModel::init()) })
    }

    /// Apply the fixed forward-only schema, one statement at a time; every
    /// statement is idempotent, so a later construction over the same
    /// target leaves the schema as it is.
    fn run_migrations(conn: &turso::Connection) -> (r: Result<(), DbError>) {
        let stmts: [&str; 9] = [
            "CREATE TABLE IF NOT EXISTS clients (object_id INTEGER PRIMARY KEY, props_json TEXT NOT NULL, updated_at TEXT NOT NULL)",
            "CREATE TABLE IF NOT EXISTS nodes (object_id INTEGER PRIMARY KEY, props_json TEXT NOT NULL, volumes_json TEXT, mute INTEGER, peaks_json TEXT, rate INTEGER, positions_json TEXT, updated_at TEXT NOT NULL)",
            "CREATE TABLE IF NOT EXISTS devices (object_id INTEGER PRIMARY KEY, props_json TEXT NOT NULL, profile_index INTEGER, updated_at TEXT NOT NULL)",
            "CREATE TABLE IF NOT EXISTS device_profiles (device_id INTEGER NOT NULL, profile_index INTEGER NOT NULL, description TEXT NOT NULL, available INTEGER NOT NULL, classes_json TEXT NOT NULL, PRIMARY KEY (device_id, profile_index))",
            "CREATE TABLE IF NOT EXISTS device_routes (device_id INTEGER NOT NULL, route_index INTEGER NOT NULL, route_device INTEGER NOT NULL, profiles_json TEXT NOT NULL, description TEXT NOT NULL, available INTEGER NOT NULL, volumes_json TEXT NOT NULL, mute INTEGER NOT NULL, PRIMARY KEY (device_id, route_index))",
            "CREATE TABLE IF NOT EXISTS device_enum_routes (device_id INTEGER NOT NULL, enum_route_index INTEGER NOT NULL, description TEXT NOT NULL, available INTEGER NOT NULL, profiles_json TEXT NOT NULL, devices_json TEXT NOT NULL, PRIMARY KEY (device_id, enum_route_index))",
            "CREATE TABLE IF NOT EXISTS links (object_id INTEGER PRIMARY KEY, output_id INTEGER NOT NULL, input_id INTEGER NOT NULL, updated_at TEXT NOT NULL)",
            "CREATE TABLE IF NOT EXISTS metadata (object_id INTEGER PRIMARY KEY, metadata_name TEXT NOT NULL, updated_at TEXT NOT NULL)",
            "CREATE TABLE IF NOT EXISTS metadata_properties (metadata_id INTEGER NOT NULL, subject INTEGER NOT NULL, key TEXT NOT NULL, value TEXT NOT NULL, PRIMARY KEY (metadata_id, subject, key))",
        ];
        let mut i: usize = 0;
        while i < 9
            invariant
                i <= 9,
            decreases 9 - i,
        {
            match exec_stmt(conn, stmts[i], Vec::new()) {
                Ok(_) => {},
                Err(e) => return Err(e),
            }
            i += 1;
        }
        Ok(())
    }

    /// Insert or update a client, keyed by its object id.
    pub fn upsert_client(&mut self, client: &Client) -> (r: Result<(), DbError>)
        ensures
            r is Ok ==> final(self)@ == upsert_client_m(old(self)@, *client),
            r is Err ==> final(self)@ == old(self)@,
    {
        let ghost m0 = self.state@;
        let args = client_args(client);
        match exec_stmt(
            &self.conn,
            "INSERT INTO clients (object_id, props_json, updated_at) VALUES (?, ?, CURRENT_TIMESTAMP) ON CONFLICT(object_id) DO UPDATE SET props_json = excluded.props_json, updated_at = CURRENT_TIMESTAMP",
            args,
        ) {
            Ok(_) => {
                self.state = Ghost(upsert_client_m(m0, *client));
                Ok(())
            },
            Err(e) => Err(e),
        }
    }

    /// Insert or update a node, keyed by its object id; every column of the
    /// row is overwritten, absent optional fields with null.
    pub fn upsert_node(&mut self, node: &Node) -> (r: Result<(), DbError>)
        ensures
            r is Ok ==> final(self)@ == upsert_node_m(old(self)@, *node),
            r is Err ==> final(self)@ == old(self)@,
    {
        let ghost m0 = self.state@;
        let args = node_args(node);
        match exec_stmt(
            &self.conn,
            "INSERT INTO nodes (object_id, props_json, volumes_json, mute, peaks_json, rate, positions_json, updated_at) VALUES (?, ?, ?, ?, ?, ?, ?, CURRENT_TIMESTAMP) ON CONFLICT(object_id) DO UPDATE SET props_json = excluded.props_json, volumes_json = excluded.volumes_json, mute = excluded.mute, peaks_json = excluded.peaks_json, rate = excluded.rate, positions_json = excluded.positions_json, updated_at = CURRENT_TIMESTAMP",
            args,
        ) {
            Ok(_) => {
                self.state = Ghost(upsert_node_m(m0, *node));
                Ok(())
            },
            Err(e) => Err(e),
        }
    }

    /// Insert or update a device and each of its owned sub-rows.  The
    /// sequence is not atomic: on failure the device row and a prefix of
    /// the sub-rows may already be updated, each of them idempotently
    /// re-appliable by the next full upsert of the same device.
    #[verifier::loop_isolation(false)]
    pub fn upsert_device(&mut self, device: &Device) -> (r: Result<(), DbError>)
        ensures
            r is Ok ==> final(self)@ == upsert_device_m(old(self)@, *device),
            r is Err ==> device_partial_m(old(self)@, *device, final(self)@),
    {
        let ghost m0 = old(self)@;
        let args = device_args(device);
        match exec_stmt(
            &self.conn,
            "INSERT INTO devices (object_id, props_json, profile_index, updated_at) VALUES (?, ?, ?, CURRENT_TIMESTAMP) ON CONFLICT(object_id) DO UPDATE SET props_json = excluded.props_json, profile_index = excluded.profile_index, updated_at = CURRENT_TIMESTAMP",
            args,
        ) {
            Ok(_) => {},
            Err(e) => return Err(e),
        }
        self.state = Ghost(device_prefix_m(m0, *device, 0, 0, 0));
        let mut i: usize = 0;
        while i < device.profiles.len()
            invariant
                i <= device.profiles@.len(),
                self@ == device_prefix_m(m0, *device, i as int, 0, 0),
            decreases device.profiles@.len() - i,
        {
            let args = profile_args(device.object_id, device.profiles[i].0, &device.profiles[i].1);
            match exec_stmt(
                &self.conn,
                "INSERT INTO device_profiles (device_id, profile_index, description, available, classes_json) VALUES (?, ?, ?, ?, ?) ON CONFLICT(device_id, profile_index) DO UPDATE SET description = excluded.description, available = excluded.available, classes_json = excluded.classes_json",
                args,
            ) {
                Ok(_) => {},
                Err(e) => {
                    proof {
                        assert(device_partial_m(m0, *device, self@));
                    }
                    return Err(e);
                },
            }
            self.state = Ghost(device_prefix_m(m0, *device, i as int + 1, 0, 0));
            i += 1;
        }
        let mut i: usize = 0;
        while i < device.routes.len()
            invariant
                i <= device.routes@.len(),
                self@ == device_prefix_m(
                    m0,
                    *device,
                    device.profiles@.len() as int,
                    i as int,
                    0,
                ),
            decreases device.routes@.len() - i,
        {
            let args = route_args(device.object_id, device.routes[i].0, &device.routes[i].1);
            match exec_stmt(
                &self.conn,
                "INSERT INTO device_routes (device_id, route_index, route_device, profiles_json, description, available, volumes_json, mute) VALUES (?, ?, ?, ?, ?, ?, ?, ?) ON CONFLICT(device_id, route_index) DO UPDATE SET route_device = excluded.route_device, profiles_json = excluded.profiles_json, description = excluded.description, available = excluded.available, volumes_json = excluded.volumes_json, mute = excluded.mute",
                args,
            ) {
                Ok(_) => {},
                Err(e) => {
                    proof {
                        assert(device_partial_m(m0, *device, self@));
                    }
                    return Err(e);
                },
            }
            self.state = Ghost(
                device_prefix_m(m0, *device, device.profiles@.len() as int, i as int + 1, 0),
            );
            i += 1;
        }
        let mut i: usize = 0;
        while i < device.enum_routes.len()
            invariant
                i <= device.enum_routes@.len(),
                self@ == device_prefix_m(
                    m0,
                    *device,
                    device.profiles@.len() as int,
                    device.routes@.len() as int,
                    i as int,
                ),
            decreases device.enum_routes@.len() - i,
        {
            let args = enum_route_args(
                device.object_id,
                device.enum_routes[i].0,
                &device.enum_routes[i].1,
            );
            match exec_stmt(
                &self.conn,
                "INSERT INTO device_enum_routes (device_id, enum_route_index, description, available, profiles_json, devices_json) VALUES (?, ?, ?, ?, ?, ?) ON CONFLICT(device_id, enum_route_index) DO UPDATE SET description = excluded.description, available = excluded.available, profiles_json = excluded.profiles_json, devices_json = excluded.devices_json",
                args,
            ) {
                Ok(_) => {},
                Err(e) => {
                    proof {
                        assert(device_partial_m(m0, *device, self@));
                    }
                    return Err(e);
                },
            }
            self.state = Ghost(
                device_prefix_m(
                    m0,
                    *device,
                    device.profiles@.len() as int,
                    device.routes@.len() as int,
                    i as int + 1,
                ),
            );
            i += 1;
        }
        Ok(())
    }

    /// Insert or update a link, keyed by its object id.
    pub fn upsert_link(&mut self, object_id: ObjectId, link: &Link) -> (r: Result<(), DbError>)
        ensures
            r is Ok ==> final(self)@ == upsert_link_m(old(self)@, object_id, *link),
            r is Err ==> final(self)@ == old(self)@,
    {
        let ghost m0 = self.state@;
        let args = link_args(object_id, link);
        match exec_stmt(
            &self.conn,
            "INSERT INTO links (object_id, output_id, input_id, updated_at) VALUES (?, ?, ?, CURRENT_TIMESTAMP) ON CONFLICT(object_id) DO UPDATE SET output_id = excluded.output_id, input_id = excluded.input_id, updated_at = CURRENT_TIMESTAMP",
            args,
        ) {
            Ok(_) => {
                self.state = Ghost(upsert_link_m(m0, object_id, *link));
                Ok(())
            },
            Err(e) => Err(e),
        }
    }

    /// Insert or update a metadata header and one property row per
    /// (subject, key) pair it carries.  Like the device upsert, the
    /// sequence is not atomic; each row is independently idempotent.
    #[verifier::loop_isolation(false)]
    pub fn upsert_metadata(&mut self, metadata: &Metadata) -> (r: Result<(), DbError>)
        ensures
            r is Ok ==> final(self)@ == upsert_metadata_m(old(self)@, *metadata),
            r is Err ==> meta_partial_m(old(self)@, *metadata, final(self)@),
    {
        let ghost m0 = old(self)@;
        let ghost id = metadata.object_id.raw;
        let args = metadata_args(metadata);
        match exec_stmt(
            &self.conn,
            "INSERT INTO metadata (object_id, metadata_name, updated_at) VALUES (?, ?, CURRENT_TIMESTAMP) ON CONFLICT(object_id) DO UPDATE SET metadata_name = excluded.metadata_name, updated_at = CURRENT_TIMESTAMP",
            args,
        ) {
            Ok(_) => {},
            Err(e) => return Err(e),
        }
        self.state = Ghost(meta_prefix_m(m0, *metadata, 0, 0));
        proof {
            assert(meta_entries(id, metadata.properties@.take(0)) =~= Seq::<
                (crate::store::MetaPropKey, Seq<char>),
            >::empty());
        }
        let mut si: usize = 0;
        while si < metadata.properties.len()
            invariant
                si <= metadata.properties@.len(),
                id == metadata.object_id.raw,
                self@ == meta_prefix_m(m0, *metadata, si as int, 0),
            decreases metadata.properties@.len() - si,
        {
            let subject = metadata.properties[si].0;
            let mut j: usize = 0;
            while j < metadata.properties[si].1.len()
                invariant
                    si < metadata.properties@.len(),
                    j <= metadata.properties@[si as int].1@.len(),
                    subject == metadata.properties@[si as int].0,
                    id == metadata.object_id.raw,
                    self@ == meta_prefix_m(m0, *metadata, si as int, j as int),
                decreases metadata.properties@[si as int].1@.len() - j,
            {
                let args = meta_prop_args(
                    metadata.object_id.raw,
                    subject,
                    &metadata.properties[si].1[j].0,
                    &metadata.properties[si].1[j].1,
                );
                match exec_stmt(
                    &self.conn,
                    "INSERT INTO metadata_properties (metadata_id, subject, key, value) VALUES (?, ?, ?, ?) ON CONFLICT(metadata_id, subject, key) DO UPDATE SET value = excluded.value",
                    args,
                ) {
                    Ok(_) => {},
                    Err(e) => {
                        proof {
                            assert(meta_partial_m(m0, *metadata, self@));
                        }
                        return Err(e);
                    },
                }
                self.state = Ghost(meta_prefix_m(m0, *metadata, si as int, j as int + 1));
                j += 1;
            }
            proof {
                lemma_meta_entries_step(id, metadata.properties@, si as int);
                lemma_insert_all_concat(
                    upsert_metadata_header_m(m0, *metadata).metadata_properties,
                    meta_entries(id, metadata.properties@.take(si as int)),
                    subject_entries(
                        id,
                        metadata.properties@[si as int].0,
                        metadata.properties@[si as int].1@,
                    ),
                );
                assert(subject_entries(
                    id,
                    metadata.properties@[si as int].0,
                    metadata.properties@[si as int].1@,
                ).take(metadata.properties@[si as int].1@.len() as int) =~= subject_entries(
                    id,
                    metadata.properties@[si as int].0,
                    metadata.properties@[si as int].1@,
                ));
                assert(meta_prefix_m(m0, *metadata, si as int, metadata.properties@[si as int].1@.len() as int)
                    =~= meta_prefix_m(m0, *metadata, si as int + 1, 0));
            }
            self.state = Ghost(meta_prefix_m(m0, *metadata, si as int + 1, 0));
            si += 1;
        }
        Ok(())
    }

    /// Remove one metadata property row; sibling keys under the same
    /// subject are untouched.
    pub fn remove_metadata_property(
        &mut self,
        object_id: ObjectId,
        subject: u32,
        key: &String,
    ) -> (r: Result<(), DbError>)
        ensures
            r is Ok ==> final(self)@ == remove_metadata_property_m(
                old(self)@,
                object_id.raw,
                subject,
                key@,
            ),
            r is Err ==> final(self)@ == old(self)@,
    {
        let ghost m0 = self.state@;
        let mut args: Vec<Arg> = Vec::new();
        args.push(Arg::Int(object_id.raw as i64));
        args.push(Arg::Int(subject as i64));
        args.push(Arg::Text(key.clone()));
        match exec_stmt(
            &self.conn,
            "DELETE FROM metadata_properties WHERE metadata_id = ? AND subject = ? AND key = ?",
            args,
        ) {
            Ok(_) => {
                self.state = Ghost(
                    remove_metadata_property_m(m0, object_id.raw, subject, key@),
                );
                Ok(())
            },
            Err(e) => Err(e),
        }
    }

    /// Remove every property row of one subject of one metadata object;
    /// other subjects are untouched.
    pub fn clear_metadata_properties(&mut self, object_id: ObjectId, subject: u32) -> (r: Result<
        (),
        DbError,
    >)
        ensures
            r is Ok ==> final(self)@ == clear_metadata_properties_m(
                old(self)@,
                object_id.raw,
                subject,
            ),
            r is Err ==> final(self)@ == old(self)@,
    {
        let ghost m0 = self.state@;
        let mut args: Vec<Arg> = Vec::new();
        args.push(Arg::Int(object_id.raw as i64));
        args.push(Arg::Int(subject as i64));
        match exec_stmt(
            &self.conn,
            "DELETE FROM metadata_properties WHERE metadata_id = ? AND subject = ?",
            args,
        ) {
            Ok(_) => {
                self.state = Ghost(clear_metadata_properties_m(m0, object_id.raw, subject));
                Ok(())
            },
            Err(e) => Err(e),
        }
    }

    /// Remove an object from every table it may live in, sub-collection
    /// rows and metadata property rows included.  Deletes that match no
    /// row succeed and change nothing; a true storage failure is surfaced,
    /// leaving the deletions already made in place.
    #[verifier::loop_isolation(false)]
    pub fn remove_object(&mut self, object_id: ObjectId) -> (r: Result<(), DbError>)
        ensures
            r is Ok ==> final(self)@ == remove_object_m(old(self)@, object_id.raw),
            r is Err ==> exists|k: int|
                0 <= k <= 9 && final(self)@ == remove_upto_m(old(self)@, object_id.raw, k),
    {
        let ghost m0 = old(self)@;
        let ghost id = object_id.raw;
        let stmts: [&str; 9] = [
            "DELETE FROM clients WHERE object_id = ?",
            "DELETE FROM nodes WHERE object_id = ?",
            "DELETE FROM devices WHERE object_id = ?",
            "DELETE FROM device_profiles WHERE device_id = ?",
            "DELETE FROM device_routes WHERE device_id = ?",
            "DELETE FROM device_enum_routes WHERE device_id = ?",
            "DELETE FROM links WHERE object_id = ?",
            "DELETE FROM metadata WHERE object_id = ?",
            "DELETE FROM metadata_properties WHERE metadata_id = ?",
        ];
        let mut k: usize = 0;
        while k < 9
            invariant
                k <= 9,
                id == object_id.raw,
                self@ == remove_upto_m(m0, id, k as int),
            decreases 9 - k,
        {
            match exec_stmt(&self.conn, stmts[k], id_args(object_id.raw)) {
                Ok(_) => {},
                Err(e) => {
                    proof {
                        assert(self@ == remove_upto_m(old(self)@, object_id.raw, k as int));
                    }
                    return Err(e);
                },
            }
            self.state = Ghost(remove_upto_m(m0, id, k as int + 1));
            k += 1;
        }
        proof {
            lemma_remove_upto_full(m0, id);
        }
        Ok(())
    }
}

} // verus!
