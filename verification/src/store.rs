//! The mathematical model of the stored mirror state.
//!
//! Each storage table is a map from its natural (or composite) key to the
//! column values of one row, with collection columns held in their stored
//! textual encoding.  Every mutation message denotes a transition on this
//! model; the gateway's contracts say that a successful operation performs
//! exactly that transition.

use vstd::prelude::*;

use crate::encode::{
    ints_of_i32s, ints_of_u32s, json_int_list, json_str_list, props_json, views_of_strings,
};
use crate::model::{Client, Device, DbMessage, EnumRoute, Link, Metadata, Node, ObjectId, Profile,
    Route};

verus! {

#[verifier::ext_equal]
pub ghost struct NodeRow {
    pub props: Seq<char>,
    pub volumes: Option<Seq<char>>,
    pub mute: Option<bool>,
    pub peaks: Option<Seq<char>>,
    pub rate: Option<u32>,
    pub positions: Option<Seq<char>>,
}

#[verifier::ext_equal]
pub ghost struct DeviceRow {
    pub props: Seq<char>,
    pub profile_index: Option<int>,
}

#[verifier::ext_equal]
pub ghost struct ProfileRow {
    pub description: Seq<char>,
    pub available: bool,
    pub classes: Seq<char>,
}

#[verifier::ext_equal]
pub ghost struct RouteRow {
    pub route_device: int,
    pub profiles: Seq<char>,
    pub description: Seq<char>,
    pub available: bool,
    pub volumes: Seq<char>,
    pub mute: bool,
}

#[verifier::ext_equal]
pub ghost struct EnumRouteRow {
    pub description: Seq<char>,
    pub available: bool,
    pub profiles: Seq<char>,
    pub devices: Seq<char>,
}

#[verifier::ext_equal]
pub ghost struct LinkRow {
    pub output: u32,
    pub input: u32,
}

/// Composite key of one metadata property row.
#[verifier::ext_equal]
pub ghost struct MetaPropKey {
    pub id: u32,
    pub subject: u32,
    pub key: Seq<char>,
}

/// The whole stored state: one map per table.
#[verifier::ext_equal]
pub ghost struct StoreModel {
    pub clients: Map<u32, Seq<char>>,
    pub nodes: Map<u32, NodeRow>,
    pub devices: Map<u32, DeviceRow>,
    pub device_profiles: Map<(u32, int), ProfileRow>,
    pub device_routes: Map<(u32, int), RouteRow>,
    pub device_enum_routes: Map<(u32, int), EnumRouteRow>,
    pub links: Map<u32, LinkRow>,
    pub metadata: Map<u32, Seq<char>>,
    pub metadata_properties: Map<MetaPropKey, Seq<char>>,
}

impl StoreModel {
    /// The state of a freshly migrated, empty storage target.
    pub open spec fn init() -> StoreModel {
        StoreModel {
            clients: Map::empty(),
            nodes: Map::empty(),
            devices: Map::empty(),
            device_profiles: Map::empty(),
            device_routes: Map::empty(),
            device_enum_routes: Map::empty(),
            links: Map::empty(),
            metadata: Map::empty(),
            metadata_properties: Map::empty(),
        }
    }
}

// ---------------------------------------------------------------------------
// Row encodings
// ---------------------------------------------------------------------------

pub open spec fn client_row(c: Client) -> Seq<char> {
    props_json(c.props@)
}

pub open spec fn node_row(n: Node) -> NodeRow {
    NodeRow {
        props: props_json(n.props@),
        volumes: match n.volumes {
            Some(v) => Some(json_int_list(ints_of_u32s(v@))),
            None => None,
        },
        mute: n.mute,
        peaks: match n.peaks {
            Some(v) => Some(json_int_list(ints_of_u32s(v@))),
            None => None,
        },
        rate: n.rate,
        positions: match n.positions {
            Some(v) => Some(json_str_list(views_of_strings(v@))),
            None => None,
        },
    }
}

pub open spec fn device_row(d: Device) -> DeviceRow {
    DeviceRow {
        props: props_json(d.props@),
        profile_index: match d.profile_index {
            Some(i) => Some(i as int),
            None => None,
        },
    }
}

pub open spec fn profile_row(p: Profile) -> ProfileRow {
    ProfileRow {
        description: p.description@,
        available: p.available,
        classes: json_str_list(views_of_strings(p.classes@)),
    }
}

pub open spec fn route_row(route_device: i32, r: Route) -> RouteRow {
    RouteRow {
        route_device: route_device as int,
        profiles: json_int_list(ints_of_i32s(r.profiles@)),
        description: r.description@,
        available: r.available,
        volumes: json_int_list(ints_of_u32s(r.volumes@)),
        mute: r.mute,
    }
}

pub open spec fn enum_route_row(e: EnumRoute) -> EnumRouteRow {
    EnumRouteRow {
        description: e.description@,
        available: e.available,
        profiles: json_int_list(ints_of_i32s(e.profiles@)),
        devices: json_int_list(ints_of_i32s(e.devices@)),
    }
}

pub open spec fn link_row(l: Link) -> LinkRow {
    LinkRow { output: l.output_id.raw, input: l.input_id.raw }
}

// ---------------------------------------------------------------------------
// Keyed bulk insertion
// ---------------------------------------------------------------------------

/// Insert the entries in order; a later entry with the same key overwrites
/// an earlier one, exactly as a sequence of keyed upserts does.
pub open spec fn insert_all<K, V>(m: Map<K, V>, entries: Seq<(K, V)>) -> Map<K, V>
    decreases entries.len(),
{
    if entries.len() == 0 {
        m
    } else {
        insert_all(m, entries.drop_last()).insert(entries.last().0, entries.last().1)
    }
}

/// The map an entry sequence denotes on its own.
pub open spec fn map_of<K, V>(entries: Seq<(K, V)>) -> Map<K, V> {
    insert_all(Map::empty(), entries)
}

/// Bulk insertion only overlays the entries' own map: the prior contents
/// matter only for keys the entries do not mention.
pub proof fn lemma_insert_all_union<K, V>(m: Map<K, V>, s: Seq<(K, V)>)
    ensures
        insert_all(m, s) == m.union_prefer_right(map_of(s)),
    decreases s.len(),
{
    if s.len() == 0 {
        assert(insert_all(m, s) =~= m.union_prefer_right(map_of(s)));
    } else {
        lemma_insert_all_union(m, s.drop_last());
        assert(insert_all(m, s) =~= m.union_prefer_right(map_of(s)));
    }
}

pub proof fn lemma_insert_all_concat<K, V>(m: Map<K, V>, a: Seq<(K, V)>, b: Seq<(K, V)>)
    ensures
        insert_all(m, a + b) == insert_all(insert_all(m, a), b),
    decreases b.len(),
{
    if b.len() == 0 {
        assert(a + b =~= a);
    } else {
        lemma_insert_all_concat(m, a, b.drop_last());
        assert((a + b).drop_last() =~= a + b.drop_last());
        assert((a + b).last() == b.last());
        assert(insert_all(m, a + b) == insert_all(insert_all(m, a), b));
    }
}

/// Applying the same entries twice is the same as applying them once.
pub proof fn lemma_insert_all_idempotent<K, V>(m: Map<K, V>, s: Seq<(K, V)>)
    ensures
        insert_all(insert_all(m, s), s) == insert_all(m, s),
{
    lemma_insert_all_union(m, s);
    lemma_insert_all_union(insert_all(m, s), s);
    assert(insert_all(insert_all(m, s), s) =~= insert_all(m, s));
}

/// With unique keys, every entry is found unchanged in the denoted map.
pub proof fn lemma_map_of_unique<K, V>(s: Seq<(K, V)>, i: int)
    requires
        0 <= i < s.len(),
        forall|a: int, b: int| 0 <= a < b < s.len() ==> s[a].0 != s[b].0,
    ensures
        map_of(s).dom().contains(s[i].0),
        map_of(s)[s[i].0] == s[i].1,
    decreases s.len(),
{
    if i == s.len() - 1 {
    } else {
        assert(forall|a: int, b: int|
            0 <= a < b < s.drop_last().len() ==> s.drop_last()[a].0 != s.drop_last()[b].0);
        lemma_map_of_unique(s.drop_last(), i);
        assert(s.drop_last()[i] == s[i]);
        assert(s[i].0 != s.last().0);
    }
}

/// Every key of the denoted map comes from some entry.
pub proof fn lemma_map_of_dom<K, V>(s: Seq<(K, V)>, k: K)
    requires
        map_of(s).dom().contains(k),
    ensures
        exists|i: int| 0 <= i < s.len() && s[i].0 == k,
    decreases s.len(),
{
    if s.len() == 0 {
    } else {
        if s.last().0 == k {
            assert(s[s.len() - 1].0 == k);
        } else {
            lemma_map_of_dom(s.drop_last(), k);
            let i = choose|i: int| 0 <= i < s.drop_last().len() && s.drop_last()[i].0 == k;
            assert(s[i].0 == k);
        }
    }
}

// ---------------------------------------------------------------------------
// Sub-collection entry sequences
// ---------------------------------------------------------------------------

pub open spec fn profile_entries(id: u32, ps: Seq<(i32, Profile)>) -> Seq<
    ((u32, int), ProfileRow),
> {
    ps.map_values(|p: (i32, Profile)| ((id, p.0 as int), profile_row(p.1)))
}

pub open spec fn route_entries(id: u32, rs: Seq<(i32, Route)>) -> Seq<((u32, int), RouteRow)> {
    rs.map_values(|r: (i32, Route)| ((id, r.1.index as int), route_row(r.0, r.1)))
}

pub open spec fn enum_route_entries(id: u32, es: Seq<(i32, EnumRoute)>) -> Seq<
    ((u32, int), EnumRouteRow),
> {
    es.map_values(|e: (i32, EnumRoute)| ((id, e.0 as int), enum_route_row(e.1)))
}

pub open spec fn subject_entries(id: u32, subject: u32, kvs: Seq<(String, String)>) -> Seq<
    (MetaPropKey, Seq<char>),
> {
    kvs.map_values(|kv: (String, String)| (MetaPropKey { id, subject, key: kv.0@ }, kv.1@))
}

/// All property rows of one metadata value, subjects in order.
pub open spec fn meta_entries(id: u32, subjects: Seq<(u32, Vec<(String, String)>)>) -> Seq<
    (MetaPropKey, Seq<char>),
>
    decreases subjects.len(),
{
    if subjects.len() == 0 {
        Seq::empty()
    } else {
        meta_entries(id, subjects.drop_last()) + subject_entries(
            id,
            subjects.last().0,
            subjects.last().1@,
        )
    }
}

pub proof fn lemma_meta_entries_step(id: u32, subjects: Seq<(u32, Vec<(String, String)>)>, i: int)
    requires
        0 <= i < subjects.len(),
    ensures
        meta_entries(id, subjects.take(i + 1)) == meta_entries(id, subjects.take(i))
            + subject_entries(id, subjects[i].0, subjects[i].1@),
{
    assert(subjects.take(i + 1).drop_last() =~= subjects.take(i));
    assert(subjects.take(i + 1).last() == subjects[i]);
}

// ---------------------------------------------------------------------------
// Transitions
// ---------------------------------------------------------------------------

pub open spec fn upsert_client_m(m: StoreModel, c: Client) -> StoreModel {
    StoreModel { clients: m.clients.insert(c.object_id.raw, client_row(c)), ..m }
}

pub open spec fn upsert_node_m(m: StoreModel, n: Node) -> StoreModel {
    StoreModel { nodes: m.nodes.insert(n.object_id.raw, node_row(n)), ..m }
}

pub open spec fn upsert_link_m(m: StoreModel, object_id: ObjectId, l: Link) -> StoreModel {
    StoreModel { links: m.links.insert(object_id.raw, link_row(l)), ..m }
}

pub open spec fn upsert_metadata_header_m(m: StoreModel, md: Metadata) -> StoreModel {
    StoreModel { metadata: m.metadata.insert(md.object_id.raw, md.metadata_name@), ..m }
}

/// The device row, then a prefix of each owned sub-collection, in the order
/// the gateway applies them.  The full upsert is the prefix that covers
/// everything.
pub open spec fn device_prefix_m(m: StoreModel, d: Device, np: int, nr: int, ne: int) -> StoreModel {
    let id = d.object_id.raw;
    let m1 = StoreModel { devices: m.devices.insert(id, device_row(d)), ..m };
    let m2 = StoreModel {
        device_profiles: insert_all(m1.device_profiles, profile_entries(id, d.profiles@).take(np)),
        ..m1
    };
    let m3 = StoreModel {
        device_routes: insert_all(m2.device_routes, route_entries(id, d.routes@).take(nr)),
        ..m2
    };
    StoreModel {
        device_enum_routes: insert_all(
            m3.device_enum_routes,
            enum_route_entries(id, d.enum_routes@).take(ne),
        ),
        ..m3
    }
}

pub open spec fn upsert_device_m(m: StoreModel, d: Device) -> StoreModel {
    device_prefix_m(
        m,
        d,
        d.profiles@.len() as int,
        d.routes@.len() as int,
        d.enum_routes@.len() as int,
    )
}

/// A state the device upsert can leave behind when one of its statements
/// fails: nothing at all, or the device row plus a prefix of sub-rows.
pub open spec fn device_partial_m(m0: StoreModel, d: Device, m1: StoreModel) -> bool {
    m1 == m0 || exists|np: int, nr: int, ne: int|
        0 <= np <= d.profiles@.len() && 0 <= nr <= d.routes@.len() && 0 <= ne
            <= d.enum_routes@.len() && m1 == device_prefix_m(m0, d, np, nr, ne)
}

/// The metadata header, then the property rows of the first `si` subjects
/// and `j` rows of subject `si`.
pub open spec fn meta_prefix_m(m: StoreModel, md: Metadata, si: int, j: int) -> StoreModel {
    let id = md.object_id.raw;
    let m1 = upsert_metadata_header_m(m, md);
    let done = insert_all(m1.metadata_properties, meta_entries(id, md.properties@.take(si)));
    let part = if si < md.properties@.len() {
        insert_all(done, subject_entries(id, md.properties@[si].0, md.properties@[si].1@).take(j))
    } else {
        done
    };
    StoreModel { metadata_properties: part, ..m1 }
}

pub open spec fn upsert_metadata_m(m: StoreModel, md: Metadata) -> StoreModel {
    meta_prefix_m(m, md, md.properties@.len() as int, 0)
}

/// A state the metadata upsert can leave behind when one of its statements
/// fails.
pub open spec fn meta_partial_m(m0: StoreModel, md: Metadata, m1: StoreModel) -> bool {
    m1 == m0 || exists|si: int, j: int|
        0 <= si <= md.properties@.len() && 0 <= j && (si < md.properties@.len() ==> j
            <= md.properties@[si].1@.len()) && m1 == meta_prefix_m(m0, md, si, j)
}

pub open spec fn upsert_metadata_property_m(
    m: StoreModel,
    id: u32,
    subject: u32,
    key: Seq<char>,
    value: Seq<char>,
) -> StoreModel {
    StoreModel {
        metadata_properties: m.metadata_properties.insert(
            MetaPropKey { id, subject, key },
            value,
        ),
        ..m
    }
}

pub open spec fn remove_metadata_property_m(
    m: StoreModel,
    id: u32,
    subject: u32,
    key: Seq<char>,
) -> StoreModel {
    StoreModel {
        metadata_properties: m.metadata_properties.remove(MetaPropKey { id, subject, key }),
        ..m
    }
}

pub open spec fn clear_metadata_properties_m(m: StoreModel, id: u32, subject: u32) -> StoreModel {
    StoreModel {
        metadata_properties: m.metadata_properties.remove_keys(
            Set::new(|k: MetaPropKey| k.id == id && k.subject == subject),
        ),
        ..m
    }
}

/// Keys of sub-collection rows owned by one device.
pub open spec fn sub_keys(id: u32) -> Set<(u32, int)> {
    Set::new(|k: (u32, int)| k.0 == id)
}

/// Keys of property rows owned by one metadata object.
pub open spec fn meta_keys(id: u32) -> Set<MetaPropKey> {
    Set::new(|k: MetaPropKey| k.id == id)
}

/// Removal of one object from every table, referential cleanup included.
pub open spec fn remove_object_m(m: StoreModel, id: u32) -> StoreModel {
    StoreModel {
        clients: m.clients.remove(id),
        nodes: m.nodes.remove(id),
        devices: m.devices.remove(id),
        device_profiles: m.device_profiles.remove_keys(sub_keys(id)),
        device_routes: m.device_routes.remove_keys(sub_keys(id)),
        device_enum_routes: m.device_enum_routes.remove_keys(sub_keys(id)),
        links: m.links.remove(id),
        metadata: m.metadata.remove(id),
        metadata_properties: m.metadata_properties.remove_keys(meta_keys(id)),
    }
}

/// The single table-by-table deletion steps of `remove_object`, in the
/// order the gateway issues them.
pub open spec fn remove_step_m(m: StoreModel, id: u32, j: int) -> StoreModel {
    if j == 0 {
        StoreModel { clients: m.clients.remove(id), ..m }
    } else if j == 1 {
        StoreModel { nodes: m.nodes.remove(id), ..m }
    } else if j == 2 {
        StoreModel { devices: m.devices.remove(id), ..m }
    } else if j == 3 {
        StoreModel { device_profiles: m.device_profiles.remove_keys(sub_keys(id)), ..m }
    } else if j == 4 {
        StoreModel { device_routes: m.device_routes.remove_keys(sub_keys(id)), ..m }
    } else if j == 5 {
        StoreModel { device_enum_routes: m.device_enum_routes.remove_keys(sub_keys(id)), ..m }
    } else if j == 6 {
        StoreModel { links: m.links.remove(id), ..m }
    } else if j == 7 {
        StoreModel { metadata: m.metadata.remove(id), ..m }
    } else {
        StoreModel { metadata_properties: m.metadata_properties.remove_keys(meta_keys(id)), ..m }
    }
}

pub open spec fn remove_upto_m(m: StoreModel, id: u32, k: int) -> StoreModel
    decreases k,
{
    if k <= 0 {
        m
    } else {
        remove_step_m(remove_upto_m(m, id, k - 1), id, k - 1)
    }
}

/// All nine deletion steps together are exactly the whole-object removal.
pub proof fn lemma_remove_upto_full(m: StoreModel, id: u32)
    ensures
        remove_upto_m(m, id, 9) == remove_object_m(m, id),
{
    reveal_with_fuel(remove_upto_m, 10);
    assert(remove_upto_m(m, id, 9) =~= remove_object_m(m, id));
}

/// The effect of one mutation message on the stored state.
pub open spec fn apply_m(m: StoreModel, msg: DbMessage) -> StoreModel {
    match msg {
        DbMessage::UpsertClient(c) => upsert_client_m(m, c),
        DbMessage::UpsertNode(n) => upsert_node_m(m, n),
        DbMessage::UpsertDevice(d) => upsert_device_m(m, d),
        DbMessage::UpsertLink { object_id, link } => upsert_link_m(m, object_id, link),
        DbMessage::UpsertMetadata(md) => upsert_metadata_m(m, md),
        DbMessage::RemoveMetadataProperty { object_id, subject, key } => remove_metadata_property_m(
            m,
            object_id.raw,
            subject,
            key@,
        ),
        DbMessage::ClearMetadataProperties { object_id, subject } => clear_metadata_properties_m(
            m,
            object_id.raw,
            subject,
        ),
        DbMessage::RemoveObject(id) => remove_object_m(m, id.raw),
        DbMessage::Shutdown => m,
    }
}

/// A state a failed mutation can leave behind: unchanged for single-row
/// operations, a prefix for the multi-statement ones.
pub open spec fn partial_m(m0: StoreModel, msg: DbMessage, m1: StoreModel) -> bool {
    match msg {
        DbMessage::UpsertDevice(d) => device_partial_m(m0, d, m1),
        DbMessage::UpsertMetadata(md) => meta_partial_m(m0, md, m1),
        DbMessage::RemoveObject(id) => exists|k: int|
            0 <= k <= 9 && m1 == remove_upto_m(m0, id.raw, k),
        _ => m1 == m0,
    }
}

/// The effect of a whole message sequence, first message first.
pub open spec fn apply_all_m(m: StoreModel, msgs: Seq<DbMessage>) -> StoreModel
    decreases msgs.len(),
{
    if msgs.len() == 0 {
        m
    } else {
        apply_m(apply_all_m(m, msgs.drop_last()), msgs.last())
    }
}

} // verus!
