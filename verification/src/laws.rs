//! The laws of the stored state.
//!
//! Every mutation is idempotent; an upsert fully overwrites what the new
//! value governs; removing an object removes everything that references
//! it; metadata deletion is scoped to exactly its key or subject; and the
//! terminal state of a drained message sequence respects send order.

use vstd::prelude::*;

use crate::model::{Client, DbMessage, Device, Link, Metadata, Node, ObjectId};
use crate::store::{
    apply_all_m, apply_m, device_row, enum_route_entries, enum_route_row, insert_all,
    lemma_insert_all_concat, lemma_insert_all_idempotent, lemma_insert_all_union,
    lemma_map_of_dom, lemma_map_of_unique, map_of, meta_entries, profile_entries, profile_row,
    remove_object_m, route_entries, route_row, subject_entries, upsert_client_m, upsert_device_m,
    upsert_link_m, upsert_metadata_m, upsert_node_m, MetaPropKey, StoreModel,
};

verus! {

/// Idempotence: applying any one mutation twice in a row leaves the same
/// stored state as applying it once.
pub proof fn lemma_mutation_idempotent(m: StoreModel, msg: DbMessage)
    ensures
        apply_m(apply_m(m, msg), msg) == apply_m(m, msg),
{
    match msg {
        DbMessage::UpsertDevice(d) => {
            let id = d.object_id.raw;
            let pe = profile_entries(id, d.profiles@);
            let re = route_entries(id, d.routes@);
            let ee = enum_route_entries(id, d.enum_routes@);
            assert(pe.take(d.profiles@.len() as int) =~= pe);
            assert(re.take(d.routes@.len() as int) =~= re);
            assert(ee.take(d.enum_routes@.len() as int) =~= ee);
            lemma_insert_all_idempotent(m.device_profiles, pe);
            lemma_insert_all_idempotent(m.device_routes, re);
            lemma_insert_all_idempotent(m.device_enum_routes, ee);
            assert(apply_m(apply_m(m, msg), msg) =~= apply_m(m, msg));
        },
        DbMessage::UpsertMetadata(md) => {
            let id = md.object_id.raw;
            assert(md.properties@.take(md.properties@.len() as int) =~= md.properties@);
            lemma_insert_all_idempotent(m.metadata_properties, meta_entries(id, md.properties@));
            assert(apply_m(apply_m(m, msg), msg) =~= apply_m(m, msg));
        },
        _ => {
            assert(apply_m(apply_m(m, msg), msg) =~= apply_m(m, msg));
        },
    }
}

/// Overwrite: a later client upsert for the same id yields exactly the
/// state of applying the later value alone, whatever the earlier value
/// held.
pub proof fn lemma_overwrite_client(m: StoreModel, c1: Client, c2: Client)
    requires
        c1.object_id == c2.object_id,
    ensures
        upsert_client_m(upsert_client_m(m, c1), c2) == upsert_client_m(m, c2),
{
    assert(upsert_client_m(upsert_client_m(m, c1), c2) =~= upsert_client_m(m, c2));
}

/// Overwrite for nodes: every column, the optional ones included, holds
/// what the later value defines.
pub proof fn lemma_overwrite_node(m: StoreModel, n1: Node, n2: Node)
    requires
        n1.object_id == n2.object_id,
    ensures
        upsert_node_m(upsert_node_m(m, n1), n2) == upsert_node_m(m, n2),
{
    assert(upsert_node_m(upsert_node_m(m, n1), n2) =~= upsert_node_m(m, n2));
}

/// Overwrite for links.
pub proof fn lemma_overwrite_link(m: StoreModel, id: ObjectId, l1: Link, l2: Link)
    ensures
        upsert_link_m(upsert_link_m(m, id, l1), id, l2) == upsert_link_m(m, id, l2),
{
    assert(upsert_link_m(upsert_link_m(m, id, l1), id, l2) =~= upsert_link_m(m, id, l2));
}

/// After a device upsert, the device row and every sub-row the value
/// defines hold exactly that value's encodings, whatever was stored
/// before.
pub proof fn lemma_device_upsert_lookup(m: StoreModel, d: Device)
    requires
        d.wf(),
    ensures
        upsert_device_m(m, d).devices.dom().contains(d.object_id.raw),
        upsert_device_m(m, d).devices[d.object_id.raw] == device_row(d),
        forall|i: int|
            0 <= i < d.profiles@.len() ==> {
                let k = (d.object_id.raw, #[trigger] d.profiles@[i].0 as int);
                upsert_device_m(m, d).device_profiles.dom().contains(k) && upsert_device_m(
                    m,
                    d,
                ).device_profiles[k] == profile_row(d.profiles@[i].1)
            },
        forall|i: int|
            0 <= i < d.routes@.len() ==> {
                let k = (d.object_id.raw, #[trigger] d.routes@[i].1.index as int);
                upsert_device_m(m, d).device_routes.dom().contains(k) && upsert_device_m(
                    m,
                    d,
                ).device_routes[k] == route_row(d.routes@[i].0, d.routes@[i].1)
            },
        forall|i: int|
            0 <= i < d.enum_routes@.len() ==> {
                let k = (d.object_id.raw, #[trigger] d.enum_routes@[i].0 as int);
                upsert_device_m(m, d).device_enum_routes.dom().contains(k) && upsert_device_m(
                    m,
                    d,
                ).device_enum_routes[k] == enum_route_row(d.enum_routes@[i].1)
            },
{
    let id = d.object_id.raw;
    let pe = profile_entries(id, d.profiles@);
    let re = route_entries(id, d.routes@);
    let ee = enum_route_entries(id, d.enum_routes@);
    assert(pe.take(d.profiles@.len() as int) =~= pe);
    assert(re.take(d.routes@.len() as int) =~= re);
    assert(ee.take(d.enum_routes@.len() as int) =~= ee);
    let m1 = upsert_device_m(m, d);
    lemma_insert_all_union(m.device_profiles, pe);
    lemma_insert_all_union(m.device_routes, re);
    lemma_insert_all_union(m.device_enum_routes, ee);
    assert forall|i: int| 0 <= i < d.profiles@.len() implies {
        let k = (id, #[trigger] d.profiles@[i].0 as int);
        m1.device_profiles.dom().contains(k) && m1.device_profiles[k] == profile_row(
            d.profiles@[i].1,
        )
    } by {
        assert(forall|a: int, b: int| 0 <= a < b < pe.len() ==> pe[a].0 != pe[b].0);
        lemma_map_of_unique(pe, i);
        assert(pe[i].0 == (id, d.profiles@[i].0 as int));
    }
    assert forall|i: int| 0 <= i < d.routes@.len() implies {
        let k = (id, #[trigger] d.routes@[i].1.index as int);
        m1.device_routes.dom().contains(k) && m1.device_routes[k] == route_row(
            d.routes@[i].0,
            d.routes@[i].1,
        )
    } by {
        assert(forall|a: int, b: int| 0 <= a < b < re.len() ==> re[a].0 != re[b].0);
        lemma_map_of_unique(re, i);
        assert(re[i].0 == (id, d.routes@[i].1.index as int));
    }
    assert forall|i: int| 0 <= i < d.enum_routes@.len() implies {
        let k = (id, #[trigger] d.enum_routes@[i].0 as int);
        m1.device_enum_routes.dom().contains(k) && m1.device_enum_routes[k] == enum_route_row(
            d.enum_routes@[i].1,
        )
    } by {
        assert(forall|a: int, b: int| 0 <= a < b < ee.len() ==> ee[a].0 != ee[b].0);
        lemma_map_of_unique(ee, i);
        assert(ee[i].0 == (id, d.enum_routes@[i].0 as int));
    }
}

/// Overwrite for devices: after upserting `d1` and then `d2` under the
/// same id, every row `d2` defines holds exactly `d2`'s values.
pub proof fn lemma_overwrite_device(m: StoreModel, d1: Device, d2: Device)
    requires
        d1.object_id == d2.object_id,
        d2.wf(),
    ensures
        upsert_device_m(upsert_device_m(m, d1), d2).devices[d2.object_id.raw] == device_row(d2),
        forall|i: int|
            0 <= i < d2.profiles@.len() ==> upsert_device_m(upsert_device_m(m, d1), d2)
                .device_profiles[(d2.object_id.raw, #[trigger] d2.profiles@[i].0 as int)]
                == profile_row(d2.profiles@[i].1),
        forall|i: int|
            0 <= i < d2.routes@.len() ==> upsert_device_m(upsert_device_m(m, d1), d2)
                .device_routes[(d2.object_id.raw, #[trigger] d2.routes@[i].1.index as int)]
                == route_row(d2.routes@[i].0, d2.routes@[i].1),
        forall|i: int|
            0 <= i < d2.enum_routes@.len() ==> upsert_device_m(upsert_device_m(m, d1), d2)
                .device_enum_routes[(d2.object_id.raw, #[trigger] d2.enum_routes@[i].0 as int)]
                == enum_route_row(d2.enum_routes@[i].1),
{
    lemma_device_upsert_lookup(upsert_device_m(m, d1), d2);
}

/// After inserting all property rows of a metadata value over any base
/// map, the row of subject `si`, key `j` holds exactly that value.
proof fn lemma_meta_lookup(
    base: Map<MetaPropKey, Seq<char>>,
    id: u32,
    subjects: Seq<(u32, Vec<(String, String)>)>,
    si: int,
    j: int,
)
    requires
        0 <= si < subjects.len(),
        0 <= j < subjects[si].1@.len(),
        forall|a: int, b: int| 0 <= a < b < subjects.len() ==> subjects[a].0 != subjects[b].0,
        forall|a: int, b: int|
            0 <= a < b < subjects[si].1@.len() ==> subjects[si].1@[a].0@ != subjects[si].1@[b].0@,
    ensures
        ({
            let k = MetaPropKey { id, subject: subjects[si].0, key: subjects[si].1@[j].0@ };
            insert_all(base, meta_entries(id, subjects)).dom().contains(k) && insert_all(
                base,
                meta_entries(id, subjects),
            )[k] == subjects[si].1@[j].1@
        }),
    decreases subjects.len(),
{
    let k = MetaPropKey { id, subject: subjects[si].0, key: subjects[si].1@[j].0@ };
    let prev = subjects.drop_last();
    let se_last = subject_entries(id, subjects.last().0, subjects.last().1@);
    lemma_insert_all_concat(base, meta_entries(id, prev), se_last);
    let mid = insert_all(base, meta_entries(id, prev));
    lemma_insert_all_union(mid, se_last);
    if si == subjects.len() - 1 {
        assert(se_last[j].0 == k);
        assert(se_last[j].1 == subjects[si].1@[j].1@);
        assert(forall|a: int, b: int| 0 <= a < b < se_last.len() ==> se_last[a].0 != se_last[b].0);
        lemma_map_of_unique(se_last, j);
    } else {
        assert(prev[si] == subjects[si]);
        lemma_meta_lookup(base, id, prev, si, j);
        if map_of(se_last).dom().contains(k) {
            lemma_map_of_dom(se_last, k);
            let a = choose|a: int| 0 <= a < se_last.len() && se_last[a].0 == k;
            assert(se_last[a].0.subject == subjects.last().0);
            assert(subjects[si].0 != subjects[subjects.len() - 1].0);
            assert(false);
        }
    }
}

/// After a metadata upsert, the header row and every property row the
/// value defines hold exactly that value, whatever was stored before.
pub proof fn lemma_metadata_upsert_lookup(m: StoreModel, md: Metadata)
    requires
        md.wf(),
    ensures
        upsert_metadata_m(m, md).metadata.dom().contains(md.object_id.raw),
        upsert_metadata_m(m, md).metadata[md.object_id.raw] == md.metadata_name@,
        forall|si: int, j: int|
            0 <= si < md.properties@.len() && 0 <= j < md.properties@[si].1@.len() ==> {
                let k = MetaPropKey {
                    id: md.object_id.raw,
                    subject: md.properties@[si].0,
                    key: #[trigger] md.properties@[si].1@[j].0@,
                };
                upsert_metadata_m(m, md).metadata_properties.dom().contains(k)
                    && upsert_metadata_m(m, md).metadata_properties[k]
                    == md.properties@[si].1@[j].1@
            },
{
    let id = md.object_id.raw;
    assert(md.properties@.take(md.properties@.len() as int) =~= md.properties@);
    assert forall|si: int, j: int|
        0 <= si < md.properties@.len() && 0 <= j < md.properties@[si].1@.len() implies {
        let k = MetaPropKey {
            id: md.object_id.raw,
            subject: md.properties@[si].0,
            key: #[trigger] md.properties@[si].1@[j].0@,
        };
        upsert_metadata_m(m, md).metadata_properties.dom().contains(k) && upsert_metadata_m(
            m,
            md,
        ).metadata_properties[k] == md.properties@[si].1@[j].1@
    } by {
        lemma_meta_lookup(m.metadata_properties, id, md.properties@, si, j);
    }
}

/// Overwrite for metadata: after upserting `md1` and then `md2` under the
/// same id, the header and every property row `md2` defines hold exactly
/// `md2`'s values.
pub proof fn lemma_overwrite_metadata(m: StoreModel, md1: Metadata, md2: Metadata)
    requires
        md1.object_id == md2.object_id,
        md2.wf(),
    ensures
        upsert_metadata_m(upsert_metadata_m(m, md1), md2).metadata[md2.object_id.raw]
            == md2.metadata_name@,
        forall|si: int, j: int|
            0 <= si < md2.properties@.len() && 0 <= j < md2.properties@[si].1@.len()
                ==> upsert_metadata_m(upsert_metadata_m(m, md1), md2).metadata_properties[
                MetaPropKey {
                    id: md2.object_id.raw,
                    subject: md2.properties@[si].0,
                    key: #[trigger] md2.properties@[si].1@[j].0@,
                }
            ] == md2.properties@[si].1@[j].1@,
{
    lemma_metadata_upsert_lookup(upsert_metadata_m(m, md1), md2);
}

/// Cascade on delete: after removing an object, no table holds a row
/// keyed by it, sub-collection rows and metadata property rows included.
pub proof fn lemma_remove_cascade(m: StoreModel, id: u32)
    ensures
        !remove_object_m(m, id).clients.dom().contains(id),
        !remove_object_m(m, id).nodes.dom().contains(id),
        !remove_object_m(m, id).devices.dom().contains(id),
        !remove_object_m(m, id).links.dom().contains(id),
        !remove_object_m(m, id).metadata.dom().contains(id),
        forall|k: (u32, int)|
            remove_object_m(m, id).device_profiles.dom().contains(k) ==> k.0 != id,
        forall|k: (u32, int)| remove_object_m(m, id).device_routes.dom().contains(k) ==> k.0 != id,
        forall|k: (u32, int)|
            remove_object_m(m, id).device_enum_routes.dom().contains(k) ==> k.0 != id,
        forall|k: MetaPropKey|
            remove_object_m(m, id).metadata_properties.dom().contains(k) ==> k.id != id,
{
}

/// Scoped deletion of one metadata property: exactly the named key is
/// gone, every other row is untouched.
pub proof fn lemma_remove_metadata_property_scoped(
    m: StoreModel,
    id: u32,
    subject: u32,
    key: Seq<char>,
)
    ensures
        ({
            let m2 = crate::store::remove_metadata_property_m(m, id, subject, key);
            let removed = MetaPropKey { id, subject, key };
            &&& !m2.metadata_properties.dom().contains(removed)
            &&& forall|k: MetaPropKey|
                k != removed ==> (m2.metadata_properties.dom().contains(k)
                    <==> m.metadata_properties.dom().contains(k))
            &&& forall|k: MetaPropKey|
                k != removed && m.metadata_properties.dom().contains(k)
                    ==> m2.metadata_properties[k] == m.metadata_properties[k]
            &&& m2.metadata == m.metadata
        }),
{
}

/// Scoped clearing of one metadata subject: every key under the subject is
/// gone, rows of other subjects or other metadata objects are untouched.
pub proof fn lemma_clear_metadata_properties_scoped(m: StoreModel, id: u32, subject: u32)
    ensures
        ({
            let m2 = crate::store::clear_metadata_properties_m(m, id, subject);
            &&& forall|k: MetaPropKey|
                k.id == id && k.subject == subject ==> !m2.metadata_properties.dom().contains(k)
            &&& forall|k: MetaPropKey|
                !(k.id == id && k.subject == subject) ==> (m2.metadata_properties.dom().contains(k)
                    <==> m.metadata_properties.dom().contains(k))
            &&& forall|k: MetaPropKey|
                !(k.id == id && k.subject == subject) && m.metadata_properties.dom().contains(k)
                    ==> m2.metadata_properties[k] == m.metadata_properties[k]
            &&& m2.metadata == m.metadata
        }),
{
}

/// Draining a queue is per-message: the effect of a sequence split at any
/// point is the second part applied after the first.
pub proof fn lemma_apply_all_append(m: StoreModel, s1: Seq<DbMessage>, s2: Seq<DbMessage>)
    ensures
        apply_all_m(m, s1 + s2) == apply_all_m(apply_all_m(m, s1), s2),
    decreases s2.len(),
{
    if s2.len() == 0 {
        assert(s1 + s2 =~= s1);
    } else {
        lemma_apply_all_append(m, s1, s2.drop_last());
        assert((s1 + s2).drop_last() =~= s1 + s2.drop_last());
        assert((s1 + s2).last() == s2.last());
    }
}

/// Ordering: when a producer's sequence ends by removing an object, the
/// drained terminal state holds no row for it — later messages win over
/// earlier ones.
pub proof fn lemma_terminal_remove(m: StoreModel, msgs: Seq<DbMessage>, id: ObjectId)
    requires
        msgs.len() > 0,
        msgs.last() == DbMessage::RemoveObject(id),
    ensures
        !apply_all_m(m, msgs).clients.dom().contains(id.raw),
        !apply_all_m(m, msgs).nodes.dom().contains(id.raw),
        !apply_all_m(m, msgs).devices.dom().contains(id.raw),
        !apply_all_m(m, msgs).links.dom().contains(id.raw),
        !apply_all_m(m, msgs).metadata.dom().contains(id.raw),
        forall|k: (u32, int)|
            apply_all_m(m, msgs).device_profiles.dom().contains(k) ==> k.0 != id.raw,
        forall|k: (u32, int)|
            apply_all_m(m, msgs).device_routes.dom().contains(k) ==> k.0 != id.raw,
        forall|k: (u32, int)|
            apply_all_m(m, msgs).device_enum_routes.dom().contains(k) ==> k.0 != id.raw,
        forall|k: MetaPropKey|
            apply_all_m(m, msgs).metadata_properties.dom().contains(k) ==> k.id != id.raw,
{
    let prev = apply_all_m(m, msgs.drop_last());
    assert(apply_all_m(m, msgs) == apply_m(prev, msgs.last()));
    lemma_remove_cascade(prev, id.raw);
}

} // verus!
