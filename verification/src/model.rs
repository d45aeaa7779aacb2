//! Typed representation of the mirrored graph entities and of the mutation
//! messages the persistence worker consumes.
//!
//! Every message carries the full entity value, never a diff, so the worker
//! can perform its storage operation without consulting external state.

use vstd::prelude::*;

verus! {

/// Identifier the audio server assigns to every object in the live graph;
/// the natural key for every top-level row.
#[derive(Clone, Copy, Debug, PartialEq, Eq, Structural)]
pub struct ObjectId {
    pub raw: u32,
}

impl ObjectId {
    pub fn from_raw_id(raw: u32) -> (r: ObjectId)
        ensures
            r.raw == raw,
    {
        ObjectId { raw }
    }

    pub fn raw_id(self) -> (r: u32)
        ensures
            r == self.raw,
    {
        self.raw
    }
}

/// An ordered bag of string properties attached to a graph object.
/// The bag is stored as one structured text column, so its order matters
/// and is preserved.
#[derive(Debug)]
pub struct PropertyBag {
    pub entries: Vec<(String, String)>,
}

impl View for PropertyBag {
    type V = Seq<(Seq<char>, Seq<char>)>;

    open spec fn view(&self) -> Seq<(Seq<char>, Seq<char>)> {
        self.entries@.map_values(|p: (String, String)| (p.0@, p.1@))
    }
}

impl PropertyBag {
    pub fn new() -> (r: PropertyBag)
        ensures
            r@ == Seq::<(Seq<char>, Seq<char>)>::empty(),
    {
        let r = PropertyBag { entries: Vec::new() };
        proof {
            assert(r@ =~= Seq::<(Seq<char>, Seq<char>)>::empty());
        }
        r
    }

    /// Append one property; the bag keeps the order of insertion.
    pub fn push(&mut self, key: String, value: String)
        ensures
            final(self)@ == old(self)@.push((key@, value@)),
    {
        let ghost before = self@;
        self.entries.push((key, value));
        proof {
            assert(self@ =~= before.push((key@, value@)));
        }
    }

    pub fn len(&self) -> (n: usize)
        ensures
            n == self@.len(),
    {
        self.entries.len()
    }

    /// Set one property: the first entry with the same key is overwritten
    /// in place, keeping its position; a new key is appended.  This keeps
    /// the bag an ordered mapping.
    #[verifier::loop_isolation(false)]
    pub fn set(&mut self, key: String, value: String)
        ensures
            final(self)@ == bag_set(old(self)@, key@, value@),
    {
        let ghost before = self@;
        let mut i: usize = 0;
        while i < self.entries.len()
            invariant
                i <= self.entries@.len(),
                self@ == before,
                forall|j: int| 0 <= j < i ==> before[j].0 != key@,
            decreases self.entries@.len() - i,
        {
            if self.entries[i].0 == key {
                self.entries.set(i, (key, value));
                proof {
                    assert(self@ =~= before.update(i as int, (key@, value@)));
                    lemma_bag_set_replaces(before, key@, value@, i as int);
                }
                return ;
            }
            i += 1;
        }
        self.entries.push((key, value));
        proof {
            assert(self@ =~= before.push((key@, value@)));
            lemma_bag_set_appends(before, key@, value@);
        }
    }
}

/// The first entry holding the key is overwritten in place; a new key goes
/// to the end.
pub open spec fn bag_set(
    s: Seq<(Seq<char>, Seq<char>)>,
    k: Seq<char>,
    v: Seq<char>,
) -> Seq<(Seq<char>, Seq<char>)>
    decreases s.len(),
{
    if s.len() == 0 {
        seq![(k, v)]
    } else if s[0].0 == k {
        seq![(k, v)] + s.drop_first()
    } else {
        seq![s[0]] + bag_set(s.drop_first(), k, v)
    }
}

proof fn lemma_bag_set_replaces(s: Seq<(Seq<char>, Seq<char>)>, k: Seq<char>, v: Seq<char>, i: int)
    requires
        0 <= i < s.len(),
        s[i].0 == k,
        forall|j: int| 0 <= j < i ==> s[j].0 != k,
    ensures
        bag_set(s, k, v) == s.update(i, (k, v)),
    decreases i,
{
    if i == 0 {
        assert(bag_set(s, k, v) =~= s.update(0, (k, v)));
    } else {
        let rest = s.drop_first();
        assert(forall|j: int| 0 <= j < i - 1 ==> rest[j].0 != k);
        lemma_bag_set_replaces(rest, k, v, i - 1);
        assert(bag_set(s, k, v) =~= s.update(i, (k, v)));
    }
}

proof fn lemma_bag_set_appends(s: Seq<(Seq<char>, Seq<char>)>, k: Seq<char>, v: Seq<char>)
    requires
        forall|j: int| 0 <= j < s.len() ==> s[j].0 != k,
    ensures
        bag_set(s, k, v) == s.push((k, v)),
    decreases s.len(),
{
    if s.len() == 0 {
        assert(bag_set(s, k, v) =~= s.push((k, v)));
    } else {
        let rest = s.drop_first();
        lemma_bag_set_appends(rest, k, v);
        assert(bag_set(s, k, v) =~= s.push((k, v)));
    }
}

/// A client of the audio server.
#[derive(Debug)]
pub struct Client {
    pub object_id: ObjectId,
    pub props: PropertyBag,
}

/// A processing node.  Each optional field is independently nullable:
/// absence means "unknown", which storage keeps distinct from an empty
/// collection.  Per-channel volumes and peaks are carried as the raw 32-bit
/// patterns of the producer's sample values; the library treats them as
/// opaque ordered integers.
#[derive(Debug)]
pub struct Node {
    pub object_id: ObjectId,
    pub props: PropertyBag,
    pub volumes: Option<Vec<u32>>,
    pub mute: Option<bool>,
    pub peaks: Option<Vec<u32>>,
    pub rate: Option<u32>,
    pub positions: Option<Vec<String>>,
}

/// A device profile, owned by a device and addressed by an in-device index.
#[derive(Debug)]
pub struct Profile {
    pub description: String,
    pub available: bool,
    pub classes: Vec<String>,
}

/// A device route.  `index` is the routing index that keys the stored row.
#[derive(Debug)]
pub struct Route {
    pub index: i32,
    pub description: String,
    pub available: bool,
    pub profiles: Vec<i32>,
    pub volumes: Vec<u32>,
    pub mute: bool,
}

/// An enumerated route, addressed by an in-device index.
#[derive(Debug)]
pub struct EnumRoute {
    pub description: String,
    pub available: bool,
    pub profiles: Vec<i32>,
    pub devices: Vec<i32>,
}

/// A device together with its owned sub-collections.  Profiles and
/// enumerated routes are keyed by the paired index; a route row is keyed by
/// the route's own routing index, while the paired value is the device
/// index the route targets.
#[derive(Debug)]
pub struct Device {
    pub object_id: ObjectId,
    pub props: PropertyBag,
    pub profile_index: Option<i32>,
    pub profiles: Vec<(i32, Profile)>,
    pub routes: Vec<(i32, Route)>,
    pub enum_routes: Vec<(i32, EnumRoute)>,
}

impl Device {
    /// Sub-collection rows are uniquely keyed by their in-device index.
    pub open spec fn wf(&self) -> bool {
        &&& forall|i: int, j: int|
            0 <= i < j < self.profiles@.len() ==> self.profiles@[i].0 != self.profiles@[j].0
        &&& forall|i: int, j: int|
            0 <= i < j < self.routes@.len() ==> self.routes@[i].1.index != self.routes@[j].1.index
        &&& forall|i: int, j: int|
            0 <= i < j < self.enum_routes@.len() ==> self.enum_routes@[i].0
                != self.enum_routes@[j].0
    }
}

/// A link between an output node and an input node.
#[derive(Debug)]
pub struct Link {
    pub output_id: ObjectId,
    pub input_id: ObjectId,
}

/// A metadata object: a name and, per subject, a mapping from property key
/// to string value.  Property rows are stored separately from the header,
/// keyed by (metadata id, subject, key), so they can be removed one by one.
#[derive(Debug)]
pub struct Metadata {
    pub object_id: ObjectId,
    pub metadata_name: String,
    pub properties: Vec<(u32, Vec<(String, String)>)>,
}

impl Metadata {
    /// Subjects are unique, and so are the keys under one subject.
    pub open spec fn wf(&self) -> bool {
        &&& forall|i: int, j: int|
            0 <= i < j < self.properties@.len() ==> self.properties@[i].0
                != self.properties@[j].0
        &&& forall|i: int, a: int, b: int|
            0 <= i < self.properties@.len() && 0 <= a < b < self.properties@[i].1@.len()
                ==> self.properties@[i].1@[a].0@ != self.properties@[i].1@[b].0@
    }
}

/// One mutation observed in the live graph.  Upsert variants carry the full
/// entity value; removal variants carry only the identifying keys.
#[derive(Debug)]
pub enum DbMessage {
    UpsertClient(Client),
    UpsertNode(Node),
    UpsertDevice(Device),
    UpsertLink { object_id: ObjectId, link: Link },
    UpsertMetadata(Metadata),
    RemoveMetadataProperty { object_id: ObjectId, subject: u32, key: String },
    ClearMetadataProperties { object_id: ObjectId, subject: u32 },
    RemoveObject(ObjectId),
    Shutdown,
}

impl DbMessage {
    /// The entity a message carries satisfies its keying invariant.
    pub open spec fn wf(&self) -> bool {
        match self {
            DbMessage::UpsertDevice(d) => d.wf(),
            DbMessage::UpsertMetadata(m) => m.wf(),
            _ => true,
        }
    }
}

/// The library's error type.  `Storage` carries the storage engine's own
/// description of a failed operation; `ChannelClosed` means the worker end
/// of the queue is gone and the persistence session is over.
#[derive(Debug)]
pub enum DbError {
    Storage(String),
    ChannelClosed,
}

} // verus!
