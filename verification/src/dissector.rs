//! Field descriptors, the capability contract an author implements, and
//! the registration bridge between the dissector and the host.

use vstd::prelude::*;

use crate::epan::{ETTIndex, HFIndex, ProtoTree};
use crate::wireshark::{ftenum_of, header_field_info, hf_register_info, proto_tree, tvbuff_t};

verus! {

/// Text for a field name or filter path: either a reference to a
/// process-static string, or a string composed at runtime. The tag matters
/// at registration time: owned text must be copied into storage that lives
/// for the rest of the process, a static reference already does.
pub enum StringContainer {
    StaticStr(&'static str),
    Owned(String),
}

impl View for StringContainer {
    type V = Seq<char>;

    open spec fn view(&self) -> Seq<char> {
        match self {
            StringContainer::StaticStr(s) => s@,
            StringContainer::Owned(s) => s@,
        }
    }
}

/// Relies on `&str`'s `PartialEq`: two string slices compare equal exactly
/// when they hold the same characters.
#[verifier::external_body]
fn str_eq(a: &str, b: &str) -> (r: bool)
    ensures
        r == (a@ == b@),
{
    a == b
}

impl StringContainer {
    /// The text itself, whichever way it is owned.
    pub fn text(&self) -> (s: &str)
        ensures
            s@ == self@,
    {
        match self {
            StringContainer::StaticStr(s) => s,
            StringContainer::Owned(s) => s.as_str(),
        }
    }

    /// Character-wise equality of the texts, ignoring how they are owned.
    pub fn text_eq(&self, other: &StringContainer) -> (r: bool)
        ensures
            r == (self@ == other@),
    {
        str_eq(self.text(), other.text())
    }
}

impl Clone for StringContainer {
    fn clone(&self) -> (res: Self)
        ensures
            res == *self,
    {
        match self {
            StringContainer::StaticStr(s) => StringContainer::StaticStr(s),
            StringContainer::Owned(s) => StringContainer::Owned(s.clone()),
        }
    }
}

/// Semantic type of a protocol field: the protocol marker itself, unsigned
/// and signed integers of width 8 to 64 bits, or a boolean.
#[derive(Debug, Clone, Copy, PartialEq, Eq, Structural)]
#[allow(non_camel_case_types)]
pub enum FieldType {
    PROTOCOL,
    BOOLEAN,
    U8,
    U16,
    U32,
    U64,
    I8,
    I16,
    I32,
    I64,
}

/// Display hint for a field's value in the host's tree rendering.
#[derive(Debug, Clone, Copy, PartialEq, Eq, Structural)]
#[allow(non_camel_case_types)]
pub enum FieldDisplay {
    NONE,
    DEC,
    HEX,
}

/// The mathematical content of a [`PacketField`]: the texts as character
/// sequences together with the two tags.
pub ghost struct FieldModel {
    pub name: Seq<char>,
    pub abbrev: Seq<char>,
    pub field_type: FieldType,
    pub display: FieldDisplay,
}

/// Immutable description of one protocol field: display name, filter path,
/// semantic type and display hint. Declared once before registration and
/// never mutated; fields are identified by name.
pub struct PacketField {
    pub name: StringContainer,
    pub abbrev: StringContainer,
    pub field_type: FieldType,
    pub display: FieldDisplay,
}

impl View for PacketField {
    type V = FieldModel;

    open spec fn view(&self) -> FieldModel {
        FieldModel {
            name: self.name@,
            abbrev: self.abbrev@,
            field_type: self.field_type,
            display: self.display,
        }
    }
}

impl PacketField {
    /// A field whose texts are compile-time constants.
    pub fn fixed(
        name: &'static str,
        abbrev: &'static str,
        field_type: FieldType,
        display: FieldDisplay,
    ) -> (f: PacketField)
        ensures
            f@ == (FieldModel { name: name@, abbrev: abbrev@, field_type, display }),
    {
        PacketField {
            name: StringContainer::StaticStr(name),
            abbrev: StringContainer::StaticStr(abbrev),
            field_type,
            display,
        }
    }
}

impl Clone for PacketField {
    fn clone(&self) -> (res: Self)
        ensures
            res == *self,
    {
        PacketField {
            name: self.name.clone(),
            abbrev: self.abbrev.clone(),
            field_type: self.field_type,
            display: self.display,
        }
    }
}

/// Something that can be shown in the host's UI on behalf of a field.
pub trait DisplayItem {
    /// The descriptor this item displays.
    spec fn field_model(&self) -> PacketField;

    /// The descriptor this item displays.
    fn get_field(&self) -> (f: PacketField)
        ensures
            f == self.field_model(),
    ;
}

/// The simplest display item: a bare field descriptor.
pub struct DisplayItemField {
    pub field: PacketField,
}

impl DisplayItem for DisplayItemField {
    open spec fn field_model(&self) -> PacketField {
        self.field
    }

    fn get_field(&self) -> (f: PacketField) {
        self.field.clone()
    }
}

/// Wraps a field descriptor as a display item.
pub fn field_to_display(thing: PacketField) -> (r: DisplayItemField)
    ensures
        r.field == thing,
{
    DisplayItemField { field: thing }
}

/// A source of values being dissected, consumed one read at a time.
pub trait Dissection {
    /// Peek the next byte without displaying it.
    fn u8(&mut self) -> u8;

    /// Consume one byte and hand it to the given display item.
    fn display_u8<I: DisplayItem>(&mut self, item: &I) -> u8;
}

/// How a dissector asks to be hooked into the host's routing.
pub enum Registration {
    /// Run after all ordinary dissectors.
    Post,
    /// Offer "decode as" against the named dissector table.
    DecodeAs { abbrev: StringContainer },
    /// Claim a numeric pattern in the named dissector table.
    UInt { abbrev: StringContainer, pattern: u32 },
}

/// The capability contract a protocol dissector implements. Exactly one
/// concrete dissector is registered per process; the bridge calls each
/// setup operation once, in order, and `dissect` once per matched packet.
///
/// The spec functions are the dissector's declared content: what it
/// declares (fields, foldout count, identity, routing) and what it has
/// retained (the delivered handle pairing and foldout handles). Each
/// operation is tied to them, so a caller knows that two reads of a
/// declaration agree and that a delivery actually reaches the dissector.
/// Their default bodies say nothing; an implementation that is itself
/// verified overrides each model with its own definition and proves the
/// operations against it.
pub trait Dissector: Sized {
    /// The fields the dissector declares, in declaration order.
    open spec fn fields_model(&self) -> Seq<PacketField> {
        arbitrary()
    }

    /// The number of foldout identities the dissector declares.
    open spec fn tree_count_model(&self) -> int {
        arbitrary()
    }

    /// The `(descriptor, handle)` pairing the dissector has retained;
    /// empty until the bridge delivers it.
    open spec fn field_mapping_model(&self) -> Seq<(PacketField, HFIndex)> {
        arbitrary()
    }

    /// The foldout handles the dissector has retained; empty until the
    /// bridge delivers them.
    open spec fn tree_handles_model(&self) -> Seq<ETTIndex> {
        arbitrary()
    }

    /// The protocol's display, short and filter names, as character
    /// sequences.
    open spec fn protocol_name_model(&self) -> (Seq<char>, Seq<char>, Seq<char>) {
        arbitrary()
    }

    /// The routing hooks the dissector wants.
    open spec fn registration_model(&self) -> Seq<Registration> {
        arbitrary()
    }

    /// Every field ever referenced during dissection, in declaration
    /// order. Called once, before registration.
    fn get_fields(&self) -> (fields: Vec<PacketField>)
        ensures
            fields@ == self.fields_model(),
    ;

    /// Receive the host-assigned handle for each declared field: one pair
    /// per field, handles pairwise distinct. Called once, right after
    /// registration; the dissector retains the mapping.
    fn set_field_indices(&mut self, hfindices: Vec<(PacketField, HFIndex)>)
        requires
            forall|i: int, j: int|
                0 <= i < j < hfindices@.len() ==> hfindices@[i].1 != hfindices@[j].1,
        ensures
            final(self).field_mapping_model() == hfindices@,
            final(self).tree_handles_model() == old(self).tree_handles_model(),
            final(self).fields_model() == old(self).fields_model(),
            final(self).tree_count_model() == old(self).tree_count_model(),
    ;

    /// How many distinct foldout identities the dissector will use.
    /// Called once, before registration.
    fn get_tree_count(&self) -> (n: usize)
        ensures
            n == self.tree_count_model(),
    ;

    /// Receive the host-assigned handle for each declared foldout. Called
    /// once, paired with `get_tree_count`; the dissector retains the list.
    fn set_tree_indices(&mut self, ett_indices: Vec<ETTIndex>)
        ensures
            final(self).tree_handles_model() == ett_indices@,
            final(self).field_mapping_model() == old(self).field_mapping_model(),
            final(self).fields_model() == old(self).fields_model(),
            final(self).tree_count_model() == old(self).tree_count_model(),
    ;

    /// Display name, short name and filter name of the protocol. Called
    /// once.
    fn get_protocol_name(&self) -> (r: (&'static str, &'static str, &'static str))
        ensures
            (r.0@, r.1@, r.2@) == self.protocol_name_model(),
    ;

    /// The routing hooks this dissector wants. Called once.
    fn get_registration(&self) -> (r: Vec<Registration>)
        ensures
            r@ == self.registration_model(),
    ;

    /// Decode one packet into the display tree and return the number of
    /// bytes consumed. Called once per matched packet, with a fresh tree
    /// whose root is `tree.root()`; neither the tree nor the buffer may be
    /// retained past the call.
    fn dissect(&self, tree: &mut proto_tree, tvb: &tvbuff_t) -> (consumed: usize)
        requires
            old(tree).wf(),
        ensures
            final(tree).wf(),
    ;
}

/// The handle assigned to a declared field, looked up by field name in the
/// pairing delivered at registration: the first pair whose name matches,
/// if any. `None` means the descriptor was never declared — a programming
/// error, not a data condition. The caller must treat it as fatal; no
/// placeholder handle is ever produced.
pub fn find_field_index(hfindices: &Vec<(PacketField, HFIndex)>, field: &PacketField) -> (r: Option<
    HFIndex,
>)
    ensures
        match r {
            Some(h) => exists|i: int|
                0 <= i < hfindices@.len() && (#[trigger] hfindices@[i]).0@.name == field@.name
                    && hfindices@[i].1 == h && (forall|j: int|
                    0 <= j < i ==> (#[trigger] hfindices@[j]).0@.name != field@.name),
            None => forall|i: int|
                0 <= i < hfindices@.len() ==> (#[trigger] hfindices@[i]).0@.name != field@.name,
        },
{
    let mut i: usize = 0;
    while i < hfindices.len()
        invariant
            i <= hfindices@.len(),
            forall|j: int| 0 <= j < i ==> (#[trigger] hfindices@[j]).0@.name != field@.name,
        decreases hfindices@.len() - i,
    {
        if hfindices[i].0.name.text_eq(&field.name) {
            return Some(hfindices[i].1);
        }
        i = i + 1;
    }
    None
}

/// One host-native record mirrors one declared field: same texts, the
/// host's tag for the field's type, the same display hint, no bitmask.
pub open spec fn record_matches_field(r: hf_register_info, f: PacketField) -> bool {
    &&& r.hfinfo.name@ == f.name@
    &&& r.hfinfo.abbrev@ == f.abbrev@
    &&& r.hfinfo.type_ == ftenum_of(f.field_type)
    &&& r.hfinfo.display == f.display
    &&& r.hfinfo.bitmask == 0
}

/// One host-native registration record per declared field, in order, each
/// mirroring its field and each with an empty handle-output cell.
pub fn build_registration_records(fields: &Vec<PacketField>) -> (records: Vec<hf_register_info>)
    ensures
        records@.len() == fields@.len(),
        forall|i: int|
            0 <= i < fields@.len() ==> record_matches_field(#[trigger] records@[i], fields@[i])
                && records@[i].p_id is None,
{
    let mut records: Vec<hf_register_info> = Vec::new();
    let mut i: usize = 0;
    while i < fields.len()
        invariant
            i <= fields@.len(),
            records@.len() == i,
            forall|k: int|
                0 <= k < i ==> record_matches_field(#[trigger] records@[k], fields@[k])
                    && records@[k].p_id is None,
        decreases fields@.len() - i,
    {
        let f = fields[i].clone();
        records.push(hf_register_info { p_id: None, hfinfo: header_field_info::from(f) });
        i = i + 1;
    }
    records
}

/// Lifecycle phase of the bridge: created at plugin load, prepared once
/// the descriptors are translated to host records, ready once the host
/// has issued every handle.
#[derive(Debug, Clone, Copy, PartialEq, Eq, Structural)]
pub enum Phase {
    Loaded,
    Prepared,
    Ready,
}

/// The registration bridge: owns the process's single dissector, keeps
/// the host-native registration records with their handle-output cells,
/// delivers the issued handles back to the dissector, and drives one
/// dissection per packet. Built once at plugin load and threaded through
/// every host callback; the host's ordering guarantee (registration fully
/// precedes dissection, calls never overlap) is what each method's phase
/// precondition encodes.
pub struct Bridge<D: Dissector> {
    dissector: D,
    phase: Phase,
    fields: Vec<PacketField>,
    records: Vec<hf_register_info>,
    tree_count: usize,
    proto_id: i32,
    field_ids: Ghost<Seq<HFIndex>>,
    tree_ids: Ghost<Seq<ETTIndex>>,
}

impl<D: Dissector> Bridge<D> {
    /// Current lifecycle phase.
    pub closed spec fn phase(&self) -> Phase {
        self.phase
    }

    /// The dissector the bridge owns.
    pub closed spec fn dissector_model(&self) -> D {
        self.dissector
    }

    /// The fields the dissector declared, in declaration order.
    pub closed spec fn declared_fields(&self) -> Seq<PacketField> {
        self.fields@
    }

    /// The host-native registration records, one per declared field.
    pub closed spec fn records(&self) -> Seq<hf_register_info> {
        self.records@
    }

    /// The number of foldout identities the dissector declared.
    pub closed spec fn declared_tree_count(&self) -> int {
        self.tree_count as int
    }

    /// The protocol handle the host issued.
    pub closed spec fn protocol_id(&self) -> i32 {
        self.proto_id
    }

    /// The field handles the host issued, in declaration order.
    pub closed spec fn issued_field_indices(&self) -> Seq<HFIndex> {
        self.field_ids@
    }

    /// The foldout handles the host issued.
    pub closed spec fn issued_tree_indices(&self) -> Seq<ETTIndex> {
        self.tree_ids@
    }

    /// What each phase guarantees: once prepared, the declarations are
    /// the dissector's own (`get_fields`, `get_tree_count`) and the
    /// records mirror them, with every output cell empty until the host
    /// writes it; once ready, the issued handles are on record — one per
    /// field, pairwise distinct, each sitting in its record's cell — the
    /// foldout handles number exactly what was declared, and the
    /// dissector has received the full pairing and the foldout handles.
    pub open spec fn wf(&self) -> bool {
        &&& (self.phase() == Phase::Loaded ==> {
            &&& self.declared_fields().len() == 0
            &&& self.records().len() == 0
            &&& self.declared_tree_count() == 0
        })
        &&& (self.phase() != Phase::Loaded ==> {
            &&& self.declared_fields() == self.dissector_model().fields_model()
            &&& self.declared_tree_count() == self.dissector_model().tree_count_model()
            &&& self.records().len() == self.declared_fields().len()
            &&& forall|i: int|
                0 <= i < self.records().len() ==> record_matches_field(
                    #[trigger] self.records()[i],
                    self.declared_fields()[i],
                )
        })
        &&& (self.phase() == Phase::Prepared ==> forall|i: int|
            0 <= i < self.records().len() ==> (#[trigger] self.records()[i]).p_id is None)
        &&& (self.phase() == Phase::Ready ==> {
            &&& self.issued_field_indices().len() == self.declared_fields().len()
            &&& forall|i: int, j: int|
                0 <= i < j < self.issued_field_indices().len()
                    ==> self.issued_field_indices()[i] != self.issued_field_indices()[j]
            &&& forall|i: int|
                0 <= i < self.records().len() ==> (#[trigger] self.records()[i]).p_id == Some(
                    self.issued_field_indices()[i].0,
                )
            &&& self.issued_tree_indices().len() == self.declared_tree_count()
            &&& self.dissector_model().field_mapping_model().len()
                == self.declared_fields().len()
            &&& forall|i: int|
                0 <= i < self.declared_fields().len()
                    ==> #[trigger] self.dissector_model().field_mapping_model()[i] == (
                    self.declared_fields()[i],
                    self.issued_field_indices()[i],
                )
            &&& self.dissector_model().tree_handles_model() == self.issued_tree_indices()
        })
    }

    /// Current lifecycle phase, for the embedding plugin's own ordering
    /// checks at the host boundary.
    pub fn current_phase(&self) -> (p: Phase)
        ensures
            p == self.phase(),
    {
        self.phase
    }

    /// A bridge owning the given dissector, not yet registered: no
    /// protocol handle yet, no issued handles, nothing declared.
    pub fn new(dissector: D) -> (b: Bridge<D>)
        ensures
            b.wf(),
            b.phase() == Phase::Loaded,
            b.dissector_model() == dissector,
            b.protocol_id() == -1,
            b.issued_field_indices() == Seq::<HFIndex>::empty(),
            b.issued_tree_indices() == Seq::<ETTIndex>::empty(),
    {
        Bridge {
            dissector,
            phase: Phase::Loaded,
            fields: Vec::new(),
            records: Vec::new(),
            tree_count: 0,
            proto_id: -1,
            field_ids: Ghost(Seq::empty()),
            tree_ids: Ghost(Seq::empty()),
        }
    }

    /// First half of registration, run once from the host's "register
    /// protocol info" callback: ask the dissector for its fields, build
    /// one host-native record per field with an empty handle cell, and ask
    /// for the foldout count. What ends up declared is exactly what the
    /// dissector returned.
    pub fn prepare_registration(&mut self)
        requires
            old(self).wf(),
            old(self).phase() == Phase::Loaded,
        ensures
            final(self).wf(),
            final(self).phase() == Phase::Prepared,
            final(self).dissector_model() == old(self).dissector_model(),
            final(self).declared_fields() == old(self).dissector_model().fields_model(),
            final(self).declared_tree_count() == old(self).dissector_model().tree_count_model(),
            final(self).records().len() == final(self).declared_fields().len(),
    {
        let fields = self.dissector.get_fields();
        self.records = build_registration_records(&fields);
        self.fields = fields;
        self.tree_count = self.dissector.get_tree_count();
        self.phase = Phase::Prepared;
    }

    /// The protocol's display, short and filter names, as the dissector
    /// declares them.
    pub fn get_protocol_name(&self) -> (r: (&'static str, &'static str, &'static str))
        ensures
            (r.0@, r.1@, r.2@) == self.dissector_model().protocol_name_model(),
    {
        self.dissector.get_protocol_name()
    }

    /// The routing hooks the dissector wants.
    pub fn get_registration(&self) -> (r: Vec<Registration>)
        ensures
            r@ == self.dissector_model().registration_model(),
    {
        self.dissector.get_registration()
    }

    /// The records to hand to the host, one per declared field.
    pub fn registration_records(&self) -> (r: &Vec<hf_register_info>)
        ensures
            r@ == self.records(),
    {
        &self.records
    }

    /// How many field records stand ready for the host.
    pub fn field_count(&self) -> (n: usize)
        ensures
            n == self.declared_fields().len(),
    {
        self.fields.len()
    }

    /// How many foldout slots the host must fill.
    pub fn subtree_count(&self) -> (n: usize)
        ensures
            n == self.declared_tree_count(),
    {
        self.tree_count
    }

    /// Second half of registration, run once the host has issued the
    /// protocol handle, one handle per field record and one per foldout
    /// slot: store each field handle in its record's output cell and
    /// deliver the `(descriptor, handle)` pairing and the foldout handles
    /// to the dissector — which then holds exactly one pair per declared
    /// field, in declaration order, and exactly the issued foldout
    /// handles. The host issues pairwise-distinct field handles; calling
    /// out of order or twice is a contract violation and excluded here,
    /// not detected at run time.
    pub fn complete_registration(&mut self, proto_id: i32, field_ids: &Vec<i32>, tree_ids: &Vec<
        i32,
    >)
        requires
            old(self).wf(),
            old(self).phase() == Phase::Prepared,
            field_ids@.len() == old(self).declared_fields().len(),
            forall|i: int, j: int|
                0 <= i < j < field_ids@.len() ==> field_ids@[i] != field_ids@[j],
            tree_ids@.len() == old(self).declared_tree_count(),
        ensures
            final(self).wf(),
            final(self).phase() == Phase::Ready,
            final(self).declared_fields() == old(self).declared_fields(),
            final(self).declared_tree_count() == old(self).declared_tree_count(),
            final(self).protocol_id() == proto_id,
            final(self).issued_field_indices() == field_ids@.map_values(|x: i32| HFIndex(x)),
            final(self).issued_tree_indices() == tree_ids@.map_values(|x: i32| ETTIndex(x)),
            final(self).dissector_model().field_mapping_model() == Seq::new(
                field_ids@.len(),
                |i: int| (old(self).declared_fields()[i], HFIndex(field_ids@[i])),
            ),
            final(self).dissector_model().tree_handles_model() == tree_ids@.map_values(
                |x: i32| ETTIndex(x),
            ),
    {
        let ghost old_records = self.records@;
        let mut pairs: Vec<(PacketField, HFIndex)> = Vec::new();
        let mut i: usize = 0;
        while i < field_ids.len()
            invariant
                i <= field_ids@.len(),
                field_ids@.len() == self.fields@.len(),
                self.records@.len() == self.fields@.len(),
                old_records.len() == self.fields@.len(),
                pairs@.len() == i,
                forall|k: int|
                    0 <= k < i ==> (#[trigger] pairs@[k]).0 == self.fields@[k] && pairs@[k].1
                        == HFIndex(field_ids@[k]),
                forall|k: int|
                    0 <= k < i ==> (#[trigger] self.records@[k]).p_id == Some(field_ids@[k])
                        && self.records@[k].hfinfo == old_records[k].hfinfo,
                forall|k: int| i <= k < old_records.len() ==> self.records@[k] == old_records[k],
                self.fields@ == old(self).fields@,
                self.dissector == old(self).dissector,
                self.phase == old(self).phase,
                self.tree_count == old(self).tree_count,
                forall|x: int, y: int|
                    0 <= x < y < field_ids@.len() ==> field_ids@[x] != field_ids@[y],
            decreases field_ids@.len() - i,
        {
            pairs.push((self.fields[i].clone(), HFIndex(field_ids[i])));
            self.records[i].p_id = Some(field_ids[i]);
            i = i + 1;
        }
        let ghost delivered_pairs = pairs@;
        self.dissector.set_field_indices(pairs);
        let mut etts: Vec<ETTIndex> = Vec::new();
        let mut j: usize = 0;
        while j < tree_ids.len()
            invariant
                j <= tree_ids@.len(),
                etts@.len() == j,
                forall|k: int| 0 <= k < j ==> (#[trigger] etts@[k]) == ETTIndex(tree_ids@[k]),
            decreases tree_ids@.len() - j,
        {
            etts.push(ETTIndex(tree_ids[j]));
            j = j + 1;
        }
        self.dissector.set_tree_indices(etts);
        self.proto_id = proto_id;
        self.field_ids = Ghost(field_ids@.map_values(|x: i32| HFIndex(x)));
        self.tree_ids = Ghost(tree_ids@.map_values(|x: i32| ETTIndex(x)));
        self.phase = Phase::Ready;
        proof {
            assert(self.field_ids@.len() == field_ids@.len());
            assert forall|x: int|
                0 <= x < self.records@.len() implies (#[trigger] self.records@[x]).p_id == Some(
                self.field_ids@[x].0,
            ) by {
                assert(self.field_ids@[x] == HFIndex(field_ids@[x]));
            }
            assert forall|x: int|
                0 <= x < self.records@.len() implies record_matches_field(
                #[trigger] self.records@[x],
                self.fields@[x],
            ) by {
                assert(record_matches_field(old_records[x], self.fields@[x]));
            }
            assert(delivered_pairs =~= Seq::new(
                field_ids@.len(),
                |i: int| (old(self).fields@[i], HFIndex(field_ids@[i])),
            ));
            assert(self.dissector.tree_handles_model() =~= tree_ids@.map_values(
                |x: i32| ETTIndex(x),
            ));
            assert forall|x: int|
                0 <= x < self.fields@.len()
                    implies #[trigger] self.dissector.field_mapping_model()[x] == (
                self.fields@[x],
                self.field_ids@[x],
            ) by {
                assert(self.dissector.field_mapping_model()[x] == delivered_pairs[x]);
                assert(self.field_ids@[x] == HFIndex(field_ids@[x]));
            }
        }
    }

    /// One dissection, run once per matched packet, only after
    /// registration: wrap the packet's bytes, open a fresh tree, let the
    /// dissector fill it, and return the finished tree with the consumed
    /// byte count. A failure inside dissection never unregisters anything:
    /// the bridge state is untouched.
    pub fn dissect_packet(&self, data: Vec<u8>) -> (r: (proto_tree, usize))
        requires
            self.wf(),
            self.phase() == Phase::Ready,
        ensures
            r.0.wf(),
    {
        let tvb = tvbuff_t::new(data);
        let mut tree = proto_tree::new();
        let consumed = self.dissector.dissect(&mut tree, &tvb);
        (tree, consumed)
    }
}

/// Registration delivers to the dissector exactly one handle pair per
/// field it declared via `get_fields` — pair `i` holding declared field
/// `i` and the `i`-th issued handle, the handles pairwise distinct, each
/// also sitting in the cell of the record that mirrors its field — and
/// exactly as many foldout handles as `get_tree_count` declared.
pub proof fn lemma_registration_delivery<D: Dissector>(b: &Bridge<D>)
    requires
        b.wf(),
        b.phase() == Phase::Ready,
    ensures
        b.declared_fields() == b.dissector_model().fields_model(),
        b.declared_tree_count() == b.dissector_model().tree_count_model(),
        b.issued_field_indices().len() == b.declared_fields().len(),
        forall|i: int, j: int|
            0 <= i < j < b.issued_field_indices().len() ==> b.issued_field_indices()[i]
                != b.issued_field_indices()[j],
        forall|i: int|
            0 <= i < b.declared_fields().len() ==> record_matches_field(
                #[trigger] b.records()[i],
                b.declared_fields()[i],
            ) && b.records()[i].p_id == Some(b.issued_field_indices()[i].0),
        b.dissector_model().field_mapping_model().len() == b.declared_fields().len(),
        forall|i: int|
            0 <= i < b.declared_fields().len()
                ==> #[trigger] b.dissector_model().field_mapping_model()[i] == (
                b.declared_fields()[i],
                b.issued_field_indices()[i],
            ),
        b.issued_tree_indices().len() == b.declared_tree_count(),
        b.dissector_model().tree_handles_model() == b.issued_tree_indices(),
{
}

} // verus!
