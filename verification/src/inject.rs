//! Injection of udev properties into the global data of a loaded object.
//!
//! A variable of a data section whose name is `UDEV_PROP_` followed by the name
//! of a property receives the bytes of that property's value, provided they are
//! fewer than the variable has room for and lie within the section.

use crate::error::{BpfError, LoaderError};
use crate::hidudev::{
    find_property, lookup, merge_properties, merged, HidUdev, HidUdevProperty, PropertyView,
};
use crate::loader::HidBPFLoader;
use crate::object::{EntryView, MapDescriptor, MapEntry, MapView, Object, ObjectView};
use crate::text::{ends_with, strip_prefix};
use crate::views::{lemma_views_step, views};
use vstd::prelude::*;
use vstd::utf8::encode_utf8;

verus! {

/// One variable of a data section, as the type information describes it: the name
/// of its type, where it starts in the section, and how many bytes it has.
#[derive(Debug)]
pub struct SectionMember {
    pub name: Option<String>,
    pub offset: u32,
    pub size: usize,
}

/// A variable of a data section as contracts see it.
pub struct MemberView {
    pub name: Option<Seq<char>>,
    pub offset: u32,
    pub size: usize,
}

impl View for SectionMember {
    type V = MemberView;

    open spec fn view(&self) -> MemberView {
        MemberView {
            name: match self.name {
                Some(name) => Some(name@),
                None => None,
            },
            offset: self.offset,
            size: self.size,
        }
    }
}

/// A data section and its variables, in the order of the type information.
#[derive(Debug)]
pub struct DataSection {
    pub name: String,
    pub members: Vec<SectionMember>,
}

/// A data section as contracts see it.
pub struct SectionView {
    pub name: Seq<char>,
    pub members: Seq<MemberView>,
}

impl View for DataSection {
    type V = SectionView;

    open spec fn view(&self) -> SectionView {
        SectionView { name: self.name@, members: views(self.members@) }
    }
}

/// The data sections that the type information of an object describes.
#[derive(Debug)]
pub struct Btf {
    pub sections: Vec<DataSection>,
}

impl View for Btf {
    type V = Seq<SectionView>;

    open spec fn view(&self) -> Seq<SectionView> {
        views(self.sections@)
    }
}

/// The index of the first section of `sections` that is called `name`.
pub open spec fn first_named(sections: Seq<SectionView>, name: Seq<char>) -> Option<int>
    decreases sections.len(),
{
    if sections.len() == 0 {
        None
    } else {
        match first_named(sections.drop_last(), name) {
            Some(i) => Some(i),
            None => if sections.last().name == name {
                Some(sections.len() - 1)
            } else {
                None
            },
        }
    }
}

impl Btf {
    /// The index of the first data section called `name`.
    pub fn type_by_name(&self, name: &str) -> (found: Option<usize>)
        ensures
            found matches Some(i) ==> first_named(self@, name@) == Some(i as int)
                && i < self.sections.len(),
            found is None ==> first_named(self@, name@) is None,
    {
        let mut i: usize = 0;
        while i < self.sections.len()
            invariant
                i <= self.sections.len(),
                first_named(views(self.sections@.take(i as int)), name@) is None,
            decreases self.sections.len() - i,
        {
            proof {
                lemma_views_step(self.sections@, i as int);
                let upto = views(self.sections@.take(i + 1));
                assert(upto.drop_last() =~= views(self.sections@.take(i as int)));
            }
            if crate::text::same_text(self.sections[i].name.as_str(), name) {
                proof {
                    lemma_first_named_extends(
                        views(self.sections@.take(i + 1)),
                        views(self.sections@.skip(i + 1)),
                        name@,
                    );
                    assert(views(self.sections@.take(i + 1)) + views(self.sections@.skip(i + 1))
                        =~= self@);
                }
                return Some(i);
            }
            i += 1;
        }
        assert(self.sections@.take(i as int) =~= self.sections@);
        None
    }
}

/// A section found in `a` is the one found in `a + b`.
pub proof fn lemma_first_named_extends(a: Seq<SectionView>, b: Seq<SectionView>, name: Seq<char>)
    requires
        first_named(a, name) is Some,
    ensures
        first_named(a + b, name) == first_named(a, name),
    decreases b.len(),
{
    if b.len() == 0 {
        assert(a + b =~= a);
    } else {
        assert((a + b).drop_last() =~= a + b.drop_last());
        lemma_first_named_extends(a, b.drop_last(), name);
    }
}

/// The name of the property that a variable stands for: what follows `UDEV_PROP_`
/// in the name of its type.
pub open spec fn property_name(member: MemberView) -> Option<Seq<char>> {
    match member.name {
        Some(name) => if "UDEV_PROP_"@.is_prefix_of(name) {
            Some(name.skip("UDEV_PROP_"@.len() as int))
        } else {
            None
        },
        None => None,
    }
}

/// The bytes that `props` hold for a variable: the UTF-8 form of the value of the
/// first property with the variable's property name.
pub open spec fn member_bytes(member: MemberView, props: Seq<PropertyView>) -> Option<Seq<u8>> {
    match property_name(member) {
        Some(name) => match lookup(props, name) {
            Some(value) => Some(encode_utf8(value)),
            None => None,
        },
        None => None,
    }
}

/// Whether a slot of `size` bytes at `offset`, in a buffer of `capacity` bytes,
/// takes `bytes`: they must be fewer than the slot has, and end within the buffer.
pub open spec fn slot_takes(offset: u32, size: usize, bytes: Seq<u8>, capacity: nat) -> bool {
    bytes.len() < size && offset + bytes.len() <= capacity
}

/// `data` with `bytes` written at `offset`; every other byte stays.
pub open spec fn written(data: Seq<u8>, offset: int, bytes: Seq<u8>) -> Seq<u8> {
    data.take(offset) + bytes + data.skip(offset + bytes.len())
}

/// The `size` bytes of `data` that start at `offset`.
pub open spec fn slot(data: Seq<u8>, offset: int, size: int) -> Seq<u8> {
    data.subrange(offset, offset + size)
}

/// Whether `props` write into the variable `member` of a buffer of `capacity`
/// bytes.
pub open spec fn member_writes(
    member: MemberView,
    props: Seq<PropertyView>,
    capacity: nat,
) -> bool {
    member_bytes(member, props) matches Some(bytes) && slot_takes(
        member.offset,
        member.size,
        bytes,
        capacity,
    )
}

/// `data` after the injection into one variable.
pub open spec fn inject_member(
    data: Seq<u8>,
    member: MemberView,
    props: Seq<PropertyView>,
) -> Seq<u8> {
    if member_writes(member, props, data.len()) {
        written(data, member.offset as int, member_bytes(member, props)->0)
    } else {
        data
    }
}

/// `data` after the injection into each of `members`, in their order.
pub open spec fn inject_members(
    data: Seq<u8>,
    members: Seq<MemberView>,
    props: Seq<PropertyView>,
) -> Seq<u8>
    decreases members.len(),
{
    if members.len() == 0 {
        data
    } else {
        inject_member(inject_members(data, members.drop_last(), props), members.last(), props)
    }
}

/// Whether `props` write into any of `members`.
pub open spec fn any_member_writes(
    members: Seq<MemberView>,
    props: Seq<PropertyView>,
    capacity: nat,
) -> bool {
    exists|i: int| 0 <= i < members.len() && member_writes(#[trigger] members[i], props, capacity)
}

/// Injection never changes the length of the buffer.
pub proof fn law_injection_keeps_length(
    data: Seq<u8>,
    members: Seq<MemberView>,
    props: Seq<PropertyView>,
)
    ensures
        inject_members(data, members, props).len() == data.len(),
    decreases members.len(),
{
    if members.len() > 0 {
        law_injection_keeps_length(data, members.drop_last(), props);
    }
}

/// The injection guard: a buffer in which no variable has more room than the
/// bytes that the properties hold for it comes out of the injection as it went
/// in.
pub proof fn law_no_write_without_room(
    data: Seq<u8>,
    members: Seq<MemberView>,
    props: Seq<PropertyView>,
)
    requires
        forall|i: int|
            0 <= i < members.len() ==> (member_bytes(
                #[trigger] members[i],
                props,
            ) matches Some(bytes) ==> bytes.len() >= members[i].size),
    ensures
        inject_members(data, members, props) == data,
        !any_member_writes(members, props, data.len()),
    decreases members.len(),
{
    if members.len() > 0 {
        assert forall|i: int| 0 <= i < members.drop_last().len() implies (member_bytes(
            #[trigger] members.drop_last()[i],
            props,
        ) matches Some(bytes) ==> bytes.len() >= members.drop_last()[i].size) by {
            assert(members.drop_last()[i] == members[i]);
        }
        law_no_write_without_room(data, members.drop_last(), props);
        assert(members.last() == members[members.len() - 1]);
    }
}

/// Reading a slot back after a write gives the written bytes, followed by the
/// bytes that the slot held behind them before; the buffer keeps its length and
/// every byte outside the written range.
pub proof fn law_write_then_read(data: Seq<u8>, offset: u32, size: usize, bytes: Seq<u8>)
    requires
        bytes.len() < size,
        offset + size <= data.len(),
    ensures
        slot(written(data, offset as int, bytes), offset as int, size as int) == bytes
            + data.subrange(offset + bytes.len(), offset + size),
        written(data, offset as int, bytes).len() == data.len(),
        forall|i: int|
            0 <= i < data.len() && !(offset <= i < offset + bytes.len()) ==> written(
                data,
                offset as int,
                bytes,
            )[i] == data[i],
{
    assert(slot(written(data, offset as int, bytes), offset as int, size as int) =~= bytes
        + data.subrange(offset + bytes.len(), offset + size));
}

/// Whether what `props` write into `member`, in a buffer of `capacity` bytes,
/// lies outside the `size` bytes from `offset` on: nothing is written, or no
/// written byte falls among them.
pub open spec fn writes_outside(
    member: MemberView,
    props: Seq<PropertyView>,
    capacity: nat,
    offset: int,
    size: int,
) -> bool {
    member_writes(member, props, capacity) ==> {
        let len = member_bytes(member, props)->0.len();
        len == 0 || member.offset + len <= offset || offset + size <= member.offset
    }
}

/// The injection into a variable that writes outside a range leaves the range as
/// it was.
proof fn lemma_member_leaves(
    data: Seq<u8>,
    member: MemberView,
    props: Seq<PropertyView>,
    lo: int,
    hi: int,
)
    requires
        0 <= lo <= hi <= data.len(),
        writes_outside(member, props, data.len(), lo, hi - lo),
    ensures
        inject_member(data, member, props).len() == data.len(),
        inject_member(data, member, props).subrange(lo, hi) == data.subrange(lo, hi),
{
    assert(inject_member(data, member, props).subrange(lo, hi) =~= data.subrange(lo, hi));
}

/// The injection into variables that all write outside a range leaves the range
/// as it was.
proof fn lemma_members_leave(
    data: Seq<u8>,
    members: Seq<MemberView>,
    props: Seq<PropertyView>,
    lo: int,
    hi: int,
)
    requires
        0 <= lo <= hi <= data.len(),
        forall|j: int|
            0 <= j < members.len() ==> writes_outside(
                #[trigger] members[j],
                props,
                data.len(),
                lo,
                hi - lo,
            ),
    ensures
        inject_members(data, members, props).subrange(lo, hi) == data.subrange(lo, hi),
    decreases members.len(),
{
    if members.len() > 0 {
        let front = members.drop_last();
        assert forall|j: int| 0 <= j < front.len() implies writes_outside(
            #[trigger] front[j],
            props,
            data.len(),
            lo,
            hi - lo,
        ) by {
            assert(front[j] == members[j]);
        }
        lemma_members_leave(data, front, props, lo, hi);
        law_injection_keeps_length(data, front, props);
        assert(members.last() == members[members.len() - 1]);
        lemma_member_leaves(inject_members(data, front, props), members.last(), props, lo, hi);
    }
}

/// The round trip of an injection: where `props` write into the variable `i` of
/// a section, that variable lies within the buffer, and what `props` write into
/// the other variables lies outside it, the variable reads back, after the
/// injection into all of them, as the written bytes followed by the bytes that
/// it held behind them before.
pub proof fn law_injected_slot_reads_back(
    data: Seq<u8>,
    members: Seq<MemberView>,
    props: Seq<PropertyView>,
    i: int,
)
    requires
        0 <= i < members.len(),
        member_writes(members[i], props, data.len()),
        members[i].offset + members[i].size <= data.len(),
        forall|j: int|
            0 <= j < members.len() && j != i ==> writes_outside(
                #[trigger] members[j],
                props,
                data.len(),
                members[i].offset as int,
                members[i].size as int,
            ),
    ensures
        slot(
            inject_members(data, members, props),
            members[i].offset as int,
            members[i].size as int,
        ) == member_bytes(members[i], props)->0 + data.subrange(
            members[i].offset + member_bytes(members[i], props)->0.len(),
            members[i].offset + members[i].size,
        ),
    decreases members.len(),
{
    let front = members.drop_last();
    let before = inject_members(data, front, props);
    let lo = members[i].offset as int;
    let hi = members[i].offset + members[i].size;
    let bytes = member_bytes(members[i], props)->0;
    law_injection_keeps_length(data, front, props);
    assert forall|j: int| 0 <= j < front.len() && j != i implies writes_outside(
        #[trigger] front[j],
        props,
        data.len(),
        lo,
        hi - lo,
    ) by {
        assert(front[j] == members[j]);
    }
    if i == members.len() - 1 {
        lemma_members_leave(data, front, props, lo, hi);
        law_write_then_read(before, members[i].offset, members[i].size, bytes);
        assert(before.subrange(lo + bytes.len(), hi) =~= before.subrange(lo, hi).subrange(
            bytes.len() as int,
            hi - lo,
        ));
        assert(data.subrange(lo + bytes.len(), hi) =~= data.subrange(lo, hi).subrange(
            bytes.len() as int,
            hi - lo,
        ));
    } else {
        assert(front[i] == members[i]);
        law_injected_slot_reads_back(data, front, props, i);
        assert(members.last() == members[members.len() - 1]);
        lemma_member_leaves(before, members.last(), props, lo, hi);
    }
}

/// Writes `value` into the slot of `size` bytes at `offset`, if the slot takes it:
/// nothing is written unless `value` is shorter than the slot and ends within
/// `data`.
pub fn write_slot(data: &mut Vec<u8>, offset: u32, size: usize, value: &[u8]) -> (done: bool)
    ensures
        done == slot_takes(offset, size, value@, old(data)@.len()),
        done ==> final(data)@ == written(old(data)@, offset as int, value@),
        !done ==> final(data)@ == old(data)@,
{
    if value.len() >= size {
        return false;
    }
    let start = offset as usize;
    if start > data.len() || value.len() > data.len() - start {
        return false;
    }
    let ghost before = data@;
    let mut k: usize = 0;
    while k < value.len()
        invariant
            k <= value.len(),
            start + value.len() <= data.len(),
            data.len() == before.len(),
            data@ == written(before, start as int, value@.take(k as int)),
        decreases value.len() - k,
    {
        data.set(start + k, value[k]);
        assert(data@ =~= written(before, start as int, value@.take(k + 1)));
        k += 1;
    }
    assert(value@.take(k as int) =~= value@);
    true
}

/// Injects `props` into the buffer `data` of a section with the variables
/// `members`; says whether anything was written.
pub fn inject_in_buffer(
    data: &mut Vec<u8>,
    members: &[SectionMember],
    props: &[HidUdevProperty],
) -> (changed: bool)
    ensures
        final(data)@ == inject_members(old(data)@, views(members@), views(props@)),
        changed == any_member_writes(views(members@), views(props@), old(data)@.len()),
{
    let ghost before = data@;
    let ghost all = views(members@);
    let ghost pv = views(props@);
    let mut changed = false;
    let mut i: usize = 0;
    while i < members.len()
        invariant
            i <= members.len(),
            all == views(members@),
            pv == views(props@),
            data@.len() == before.len(),
            data@ == inject_members(before, all.take(i as int), pv),
            changed == any_member_writes(all.take(i as int), pv, before.len()),
        decreases members.len() - i,
    {
        let member = &members[i];
        let ghost upto = all.take(i + 1);
        proof {
            assert(upto.drop_last() =~= all.take(i as int));
            assert(upto.last() == member@);
        }
        let mut wrote = false;
        if let Some(name) = &member.name {
            if let Some(pname) = strip_prefix(name.as_str(), "UDEV_PROP_") {
                if let Some(k) = find_property(props, pname.as_str()) {
                    let bytes = props[k].value.as_str().as_bytes();
                    wrote = write_slot(data, member.offset, member.size, bytes);
                }
            }
        }
        proof {
            assert(wrote == member_writes(member@, pv, before.len()));
            if wrote {
                assert(member_writes(upto[i as int], pv, before.len()));
            } else if any_member_writes(upto, pv, before.len()) {
                let j = choose|j: int|
                    0 <= j < upto.len() && member_writes(#[trigger] upto[j], pv, before.len());
                assert(all.take(i as int)[j] == upto[j]);
            }
            if changed {
                let j = choose|j: int|
                    0 <= j < i && member_writes(
                        #[trigger] all.take(i as int)[j],
                        pv,
                        before.len(),
                    );
                assert(upto[j] == all.take(i as int)[j]);
            }
        }
        changed = changed || wrote;
        i += 1;
    }
    assert(all.take(i as int) =~= all);
    changed
}

/// An entry after the injection: its value patched, and marked for writing back
/// where anything was written into it. An entry without a value stays as it is.
pub open spec fn injected_entry(
    entry: EntryView,
    members: Seq<MemberView>,
    props: Seq<PropertyView>,
) -> EntryView {
    match entry.value {
        Some(data) => EntryView {
            key: entry.key,
            value: Some(inject_members(data, members, props)),
            dirty: entry.dirty || any_member_writes(members, props, data.len()),
        },
        None => entry,
    }
}

/// A map after the injection into the section `array`: every entry is patched
/// where the name of the map ends with `array`, and none is touched otherwise.
pub open spec fn injected_map(
    map: MapView,
    array: Seq<char>,
    members: Seq<MemberView>,
    props: Seq<PropertyView>,
) -> MapView {
    if array.is_suffix_of(map.name) {
        MapView {
            entries: map.entries.map_values(|e: EntryView| injected_entry(e, members, props)),
            ..map
        }
    } else {
        map
    }
}

/// An object after the injection into the section `array`: where the type
/// information has no section of that name nothing changes, else every map is
/// patched by the variables of the first such section.
pub open spec fn injected_object(
    object: ObjectView,
    array: Seq<char>,
    btf: Seq<SectionView>,
    props: Seq<PropertyView>,
) -> ObjectView {
    match first_named(btf, array) {
        Some(i) => ObjectView {
            maps: object.maps.map_values(
                |m: MapView| injected_map(m, array, btf[i].members, props),
            ),
            ..object
        },
        None => object,
    }
}

/// Injects `props` into one entry of a map.
pub fn inject_in_entry(entry: &mut MapEntry, members: &[SectionMember], props: &[HidUdevProperty])
    ensures
        final(entry)@ == injected_entry(old(entry)@, views(members@), views(props@)),
{
    match &mut entry.value {
        Some(data) => {
            let changed = inject_in_buffer(data, members, props);
            entry.dirty = entry.dirty || changed;
        },
        None => {},
    }
}

/// Injects `props` into every entry of `map`, if the name of the map ends with
/// `array`.
pub fn inject_in_map(
    map: &mut MapDescriptor,
    array: &str,
    members: &[SectionMember],
    props: &[HidUdevProperty],
)
    ensures
        final(map)@ == injected_map(old(map)@, array@, views(members@), views(props@)),
{
    if !ends_with(map.name.as_str(), array) {
        return ;
    }
    let ghost before = map@;
    let ghost mv = views(members@);
    let ghost pv = views(props@);
    let mut k: usize = 0;
    while k < map.entries.len()
        invariant
            k <= map.entries.len(),
            mv == views(members@),
            pv == views(props@),
            map@.name == before.name,
            map@.map_type == before.map_type,
            map@.entries.len() == before.entries.len(),
            forall|j: int|
                0 <= j < k ==> #[trigger] map@.entries[j] == injected_entry(
                    before.entries[j],
                    mv,
                    pv,
                ),
            forall|j: int|
                k <= j < before.entries.len() ==> #[trigger] map@.entries[j] == before.entries[j],
        decreases map.entries.len() - k,
    {
        let ghost prev = map.entries@;
        let ghost prev_view = map@;
        inject_in_entry(&mut map.entries[k], members, props);
        proof {
            assert(map.entries@.len() == prev.len());
            assert(map.entries@[k as int]@ == injected_entry(prev[k as int]@, mv, pv));
            assert(map@.entries[k as int] == injected_entry(prev_view.entries[k as int], mv, pv));
            assert forall|j: int| 0 <= j < prev.len() && j != k implies #[trigger] map@.entries[j]
                == prev_view.entries[j] by {
                assert(map.entries@[j] == prev[j]);
            }
        }
        k += 1;
    }
    assert(map@.entries =~= before.entries.map_values(|e: EntryView| injected_entry(e, mv, pv)));
}

/// An object after the whole injection for a device: the properties of the
/// device merged with the extra ones go into the section `.bss` and then into
/// the section `.data`.
pub open spec fn injected(
    object: ObjectView,
    btf: Seq<SectionView>,
    device: Seq<PropertyView>,
    extra: Seq<PropertyView>,
) -> ObjectView {
    injected_object(
        injected_object(object, ".bss"@, btf, merged(device, extra)),
        ".data"@,
        btf,
        merged(device, extra),
    )
}

impl HidBPFLoader {
    /// Injects `udev_properties` into the maps of `object` that hold the section
    /// `array_name`, by the variables that `btf` lists for that section. Nothing
    /// happens where `btf` has no such section.
    pub fn inject_udev_properties_in_array(
        &self,
        object: &mut Object,
        array_name: &str,
        btf: &Btf,
        udev_properties: &[HidUdevProperty],
    ) -> (out: Result<(), BpfError>)
        ensures
            out is Ok,
            final(object)@ == injected_object(
                old(object)@,
                array_name@,
                btf@,
                views(udev_properties@),
            ),
    {
        let Some(section) = btf.type_by_name(array_name) else {
            return Ok(());
        };
        let members = &btf.sections[section].members;
        let ghost before = object@;
        let ghost mv = btf@[section as int].members;
        let ghost pv = views(udev_properties@);
        let mut i: usize = 0;
        while i < object.maps.len()
            invariant
                i <= object.maps.len(),
                mv == views(members@),
                pv == views(udev_properties@),
                object@.programs == before.programs,
                object@.maps.len() == before.maps.len(),
                forall|j: int|
                    0 <= j < i ==> #[trigger] object@.maps[j] == injected_map(
                        before.maps[j],
                        array_name@,
                        mv,
                        pv,
                    ),
                forall|j: int|
                    i <= j < before.maps.len() ==> #[trigger] object@.maps[j] == before.maps[j],
            decreases object.maps.len() - i,
        {
            let ghost prev = object.maps@;
            let ghost prev_view = object@;
            inject_in_map(&mut object.maps[i], array_name, members.as_slice(), udev_properties);
            proof {
                assert(object.maps@.len() == prev.len());
                assert(object@.maps[i as int] == injected_map(
                    prev_view.maps[i as int],
                    array_name@,
                    mv,
                    pv,
                ));
                assert forall|j: int| 0 <= j < prev.len() && j != i implies (
                #[trigger] object@.maps[j]) == prev_view.maps[j] by {
                    assert(object.maps@[j] == prev[j]);
                }
            }
            i += 1;
        }
        assert(object@.maps =~= before.maps.map_values(
            |m: MapView| injected_map(m, array_name@, mv, pv),
        ));
        Ok(())
    }

    /// Injects the properties of `device`, merged with `extra_props`, into the
    /// global data of `object`. `btf` is the type information of the object, or
    /// the error met while reading it; with an error nothing is injected and the
    /// error is handed on.
    pub fn inject_udev_properties(
        &self,
        object: &mut Object,
        btf: Result<Btf, LoaderError>,
        device: &HidUdev,
        extra_props: &[HidUdevProperty],
    ) -> (out: Result<(), BpfError>)
        ensures
            match btf {
                Ok(info) => out is Ok && final(object)@ == injected(
                    old(object)@,
                    info@,
                    views(device.properties@),
                    views(extra_props@),
                ),
                Err(error) => out == Err::<(), BpfError>(BpfError::LibBPFError { error })
                    && final(object)@ == old(object)@,
            },
    {
        let info = match btf {
            Ok(info) => info,
            Err(error) => {
                return Err(BpfError::from(error));
            },
        };
        let udev_properties = merge_properties(device.properties.as_slice(), extra_props);
        let _ = self.inject_udev_properties_in_array(
            object,
            ".bss",
            &info,
            udev_properties.as_slice(),
        );
        let _ = self.inject_udev_properties_in_array(
            object,
            ".data",
            &info,
            udev_properties.as_slice(),
        );
        Ok(())
    }
}

} // verus!
