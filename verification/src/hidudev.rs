//! The device a load is made for, and its udev properties.

use crate::views::{lemma_views_step, views};
use vstd::prelude::*;

verus! {

broadcast use vstd::seq_lib::group_filter_ensures;

/// One udev property: a name and its value.
#[derive(Debug)]
pub struct HidUdevProperty {
    pub name: String,
    pub value: String,
}

/// What a property says: its name and its value as character sequences.
pub struct PropertyView {
    pub name: Seq<char>,
    pub value: Seq<char>,
}

impl View for HidUdevProperty {
    type V = PropertyView;

    open spec fn view(&self) -> PropertyView {
        PropertyView { name: self.name@, value: self.value@ }
    }
}

impl Clone for HidUdevProperty {
    fn clone(&self) -> (out: Self)
        ensures
            out@ == self@,
    {
        HidUdevProperty { name: self.name.clone(), value: self.value.clone() }
    }
}

/// A HID device as udev reports it.
#[derive(Debug)]
pub struct HidUdev {
    pub id: u32,
    pub syspath: String,
    pub sysname: String,
    pub properties: Vec<HidUdevProperty>,
}

/// What a device says of itself.
pub struct DeviceView {
    pub id: u32,
    pub syspath: Seq<char>,
    pub sysname: Seq<char>,
    pub properties: Seq<PropertyView>,
}

impl View for HidUdev {
    type V = DeviceView;

    open spec fn view(&self) -> DeviceView {
        DeviceView {
            id: self.id,
            syspath: self.syspath@,
            sysname: self.sysname@,
            properties: views(self.properties@),
        }
    }
}

impl Clone for HidUdev {
    fn clone(&self) -> (out: Self)
        ensures
            out@ == self@,
    {
        HidUdev {
            id: self.id,
            syspath: self.syspath.clone(),
            sysname: self.sysname.clone(),
            properties: self.udev_properties(),
        }
    }
}

impl HidUdev {
    /// The numeric id of the device.
    pub fn id(&self) -> (id: u32)
        ensures
            id == self.id,
    {
        self.id
    }

    /// The path of the device under `/sys`.
    pub fn syspath(&self) -> (path: String)
        ensures
            path@ == self.syspath@,
    {
        self.syspath.clone()
    }

    /// The kernel's name for the device.
    pub fn sysname(&self) -> (name: String)
        ensures
            name@ == self.sysname@,
    {
        self.sysname.clone()
    }

    /// The properties that the device reports, in their order.
    pub fn udev_properties(&self) -> (props: Vec<HidUdevProperty>)
        ensures
            views(props@) == views(self.properties@),
    {
        copy_properties(self.properties.as_slice())
    }
}

/// A copy of `props`.
pub fn copy_properties(props: &[HidUdevProperty]) -> (out: Vec<HidUdevProperty>)
    ensures
        views(out@) == views(props@),
{
    let mut out: Vec<HidUdevProperty> = Vec::new();
    let mut i: usize = 0;
    while i < props.len()
        invariant
            i <= props.len(),
            views(out@) == views(props@.take(i as int)),
        decreases props.len() - i,
    {
        proof {
            lemma_views_step(props@, i as int);
        }
        out.push(props[i].clone());
        assert(views(out@) =~= views(props@.take(i as int)).push(props[i as int]@));
        i += 1;
    }
    assert(props@.take(i as int) =~= props@);
    out
}

/// Whether some property of `props` is called `name`.
pub open spec fn names(props: Seq<PropertyView>, name: Seq<char>) -> bool {
    exists|i: int| 0 <= i < props.len() && #[trigger] props[i].name == name
}

/// The value of the first property of `props` that is called `name`.
pub open spec fn lookup(props: Seq<PropertyView>, name: Seq<char>) -> Option<Seq<char>>
    decreases props.len(),
{
    if props.len() == 0 {
        None
    } else {
        match lookup(props.drop_last(), name) {
            Some(value) => Some(value),
            None => if props.last().name == name {
                Some(props.last().value)
            } else {
                None
            },
        }
    }
}

/// The properties that a load works with: those of the device that no extra
/// property overrides, in their order, followed by the extra ones.
pub open spec fn merged(device: Seq<PropertyView>, extra: Seq<PropertyView>) -> Seq<
    PropertyView,
> {
    device.filter(|p: PropertyView| !names(extra, p.name)) + extra
}

/// `lookup` finds a value exactly where a property has the name, and then that of
/// the first such property.
pub proof fn lemma_lookup_first(props: Seq<PropertyView>, name: Seq<char>)
    ensures
        lookup(props, name) is Some <==> names(props, name),
        lookup(props, name) matches Some(value) ==> exists|i: int|
            0 <= i < props.len() && #[trigger] props[i].name == name && props[i].value == value
                && forall|j: int| 0 <= j < i ==> (#[trigger] props[j]).name != name,
    decreases props.len(),
{
    if props.len() > 0 {
        let front = props.drop_last();
        lemma_lookup_first(front, name);
        match lookup(front, name) {
            Some(value) => {
                let i = choose|i: int|
                    0 <= i < front.len() && #[trigger] front[i].name == name && front[i].value
                        == value && forall|j: int| 0 <= j < i ==> (#[trigger] front[j]).name
                        != name;
                assert(props[i].name == name && props[i].value == value);
                assert forall|j: int| 0 <= j < i implies (#[trigger] props[j]).name != name by {
                    assert(front[j].name != name);
                }
            },
            None => {
                if props.last().name == name {
                    let i = props.len() - 1;
                    assert(props[i].name == name);
                    assert forall|j: int| 0 <= j < i implies (#[trigger] props[j]).name
                        != name by {
                        assert(front[j].name == props[j].name);
                    }
                } else {
                    assert forall|i: int| 0 <= i < props.len() implies (#[trigger] props[i]).name
                        != name by {
                        if i < front.len() {
                            assert(front[i].name == props[i].name);
                        }
                    }
                }
            },
        }
    }
}

/// Looking a name up in `a + b` looks in `a` first and then in `b`.
pub proof fn lemma_lookup_concat(a: Seq<PropertyView>, b: Seq<PropertyView>, name: Seq<char>)
    ensures
        lookup(a + b, name) == match lookup(a, name) {
            Some(value) => Some(value),
            None => lookup(b, name),
        },
    decreases b.len(),
{
    if b.len() == 0 {
        assert(a + b =~= a);
    } else {
        assert((a + b).drop_last() =~= a + b.drop_last());
        assert((a + b).last() == b.last());
        lemma_lookup_concat(a, b.drop_last(), name);
    }
}

/// Dropping properties of other names does not change what `name` looks up.
pub proof fn lemma_lookup_filter(
    props: Seq<PropertyView>,
    keep: spec_fn(PropertyView) -> bool,
    name: Seq<char>,
)
    requires
        forall|p: PropertyView| p.name == name ==> #[trigger] keep(p),
    ensures
        lookup(props.filter(keep), name) == lookup(props, name),
    decreases props.len(),
{
    reveal(Seq::filter);
    if props.len() > 0 {
        lemma_lookup_filter(props.drop_last(), keep, name);
        let kept = props.drop_last().filter(keep);
        if keep(props.last()) {
            assert(props.filter(keep) == kept.push(props.last()));
            assert(kept.push(props.last()).drop_last() =~= kept);
        } else {
            assert(props.last().name != name);
        }
    }
}

/// An extra property always wins: where `extra` has a property called `name`,
/// the merged properties give `name` the value that `extra` gives it, whatever
/// the device reports under that name.
pub proof fn law_extra_property_wins(
    device: Seq<PropertyView>,
    extra: Seq<PropertyView>,
    name: Seq<char>,
)
    requires
        names(extra, name),
    ensures
        lookup(merged(device, extra), name) == lookup(extra, name),
{
    let keep = |p: PropertyView| !names(extra, p.name);
    let kept = device.filter(keep);
    lemma_lookup_concat(kept, extra, name);
    lemma_lookup_first(kept, name);
    if names(kept, name) {
        let i = choose|i: int| 0 <= i < kept.len() && #[trigger] kept[i].name == name;
        assert(keep(kept[i]));
    }
}

/// A name that no extra property carries keeps the value that the device reports.
pub proof fn law_device_property_stays(
    device: Seq<PropertyView>,
    extra: Seq<PropertyView>,
    name: Seq<char>,
)
    requires
        !names(extra, name),
    ensures
        lookup(merged(device, extra), name) == lookup(device, name),
{
    let keep = |p: PropertyView| !names(extra, p.name);
    lemma_lookup_concat(device.filter(keep), extra, name);
    lemma_lookup_filter(device, keep, name);
    lemma_lookup_first(extra, name);
}

/// The index of the first property of `props` that is called `name`.
pub fn find_property(props: &[HidUdevProperty], name: &str) -> (found: Option<usize>)
    ensures
        found is Some <==> names(views(props@), name@),
        found is None ==> lookup(views(props@), name@) is None,
        found matches Some(i) ==> i < props.len() && props[i as int].name@ == name@ && lookup(
            views(props@),
            name@,
        ) == Some(props[i as int].value@),
{
    let mut i: usize = 0;
    while i < props.len()
        invariant
            i <= props.len(),
            lookup(views(props@.take(i as int)), name@) is None,
            forall|j: int| 0 <= j < i ==> props[j].name@ != name@,
        decreases props.len() - i,
    {
        let ghost before = views(props@.take(i as int));
        let ghost upto = views(props@.take(i + 1));
        assert(upto.drop_last() =~= before);
        assert(upto.last() == props[i as int]@);
        if crate::text::same_text(props[i].name.as_str(), name) {
            proof {
                lemma_lookup_concat(upto, views(props@.skip(i + 1)), name@);
                assert(upto + views(props@.skip(i + 1)) =~= views(props@));
                assert(views(props@)[i as int].name == name@);
            }
            return Some(i);
        }
        i += 1;
    }
    proof {
        assert(props@.take(i as int) =~= props@);
        lemma_lookup_first(views(props@), name@);
    }
    None
}

/// Merges the properties of the device with the extra ones: an extra property
/// replaces every property of the device that has its name.
pub fn merge_properties(device: &[HidUdevProperty], extra: &[HidUdevProperty]) -> (out: Vec<
    HidUdevProperty,
>)
    ensures
        views(out@) == merged(views(device@), views(extra@)),
{
    let ghost keep = |p: PropertyView| !names(views(extra@), p.name);
    let mut out: Vec<HidUdevProperty> = Vec::new();
    let mut i: usize = 0;
    while i < device.len()
        invariant
            i <= device.len(),
            keep == |p: PropertyView| !names(views(extra@), p.name),
            views(out@) == views(device@.take(i as int)).filter(keep),
        decreases device.len() - i,
    {
        let ghost before = views(device@.take(i as int));
        let ghost upto = views(device@.take(i + 1));
        proof {
            reveal(Seq::filter);
            assert(upto.drop_last() =~= before);
            assert(upto.last() == device[i as int]@);
        }
        if find_property(extra, device[i].name.as_str()).is_none() {
            out.push(device[i].clone());
            assert(views(out@) =~= before.filter(keep).push(device[i as int]@));
        }
        i += 1;
    }
    assert(device@.take(i as int) =~= device@);
    let ghost kept = views(out@);
    let mut k: usize = 0;
    while k < extra.len()
        invariant
            k <= extra.len(),
            views(out@) == kept + views(extra@.take(k as int)),
        decreases extra.len() - k,
    {
        proof {
            lemma_views_step(extra@, k as int);
        }
        let ghost before = views(out@);
        out.push(extra[k].clone());
        assert(views(out@) =~= before.push(extra[k as int]@));
        k += 1;
    }
    assert(extra@.take(k as int) =~= extra@);
    out
}

} // verus!
