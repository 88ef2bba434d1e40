//! Plain descriptions of a BPF object: its programs, its maps, and what the maps
//! hold.

use crate::views::{bytes_view, views};
use vstd::prelude::*;

verus! {

/// The kinds of program that a load tells apart.
#[derive(Clone, Copy, Debug, PartialEq, Eq, Structural)]
pub enum ProgramType {
    Tracing,
    StructOps,
    Other,
}

/// The kinds of map that a load tells apart.
#[derive(Clone, Copy, Debug, PartialEq, Eq, Structural)]
pub enum MapType {
    StructOps,
    Other,
}

/// One program of an object. `fd` is its file descriptor once the object is
/// loaded.
#[derive(Debug)]
pub struct ProgramDescriptor {
    pub name: String,
    pub section: String,
    pub prog_type: ProgramType,
    pub fd: i32,
}

/// A program as contracts see it.
pub struct ProgramView {
    pub name: Seq<char>,
    pub section: Seq<char>,
    pub prog_type: ProgramType,
    pub fd: i32,
}

impl View for ProgramDescriptor {
    type V = ProgramView;

    open spec fn view(&self) -> ProgramView {
        ProgramView {
            name: self.name@,
            section: self.section@,
            prog_type: self.prog_type,
            fd: self.fd,
        }
    }
}

/// One map of an object that is not loaded yet, with the value that it will
/// start from, if it has one.
#[derive(Debug)]
pub struct OpenMapDescriptor {
    pub name: String,
    pub map_type: MapType,
    pub initial_value: Option<Vec<u8>>,
}

/// A map of an opened object as contracts see it.
pub struct OpenMapView {
    pub name: Seq<char>,
    pub map_type: MapType,
    pub initial_value: Option<Seq<u8>>,
}

impl View for OpenMapDescriptor {
    type V = OpenMapView;

    open spec fn view(&self) -> OpenMapView {
        OpenMapView {
            name: self.name@,
            map_type: self.map_type,
            initial_value: bytes_view(self.initial_value),
        }
    }
}

/// One key of a loaded map with the value found under it, if any. `dirty` says
/// that the value here is newer than the kernel's and has to be written back.
#[derive(Debug)]
pub struct MapEntry {
    pub key: Vec<u8>,
    pub value: Option<Vec<u8>>,
    pub dirty: bool,
}

/// An entry of a map as contracts see it.
pub struct EntryView {
    pub key: Seq<u8>,
    pub value: Option<Seq<u8>>,
    pub dirty: bool,
}

impl View for MapEntry {
    type V = EntryView;

    open spec fn view(&self) -> EntryView {
        EntryView { key: self.key@, value: bytes_view(self.value), dirty: self.dirty }
    }
}

/// One map of a loaded object.
#[derive(Debug)]
pub struct MapDescriptor {
    pub name: String,
    pub map_type: MapType,
    pub entries: Vec<MapEntry>,
}

/// A map of a loaded object as contracts see it.
pub struct MapView {
    pub name: Seq<char>,
    pub map_type: MapType,
    pub entries: Seq<EntryView>,
}

impl View for MapDescriptor {
    type V = MapView;

    open spec fn view(&self) -> MapView {
        MapView { name: self.name@, map_type: self.map_type, entries: views(self.entries@) }
    }
}

/// An object that was opened and is not loaded yet.
#[derive(Debug)]
pub struct OpenObject {
    pub programs: Vec<ProgramDescriptor>,
    pub maps: Vec<OpenMapDescriptor>,
}

/// An opened object as contracts see it.
pub struct OpenObjectView {
    pub programs: Seq<ProgramView>,
    pub maps: Seq<OpenMapView>,
}

impl View for OpenObject {
    type V = OpenObjectView;

    open spec fn view(&self) -> OpenObjectView {
        OpenObjectView { programs: views(self.programs@), maps: views(self.maps@) }
    }
}

/// A loaded object.
#[derive(Debug)]
pub struct Object {
    pub programs: Vec<ProgramDescriptor>,
    pub maps: Vec<MapDescriptor>,
}

/// A loaded object as contracts see it.
pub struct ObjectView {
    pub programs: Seq<ProgramView>,
    pub maps: Seq<MapView>,
}

impl View for Object {
    type V = ObjectView;

    open spec fn view(&self) -> ObjectView {
        ObjectView { programs: views(self.programs@), maps: views(self.maps@) }
    }
}

/// Whether a program of `programs` is called `name`.
pub open spec fn has_program(programs: Seq<ProgramView>, name: Seq<char>) -> bool {
    exists|i: int| 0 <= i < programs.len() && #[trigger] programs[i].name == name
}

impl Object {
    /// Whether the object has a program called `name`.
    pub fn prog(&self, name: &str) -> (found: bool)
        ensures
            found == has_program(self@.programs, name@),
    {
        let mut i: usize = 0;
        while i < self.programs.len()
            invariant
                i <= self.programs.len(),
                forall|j: int| 0 <= j < i ==> self.programs@[j].name@ != name@,
            decreases self.programs.len() - i,
        {
            if crate::text::same_text(self.programs[i].name.as_str(), name) {
                assert(self@.programs[i as int].name == name@);
                return true;
            }
            i += 1;
        }
        assert forall|j: int| 0 <= j < self@.programs.len() implies (
        #[trigger] self@.programs[j]).name != name@ by {
            assert(self.programs@[j].name@ != name@);
        }
        false
    }
}

} // verus!
