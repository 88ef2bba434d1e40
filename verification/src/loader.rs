//! The two ways of attaching an object, how one is chosen, and what each does
//! around the load.

use crate::error::{BpfError, ErrnoCodes, ErrorKind, LoaderError};
use crate::hidudev::HidUdev;
use crate::inject::written;
use crate::object::{
    MapType, Object, OpenMapDescriptor, OpenMapView, OpenObject, OpenObjectView,
    ProgramDescriptor, ProgramType, ProgramView,
};
use crate::text::starts_with;
use vstd::prelude::*;

verus! {

/// The way an object is attached: program by program through the tracing
/// skeleton, or as struct-ops maps.
#[derive(Clone, Copy, Debug, PartialEq, Eq, Structural)]
pub enum HidBPFLoader {
    Trace,
    StructOps,
}

/// The tracing way. It needs the attach skeleton, which is set up at most once
/// and may turn out to be unavailable.
#[derive(Clone, Copy, Debug)]
pub struct HidBPFTrace {
    inner: bool,
}

/// The struct-ops way.
#[derive(Clone, Copy, Debug)]
pub struct HidBPFStructOps {}

impl Default for HidBPFStructOps {
    fn default() -> (ops: Self)
        ensures
            ops == (HidBPFStructOps {  }),
    {
        HidBPFStructOps {  }
    }
}

/// Whether `program` is a struct-ops program for HID: its section starts with
/// `struct_ops/hid_`.
pub open spec fn is_hid_struct_ops(program: ProgramView) -> bool {
    program.prog_type == ProgramType::StructOps && "struct_ops/hid_"@.is_prefix_of(
        program.section,
    )
}

/// The way that an object with these programs is attached: as struct-ops if any
/// program is a struct-ops program for HID, else by tracing.
pub open spec fn selected(programs: Seq<ProgramView>) -> HidBPFLoader {
    if exists|i: int| 0 <= i < programs.len() && is_hid_struct_ops(#[trigger] programs[i]) {
        HidBPFLoader::StructOps
    } else {
        HidBPFLoader::Trace
    }
}

/// Whether `program` is a struct-ops program for HID.
pub fn hid_struct_ops(program: &ProgramDescriptor) -> (b: bool)
    ensures
        b == is_hid_struct_ops(program@),
{
    match program.prog_type {
        ProgramType::StructOps => starts_with(program.section.as_str(), "struct_ops/hid_"),
        _ => false,
    }
}

/// Chooses the way of attaching an object that was opened.
pub fn get_bpf_loader(open_object: &OpenObject) -> (loader: HidBPFLoader)
    ensures
        loader == selected(open_object@.programs),
{
    let mut i: usize = 0;
    while i < open_object.programs.len()
        invariant
            i <= open_object.programs.len(),
            forall|j: int| 0 <= j < i ==> !is_hid_struct_ops(#[trigger] open_object@.programs[j]),
        decreases open_object.programs.len() - i,
    {
        if hid_struct_ops(&open_object.programs[i]) {
            assert(is_hid_struct_ops(open_object@.programs[i as int]));
            return HidBPFLoader::StructOps;
        }
        i += 1;
    }
    HidBPFLoader::Trace
}

/// The four bytes of a device id, lowest first.
pub open spec fn device_id_bytes(id: u32) -> Seq<u8> {
    seq![
        (id % 256) as u8,
        ((id / 256) % 256) as u8,
        ((id / 65536) % 256) as u8,
        (id / 16777216) as u8,
    ]
}

/// Whether a map can carry a device id: a struct-ops map with an initial value
/// has at least four bytes of it.
pub open spec fn carries_device_id(map: OpenMapView) -> bool {
    map.map_type == MapType::StructOps ==> (map.initial_value matches Some(data) ==> data.len()
        >= 4)
}

/// Whether an object can be loaded for a device: if it is attached as
/// struct-ops, each of its maps can carry a device id.
pub open spec fn takes_device_id(open_object: OpenObjectView) -> bool {
    selected(open_object.programs) == HidBPFLoader::StructOps ==> forall|i: int|
        0 <= i < open_object.maps.len() ==> carries_device_id(#[trigger] open_object.maps[i])
}

/// A map as it is loaded for the device `id`: the initial value of a struct-ops
/// map starts with the bytes of the id; any other map is as it was.
pub open spec fn for_device(map: OpenMapView, id: u32) -> OpenMapView {
    if map.map_type == MapType::StructOps {
        match map.initial_value {
            Some(data) => OpenMapView {
                initial_value: Some(written(data, 0, device_id_bytes(id))),
                ..map
            },
            None => map,
        }
    } else {
        map
    }
}

/// Whether `open_object` can be loaded for a device.
pub fn can_take_device_id(open_object: &OpenObject) -> (b: bool)
    ensures
        b == takes_device_id(open_object@),
{
    match get_bpf_loader(open_object) {
        HidBPFLoader::Trace => true,
        HidBPFLoader::StructOps => {
            let mut i: usize = 0;
            while i < open_object.maps.len()
                invariant
                    i <= open_object.maps.len(),
                    selected(open_object@.programs) == HidBPFLoader::StructOps,
                    forall|j: int|
                        0 <= j < i ==> carries_device_id(#[trigger] open_object@.maps[j]),
                decreases open_object.maps.len() - i,
            {
                let map = &open_object.maps[i];
                assert(open_object@.maps[i as int] == map@);
                let fits = match map.map_type {
                    MapType::StructOps => match &map.initial_value {
                        Some(data) => data.len() >= 4,
                        None => true,
                    },
                    MapType::Other => true,
                };
                if !fits {
                    assert(!carries_device_id(open_object@.maps[i as int]));
                    return false;
                }
                i += 1;
            }
            true
        },
    }
}

/// The bytes of `id`, lowest first.
pub fn bytes_of_device_id(id: u32) -> (bytes: [u8; 4])
    ensures
        bytes@ == device_id_bytes(id),
{
    let bytes: [u8; 4] = [
        (id % 256) as u8,
        ((id / 256) % 256) as u8,
        ((id / 65536) % 256) as u8,
        (id / 16777216) as u8,
    ];
    assert(bytes@ =~= device_id_bytes(id));
    bytes
}

/// The error of a struct-ops load that the loading library refused: "not found"
/// is what a kernel without struct-ops support for HID answers, so it is
/// reported as unsupported; any other error is handed on.
pub open spec fn struct_ops_load_error(error: LoaderError) -> BpfError {
    if error.kind == ErrorKind::NotFound {
        BpfError::Unsupported
    } else {
        BpfError::LibBPFError { error }
    }
}

impl HidBPFTrace {
    /// The tracing way with the skeleton set up (`true`) or unavailable.
    pub fn new(skeleton: bool) -> (trace: Self)
        ensures
            trace.available() == skeleton,
    {
        HidBPFTrace { inner: skeleton }
    }

    /// Whether the skeleton is there.
    pub closed spec fn available(&self) -> bool {
        self.inner
    }

    /// Whether the skeleton is there.
    #[verifier::when_used_as_spec(available)]
    pub fn is_available(&self) -> (b: bool)
        ensures
            b == self.available(),
    {
        self.inner
    }

    /// Whether an object may be loaded this way: only with the skeleton, else
    /// the load is not supported.
    pub fn load(&self, codes: &ErrnoCodes) -> (out: Result<(), BpfError>)
        ensures
            self.available() ==> out == Ok::<(), BpfError>(()),
            !self.available() ==> out == Err::<(), BpfError>(
                BpfError::OsError { errno: codes.unsupported },
            ),
    {
        if self.inner {
            Ok(())
        } else {
            Err(BpfError::OsError { errno: codes.unsupported })
        }
    }
}

impl HidBPFStructOps {
    /// Whether `error`, met while a struct-ops object was loaded, says that the
    /// kernel lacks struct-ops support for HID.
    pub fn is_unsupported(error: &LoaderError) -> (b: bool)
        ensures
            b == (error.kind == ErrorKind::NotFound),
    {
        match error.kind {
            ErrorKind::NotFound => true,
            _ => false,
        }
    }

    /// The error that a refused struct-ops load is reported as.
    pub fn load_error(error: LoaderError) -> (out: BpfError)
        ensures
            out == struct_ops_load_error(error),
    {
        if Self::is_unsupported(&error) {
            BpfError::Unsupported
        } else {
            BpfError::LibBPFError { error }
        }
    }

    /// Writes the id of the device into one map of an object that is about to
    /// be loaded.
    pub fn prepare_map(map: &mut OpenMapDescriptor, id: u32)
        requires
            carries_device_id(old(map)@),
        ensures
            final(map)@ == for_device(old(map)@, id),
    {
        match map.map_type {
            MapType::StructOps => {
                match &mut map.initial_value {
                    Some(data) => {
                        let bytes = bytes_of_device_id(id);
                        let ghost before = data@;
                        let mut k: usize = 0;
                        while k < 4
                            invariant
                                k <= 4,
                                data.len() == before.len(),
                                before.len() >= 4,
                                bytes@ == device_id_bytes(id),
                                data@ == written(before, 0, bytes@.take(k as int)),
                            decreases 4 - k,
                        {
                            data.set(k, bytes[k]);
                            assert(data@ =~= written(before, 0, bytes@.take(k + 1)));
                            k += 1;
                        }
                        assert(bytes@.take(4) =~= bytes@);
                    },
                    None => {},
                }
            },
            MapType::Other => {},
        }
    }

    /// Prepares an object for its load on behalf of `device`: the initial value
    /// of every struct-ops map starts with the id of the device.
    pub fn load(&self, open_object: &mut OpenObject, device: &HidUdev)
        requires
            forall|i: int|
                0 <= i < old(open_object)@.maps.len() ==> carries_device_id(
                    #[trigger] old(open_object)@.maps[i],
                ),
        ensures
            final(open_object)@.programs == old(open_object)@.programs,
            final(open_object)@.maps == old(open_object)@.maps.map_values(
                |m: OpenMapView| for_device(m, device.id),
            ),
    {
        let ghost before = open_object@;
        let id = device.id();
        let mut i: usize = 0;
        while i < open_object.maps.len()
            invariant
                i <= open_object.maps.len(),
                id == device.id,
                open_object@.programs == before.programs,
                open_object@.maps.len() == before.maps.len(),
                forall|j: int|
                    0 <= j < before.maps.len() ==> carries_device_id(#[trigger] before.maps[j]),
                forall|j: int|
                    0 <= j < i ==> #[trigger] open_object@.maps[j] == for_device(
                        before.maps[j],
                        id,
                    ),
                forall|j: int|
                    i <= j < before.maps.len() ==> #[trigger] open_object@.maps[j]
                        == before.maps[j],
            decreases open_object.maps.len() - i,
        {
            let ghost prev = open_object.maps@;
            let ghost prev_view = open_object@;
            Self::prepare_map(&mut open_object.maps[i], id);
            proof {
                assert(open_object.maps@.len() == prev.len());
                assert(open_object@.maps[i as int] == for_device(prev_view.maps[i as int], id));
                assert forall|j: int| 0 <= j < prev.len() && j != i implies (
                #[trigger] open_object@.maps[j]) == prev_view.maps[j] by {
                    assert(open_object.maps@[j] == prev[j]);
                }
            }
            i += 1;
        }
        assert(open_object@.maps =~= before.maps.map_values(
            |m: OpenMapView| for_device(m, device.id),
        ));
    }
}

/// What a load that the loading library answered with `loaded` gives, by the way
/// the object is attached.
pub open spec fn load_outcome(loader: HidBPFLoader, loaded: Result<Object, LoaderError>) -> Result<
    Object,
    BpfError,
> {
    match loaded {
        Ok(object) => Ok(object),
        Err(error) => match loader {
            HidBPFLoader::Trace => Err(BpfError::LibBPFError { error }),
            HidBPFLoader::StructOps => Err(struct_ops_load_error(error)),
        },
    }
}

impl HidBPFLoader {
    /// What a load that the loading library answered with `loaded` gives.
    pub fn load(&self, loaded: Result<Object, LoaderError>) -> (out: Result<Object, BpfError>)
        ensures
            out == load_outcome(*self, loaded),
    {
        match loaded {
            Ok(object) => Ok(object),
            Err(error) => match self {
                HidBPFLoader::Trace => Err(BpfError::from(error)),
                HidBPFLoader::StructOps => Err(HidBPFStructOps::load_error(error)),
            },
        }
    }
}

} // verus!
