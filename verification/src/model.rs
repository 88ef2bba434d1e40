//! The load of one object for one device, as a sequence of steps.
//!
//! A load cannot be made in one piece: it needs the loading library and the
//! kernel again and again, and what they answer decides how to go on. So the
//! load is a pipeline that names one action at a time and takes the outcome of
//! that action as an event. This module says, over plain values, which action
//! follows which event.

use crate::error::{BpfError, ErrnoCodes, LoaderError};
use crate::hidudev::{DeviceView, PropertyView};
use crate::inject::{injected, Btf, SectionView};
use crate::loader::{for_device, selected, struct_ops_load_error, HidBPFLoader};
use crate::object::{
    has_program, MapDescriptor, MapType, MapView, Object, ObjectView, OpenMapDescriptor,
    OpenMapView, OpenObjectView, ProgramType, ProgramView,
};
use crate::path::{bpffs_path, joined};
use crate::syscall::{
    attach_outcome, hid_bpf_probe_args, padded, pin_outcome, probe_outcome, AttachProgArgs,
    UNSET_RETVAL,
};
use crate::views::views;
use vstd::prelude::*;

verus! {

/// What a pipeline is waiting for.
#[derive(Debug)]
pub enum Stage {
    /// Whether the tracing skeleton is available.
    Skeleton,
    /// The outcome of the load.
    Load,
    /// The type information and the contents of the maps.
    Contents,
    /// The end of the writing back of the maps.
    Update,
    /// The report descriptor of the device.
    Descriptor,
    /// The outcome of the probe.
    Probe,
    /// The outcome of attaching a program.
    TraceAttach { program: usize },
    /// The making of the directory in which the link of a program is pinned.
    TraceMkdir { program: usize, link: i32 },
    /// The outcome of pinning the link of a program.
    TracePin { program: usize },
    /// The making of the directory in which struct-ops maps are pinned.
    OpsMkdir,
    /// The outcome of attaching and pinning a struct-ops map.
    OpsAttach { map: usize },
    /// The outcome of pinning a map.
    PinMap { map: usize },
    /// The removal of what was pinned, after the load failed with this error
    /// while it was attaching and pinning.
    Rollback { error: BpfError },
    /// Nothing: the load is over.
    Done,
}

/// A stage as contracts see it, with mathematical indices.
pub enum StageView {
    Skeleton,
    Load,
    Contents,
    Update,
    Descriptor,
    Probe,
    TraceAttach { program: int },
    TraceMkdir { program: int, link: i32 },
    TracePin { program: int },
    OpsMkdir,
    OpsAttach { map: int },
    PinMap { map: int },
    Rollback { error: BpfError },
    Done,
}

impl View for Stage {
    type V = StageView;

    open spec fn view(&self) -> StageView {
        match *self {
            Stage::Skeleton => StageView::Skeleton,
            Stage::Load => StageView::Load,
            Stage::Contents => StageView::Contents,
            Stage::Update => StageView::Update,
            Stage::Descriptor => StageView::Descriptor,
            Stage::Probe => StageView::Probe,
            Stage::TraceAttach { program } => StageView::TraceAttach { program: program as int },
            Stage::TraceMkdir { program, link } => StageView::TraceMkdir {
                program: program as int,
                link,
            },
            Stage::TracePin { program } => StageView::TracePin { program: program as int },
            Stage::OpsMkdir => StageView::OpsMkdir,
            Stage::OpsAttach { map } => StageView::OpsAttach { map: map as int },
            Stage::PinMap { map } => StageView::PinMap { map: map as int },
            Stage::Rollback { error } => StageView::Rollback { error },
            Stage::Done => StageView::Done,
        }
    }
}

/// A data section with the maps that hold it: the indices of the maps of the
/// loaded object whose names end with the name of the section.
#[derive(Debug)]
pub struct SectionMaps {
    pub section: String,
    pub maps: Vec<usize>,
}

/// A section with its maps as contracts see it.
pub struct SectionMapsView {
    pub section: Seq<char>,
    pub maps: Seq<int>,
}

impl View for SectionMaps {
    type V = SectionMapsView;

    open spec fn view(&self) -> SectionMapsView {
        SectionMapsView {
            section: self.section@,
            maps: self.maps@.map_values(|i: usize| i as int),
        }
    }
}

/// What the caller of a pipeline has to do next.
#[derive(Debug)]
pub enum Action {
    /// Set up the tracing skeleton, unless that was tried before in this
    /// process, and say whether it is available.
    InitTracing,
    /// Give the maps of the opened object these initial values, and load it.
    Load { open_maps: Vec<OpenMapDescriptor> },
    /// Read the type information of the loaded object and, for each of these
    /// sections that the type information describes, the contents of its maps.
    ReadContents { sections: Vec<SectionMaps> },
    /// Write back every entry of these maps that is marked dirty.
    UpdateMaps { updated: Vec<MapDescriptor> },
    /// Read the report descriptor of the device from this file.
    ReadReportDescriptor { path: String },
    /// Run the program `probe` of the object with these arguments.
    RunProbe { probe_args: hid_bpf_probe_args },
    /// Run the attach program of the skeleton with these arguments, for the
    /// program with this index.
    Attach { program: usize, args: AttachProgArgs },
    /// Make this directory and those above it; a failure does not matter.
    CreateDir { path: String },
    /// Pin this link at this path.
    PinLink { link: i32, path: String },
    /// Attach the struct-ops map with this index and pin it at this path.
    AttachStructOps { map: usize, path: String },
    /// Pin the map with this index at this path.
    PinMap { map: usize, path: String },
    /// Remove this directory with all that is in it; a failure does not matter.
    RemoveTree { path: String },
    /// Nothing more: the load ended with this result, on success the paths of
    /// what was attached.
    Finish { result: Result<Vec<String>, BpfError> },
}

/// The arguments of a probe as contracts see them.
pub struct ProbeArgsView {
    pub hid: u32,
    pub rdesc_size: u32,
    pub rdesc: Seq<u8>,
    pub retval: i32,
}

impl View for hid_bpf_probe_args {
    type V = ProbeArgsView;

    open spec fn view(&self) -> ProbeArgsView {
        ProbeArgsView {
            hid: self.hid,
            rdesc_size: self.rdesc_size,
            rdesc: self.rdesc@,
            retval: self.retval,
        }
    }
}

/// An action as contracts see it.
pub enum ActionView {
    InitTracing,
    Load { open_maps: Seq<OpenMapView> },
    ReadContents { sections: Seq<SectionMapsView> },
    UpdateMaps { updated: Seq<MapView> },
    ReadReportDescriptor { path: Seq<char> },
    RunProbe { probe_args: ProbeArgsView },
    Attach { program: int, args: AttachProgArgs },
    CreateDir { path: Seq<char> },
    PinLink { link: i32, path: Seq<char> },
    AttachStructOps { map: int, path: Seq<char> },
    PinMap { map: int, path: Seq<char> },
    RemoveTree { path: Seq<char> },
    Finish { result: Result<Seq<Seq<char>>, BpfError> },
}

/// The result of a load with its paths as character sequences.
pub open spec fn result_view(result: Result<Vec<String>, BpfError>) -> Result<
    Seq<Seq<char>>,
    BpfError,
> {
    match result {
        Ok(paths) => Ok(views(paths@)),
        Err(error) => Err(error),
    }
}

impl View for Action {
    type V = ActionView;

    open spec fn view(&self) -> ActionView {
        match *self {
            Action::InitTracing => ActionView::InitTracing,
            Action::Load { open_maps } => ActionView::Load { open_maps: views(open_maps@) },
            Action::ReadContents { sections } => ActionView::ReadContents {
                sections: views(sections@),
            },
            Action::UpdateMaps { updated } => ActionView::UpdateMaps { updated: views(updated@) },
            Action::ReadReportDescriptor { path } => ActionView::ReadReportDescriptor {
                path: path@,
            },
            Action::RunProbe { probe_args } => ActionView::RunProbe { probe_args: probe_args@ },
            Action::Attach { program, args } => ActionView::Attach {
                program: program as int,
                args,
            },
            Action::CreateDir { path } => ActionView::CreateDir { path: path@ },
            Action::PinLink { link, path } => ActionView::PinLink { link, path: path@ },
            Action::AttachStructOps { map, path } => ActionView::AttachStructOps {
                map: map as int,
                path: path@,
            },
            Action::PinMap { map, path } => ActionView::PinMap { map: map as int, path: path@ },
            Action::RemoveTree { path } => ActionView::RemoveTree { path: path@ },
            Action::Finish { result } => ActionView::Finish { result: result_view(result) },
        }
    }
}

/// The outcome of an action.
#[derive(Debug)]
pub enum Event {
    /// Whether the tracing skeleton is available.
    TracingReady { available: bool },
    /// The loaded object, or why the library did not load it.
    Loaded { loaded: Result<Object, LoaderError> },
    /// The type information of the object, or why it could not be read, and the
    /// object with what its maps hold.
    Contents { btf: Result<Btf, LoaderError>, object: Object },
    /// The bytes that were read.
    Bytes { data: Vec<u8> },
    /// The status of the run of a probe, and its arguments as the kernel left
    /// them.
    ProbeRun { status: i32, probe_args: hid_bpf_probe_args },
    /// The status of the run of the attach program, and its arguments as the
    /// kernel left them.
    AttachRun { status: i32, args: AttachProgArgs },
    /// The status of a kernel call.
    Status { status: i32 },
    /// Whether the library did what was asked, or why not.
    Outcome { result: Result<(), LoaderError> },
    /// The action was carried out; how it went does not matter.
    Done,
}

/// An event as contracts see it.
pub enum EventView {
    TracingReady { available: bool },
    Loaded { loaded: Result<ObjectView, LoaderError> },
    Contents { btf: Result<Seq<SectionView>, LoaderError>, object: ObjectView },
    Bytes { data: Seq<u8> },
    ProbeRun { status: i32, probe_args: ProbeArgsView },
    AttachRun { status: i32, args: AttachProgArgs },
    Status { status: i32 },
    Outcome { result: Result<(), LoaderError> },
    Done,
}

impl View for Event {
    type V = EventView;

    open spec fn view(&self) -> EventView {
        match *self {
            Event::TracingReady { available } => EventView::TracingReady { available },
            Event::Loaded { loaded } => EventView::Loaded {
                loaded: match loaded {
                    Ok(object) => Ok(object@),
                    Err(error) => Err(error),
                },
            },
            Event::Contents { btf, object } => EventView::Contents {
                btf: match btf {
                    Ok(info) => Ok(info@),
                    Err(error) => Err(error),
                },
                object: object@,
            },
            Event::Bytes { data } => EventView::Bytes { data: data@ },
            Event::ProbeRun { status, probe_args } => EventView::ProbeRun {
                status,
                probe_args: probe_args@,
            },
            Event::AttachRun { status, args } => EventView::AttachRun { status, args },
            Event::Status { status } => EventView::Status { status },
            Event::Outcome { result } => EventView::Outcome { result },
            Event::Done => EventView::Done,
        }
    }
}

/// What a pipeline knows between two steps.
pub struct PipelineView {
    /// What it is waiting for.
    pub stage: StageView,
    /// The way the object is attached.
    pub loader: HidBPFLoader,
    /// The error numbers of the target.
    pub codes: ErrnoCodes,
    /// The device.
    pub device: DeviceView,
    /// The extra properties.
    pub extra: Seq<PropertyView>,
    /// The directory of the object on the device.
    pub bpffs_path: Seq<char>,
    /// The maps of the opened object, until it is loaded.
    pub open_maps: Seq<OpenMapView>,
    /// The loaded object.
    pub object: ObjectView,
    /// The paths of what was attached and pinned so far.
    pub attached: Seq<Seq<char>>,
}

/// Whether `e` is the outcome of what `s` waits for.
pub open spec fn expects(s: PipelineView, e: EventView) -> bool {
    match s.stage {
        StageView::Skeleton => e is TracingReady,
        StageView::Load => e is Loaded,
        StageView::Contents => e is Contents,
        StageView::Update => e is Done,
        StageView::Descriptor => e is Bytes,
        StageView::Probe => e is ProbeRun,
        StageView::TraceAttach { .. } => e is AttachRun,
        StageView::TraceMkdir { .. } => e is Done,
        StageView::TracePin { .. } => e is Status,
        StageView::OpsMkdir => e is Done,
        StageView::OpsAttach { .. } => e is Outcome,
        StageView::PinMap { .. } => e is Outcome,
        StageView::Rollback { .. } => e is Done,
        StageView::Done => false,
    }
}

/// The end of a load with `result`.
pub open spec fn finish(s: PipelineView, result: Result<Seq<Seq<char>>, BpfError>) -> (
    PipelineView,
    ActionView,
) {
    (PipelineView { stage: StageView::Done, ..s }, ActionView::Finish { result })
}

/// The failure of a load that may have pinned something: everything of the
/// object on the device is removed before the load ends with `error`.
pub open spec fn rollback(s: PipelineView, error: BpfError) -> (PipelineView, ActionView) {
    (
        PipelineView { stage: StageView::Rollback { error }, ..s },
        ActionView::RemoveTree { path: s.bpffs_path },
    )
}

/// Whether a load in this stage is attaching and pinning, so that something of
/// it may be pinned.
pub open spec fn attaching(stage: StageView) -> bool {
    stage is TraceAttach || stage is TraceMkdir || stage is TracePin || stage is OpsMkdir
        || stage is OpsAttach || stage is PinMap
}

/// The end of a load that was handed an event it did not wait for: the load
/// fails with the error for an invalid argument, after the removal of what it
/// may have pinned.
pub open spec fn stuck(s: PipelineView) -> (PipelineView, ActionView) {
    if attaching(s.stage) {
        rollback(s, BpfError::OsError { errno: s.codes.invalid })
    } else {
        finish(s, Err(BpfError::OsError { errno: s.codes.invalid }))
    }
}

/// Where the artifact `name` of the object is pinned.
pub open spec fn artifact(s: PipelineView, name: Seq<char>) -> Seq<char> {
    joined(s.bpffs_path, name)
}

/// The file that holds the report descriptor of a device.
pub open spec fn report_descriptor_path(device: DeviceView) -> Seq<char> {
    device.syspath + "/report_descriptor"@
}

/// The arguments of a probe of `device` with the report descriptor `data`.
pub open spec fn probe_args(device: DeviceView, data: Seq<u8>) -> ProbeArgsView {
    ProbeArgsView {
        hid: device.id,
        rdesc_size: data.len() as u32,
        rdesc: padded(data),
        retval: UNSET_RETVAL,
    }
}

/// Whether a program is attached by tracing.
pub open spec fn is_tracing(program: ProgramView) -> bool {
    program.prog_type == ProgramType::Tracing
}

/// Whether a map is a struct-ops map.
pub open spec fn is_struct_ops(map: MapView) -> bool {
    map.map_type == MapType::StructOps
}

/// Whether a map is pinned once the object is attached: the compiler's own
/// maps, which have a `.` in their names, are not, nor are struct-ops maps.
pub open spec fn is_pinnable(map: MapView) -> bool {
    !map.name.contains('.') && map.map_type != MapType::StructOps
}

/// The indices of the maps that hold the section `section`, in their order:
/// those whose names end with the name of the section.
pub open spec fn maps_of_section(maps: Seq<MapView>, section: Seq<char>) -> Seq<int>
    decreases maps.len(),
{
    if maps.len() == 0 {
        Seq::empty()
    } else if section.is_suffix_of(maps.last().name) {
        maps_of_section(maps.drop_last(), section).push(maps.len() - 1)
    } else {
        maps_of_section(maps.drop_last(), section)
    }
}

/// The sections that may hold properties, `.bss` and `.data`, each with its
/// maps.
pub open spec fn property_sections(maps: Seq<MapView>) -> Seq<SectionMapsView> {
    seq![
        SectionMapsView { section: ".bss"@, maps: maps_of_section(maps, ".bss"@) },
        SectionMapsView { section: ".data"@, maps: maps_of_section(maps, ".data"@) },
    ]
}

/// The index of the first tracing program from `from` on.
pub open spec fn next_tracing(programs: Seq<ProgramView>, from: int) -> Option<int>
    decreases programs.len() - from,
{
    if from < 0 || from >= programs.len() {
        None
    } else if is_tracing(programs[from]) {
        Some(from)
    } else {
        next_tracing(programs, from + 1)
    }
}

/// The index of the first struct-ops map from `from` on.
pub open spec fn next_struct_ops(maps: Seq<MapView>, from: int) -> Option<int>
    decreases maps.len() - from,
{
    if from < 0 || from >= maps.len() {
        None
    } else if is_struct_ops(maps[from]) {
        Some(from)
    } else {
        next_struct_ops(maps, from + 1)
    }
}

/// The index of the first map from `from` on that is pinned once the object is
/// attached.
pub open spec fn next_pinnable(maps: Seq<MapView>, from: int) -> Option<int>
    decreases maps.len() - from,
{
    if from < 0 || from >= maps.len() {
        None
    } else if is_pinnable(maps[from]) {
        Some(from)
    } else {
        next_pinnable(maps, from + 1)
    }
}

/// The beginning of a load: the pipeline and its first action. An object that
/// is attached by tracing needs the skeleton first; a struct-ops object is
/// loaded at once, its struct-ops maps carrying the id of the device.
pub open spec fn initial(
    open_object: OpenObjectView,
    device: DeviceView,
    object_name: Seq<char>,
    extra: Seq<PropertyView>,
    codes: ErrnoCodes,
) -> (PipelineView, ActionView) {
    let loader = selected(open_object.programs);
    let s = PipelineView {
        stage: StageView::Skeleton,
        loader,
        codes,
        device,
        extra,
        bpffs_path: bpffs_path(device.sysname, object_name),
        open_maps: open_object.maps,
        object: ObjectView { programs: Seq::empty(), maps: Seq::empty() },
        attached: Seq::empty(),
    };
    match loader {
        HidBPFLoader::Trace => (s, ActionView::InitTracing),
        HidBPFLoader::StructOps => (
            PipelineView { stage: StageView::Load, open_maps: Seq::empty(), ..s },
            ActionView::Load {
                open_maps: open_object.maps.map_values(
                    |m: OpenMapView| for_device(m, device.id),
                ),
            },
        ),
    }
}

/// After the skeleton was asked for: without it the load is not supported, with
/// it the object is loaded as it was opened.
pub open spec fn after_skeleton(s: PipelineView, available: bool) -> (PipelineView, ActionView) {
    if available {
        (
            PipelineView { stage: StageView::Load, open_maps: Seq::empty(), ..s },
            ActionView::Load { open_maps: s.open_maps },
        )
    } else {
        finish(s, Err(BpfError::OsError { errno: s.codes.unsupported }))
    }
}

/// After the load: a refusal ends it; of a loaded object the type information
/// and the maps of the sections that may hold properties are read.
pub open spec fn after_load(s: PipelineView, result: Result<ObjectView, LoaderError>) -> (
    PipelineView,
    ActionView,
) {
    match result {
        Ok(object) => (
            PipelineView { stage: StageView::Contents, object, ..s },
            ActionView::ReadContents { sections: property_sections(object.maps) },
        ),
        Err(error) => finish(
            s,
            Err(
                match s.loader {
                    HidBPFLoader::Trace => BpfError::LibBPFError { error },
                    HidBPFLoader::StructOps => struct_ops_load_error(error),
                },
            ),
        ),
    }
}

/// After the contents were read: without type information the load ends; with
/// it the properties are injected into `object`, and its maps go back.
pub open spec fn after_contents(
    s: PipelineView,
    btf: Result<Seq<SectionView>, LoaderError>,
    object: ObjectView,
) -> (PipelineView, ActionView) {
    match btf {
        Ok(info) => (
            PipelineView { stage: StageView::Update, ..s },
            ActionView::UpdateMaps {
                updated: injected(object, info, s.device.properties, s.extra).maps,
            },
        ),
        Err(error) => finish(s, Err(BpfError::LibBPFError { error })),
    }
}

/// The probe: an object with a program called `probe` is asked whether it wants
/// the device, for which the report descriptor is read first; any other object
/// is attached at once.
pub open spec fn probe(s: PipelineView) -> (PipelineView, ActionView) {
    if has_program(s.object.programs, "probe"@) {
        (
            PipelineView { stage: StageView::Descriptor, ..s },
            ActionView::ReadReportDescriptor { path: report_descriptor_path(s.device) },
        )
    } else {
        attach_and_pin(s)
    }
}

/// After the report descriptor was read: the probe is run.
pub open spec fn after_descriptor(s: PipelineView, data: Seq<u8>) -> (PipelineView, ActionView) {
    (
        PipelineView { stage: StageView::Probe, ..s },
        ActionView::RunProbe { probe_args: probe_args(s.device, data) },
    )
}

/// After the probe: only an object whose probe ran and returned zero is
/// attached; any other outcome ends the load with its error.
pub open spec fn after_probe(s: PipelineView, status: i32, retval: i32) -> (
    PipelineView,
    ActionView,
) {
    match probe_outcome(status, retval) {
        Ok(_) => attach_and_pin(s),
        Err(error) => finish(s, Err(error)),
    }
}

/// The beginning of the attachment, by the way of the object.
pub open spec fn attach_and_pin(s: PipelineView) -> (PipelineView, ActionView) {
    match s.loader {
        HidBPFLoader::Trace => load_progs(s, 0),
        HidBPFLoader::StructOps => (
            PipelineView { stage: StageView::OpsMkdir, ..s },
            ActionView::CreateDir { path: s.bpffs_path },
        ),
    }
}

/// Tracing, from the program `from` on: the next tracing program is attached;
/// when none is left, the load fails if nothing was attached, and goes on to
/// the maps otherwise.
pub open spec fn load_progs(s: PipelineView, from: int) -> (PipelineView, ActionView) {
    match next_tracing(s.object.programs, from) {
        Some(program) => (
            PipelineView { stage: StageView::TraceAttach { program }, ..s },
            ActionView::Attach {
                program,
                args: AttachProgArgs {
                    prog_fd: s.object.programs[program].fd,
                    hid: s.device.id,
                    retval: UNSET_RETVAL,
                },
            },
        ),
        None => if s.attached.len() == 0 {
            finish(s, Err(BpfError::OsError { errno: s.codes.invalid }))
        } else {
            pin_maps(s, 0)
        },
    }
}

/// After the attach run of `program`: with a link the directory is made for it;
/// without one the program is passed over.
pub open spec fn after_attach(s: PipelineView, program: int, status: i32, retval: i32) -> (
    PipelineView,
    ActionView,
) {
    match attach_outcome(status, retval) {
        Ok(link) => (
            PipelineView { stage: StageView::TraceMkdir { program, link }, ..s },
            ActionView::CreateDir { path: s.bpffs_path },
        ),
        Err(_) => load_progs(s, program + 1),
    }
}

/// After the directory was made: the link of `program` is pinned under the name
/// of the program.
pub open spec fn load_prog(s: PipelineView, program: int, link: i32) -> (
    PipelineView,
    ActionView,
) {
    (
        PipelineView { stage: StageView::TracePin { program }, ..s },
        ActionView::PinLink { link, path: artifact(s, s.object.programs[program].name) },
    )
}

/// After the link of `program` was pinned: its path counts as attached if the
/// kernel answered zero, and the next program is tried either way.
pub open spec fn after_link_pin(s: PipelineView, program: int, status: i32) -> (
    PipelineView,
    ActionView,
) {
    match pin_outcome(status) {
        Ok(_) => load_progs(
            PipelineView {
                attached: s.attached.push(artifact(s, s.object.programs[program].name)),
                ..s
            },
            program + 1,
        ),
        Err(_) => load_progs(s, program + 1),
    }
}

/// Struct-ops, from the map `from` on: the next struct-ops map is attached and
/// pinned under its name; when none is left, the load goes on to the other maps.
pub open spec fn struct_ops_from(s: PipelineView, from: int) -> (PipelineView, ActionView) {
    match next_struct_ops(s.object.maps, from) {
        Some(map) => (
            PipelineView { stage: StageView::OpsAttach { map }, ..s },
            ActionView::AttachStructOps { map, path: artifact(s, s.object.maps[map].name) },
        ),
        None => pin_maps(s, 0),
    }
}

/// After a struct-ops map was attached and pinned: a failure of one map fails
/// the load, and what the maps before it pinned is removed; otherwise its path
/// counts and the next map follows.
pub open spec fn after_struct_ops(s: PipelineView, map: int, result: Result<(), LoaderError>) -> (
    PipelineView,
    ActionView,
) {
    match result {
        Ok(_) => struct_ops_from(
            PipelineView { attached: s.attached.push(artifact(s, s.object.maps[map].name)), ..s },
            map + 1,
        ),
        Err(error) => rollback(s, BpfError::LibBPFError { error }),
    }
}

/// The pinning of the maps, from the map `from` on: the next map that is pinned
/// at all is pinned under its name; when none is left, the load has succeeded,
/// and the paths of what was attached leave the pipeline as its result.
pub open spec fn pin_maps(s: PipelineView, from: int) -> (PipelineView, ActionView) {
    match next_pinnable(s.object.maps, from) {
        Some(map) => (
            PipelineView { stage: StageView::PinMap { map }, ..s },
            ActionView::PinMap { map, path: artifact(s, s.object.maps[map].name) },
        ),
        None => finish(PipelineView { attached: Seq::empty(), ..s }, Ok(s.attached)),
    }
}

/// After a map was pinned: a failure has everything of the object on the device
/// removed; otherwise the next map follows.
pub open spec fn after_map_pin(s: PipelineView, map: int, result: Result<(), LoaderError>) -> (
    PipelineView,
    ActionView,
) {
    match result {
        Ok(_) => pin_maps(s, map + 1),
        Err(error) => rollback(s, BpfError::LibBPFError { error }),
    }
}

/// The step of a pipeline `s` on the event `e`: the pipeline after it, and the
/// action that it asks for. An event that `s` does not wait for fails the load.
pub open spec fn next(s: PipelineView, e: EventView) -> (PipelineView, ActionView) {
    match s.stage {
        StageView::Skeleton => match e {
            EventView::TracingReady { available } => after_skeleton(s, available),
            _ => stuck(s),
        },
        StageView::Load => match e {
            EventView::Loaded { loaded } => after_load(s, loaded),
            _ => stuck(s),
        },
        StageView::Contents => match e {
            EventView::Contents { btf, object } => after_contents(s, btf, object),
            _ => stuck(s),
        },
        StageView::Update => match e {
            EventView::Done => probe(s),
            _ => stuck(s),
        },
        StageView::Descriptor => match e {
            EventView::Bytes { data } => after_descriptor(s, data),
            _ => stuck(s),
        },
        StageView::Probe => match e {
            EventView::ProbeRun { status, probe_args } => after_probe(
                s,
                status,
                probe_args.retval,
            ),
            _ => stuck(s),
        },
        StageView::TraceAttach { program } => match e {
            EventView::AttachRun { status, args } => after_attach(s, program, status, args.retval),
            _ => stuck(s),
        },
        StageView::TraceMkdir { program, link } => match e {
            EventView::Done => load_prog(s, program, link),
            _ => stuck(s),
        },
        StageView::TracePin { program } => match e {
            EventView::Status { status } => after_link_pin(s, program, status),
            _ => stuck(s),
        },
        StageView::OpsMkdir => match e {
            EventView::Done => struct_ops_from(s, 0),
            _ => stuck(s),
        },
        StageView::OpsAttach { map } => match e {
            EventView::Outcome { result } => after_struct_ops(s, map, result),
            _ => stuck(s),
        },
        StageView::PinMap { map } => match e {
            EventView::Outcome { result } => after_map_pin(s, map, result),
            _ => stuck(s),
        },
        StageView::Rollback { error } => match e {
            EventView::Done => finish(s, Err(error)),
            _ => stuck(s),
        },
        StageView::Done => stuck(s),
    }
}

} // verus!
