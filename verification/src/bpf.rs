//! The pipeline that loads one object for one device.

use crate::error::{BpfError, ErrnoCodes, LoaderError};
use crate::hidudev::{copy_properties, HidUdev, HidUdevProperty};
use crate::inject::Btf;
use crate::loader::{
    get_bpf_loader, takes_device_id, HidBPFLoader, HidBPFStructOps, HidBPFTrace,
};
use crate::model::{
    after_attach, after_contents, after_descriptor, after_link_pin, after_load, after_map_pin,
    after_probe, after_skeleton, after_struct_ops, attach_and_pin, expects, finish, initial,
    load_prog, load_progs, next, next_pinnable, next_struct_ops, next_tracing, pin_maps, probe,
    maps_of_section, property_sections, result_view, rollback, struct_ops_from, Action,
    ActionView, Event, PipelineView, SectionMaps, Stage,
};
use crate::object::{
    MapDescriptor, MapType, Object, OpenMapDescriptor, OpenObject, ProgramDescriptor, ProgramType,
};
use crate::path::{bpffs_path, get_bpffs_path, join};
use crate::syscall::{
    hid_bpf_probe_args, pin_hid_bpf_prog, run_syscall_prog_attach, run_syscall_prog_probe,
    AttachProgArgs,
};
use crate::text::{contains_char, ends_with};
use crate::views::{lemma_views_step, views};
use vstd::prelude::*;
use vstd::string::StringExecFns;

verus! {

/// A load of one object for one device, between two steps. It is made by
/// `load_programs`, which names the first action; `step` takes the outcome of
/// the action named last and names the next one, until that is
/// `Action::Finish`.
pub struct HidBPF {
    stage: Stage,
    loader: HidBPFLoader,
    codes: ErrnoCodes,
    device: HidUdev,
    extra: Vec<HidUdevProperty>,
    bpffs_path: String,
    open_maps: Vec<OpenMapDescriptor>,
    object: Object,
    attached: Vec<String>,
}

impl View for HidBPF {
    type V = PipelineView;

    closed spec fn view(&self) -> PipelineView {
        PipelineView {
            stage: self.stage@,
            loader: self.loader,
            codes: self.codes,
            device: self.device@,
            extra: views(self.extra@),
            bpffs_path: self.bpffs_path@,
            open_maps: views(self.open_maps@),
            object: self.object@,
            attached: views(self.attached@),
        }
    }
}

/// What removes everything that is pinned for the device `sysname`: the removal
/// of its directory under the HID root of the BPF filesystem.
pub fn remove_bpf_objects(sysname: &str) -> (action: Action)
    ensures
        action@ == (ActionView::RemoveTree { path: bpffs_path(sysname@, Seq::empty()) }),
{
    proof {
        reveal_strlit("");
    }
    assert(""@ =~= Seq::<char>::empty());
    Action::RemoveTree { path: get_bpffs_path(sysname, "") }
}

/// The indices of the maps of `maps` whose names end with `section`.
fn find_maps_of_section(maps: &Vec<MapDescriptor>, section: &str) -> (found: Vec<usize>)
    ensures
        found@.map_values(|i: usize| i as int) == maps_of_section(views(maps@), section@),
{
    let mut found: Vec<usize> = Vec::new();
    let mut j: usize = 0;
    while j < maps.len()
        invariant
            j <= maps.len(),
            found@.map_values(|i: usize| i as int) == maps_of_section(
                views(maps@.take(j as int)),
                section@,
            ),
        decreases maps.len() - j,
    {
        proof {
            lemma_views_step(maps@, j as int);
            assert(views(maps@.take(j + 1)).drop_last() =~= views(maps@.take(j as int)));
        }
        let ghost before = found@;
        if ends_with(maps[j].name.as_str(), section) {
            found.push(j);
            assert(found@.map_values(|i: usize| i as int) =~= before.map_values(
                |i: usize| i as int,
            ).push(j as int));
        }
        j += 1;
    }
    assert(maps@.take(j as int) =~= maps@);
    found
}

/// The sections that may hold properties, each with its maps among `maps`.
fn find_property_sections(maps: &Vec<MapDescriptor>) -> (found: Vec<SectionMaps>)
    ensures
        views(found@) == property_sections(views(maps@)),
{
    let mut found: Vec<SectionMaps> = Vec::new();
    found.push(
        SectionMaps {
            section: String::from_str(".bss"),
            maps: find_maps_of_section(maps, ".bss"),
        },
    );
    found.push(
        SectionMaps {
            section: String::from_str(".data"),
            maps: find_maps_of_section(maps, ".data"),
        },
    );
    assert(views(found@) =~= property_sections(views(maps@)));
    found
}

/// The first tracing program of `programs` from `from` on.
fn find_tracing(programs: &Vec<ProgramDescriptor>, from: usize) -> (found: Option<usize>)
    requires
        from <= programs.len(),
    ensures
        found matches Some(j) ==> j < programs.len() && next_tracing(
            views(programs@),
            from as int,
        ) == Some(j as int),
        found is None ==> next_tracing(views(programs@), from as int) is None,
{
    let mut j: usize = from;
    while j < programs.len()
        invariant
            from <= j <= programs.len(),
            next_tracing(views(programs@), from as int) == next_tracing(
                views(programs@),
                j as int,
            ),
        decreases programs.len() - j,
    {
        assert(views(programs@)[j as int] == programs@[j as int]@);
        match programs[j].prog_type {
            ProgramType::Tracing => {
                return Some(j);
            },
            _ => {},
        }
        j += 1;
    }
    None
}

/// The first struct-ops map of `maps` from `from` on.
fn find_struct_ops(maps: &Vec<MapDescriptor>, from: usize) -> (found: Option<usize>)
    requires
        from <= maps.len(),
    ensures
        found matches Some(j) ==> j < maps.len() && next_struct_ops(views(maps@), from as int)
            == Some(j as int),
        found is None ==> next_struct_ops(views(maps@), from as int) is None,
{
    let mut j: usize = from;
    while j < maps.len()
        invariant
            from <= j <= maps.len(),
            next_struct_ops(views(maps@), from as int) == next_struct_ops(views(maps@), j as int),
        decreases maps.len() - j,
    {
        assert(views(maps@)[j as int] == maps@[j as int]@);
        match maps[j].map_type {
            MapType::StructOps => {
                return Some(j);
            },
            MapType::Other => {},
        }
        j += 1;
    }
    None
}

/// The first map of `maps` from `from` on that is pinned once the object is
/// attached.
fn find_pinnable(maps: &Vec<MapDescriptor>, from: usize) -> (found: Option<usize>)
    requires
        from <= maps.len(),
    ensures
        found matches Some(j) ==> j < maps.len() && next_pinnable(views(maps@), from as int)
            == Some(j as int),
        found is None ==> next_pinnable(views(maps@), from as int) is None,
{
    let mut j: usize = from;
    while j < maps.len()
        invariant
            from <= j <= maps.len(),
            next_pinnable(views(maps@), from as int) == next_pinnable(views(maps@), j as int),
        decreases maps.len() - j,
    {
        assert(views(maps@)[j as int] == maps@[j as int]@);
        match maps[j].map_type {
            MapType::Other => {
                if !contains_char(maps[j].name.as_str(), '.') {
                    return Some(j);
                }
            },
            MapType::StructOps => {},
        }
        j += 1;
    }
    None
}

impl HidBPF {
    #[verifier::type_invariant]
    spec fn cursor_in_range(self) -> bool {
        match self.stage {
            Stage::TraceAttach { program } => program < self.object.programs.len(),
            Stage::TraceMkdir { program, .. } => program < self.object.programs.len(),
            Stage::TracePin { program } => program < self.object.programs.len(),
            Stage::OpsAttach { map } => map < self.object.maps.len(),
            Stage::PinMap { map } => map < self.object.maps.len(),
            _ => true,
        }
    }

    /// Whether the load is over.
    pub fn is_done(&self) -> (done: bool)
        ensures
            done == (self@.stage is Done),
    {
        match self.stage {
            Stage::Done => true,
            _ => false,
        }
    }

    /// Whether `event` is the outcome of what the pipeline waits for.
    pub fn expects(&self, event: &Event) -> (b: bool)
        ensures
            b == expects(self@, event@),
    {
        match self.stage {
            Stage::Skeleton => matches!(event, Event::TracingReady { .. }),
            Stage::Load => matches!(event, Event::Loaded { .. }),
            Stage::Contents => matches!(event, Event::Contents { .. }),
            Stage::Update => matches!(event, Event::Done),
            Stage::Descriptor => matches!(event, Event::Bytes { .. }),
            Stage::Probe => matches!(event, Event::ProbeRun { .. }),
            Stage::TraceAttach { .. } => matches!(event, Event::AttachRun { .. }),
            Stage::TraceMkdir { .. } => matches!(event, Event::Done),
            Stage::TracePin { .. } => matches!(event, Event::Status { .. }),
            Stage::OpsMkdir => matches!(event, Event::Done),
            Stage::OpsAttach { .. } => matches!(event, Event::Outcome { .. }),
            Stage::PinMap { .. } => matches!(event, Event::Outcome { .. }),
            Stage::Rollback { .. } => matches!(event, Event::Done),
            Stage::Done => false,
        }
    }

    /// Begins the load of the object `open_object`, called `object_name`, for
    /// `device`, with the extra properties `properties`.
    pub fn load_programs(
        object_name: &str,
        open_object: OpenObject,
        device: &HidUdev,
        properties: &[HidUdevProperty],
    ) -> (out: (HidBPF, Action))
        requires
            takes_device_id(open_object@),
        ensures
            (out.0@, out.1@) == initial(
                open_object@,
                device@,
                object_name@,
                views(properties@),
                out.0@.codes,
            ),
    {
        let loader = get_bpf_loader(&open_object);
        let mut open_object = open_object;
        let bpffs_path = get_bpffs_path(device.sysname.as_str(), object_name);
        let object = Object { programs: Vec::new(), maps: Vec::new() };
        assert(object@.programs =~= Seq::empty() && object@.maps =~= Seq::empty());
        let attached: Vec<String> = Vec::new();
        assert(views(attached@) =~= Seq::empty());
        match loader {
            HidBPFLoader::Trace => {
                let pipeline = HidBPF {
                    stage: Stage::Skeleton,
                    loader,
                    codes: ErrnoCodes::platform(),
                    device: device.clone(),
                    extra: copy_properties(properties),
                    bpffs_path,
                    open_maps: open_object.maps,
                    object,
                    attached,
                };
                (pipeline, Action::InitTracing)
            },
            HidBPFLoader::StructOps => {
                HidBPFStructOps::default().load(&mut open_object, device);
                let open_maps: Vec<OpenMapDescriptor> = Vec::new();
                assert(views(open_maps@) =~= Seq::empty());
                let pipeline = HidBPF {
                    stage: Stage::Load,
                    loader,
                    codes: ErrnoCodes::platform(),
                    device: device.clone(),
                    extra: copy_properties(properties),
                    bpffs_path,
                    open_maps,
                    object,
                    attached,
                };
                (pipeline, Action::Load { open_maps: open_object.maps })
            },
        }
    }

    fn finish(self, result: Result<Vec<String>, BpfError>) -> (out: (HidBPF, Action))
        ensures
            (out.0@, out.1@) == finish(self@, result_view(result)),
    {
        (HidBPF { stage: Stage::Done, ..self }, Action::Finish { result })
    }

    fn rollback(self, error: BpfError) -> (out: (HidBPF, Action))
        ensures
            (out.0@, out.1@) == rollback(self@, error),
    {
        let path = self.bpffs_path.clone();
        (HidBPF { stage: Stage::Rollback { error }, ..self }, Action::RemoveTree { path })
    }

    /// The failure on an event that was not waited for; `attaching` says whether
    /// the load was attaching and pinning.
    fn stuck(self, attaching: bool) -> (out: (HidBPF, Action))
        ensures
            attaching ==> (out.0@, out.1@) == rollback(
                self@,
                BpfError::OsError { errno: self@.codes.invalid },
            ),
            !attaching ==> (out.0@, out.1@) == finish(
                self@,
                Err(BpfError::OsError { errno: self@.codes.invalid }),
            ),
    {
        let errno = self.codes.invalid;
        if attaching {
            self.rollback(BpfError::OsError { errno })
        } else {
            self.finish(Err(BpfError::OsError { errno }))
        }
    }

    fn after_skeleton(self, available: bool) -> (out: (HidBPF, Action))
        ensures
            (out.0@, out.1@) == after_skeleton(self@, available),
    {
        match HidBPFTrace::new(available).load(&self.codes) {
            Ok(_) => {
                let open_maps = self.open_maps;
                let none: Vec<OpenMapDescriptor> = Vec::new();
                assert(views(none@) =~= Seq::empty());
                (HidBPF { stage: Stage::Load, open_maps: none, ..self }, Action::Load { open_maps })
            },
            Err(error) => self.finish(Err(error)),
        }
    }

    fn after_load(self, result: Result<Object, LoaderError>) -> (out: (HidBPF, Action))
        ensures
            (out.0@, out.1@) == after_load(
                self@,
                match result {
                    Ok(object) => Ok(object@),
                    Err(error) => Err(error),
                },
            ),
    {
        match self.loader.load(result) {
            Ok(object) => {
                let sections = find_property_sections(&object.maps);
                (
                    HidBPF { stage: Stage::Contents, object, ..self },
                    Action::ReadContents { sections },
                )
            },
            Err(error) => self.finish(Err(error)),
        }
    }

    fn after_contents(self, btf: Result<Btf, LoaderError>, object: Object) -> (out: (
        HidBPF,
        Action,
    ))
        ensures
            (out.0@, out.1@) == after_contents(
                self@,
                match btf {
                    Ok(info) => Ok(info@),
                    Err(error) => Err(error),
                },
                object@,
            ),
    {
        let mut object = object;
        match self.loader.inject_udev_properties(
            &mut object,
            btf,
            &self.device,
            self.extra.as_slice(),
        ) {
            Ok(_) => (
                HidBPF { stage: Stage::Update, ..self },
                Action::UpdateMaps { updated: object.maps },
            ),
            Err(error) => self.finish(Err(error)),
        }
    }

    fn probe(self) -> (out: (HidBPF, Action))
        ensures
            (out.0@, out.1@) == probe(self@),
    {
        if self.object.prog("probe") {
            let mut path = String::from_str(self.device.syspath.as_str());
            path.append("/report_descriptor");
            (HidBPF { stage: Stage::Descriptor, ..self }, Action::ReadReportDescriptor { path })
        } else {
            self.attach_and_pin()
        }
    }

    fn after_descriptor(self, data: Vec<u8>) -> (out: (HidBPF, Action))
        ensures
            (out.0@, out.1@) == after_descriptor(self@, data@),
    {
        let probe_args = hid_bpf_probe_args::from(self.device.id, data.as_slice());
        (HidBPF { stage: Stage::Probe, ..self }, Action::RunProbe { probe_args })
    }

    fn after_probe(self, status: i32, probe_args: hid_bpf_probe_args) -> (out: (HidBPF, Action))
        ensures
            (out.0@, out.1@) == after_probe(self@, status, probe_args.retval),
    {
        match run_syscall_prog_probe(status, probe_args) {
            Ok(_) => self.attach_and_pin(),
            Err(error) => self.finish(Err(error)),
        }
    }

    fn attach_and_pin(self) -> (out: (HidBPF, Action))
        ensures
            (out.0@, out.1@) == attach_and_pin(self@),
    {
        match self.loader {
            HidBPFLoader::Trace => self.load_progs(0),
            HidBPFLoader::StructOps => {
                let path = self.bpffs_path.clone();
                (HidBPF { stage: Stage::OpsMkdir, ..self }, Action::CreateDir { path })
            },
        }
    }

    fn load_progs(self, from: usize) -> (out: (HidBPF, Action))
        requires
            from <= self.object.programs.len(),
        ensures
            (out.0@, out.1@) == load_progs(self@, from as int),
    {
        match find_tracing(&self.object.programs, from) {
            Some(program) => {
                let args = AttachProgArgs::new(self.object.programs[program].fd, self.device.id);
                assert(self@.object.programs[program as int]
                    == self.object.programs@[program as int]@);
                (
                    HidBPF { stage: Stage::TraceAttach { program }, ..self },
                    Action::Attach { program, args },
                )
            },
            None => {
                if self.attached.len() == 0 {
                    let errno = self.codes.invalid;
                    self.finish(Err(BpfError::OsError { errno }))
                } else {
                    self.pin_maps(0)
                }
            },
        }
    }

    fn after_attach(self, program: usize, status: i32, args: AttachProgArgs) -> (out: (
        HidBPF,
        Action,
    ))
        requires
            program < self.object.programs.len(),
        ensures
            (out.0@, out.1@) == after_attach(self@, program as int, status, args.retval),
    {
        match run_syscall_prog_attach(status, args) {
            Ok(link) => {
                let path = self.bpffs_path.clone();
                (
                    HidBPF { stage: Stage::TraceMkdir { program, link }, ..self },
                    Action::CreateDir { path },
                )
            },
            Err(_) => self.load_progs(program + 1),
        }
    }

    fn load_prog(self, program: usize, link: i32) -> (out: (HidBPF, Action))
        requires
            program < self.object.programs.len(),
        ensures
            (out.0@, out.1@) == load_prog(self@, program as int, link),
    {
        let path = join(self.bpffs_path.as_str(), self.object.programs[program].name.as_str());
        assert(self@.object.programs[program as int] == self.object.programs@[program as int]@);
        (HidBPF { stage: Stage::TracePin { program }, ..self }, Action::PinLink { link, path })
    }

    fn after_link_pin(self, program: usize, status: i32) -> (out: (HidBPF, Action))
        requires
            program < self.object.programs.len(),
        ensures
            (out.0@, out.1@) == after_link_pin(self@, program as int, status),
    {
        proof {
            use_type_invariant(&self);
        }
        match pin_hid_bpf_prog(status) {
            Ok(_) => {
                let path = join(
                    self.bpffs_path.as_str(),
                    self.object.programs[program].name.as_str(),
                );
                assert(self@.object.programs[program as int]
                    == self.object.programs@[program as int]@);
                let mut attached = self.attached;
                let ghost before = attached@;
                attached.push(path);
                assert(views(attached@) =~= views(before).push(path@));
                HidBPF { attached, ..self }.load_progs(program + 1)
            },
            Err(_) => self.load_progs(program + 1),
        }
    }

    fn struct_ops_from(self, from: usize) -> (out: (HidBPF, Action))
        requires
            from <= self.object.maps.len(),
        ensures
            (out.0@, out.1@) == struct_ops_from(self@, from as int),
    {
        match find_struct_ops(&self.object.maps, from) {
            Some(map) => {
                let path = join(self.bpffs_path.as_str(), self.object.maps[map].name.as_str());
                assert(self@.object.maps[map as int] == self.object.maps@[map as int]@);
                (
                    HidBPF { stage: Stage::OpsAttach { map }, ..self },
                    Action::AttachStructOps { map, path },
                )
            },
            None => self.pin_maps(0),
        }
    }

    fn after_struct_ops(self, map: usize, result: Result<(), LoaderError>) -> (out: (
        HidBPF,
        Action,
    ))
        requires
            map < self.object.maps.len(),
        ensures
            (out.0@, out.1@) == after_struct_ops(self@, map as int, result),
    {
        proof {
            use_type_invariant(&self);
        }
        match result {
            Ok(_) => {
                let path = join(self.bpffs_path.as_str(), self.object.maps[map].name.as_str());
                assert(self@.object.maps[map as int] == self.object.maps@[map as int]@);
                let mut attached = self.attached;
                let ghost before = attached@;
                attached.push(path);
                assert(views(attached@) =~= views(before).push(path@));
                HidBPF { attached, ..self }.struct_ops_from(map + 1)
            },
            Err(error) => self.rollback(BpfError::from(error)),
        }
    }

    fn pin_maps(self, from: usize) -> (out: (HidBPF, Action))
        requires
            from <= self.object.maps.len(),
        ensures
            (out.0@, out.1@) == pin_maps(self@, from as int),
    {
        proof {
            use_type_invariant(&self);
        }
        match find_pinnable(&self.object.maps, from) {
            Some(map) => {
                let path = join(self.bpffs_path.as_str(), self.object.maps[map].name.as_str());
                assert(self@.object.maps[map as int] == self.object.maps@[map as int]@);
                (HidBPF { stage: Stage::PinMap { map }, ..self }, Action::PinMap { map, path })
            },
            None => {
                let attached = self.attached;
                let none: Vec<String> = Vec::new();
                assert(views(none@) =~= Seq::empty());
                HidBPF { attached: none, ..self }.finish(Ok(attached))
            },
        }
    }

    fn after_map_pin(self, map: usize, result: Result<(), LoaderError>) -> (out: (HidBPF, Action))
        requires
            map < self.object.maps.len(),
        ensures
            (out.0@, out.1@) == after_map_pin(self@, map as int, result),
    {
        match result {
            Ok(_) => self.pin_maps(map + 1),
            Err(error) => self.rollback(BpfError::from(error)),
        }
    }

    /// Takes the outcome `event` of the action that was named last, and names the
    /// next action. An event that the pipeline does not wait for fails the load
    /// with the error for an invalid argument; if the load was attaching and
    /// pinning, what it may have pinned is removed first.
    pub fn step(self, event: Event) -> (out: (HidBPF, Action))
        ensures
            (out.0@, out.1@) == next(self@, event@),
    {
        proof {
            use_type_invariant(&self);
        }
        let HidBPF {
            stage,
            loader,
            codes,
            device,
            extra,
            bpffs_path,
            open_maps,
            object,
            attached,
        } = self;
        let pipeline = HidBPF {
            stage: Stage::Done,
            loader,
            codes,
            device,
            extra,
            bpffs_path,
            open_maps,
            object,
            attached,
        };
        match stage {
            Stage::Skeleton => match event {
                Event::TracingReady { available } => pipeline.after_skeleton(available),
                _ => pipeline.stuck(false),
            },
            Stage::Load => match event {
                Event::Loaded { loaded } => pipeline.after_load(loaded),
                _ => pipeline.stuck(false),
            },
            Stage::Contents => match event {
                Event::Contents { btf, object } => pipeline.after_contents(btf, object),
                _ => pipeline.stuck(false),
            },
            Stage::Update => match event {
                Event::Done => pipeline.probe(),
                _ => pipeline.stuck(false),
            },
            Stage::Descriptor => match event {
                Event::Bytes { data } => pipeline.after_descriptor(data),
                _ => pipeline.stuck(false),
            },
            Stage::Probe => match event {
                Event::ProbeRun { status, probe_args } => pipeline.after_probe(status, probe_args),
                _ => pipeline.stuck(false),
            },
            Stage::TraceAttach { program } => match event {
                Event::AttachRun { status, args } => pipeline.after_attach(program, status, args),
                _ => pipeline.stuck(true),
            },
            Stage::TraceMkdir { program, link } => match event {
                Event::Done => pipeline.load_prog(program, link),
                _ => pipeline.stuck(true),
            },
            Stage::TracePin { program } => match event {
                Event::Status { status } => pipeline.after_link_pin(program, status),
                _ => pipeline.stuck(true),
            },
            Stage::OpsMkdir => match event {
                Event::Done => pipeline.struct_ops_from(0),
                _ => pipeline.stuck(true),
            },
            Stage::OpsAttach { map } => match event {
                Event::Outcome { result } => pipeline.after_struct_ops(map, result),
                _ => pipeline.stuck(true),
            },
            Stage::PinMap { map } => match event {
                Event::Outcome { result } => pipeline.after_map_pin(map, result),
                _ => pipeline.stuck(true),
            },
            Stage::Rollback { error } => match event {
                Event::Done => pipeline.finish(Err(error)),
                _ => pipeline.stuck(false),
            },
            Stage::Done => pipeline.stuck(false),
        }
    }
}

} // verus!
