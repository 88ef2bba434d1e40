//! What holds of every load, whatever the loading library and the kernel answer.
//!
//! A run is a pipeline as `initial` makes it, with the events that it is handed
//! one after the other. The laws here speak of every run.

use crate::error::{BpfError, ErrnoCodes, LoaderError};
use crate::hidudev::{DeviceView, PropertyView};
use crate::loader::{selected, HidBPFLoader};
use crate::model::{
    artifact, expects, initial, is_tracing, next, next_tracing, ActionView, EventView,
    PipelineView, StageView,
};
use crate::object::{OpenObjectView, ProgramView};
use crate::path::{bpffs_path, joined};
use crate::syscall::probe_outcome;
use vstd::prelude::*;

verus! {

/// One step of a pipeline: what `next` gives. It is opaque, so that a proof about
/// a run unfolds only the steps that it names.
#[verifier::opaque]
pub open spec fn stepped(s: PipelineView, e: EventView) -> (PipelineView, ActionView) {
    next(s, e)
}

/// The pipeline after it was handed `events`, one after the other.
pub open spec fn state_after(s: PipelineView, events: Seq<EventView>) -> PipelineView
    decreases events.len(),
{
    if events.len() == 0 {
        s
    } else {
        stepped(state_after(s, events.drop_last()), events.last()).0
    }
}

/// The action that a pipeline asks for after it was handed `events`; `first` is
/// the one it asked for at the beginning.
pub open spec fn action_after(
    s: PipelineView,
    first: ActionView,
    events: Seq<EventView>,
) -> ActionView {
    if events.len() == 0 {
        first
    } else {
        stepped(state_after(s, events.drop_last()), events.last()).1
    }
}

/// Whether every one of `events` is the outcome that the pipeline waits for when
/// it comes.
pub open spec fn follows(s: PipelineView, events: Seq<EventView>) -> bool {
    forall|i: int|
        0 <= i < events.len() ==> expects(#[trigger] state_after(s, events.take(i)), events[i])
}

/// Whether an action attaches or pins anything, or makes the directory for it.
pub open spec fn attaches_or_pins(action: ActionView) -> bool {
    action is Attach || action is CreateDir || action is PinLink || action is AttachStructOps
        || action is PinMap
}

/// Whether a load in this stage has not come to the attachment yet.
pub open spec fn before_attachment(stage: StageView) -> bool {
    stage is Skeleton || stage is Load || stage is Contents || stage is Update
        || stage is Descriptor || stage is Probe
}

/// One more event: the state and the action after `events.take(i + 1)` are those
/// of the step from the state after `events.take(i)`.
pub proof fn lemma_unfold(s: PipelineView, first: ActionView, events: Seq<EventView>, i: int)
    requires
        0 <= i < events.len(),
    ensures
        state_after(s, events.take(i + 1)) == stepped(state_after(s, events.take(i)), events[i]).0,
        action_after(s, first, events.take(i + 1)) == stepped(
            state_after(s, events.take(i)),
            events[i],
        ).1,
{
    assert(events.take(i + 1).drop_last() =~= events.take(i));
    assert(events.take(i + 1).last() == events[i]);
}

/// A step that ends before the attachment began before it, and asks for nothing
/// that attaches or pins.
proof fn lemma_step_before_attachment(s: PipelineView, e: EventView)
    requires
        before_attachment(stepped(s, e).0.stage),
    ensures
        before_attachment(s.stage),
        !attaches_or_pins(stepped(s, e).1),
{
    reveal(stepped);
    match s.stage {
        StageView::Skeleton => {},
        StageView::Load => {},
        StageView::Contents => {},
        StageView::Update => {},
        StageView::Descriptor => {},
        StageView::Probe => {},
        StageView::TraceAttach { .. } => {},
        StageView::TraceMkdir { .. } => {},
        StageView::TracePin { .. } => {},
        StageView::OpsMkdir => {},
        StageView::OpsAttach { .. } => {},
        StageView::PinMap { .. } => {},
        StageView::Rollback { .. } => {},
        StageView::Done => {},
    }
}

/// While a load has not come to the attachment, it never asked for anything that
/// attaches or pins.
proof fn lemma_nothing_before_attachment(
    s: PipelineView,
    first: ActionView,
    events: Seq<EventView>,
    k: int,
)
    requires
        0 <= k <= events.len(),
        !attaches_or_pins(first),
        before_attachment(state_after(s, events.take(k)).stage),
    ensures
        forall|i: int|
            0 <= i <= k ==> !attaches_or_pins(#[trigger] action_after(s, first, events.take(i))),
    decreases k,
{
    if k > 0 {
        lemma_unfold(s, first, events, k - 1);
        lemma_step_before_attachment(state_after(s, events.take(k - 1)), events[k - 1]);
        lemma_nothing_before_attachment(s, first, events, k - 1);
    }
    assert forall|i: int| 0 <= i <= k implies !attaches_or_pins(
        #[trigger] action_after(s, first, events.take(i)),
    ) by {
        if i == 0 {
            assert(events.take(0).len() == 0);
        }
    }
}

/// A load that is over stays over: whatever it is handed then, it answers that
/// it has failed.
proof fn lemma_done_stays(
    s: PipelineView,
    first: ActionView,
    events: Seq<EventView>,
    k: int,
    i: int,
)
    requires
        0 <= k <= i <= events.len(),
        state_after(s, events.take(k)).stage is Done,
    ensures
        state_after(s, events.take(i)).stage is Done,
        i > k ==> (action_after(s, first, events.take(i)) matches ActionView::Finish { result }
            && result is Err),
    decreases i - k,
{
    if i > k {
        lemma_done_stays(s, first, events, k, i - 1);
        lemma_unfold(s, first, events, i - 1);
        reveal(stepped);
    }
}

/// Probe gating: if the probe of a load does not run, or returns anything but
/// zero, the load ends there with the error that the status or the return value
/// stands for, and neither before nor after does it ask for anything that
/// attaches or pins, nor for the directory to pin in.
pub proof fn law_probe_gates_attachment(
    open_object: OpenObjectView,
    device: DeviceView,
    object_name: Seq<char>,
    extra: Seq<PropertyView>,
    codes: ErrnoCodes,
    events: Seq<EventView>,
    k: int,
)
    requires
        0 <= k < events.len(),
        state_after(
            initial(open_object, device, object_name, extra, codes).0,
            events.take(k),
        ).stage is Probe,
        events[k] matches EventView::ProbeRun { status, probe_args } && (status != 0
            || probe_args.retval != 0),
    ensures
        ({
            let (s, first) = initial(open_object, device, object_name, extra, codes);
            &&& events[k] matches EventView::ProbeRun { status, probe_args } && action_after(
                s,
                first,
                events.take(k + 1),
            ) == (ActionView::Finish {
                result: Err(probe_outcome(status, probe_args.retval)->Err_0),
            })
            &&& forall|i: int|
                0 <= i <= events.len() ==> !attaches_or_pins(
                    #[trigger] action_after(s, first, events.take(i)),
                )
        }),
{
    let (s, first) = initial(open_object, device, object_name, extra, codes);
    lemma_nothing_before_attachment(s, first, events, k);
    lemma_unfold(s, first, events, k);
    assert(events[k] matches EventView::ProbeRun { status, probe_args } && action_after(
        s,
        first,
        events.take(k + 1),
    ) == (ActionView::Finish { result: Err(probe_outcome(status, probe_args.retval)->Err_0) })
        && state_after(s, events.take(k + 1)).stage is Done) by {
        reveal(stepped);
    }
    assert forall|i: int| 0 <= i <= events.len() implies !attaches_or_pins(
        #[trigger] action_after(s, first, events.take(i)),
    ) by {
        if i > k {
            lemma_done_stays(s, first, events, k + 1, i);
        }
    }
}

/// No step asks for the tracing skeleton.
proof fn lemma_step_asks_no_skeleton(s: PipelineView, e: EventView)
    ensures
        !(stepped(s, e).1 is InitTracing),
{
    reveal(stepped);
}

/// The skeleton at most once, and only for tracing: a load asks for the tracing
/// skeleton at its beginning if it attaches by tracing, and at no other time;
/// a load that attaches as struct-ops never asks for it.
pub proof fn law_skeleton_only_for_tracing(
    open_object: OpenObjectView,
    device: DeviceView,
    object_name: Seq<char>,
    extra: Seq<PropertyView>,
    codes: ErrnoCodes,
    events: Seq<EventView>,
)
    ensures
        ({
            let (s, first) = initial(open_object, device, object_name, extra, codes);
            &&& first is InitTracing <==> selected(open_object.programs) == HidBPFLoader::Trace
            &&& forall|i: int|
                0 < i <= events.len() ==> !(#[trigger] action_after(
                    s,
                    first,
                    events.take(i),
                ) is InitTracing)
        }),
{
    let (s, first) = initial(open_object, device, object_name, extra, codes);
    assert forall|i: int| 0 < i <= events.len() implies !(#[trigger] action_after(
        s,
        first,
        events.take(i),
    ) is InitTracing) by {
        lemma_unfold(s, first, events, i - 1);
        lemma_step_asks_no_skeleton(state_after(s, events.take(i - 1)), events[i - 1]);
    }
}

/// A step changes neither the way of attaching nor the directory of the object.
proof fn lemma_step_keeps(s: PipelineView, e: EventView)
    ensures
        stepped(s, e).0.loader == s.loader,
        stepped(s, e).0.bpffs_path == s.bpffs_path,
{
    reveal(stepped);
}

/// The path that an event reports as pinned, if it reports one: that of the link
/// of a program, of a struct-ops map, or of a map.
pub open spec fn pinned_by(s: PipelineView, e: EventView) -> Option<Seq<char>> {
    match s.stage {
        StageView::TracePin { program } => match e {
            EventView::Status { status } => if status == 0 {
                Some(artifact(s, s.object.programs[program].name))
            } else {
                None
            },
            _ => None,
        },
        StageView::OpsAttach { map } => match e {
            EventView::Outcome { result } => if result is Ok {
                Some(artifact(s, s.object.maps[map].name))
            } else {
                None
            },
            _ => None,
        },
        StageView::PinMap { map } => match e {
            EventView::Outcome { result } => if result is Ok {
                Some(artifact(s, s.object.maps[map].name))
            } else {
                None
            },
            _ => None,
        },
        _ => None,
    }
}

/// Whether `path` lies in the directory `dir`.
pub open spec fn lies_in(dir: Seq<char>, path: Seq<char>) -> bool {
    (dir + seq!['/']).is_prefix_of(path)
}

/// What is pinned after one more event, if the removal of a directory removes
/// what lies in it: the answer to a removal takes every path in the directory
/// of the object; a pin that succeeded adds its path.
pub open spec fn pinned_with(
    s: PipelineView,
    e: EventView,
    pinned: Set<Seq<char>>,
) -> Set<Seq<char>> {
    if s.stage is Rollback && e is Done {
        pinned.filter(|path: Seq<char>| !lies_in(s.bpffs_path, path))
    } else {
        match pinned_by(s, e) {
            Some(path) => pinned.insert(path),
            None => pinned,
        }
    }
}

/// What is pinned after a run, if the removal of a directory removes what lies in
/// it: every path that an event reported as pinned and that no removal took
/// since.
pub open spec fn pinned_after(s: PipelineView, events: Seq<EventView>) -> Set<Seq<char>>
    decreases events.len(),
{
    if events.len() == 0 {
        Set::empty()
    } else {
        pinned_with(
            state_after(s, events.drop_last()),
            events.last(),
            pinned_after(s, events.drop_last()),
        )
    }
}

/// Whatever a run pins lies in the directory of the object, which stays the same.
proof fn lemma_pins_lie_in_directory(s: PipelineView, events: Seq<EventView>, i: int)
    requires
        0 <= i <= events.len(),
    ensures
        state_after(s, events.take(i)).bpffs_path == s.bpffs_path,
        forall|path: Seq<char>| #[trigger]
            pinned_after(s, events.take(i)).contains(path) ==> lies_in(s.bpffs_path, path),
    decreases i,
{
    if i > 0 {
        lemma_pins_lie_in_directory(s, events, i - 1);
        let at = state_after(s, events.take(i - 1));
        assert(events.take(i).drop_last() =~= events.take(i - 1));
        assert(events.take(i).last() == events[i - 1]);
        lemma_step_keeps(at, events[i - 1]);
        assert forall|path: Seq<char>| #[trigger]
            pinned_after(s, events.take(i)).contains(path) implies lies_in(
            s.bpffs_path,
            path,
        ) by {
            if !pinned_after(s, events.take(i - 1)).contains(path) {
                let name = choose|name: Seq<char>| path == artifact(at, name);
                assert(path == joined(s.bpffs_path, name));
                assert((s.bpffs_path + seq!['/']) =~= path.subrange(
                    0,
                    (s.bpffs_path + seq!['/']).len() as int,
                ));
            }
        }
    }
}

/// Once the removal that a rollback asked for is answered, the load ends with
/// the error of the rollback, and nothing that it pinned is left.
proof fn lemma_rollback_ends(
    s: PipelineView,
    first: ActionView,
    events: Seq<EventView>,
    k: int,
    error: BpfError,
)
    requires
        0 <= k < events.len(),
        state_after(s, events.take(k)).stage == (StageView::Rollback { error }),
        events[k] is Done,
    ensures
        action_after(s, first, events.take(k + 1)) == (ActionView::Finish { result: Err(error) }),
        pinned_after(s, events.take(k + 1)) == Set::<Seq<char>>::empty(),
{
    lemma_unfold(s, first, events, k);
    lemma_pins_lie_in_directory(s, events, k);
    let at = state_after(s, events.take(k));
    assert(action_after(s, first, events.take(k + 1)) == (ActionView::Finish {
        result: Err(error),
    })) by {
        reveal(stepped);
    }
    assert(events.take(k + 1).drop_last() =~= events.take(k));
    assert(events.take(k + 1).last() == events[k]);
    assert forall|path: Seq<char>| !(#[trigger] pinned_after(s, events.take(k + 1)).contains(
        path,
    )) by {
        if pinned_after(s, events.take(k)).contains(path) {
            assert(lies_in(at.bpffs_path, path));
        }
    }
    assert(pinned_after(s, events.take(k + 1)) =~= Set::<Seq<char>>::empty());
}

/// A load that rolls back ends in failure, whatever it is handed.
proof fn lemma_rollback_fails(s: PipelineView, e: EventView)
    requires
        s.stage is Rollback,
    ensures
        stepped(s, e).0.stage is Done,
        stepped(s, e).1 matches ActionView::Finish { result } && result is Err,
{
    reveal(stepped);
}

/// Rollback: if a struct-ops map cannot be attached and pinned, or a map cannot
/// be pinned once the object is attached, the load has the directory of the
/// object on the device removed and then ends with the error of the library; if
/// that removal takes what lies in the directory, nothing that the load pinned
/// is left.
pub proof fn law_rollback_leaves_nothing(
    open_object: OpenObjectView,
    device: DeviceView,
    object_name: Seq<char>,
    extra: Seq<PropertyView>,
    codes: ErrnoCodes,
    events: Seq<EventView>,
    k: int,
    error: LoaderError,
)
    requires
        0 <= k,
        k + 1 < events.len(),
        ({
            let at = state_after(
                initial(open_object, device, object_name, extra, codes).0,
                events.take(k),
            );
            at.stage is PinMap || at.stage is OpsAttach
        }),
        events[k] == (EventView::Outcome { result: Err(error) }),
        events[k + 1] is Done,
    ensures
        ({
            let (s, first) = initial(open_object, device, object_name, extra, codes);
            &&& action_after(s, first, events.take(k + 1)) == (ActionView::RemoveTree {
                path: bpffs_path(device.sysname, object_name),
            })
            &&& action_after(s, first, events.take(k + 2)) == (ActionView::Finish {
                result: Err(BpfError::LibBPFError { error }),
            })
            &&& pinned_after(s, events.take(k + 2)) == Set::<Seq<char>>::empty()
        }),
{
    let (s, first) = initial(open_object, device, object_name, extra, codes);
    lemma_unfold(s, first, events, k);
    assert(state_after(s, events.take(k + 1)).stage == (StageView::Rollback {
        error: BpfError::LibBPFError { error },
    }) && action_after(s, first, events.take(k + 1)) == (ActionView::RemoveTree {
        path: s.bpffs_path,
    })) by {
        lemma_pins_lie_in_directory(s, events, k);
        reveal(stepped);
    }
    lemma_rollback_ends(s, first, events, k + 1, BpfError::LibBPFError { error });
}

/// Struct-ops, all or nothing: if one struct-ops map cannot be attached and
/// pinned, the load attaches and pins no more: it asks for the removal of the
/// directory of the object on the device, and whatever it is handed then, it
/// ends in failure with no path, however many struct-ops maps were attached and
/// pinned before.
pub proof fn law_struct_ops_all_or_nothing(
    open_object: OpenObjectView,
    device: DeviceView,
    object_name: Seq<char>,
    extra: Seq<PropertyView>,
    codes: ErrnoCodes,
    events: Seq<EventView>,
    k: int,
    error: LoaderError,
)
    requires
        0 <= k < events.len(),
        state_after(
            initial(open_object, device, object_name, extra, codes).0,
            events.take(k),
        ).stage is OpsAttach,
        events[k] == (EventView::Outcome { result: Err(error) }),
    ensures
        ({
            let (s, first) = initial(open_object, device, object_name, extra, codes);
            &&& action_after(s, first, events.take(k + 1)) == (ActionView::RemoveTree {
                path: bpffs_path(device.sysname, object_name),
            })
            &&& forall|i: int|
                k + 1 < i <= events.len() ==> (#[trigger] action_after(
                    s,
                    first,
                    events.take(i),
                ) matches ActionView::Finish { result } && result is Err)
        }),
{
    let (s, first) = initial(open_object, device, object_name, extra, codes);
    lemma_unfold(s, first, events, k);
    assert(state_after(s, events.take(k + 1)).stage is Rollback && action_after(
        s,
        first,
        events.take(k + 1),
    ) == (ActionView::RemoveTree { path: s.bpffs_path })) by {
        lemma_pins_lie_in_directory(s, events, k);
        reveal(stepped);
    }
    assert forall|i: int| k + 1 < i <= events.len() implies (#[trigger] action_after(
        s,
        first,
        events.take(i),
    ) matches ActionView::Finish { result } && result is Err) by {
        lemma_unfold(s, first, events, k + 1);
        lemma_rollback_fails(state_after(s, events.take(k + 1)), events[k + 1]);
        if i > k + 2 {
            lemma_done_stays(s, first, events, k + 2, i);
        }
    }
}

/// Whether nothing is pinned.
spec fn nothing(pinned: Set<Seq<char>>) -> bool {
    forall|path: Seq<char>| !(#[trigger] pinned.contains(path))
}

/// What holds of what a load has pinned at every moment of a run: `s` is the
/// pipeline, `a` the action it asked for last, and `pinned` what is pinned.
spec fn residue_inv(
    dir: Seq<char>,
    s: PipelineView,
    a: ActionView,
    pinned: Set<Seq<char>>,
) -> bool {
    &&& s.bpffs_path == dir
    &&& forall|path: Seq<char>| #[trigger] pinned.contains(path) ==> lies_in(dir, path)
    &&& before_attachment(s.stage) ==> nothing(pinned)
    &&& (s.stage is TraceAttach || s.stage is TraceMkdir || s.stage is TracePin)
        && s.attached.len() == 0 ==> nothing(pinned)
    &&& (a is Finish) == (s.stage is Done)
    &&& match a {
        ActionView::Finish { result } => result is Err ==> nothing(pinned),
        _ => true,
    }
}

/// One step keeps what holds of what a load has pinned.
proof fn lemma_residue_step(
    dir: Seq<char>,
    s: PipelineView,
    a: ActionView,
    pinned: Set<Seq<char>>,
    e: EventView,
)
    requires
        residue_inv(dir, s, a, pinned),
        expects(s, e),
    ensures
        residue_inv(dir, stepped(s, e).0, stepped(s, e).1, pinned_with(s, e, pinned)),
{
    reveal(stepped);
    let later = pinned_with(s, e, pinned);
    assert forall|path: Seq<char>| #[trigger] later.contains(path) implies lies_in(
        dir,
        path,
    ) by {
        if !pinned.contains(path) {
            let name = choose|name: Seq<char>| path == artifact(s, name);
            assert(path == joined(dir, name));
            assert((dir + seq!['/']) =~= path.subrange(0, (dir + seq!['/']).len() as int));
        }
    }
}

/// What holds of what a load has pinned holds after every prefix of a run.
proof fn lemma_residue_run(s: PipelineView, first: ActionView, events: Seq<EventView>, i: int)
    requires
        0 <= i <= events.len(),
        follows(s, events),
        residue_inv(s.bpffs_path, s, first, Set::empty()),
    ensures
        residue_inv(
            s.bpffs_path,
            state_after(s, events.take(i)),
            action_after(s, first, events.take(i)),
            pinned_after(s, events.take(i)),
        ),
    decreases i,
{
    if i > 0 {
        lemma_residue_run(s, first, events, i - 1);
        lemma_unfold(s, first, events, i - 1);
        assert(events.take(i).drop_last() =~= events.take(i - 1));
        assert(events.take(i).last() == events[i - 1]);
        lemma_residue_step(
            s.bpffs_path,
            state_after(s, events.take(i - 1)),
            action_after(s, first, events.take(i - 1)),
            pinned_after(s, events.take(i - 1)),
            events[i - 1],
        );
    } else {
        assert(events.take(0).len() == 0);
    }
}

/// All or nothing: when a load ends in failure, whichever way it attaches and
/// wherever it fails, nothing that it pinned is left, if the removal that it
/// asked for takes what lies in the directory of the object.
pub proof fn law_failed_load_leaves_nothing(
    open_object: OpenObjectView,
    device: DeviceView,
    object_name: Seq<char>,
    extra: Seq<PropertyView>,
    codes: ErrnoCodes,
    events: Seq<EventView>,
)
    requires
        follows(initial(open_object, device, object_name, extra, codes).0, events),
        ({
            let (s, first) = initial(open_object, device, object_name, extra, codes);
            action_after(s, first, events) matches ActionView::Finish { result } && result is Err
        }),
    ensures
        pinned_after(initial(open_object, device, object_name, extra, codes).0, events)
            == Set::<Seq<char>>::empty(),
{
    let (s, first) = initial(open_object, device, object_name, extra, codes);
    lemma_residue_run(s, first, events, events.len() as int);
    assert(events.take(events.len() as int) =~= events);
    assert(pinned_after(s, events) =~= Set::<Seq<char>>::empty());
}

/// The programs whose links a run pinned, in the order of the run.
pub open spec fn link_pins(s: PipelineView, events: Seq<EventView>) -> Seq<int>
    decreases events.len(),
{
    if events.len() == 0 {
        Seq::empty()
    } else {
        let before = link_pins(s, events.drop_last());
        match state_after(s, events.drop_last()).stage {
            StageView::TracePin { program } => match events.last() {
                EventView::Status { status } => if status == 0 {
                    before.push(program)
                } else {
                    before
                },
                _ => before,
            },
            _ => before,
        }
    }
}

/// Whether `e` tells a pipeline that waits for the pinning of a map that the map
/// could not be pinned.
pub open spec fn is_map_pin_failure(s: PipelineView, e: EventView) -> bool {
    s.stage is PinMap && match e {
        EventView::Outcome { result } => result is Err,
        _ => false,
    }
}

/// Whether a map could not be pinned in a run.
pub open spec fn map_pin_fails(s: PipelineView, events: Seq<EventView>) -> bool
    decreases events.len(),
{
    if events.len() == 0 {
        false
    } else {
        map_pin_fails(s, events.drop_last()) || is_map_pin_failure(
            state_after(s, events.drop_last()),
            events.last(),
        )
    }
}

/// The paths at which the links of the programs `pins` are pinned.
pub open spec fn link_paths(
    dir: Seq<char>,
    programs: Seq<ProgramView>,
    pins: Seq<int>,
) -> Seq<Seq<char>> {
    pins.map_values(|program: int| joined(dir, programs[program].name))
}

/// The first tracing program from `from` on is one, and lies at or after `from`.
proof fn lemma_next_tracing(programs: Seq<ProgramView>, from: int)
    requires
        0 <= from,
    ensures
        next_tracing(programs, from) matches Some(program) ==> from <= program < programs.len()
            && is_tracing(programs[program]),
    decreases programs.len() - from,
{
    if from < programs.len() && !is_tracing(programs[from]) {
        lemma_next_tracing(programs, from + 1);
    }
}

/// What holds of a tracing load at every moment of a run: `s` is the pipeline,
/// `a` the action it asked for last, `pins` the programs whose links were
/// pinned, and `failed` whether a map could not be pinned.
spec fn tracing_inv(
    dir: Seq<char>,
    s: PipelineView,
    a: ActionView,
    pins: Seq<int>,
    failed: bool,
) -> bool {
    let programs = s.object.programs;
    &&& s.loader == HidBPFLoader::Trace
    &&& s.bpffs_path == dir
    &&& !(s.stage is OpsMkdir) && !(s.stage is OpsAttach)
    &&& before_attachment(s.stage) ==> pins.len() == 0
    &&& s.stage is PinMap ==> pins.len() > 0
    &&& !(s.stage is Done) ==> s.attached == link_paths(dir, programs, pins)
    &&& forall|i: int|
        0 <= i < pins.len() ==> 0 <= #[trigger] pins[i] < programs.len() && is_tracing(
            programs[pins[i]],
        )
    &&& forall|i: int, j: int| 0 <= i < j < pins.len() ==> #[trigger] pins[i] < #[trigger] pins[j]
    &&& match s.stage {
        StageView::TraceAttach { program } => tracing_cursor(programs, pins, program),
        StageView::TraceMkdir { program, .. } => tracing_cursor(programs, pins, program),
        StageView::TracePin { program } => tracing_cursor(programs, pins, program),
        _ => true,
    }
    &&& s.stage is Rollback ==> failed
    &&& (a is Finish) == (s.stage is Done)
    &&& a matches ActionView::Finish { result } ==> {
        &&& result matches Ok(paths) ==> pins.len() > 0 && paths == link_paths(
            dir,
            programs,
            pins,
        )
        &&& pins.len() == 0 ==> result is Err
        &&& result is Err && pins.len() > 0 ==> failed
    }
}

/// Whether `program` is a tracing program behind every program of `pins`.
spec fn tracing_cursor(programs: Seq<ProgramView>, pins: Seq<int>, program: int) -> bool {
    &&& 0 <= program < programs.len()
    &&& is_tracing(programs[program])
    &&& forall|i: int| 0 <= i < pins.len() ==> #[trigger] pins[i] < program
}

/// The pins of a run after one more event.
spec fn pins_with(s: PipelineView, e: EventView, pins: Seq<int>) -> Seq<int> {
    match s.stage {
        StageView::TracePin { program } => match e {
            EventView::Status { status } => if status == 0 {
                pins.push(program)
            } else {
                pins
            },
            _ => pins,
        },
        _ => pins,
    }
}

/// One step keeps what holds of a tracing load.
proof fn lemma_tracing_step(
    dir: Seq<char>,
    s: PipelineView,
    a: ActionView,
    pins: Seq<int>,
    failed: bool,
    e: EventView,
)
    requires
        tracing_inv(dir, s, a, pins, failed),
        expects(s, e),
    ensures
        tracing_inv(
            dir,
            stepped(s, e).0,
            stepped(s, e).1,
            pins_with(s, e, pins),
            failed || is_map_pin_failure(s, e),
        ),
{
    reveal(stepped);
    let programs = s.object.programs;
    let t = stepped(s, e).0;
    lemma_next_tracing(programs, 0);
    assert(link_paths(dir, programs, pins).len() == pins.len());
    match s.stage {
        StageView::TraceAttach { program } => {
            lemma_next_tracing(programs, program + 1);
        },
        StageView::TracePin { program } => {
            lemma_next_tracing(programs, program + 1);
            assert(link_paths(dir, programs, pins.push(program)) =~= link_paths(
                dir,
                programs,
                pins,
            ).push(joined(dir, programs[program].name)));
        },
        StageView::Load => {
            assert(s.attached =~= link_paths(dir, t.object.programs, pins));
        },
        _ => {},
    }
}

/// What holds of a tracing load holds after every prefix of a run.
proof fn lemma_tracing_run(
    s: PipelineView,
    first: ActionView,
    events: Seq<EventView>,
    i: int,
)
    requires
        0 <= i <= events.len(),
        follows(s, events),
        tracing_inv(s.bpffs_path, s, first, Seq::empty(), false),
    ensures
        tracing_inv(
            s.bpffs_path,
            state_after(s, events.take(i)),
            action_after(s, first, events.take(i)),
            link_pins(s, events.take(i)),
            map_pin_fails(s, events.take(i)),
        ),
    decreases i,
{
    if i > 0 {
        lemma_tracing_run(s, first, events, i - 1);
        lemma_unfold(s, first, events, i - 1);
        assert(events.take(i).drop_last() =~= events.take(i - 1));
        assert(events.take(i).last() == events[i - 1]);
        lemma_tracing_step(
            s.bpffs_path,
            state_after(s, events.take(i - 1)),
            action_after(s, first, events.take(i - 1)),
            link_pins(s, events.take(i - 1)),
            map_pin_fails(s, events.take(i - 1)),
            events[i - 1],
        );
    } else {
        assert(events.take(0).len() == 0);
    }
}

/// Tracing: in a run of a load that attaches by tracing, the links that were
/// pinned are those of tracing programs, each program once and in the order of
/// the object. When the load ends in success, at least one link was pinned, and
/// the result holds, for each pinned link in that order, the path of the
/// directory of the object joined with the name of the program, and nothing
/// else. When no link was pinned, the load ends in failure. When a link was
/// pinned and the load ends in failure all the same, a map could not be pinned.
pub proof fn law_tracing_result(
    open_object: OpenObjectView,
    device: DeviceView,
    object_name: Seq<char>,
    extra: Seq<PropertyView>,
    codes: ErrnoCodes,
    events: Seq<EventView>,
)
    requires
        selected(open_object.programs) == HidBPFLoader::Trace,
        follows(initial(open_object, device, object_name, extra, codes).0, events),
    ensures
        ({
            let (s, first) = initial(open_object, device, object_name, extra, codes);
            let programs = state_after(s, events).object.programs;
            let pins = link_pins(s, events);
            &&& forall|i: int|
                0 <= i < pins.len() ==> 0 <= #[trigger] pins[i] < programs.len() && is_tracing(
                    programs[pins[i]],
                )
            &&& forall|i: int, j: int|
                0 <= i < j < pins.len() ==> #[trigger] pins[i] < #[trigger] pins[j]
            &&& action_after(s, first, events) matches ActionView::Finish { result } ==> {
                &&& result matches Ok(paths) ==> pins.len() > 0 && paths.len() == pins.len()
                    && forall|i: int|
                        0 <= i < pins.len() ==> #[trigger] paths[i] == joined(
                            bpffs_path(device.sysname, object_name),
                            programs[pins[i]].name,
                        )
                &&& pins.len() == 0 ==> result is Err
                &&& result is Err && pins.len() > 0 ==> map_pin_fails(s, events)
            }
        }),
{
    let (s, first) = initial(open_object, device, object_name, extra, codes);
    assert(link_paths(s.bpffs_path, s.object.programs, Seq::<int>::empty()) =~= Seq::<
        Seq<char>,
    >::empty());
    lemma_tracing_run(s, first, events, events.len() as int);
    assert(events.take(events.len() as int) =~= events);
}

} // verus!
