//! Creating an Instance: the steps that a plan takes, in their order, and what the outcome of
//! each leads to.
//!
//! What must be there before the launch is looked after first, and the Instance is published
//! only once all that belongs to it is in place; a step that fails ends the create.

use vstd::prelude::*;

use crate::instance::hardware_spec::DisplayMode;
use crate::instance::orchestrator::{CreateFailure, LaunchPlan, LifecycleError};
use crate::qemu::driver::{DriverError, LaunchRequest};
use crate::text;

verus! {

/// How far a create has come.
#[derive(Debug, Clone, Copy, PartialEq, Eq, Structural)]
pub enum CreateStage {
    /// It is planned, and nothing was done for it.
    Planned,
    /// The directory of the Serial Port log is being made.
    Spooling,
    /// The path of the serial socket is being looked at.
    Inspecting,
    /// The emulator is being launched.
    Launching,
    /// The serial socket is being dialled.
    Attaching,
    /// The VNC Display is being armed, and its Viewer started.
    Arming,
    /// All is in place.
    Ready,
    /// A step has failed.
    Failed,
}

/// What happens while an Instance is created.
#[derive(Debug)]
pub enum CreateEvent {
    /// The create begins.
    Begun,
    /// The directory of the Serial Port log is there.
    SpoolReady,
    /// The directory of the Serial Port log could not be made.
    SpoolFailed {
        /// The directory.
        dir: String,
        /// Why not.
        why: String,
    },
    /// Nothing lies at the path of the serial socket.
    SocketFree,
    /// Something lies at the path of the serial socket.
    SocketOccupied,
    /// The emulator runs, and its QMP session is established.
    Launched,
    /// The emulator could not be launched.
    LaunchFailed(DriverError),
    /// The serial socket is being read.
    BridgeAttached,
    /// The serial socket could not be dialled.
    BridgeFailed(LifecycleError),
    /// The VNC password is set, and the Viewer is up.
    DisplayArmed,
    /// The VNC password could not be set, or the Viewer not started.
    DisplayFailed(String),
}

/// What is to be done next.
#[derive(Debug)]
pub enum CreateAction {
    /// Make the directory that holds the Serial Port log at `path`.
    MakeSpoolDirectory {
        /// The log.
        path: String,
    },
    /// See whether anything lies at the path of the serial socket.
    InspectSocket {
        /// The path.
        path: String,
    },
    /// Launch the emulator.
    Launch(LaunchRequest),
    /// Dial the serial socket, and start to read it.
    AttachBridge {
        /// The path.
        path: String,
    },
    /// Set a VNC password, and start the Viewer.
    ArmDisplay,
    /// Publish the Instance.
    Publish,
    /// Give the create up.
    Fail(CreateFailure),
}

/// An event can happen at a stage.
pub open spec fn can_happen(stage: CreateStage, event: CreateEvent) -> bool {
    match stage {
        CreateStage::Planned => event is Begun,
        CreateStage::Spooling => event is SpoolReady || event is SpoolFailed,
        CreateStage::Inspecting => event is SocketFree || event is SocketOccupied,
        CreateStage::Launching => event is Launched || event is LaunchFailed,
        CreateStage::Attaching => event is BridgeAttached || event is BridgeFailed,
        CreateStage::Arming => event is DisplayArmed || event is DisplayFailed,
        CreateStage::Ready => false,
        CreateStage::Failed => false,
    }
}

/// The stage once the Serial Port log, if any, can be written.
pub open spec fn once_spooled(plan: LaunchPlan) -> CreateStage {
    if plan.serial_socket is Some {
        CreateStage::Inspecting
    } else {
        CreateStage::Launching
    }
}

/// The stage once the serial socket, if any, is being read.
pub open spec fn once_attached(plan: LaunchPlan) -> CreateStage {
    if plan.spec.display == DisplayMode::Vnc {
        CreateStage::Arming
    } else {
        CreateStage::Ready
    }
}

/// The stage that an event leads to.
pub open spec fn next_stage(plan: LaunchPlan, event: CreateEvent) -> CreateStage {
    match event {
        CreateEvent::Begun => if plan.spool_path is Some {
            CreateStage::Spooling
        } else {
            once_spooled(plan)
        },
        CreateEvent::SpoolReady => once_spooled(plan),
        CreateEvent::SocketFree => CreateStage::Launching,
        CreateEvent::Launched => if plan.serial_socket is Some {
            CreateStage::Attaching
        } else {
            once_attached(plan)
        },
        CreateEvent::BridgeAttached => once_attached(plan),
        CreateEvent::DisplayArmed => CreateStage::Ready,
        _ => CreateStage::Failed,
    }
}

/// The failure that an event stands for.
pub open spec fn fails_with(plan: LaunchPlan, event: CreateEvent, failure: CreateFailure) -> bool {
    match event {
        CreateEvent::SpoolFailed { dir, why } => failure == (CreateFailure::SpoolDirectory {
            dir,
            why,
        }),
        CreateEvent::SocketOccupied => failure matches CreateFailure::SocketOccupied { path }
            && Some(path@) == text::string_of(plan.serial_socket),
        CreateEvent::LaunchFailed(e) => failure == CreateFailure::Launch(e),
        CreateEvent::BridgeFailed(e) => failure == CreateFailure::Bridge(e),
        CreateEvent::DisplayFailed(why) => failure == CreateFailure::Viewer(why),
        _ => false,
    }
}

/// What is done at the stage that an event leads to.
pub open spec fn leads_to(plan: LaunchPlan, event: CreateEvent, action: CreateAction) -> bool {
    match next_stage(plan, event) {
        CreateStage::Planned => false,
        CreateStage::Spooling => action matches CreateAction::MakeSpoolDirectory { path } && Some(
            path@,
        ) == text::string_of(plan.spool_path),
        CreateStage::Inspecting => action matches CreateAction::InspectSocket { path } && Some(
            path@,
        ) == text::string_of(plan.serial_socket),
        CreateStage::Launching => action matches CreateAction::Launch(request) && request@
            == plan.request@,
        CreateStage::Attaching => action matches CreateAction::AttachBridge { path } && Some(path@)
            == text::string_of(plan.serial_socket),
        CreateStage::Arming => action is ArmDisplay,
        CreateStage::Ready => action is Publish,
        CreateStage::Failed => action matches CreateAction::Fail(failure) && fails_with(
            plan,
            event,
            failure,
        ),
    }
}

/// A create on its way.
#[derive(Debug)]
pub struct Creation {
    /// The plan.
    pub plan: LaunchPlan,
    /// How far it has come.
    pub stage: CreateStage,
}

impl Creation {
    /// A serial socket is looked at, or dialled, only where the plan has one.
    pub open spec fn valid(self) -> bool {
        self.stage == CreateStage::Inspecting || self.stage == CreateStage::Attaching
            ==> self.plan.serial_socket is Some
    }

    /// A create that is planned.
    pub fn new(plan: LaunchPlan) -> (r: Creation)
        ensures
            r.valid(),
            r.plan == plan,
            r.stage == CreateStage::Planned,
    {
        Creation { plan, stage: CreateStage::Planned }
    }

    /// Take note of what happened, and say what to do next.
    pub fn advance(&mut self, event: CreateEvent) -> (r: CreateAction)
        requires
            old(self).valid(),
            can_happen(old(self).stage, event),
        ensures
            final(self).valid(),
            final(self).plan == old(self).plan,
            final(self).stage == next_stage(old(self).plan, event),
            leads_to(old(self).plan, event, r),
    {
        match event {
            CreateEvent::Begun => match &self.plan.spool_path {
                Some(path) => {
                    let path = path.clone();
                    self.stage = CreateStage::Spooling;
                    CreateAction::MakeSpoolDirectory { path }
                },
                None => self.spooled(),
            },
            CreateEvent::SpoolReady => self.spooled(),
            CreateEvent::SocketFree => self.launch(),
            CreateEvent::Launched => match &self.plan.serial_socket {
                Some(path) => {
                    let path = path.clone();
                    self.stage = CreateStage::Attaching;
                    CreateAction::AttachBridge { path }
                },
                None => self.attached(),
            },
            CreateEvent::BridgeAttached => self.attached(),
            CreateEvent::DisplayArmed => {
                self.stage = CreateStage::Ready;
                CreateAction::Publish
            },
            CreateEvent::SpoolFailed { dir, why } => self.fail(
                CreateFailure::SpoolDirectory { dir, why },
            ),
            CreateEvent::SocketOccupied => {
                let path = match &self.plan.serial_socket {
                    Some(path) => path.clone(),
                    None => String::new(),
                };
                self.fail(CreateFailure::SocketOccupied { path })
            },
            CreateEvent::LaunchFailed(e) => self.fail(CreateFailure::Launch(e)),
            CreateEvent::BridgeFailed(e) => self.fail(CreateFailure::Bridge(e)),
            CreateEvent::DisplayFailed(why) => self.fail(CreateFailure::Viewer(why)),
        }
    }

    fn spooled(&mut self) -> (r: CreateAction)
        ensures
            final(self).valid(),
            final(self).plan == old(self).plan,
            final(self).stage == once_spooled(old(self).plan),
            match once_spooled(old(self).plan) {
                CreateStage::Inspecting => r matches CreateAction::InspectSocket { path } && Some(
                    path@,
                ) == text::string_of(old(self).plan.serial_socket),
                _ => r matches CreateAction::Launch(request) && request@ == old(
                    self).plan.request@,
            },
    {
        match &self.plan.serial_socket {
            Some(path) => {
                let path = path.clone();
                self.stage = CreateStage::Inspecting;
                CreateAction::InspectSocket { path }
            },
            None => self.launch(),
        }
    }

    fn launch(&mut self) -> (r: CreateAction)
        ensures
            final(self).valid(),
            final(self).plan == old(self).plan,
            final(self).stage == CreateStage::Launching,
            r matches CreateAction::Launch(request) && request@ == old(self).plan.request@,
    {
        self.stage = CreateStage::Launching;
        CreateAction::Launch(self.plan.request.clone())
    }

    fn attached(&mut self) -> (r: CreateAction)
        ensures
            final(self).valid(),
            final(self).plan == old(self).plan,
            final(self).stage == once_attached(old(self).plan),
            match once_attached(old(self).plan) {
                CreateStage::Arming => r is ArmDisplay,
                _ => r is Publish,
            },
    {
        if self.plan.spec.display == DisplayMode::Vnc {
            self.stage = CreateStage::Arming;
            CreateAction::ArmDisplay
        } else {
            self.stage = CreateStage::Ready;
            CreateAction::Publish
        }
    }

    fn fail(&mut self, failure: CreateFailure) -> (r: CreateAction)
        ensures
            final(self).valid(),
            final(self).plan == old(self).plan,
            final(self).stage == CreateStage::Failed,
            r == CreateAction::Fail(failure),
    {
        self.stage = CreateStage::Failed;
        CreateAction::Fail(failure)
    }
}

// ---------------------------------------------------------------------------
// Laws
// ---------------------------------------------------------------------------

/// The stages that a create has passed through, from the outcomes of its steps: each outcome
/// is one of the step before it.
pub open spec fn is_course(plan: LaunchPlan, events: Seq<CreateEvent>) -> bool
    decreases events.len(),
{
    if events.len() == 0 {
        true
    } else {
        is_course(plan, events.drop_last()) && can_happen(
            reached(plan, events.drop_last()),
            events.last(),
        )
    }
}

/// The stage that a create has reached.
pub open spec fn reached(plan: LaunchPlan, events: Seq<CreateEvent>) -> CreateStage {
    if events.len() == 0 {
        CreateStage::Planned
    } else {
        next_stage(plan, events.last())
    }
}

/// One of the outcomes was a successful launch.
pub open spec fn has_launched(events: Seq<CreateEvent>) -> bool {
    exists|i: int| 0 <= i < events.len() && (#[trigger] events[i]) is Launched
}

/// One of the outcomes was a serial socket that is being read.
pub open spec fn has_bridge(events: Seq<CreateEvent>) -> bool {
    exists|i: int| 0 <= i < events.len() && (#[trigger] events[i]) is BridgeAttached
}

/// One of the outcomes was a VNC Display that is armed.
pub open spec fn has_display(events: Seq<CreateEvent>) -> bool {
    exists|i: int| 0 <= i < events.len() && (#[trigger] events[i]) is DisplayArmed
}

/// One of the outcomes was a serial socket that nothing lies at.
pub open spec fn has_free_socket(events: Seq<CreateEvent>) -> bool {
    exists|i: int| 0 <= i < events.len() && (#[trigger] events[i]) is SocketFree
}

/// One of the outcomes was a Serial Port log that can be written.
pub open spec fn has_spool(events: Seq<CreateEvent>) -> bool {
    exists|i: int| 0 <= i < events.len() && (#[trigger] events[i]) is SpoolReady
}

/// The emulator is launched only once the Serial Port log can be written and the path of the
/// serial socket was seen to be free, where the plan has them.
pub proof fn launches_are_prepared(plan: LaunchPlan, events: Seq<CreateEvent>)
    requires
        is_course(plan, events),
        reached(plan, events) == CreateStage::Launching,
    ensures
        plan.spool_path is Some ==> has_spool(events),
        plan.serial_socket is Some ==> has_free_socket(events),
{
    lemma_prepared(plan, events);
}

/// An Instance is published only once it was launched, its serial socket is being read and
/// its VNC Display is armed, where the plan has them.
pub proof fn instances_are_published_complete(plan: LaunchPlan, events: Seq<CreateEvent>)
    requires
        is_course(plan, events),
        reached(plan, events) == CreateStage::Ready,
    ensures
        has_launched(events),
        plan.serial_socket is Some ==> has_bridge(events),
        plan.spec.display == DisplayMode::Vnc ==> has_display(events),
{
    lemma_prepared(plan, events);
}

/// What is known of a create at the stage that it has reached.
proof fn lemma_prepared(plan: LaunchPlan, events: Seq<CreateEvent>)
    requires
        is_course(plan, events),
    ensures
        ({
            let stage = reached(plan, events);
            let launching = stage == CreateStage::Launching;
            let launched = stage == CreateStage::Attaching || stage == CreateStage::Arming || stage
                == CreateStage::Ready;
            let attached = stage == CreateStage::Arming || stage == CreateStage::Ready;
            &&& (launching || stage == CreateStage::Inspecting) && plan.spool_path is Some
                ==> has_spool(events)
            &&& launching && plan.serial_socket is Some ==> has_free_socket(events)
            &&& launched ==> has_launched(events)
            &&& attached && plan.serial_socket is Some ==> has_bridge(events)
            &&& stage == CreateStage::Ready && plan.spec.display == DisplayMode::Vnc
                ==> has_display(events)
        }),
    decreases events.len(),
{
    if events.len() > 0 {
        let before = events.drop_last();
        lemma_prepared(plan, before);
        let n = events.len() - 1;
        assert(events[n] == events.last());
        assert(forall|i: int| 0 <= i < before.len() ==> before[i] == events[i]);
        if has_spool(before) {
            let i = choose|i: int| 0 <= i < before.len() && (#[trigger] before[i]) is SpoolReady;
            assert(events[i] is SpoolReady);
        }
        if has_free_socket(before) {
            let i = choose|i: int| 0 <= i < before.len() && (#[trigger] before[i]) is SocketFree;
            assert(events[i] is SocketFree);
        }
        if has_launched(before) {
            let i = choose|i: int| 0 <= i < before.len() && (#[trigger] before[i]) is Launched;
            assert(events[i] is Launched);
        }
        if has_bridge(before) {
            let i = choose|i: int|
                0 <= i < before.len() && (#[trigger] before[i]) is BridgeAttached;
            assert(events[i] is BridgeAttached);
        }
        if has_display(before) {
            let i = choose|i: int| 0 <= i < before.len() && (#[trigger] before[i]) is DisplayArmed;
            assert(events[i] is DisplayArmed);
        }
    }
}

/// An event happens at its own stage only, and nothing happens to a create that has ended.
pub proof fn outcomes_belong_to_a_stage(stage: CreateStage, event: CreateEvent)
    ensures
        event is Begun ==> (can_happen(stage, event) <==> stage == CreateStage::Planned),
        event is SpoolReady || event is SpoolFailed ==> (can_happen(stage, event) <==> stage
            == CreateStage::Spooling),
        event is SocketFree || event is SocketOccupied ==> (can_happen(stage, event) <==> stage
            == CreateStage::Inspecting),
        event is Launched || event is LaunchFailed ==> (can_happen(stage, event) <==> stage
            == CreateStage::Launching),
        event is BridgeAttached || event is BridgeFailed ==> (can_happen(stage, event) <==> stage
            == CreateStage::Attaching),
        event is DisplayArmed || event is DisplayFailed ==> (can_happen(stage, event) <==> stage
            == CreateStage::Arming),
{
}

/// A create takes exactly the steps that its plan asks for, in order: the log's directory where it
/// is spooled, a look at the serial socket where there is one, the launch, the socket again, the
/// Display where it is a VNC one, and the publication. Each names the path or the request of the
/// plan. Any step that goes wrong ends it, with what went wrong.
pub proof fn creates_take_the_steps_of_the_plan(
    plan: LaunchPlan,
    event: CreateEvent,
    action: CreateAction,
)
    requires
        leads_to(plan, event, action),
    ensures
        ({
            let spools = plan.spool_path is Some;
            let dials = plan.serial_socket is Some;
            let vnc = plan.spec.display == DisplayMode::Vnc;
            let prepared = (event is Begun && !spools) || event is SpoolReady;
            let attached = (event is Launched && !dials) || event is BridgeAttached;
            &&& action is MakeSpoolDirectory <==> event is Begun && spools
            &&& action is InspectSocket <==> prepared && dials
            &&& action is Launch <==> (prepared && !dials) || event is SocketFree
            &&& action is AttachBridge <==> event is Launched && dials
            &&& action is ArmDisplay <==> attached && vnc
            &&& action is Publish <==> (attached && !vnc) || event is DisplayArmed
            &&& action is Fail <==> event is SpoolFailed || event is SocketOccupied || event
                is LaunchFailed || event is BridgeFailed || event is DisplayFailed
            &&& action is MakeSpoolDirectory <==> next_stage(plan, event) == CreateStage::Spooling
            &&& action is InspectSocket <==> next_stage(plan, event) == CreateStage::Inspecting
            &&& action is Launch <==> next_stage(plan, event) == CreateStage::Launching
            &&& action is AttachBridge <==> next_stage(plan, event) == CreateStage::Attaching
            &&& action is ArmDisplay <==> next_stage(plan, event) == CreateStage::Arming
            &&& action is Publish <==> next_stage(plan, event) == CreateStage::Ready
            &&& action is Fail <==> next_stage(plan, event) == CreateStage::Failed
        }),
        action matches CreateAction::MakeSpoolDirectory { path } ==> plan.spool_path matches Some(
            p,
        ) && path@ == p@,
        action matches CreateAction::InspectSocket { path } ==> plan.serial_socket matches Some(p)
            && path@ == p@,
        action matches CreateAction::AttachBridge { path } ==> plan.serial_socket matches Some(p)
            && path@ == p@,
        action matches CreateAction::Launch(request) ==> request.binary@ == plan.request.binary@
            && text::texts(request.argv@) == text::texts(plan.request.argv@)
            && request.qmp_socket_path@ == plan.request.qmp_socket_path@,
        action matches CreateAction::Fail(failure) ==> {
            &&& event matches CreateEvent::SpoolFailed { dir, why } ==> failure == (
            CreateFailure::SpoolDirectory { dir, why })
            &&& event is SocketOccupied ==> (failure matches CreateFailure::SocketOccupied { path }
                && (plan.serial_socket matches Some(p) && path@ == p@))
            &&& event matches CreateEvent::LaunchFailed(e) ==> failure == CreateFailure::Launch(e)
            &&& event matches CreateEvent::BridgeFailed(e) ==> failure == CreateFailure::Bridge(e)
            &&& event matches CreateEvent::DisplayFailed(why) ==> failure == CreateFailure::Viewer(
                why,
            )
        },
{
}

/// A create looks at a serial socket, or dials one, only where its plan has one.
pub proof fn sockets_are_of_the_plan(c: Creation)
    ensures
        c.valid() <==> (c.stage == CreateStage::Inspecting ==> c.plan.serial_socket is Some) && (
        c.stage == CreateStage::Attaching ==> c.plan.serial_socket is Some),
{
}

} // verus!
