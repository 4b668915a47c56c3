//! When the registry looks into the state directory: after each event there,
//! and every now and then, since an agent that dies writes nothing any more.

use crate::agent_registry::{
    state_dir, state_directory, AgentRegistry, AgentState, GlobalAgentRegistry,
};
use crate::path::{ComponentView, DirPath};
use vstd::prelude::*;

verus! {

/// For how long events in the state directory are gathered, in milliseconds.
pub const WATCH_LATENCY_MILLISECONDS: u64 = 100;

/// How long the liveness sweep sleeps between two looks, in seconds.
pub const SWEEP_INTERVAL_SECONDS: u64 = 20;

/// How far the watch of the state directory has come, and so what is to be done
/// next.
#[derive(Debug)]
pub enum WatchState {
    /// The directory is to be made and watched.
    Open { directory: DirPath },
    /// The registry is to look into the directory.
    Rescan,
    /// The next event in the directory is to be awaited.
    AwaitEvent,
    /// There is nothing left to be done.
    Stopped,
}

/// What came of the last thing that was to be done.
#[derive(Clone, Copy, Debug, PartialEq, Eq, Structural)]
pub enum WatchEvent {
    /// The directory is watched.
    Opened,
    /// The registry has looked into the directory, if it is still there.
    Rescanned { registry_alive: bool },
    /// Something happened in the directory, or nothing will any more.
    Waited { event: bool },
}

/// What a [`WatchState`] stands for.
pub enum WatchStateView {
    Open { directory: Seq<ComponentView> },
    Rescan,
    AwaitEvent,
    Stopped,
}

impl View for WatchState {
    type V = WatchStateView;

    open spec fn view(&self) -> WatchStateView {
        match *self {
            WatchState::Open { directory } => WatchStateView::Open { directory: directory@ },
            WatchState::Rescan => WatchStateView::Rescan,
            WatchState::AwaitEvent => WatchStateView::AwaitEvent,
            WatchState::Stopped => WatchStateView::Stopped,
        }
    }
}

/// The next state of the watch. An event that does not answer what the state
/// asks for changes nothing.
pub open spec fn next_watch(state: WatchStateView, event: WatchEvent) -> WatchStateView {
    match (state, event) {
        (WatchStateView::Open { .. }, WatchEvent::Opened) => WatchStateView::Rescan,
        (WatchStateView::Rescan, WatchEvent::Rescanned { registry_alive }) => {
            if registry_alive {
                WatchStateView::AwaitEvent
            } else {
                WatchStateView::Stopped
            }
        },
        (WatchStateView::AwaitEvent, WatchEvent::Waited { event }) => if event {
            WatchStateView::Rescan
        } else {
            WatchStateView::Stopped
        },
        _ => state,
    }
}

/// How the watch begins: without a home there is no directory to watch.
pub open spec fn first_watch(home: Option<DirPath>) -> WatchStateView {
    match home {
        Some(home) => WatchStateView::Open { directory: state_directory(home@) },
        None => WatchStateView::Stopped,
    }
}

/// Begins the watch of the state directory; without a home there is none.
pub fn watch_task(home: Option<DirPath>) -> (state: WatchState)
    ensures
        state@ == first_watch(home),
{
    match state_dir(home) {
        Some(directory) => WatchState::Open { directory },
        None => WatchState::Stopped,
    }
}

impl WatchState {
    /// Takes the watch on.
    pub fn advance(self, event: WatchEvent) -> (next: Self)
        ensures
            next@ == next_watch(self@, event),
    {
        match (self, event) {
            (WatchState::Open { directory: _ }, WatchEvent::Opened) => WatchState::Rescan,
            (WatchState::Rescan, WatchEvent::Rescanned { registry_alive }) => if registry_alive {
                WatchState::AwaitEvent
            } else {
                WatchState::Stopped
            },
            (WatchState::AwaitEvent, WatchEvent::Waited { event }) => if event {
                WatchState::Rescan
            } else {
                WatchState::Stopped
            },
            (state, _) => state,
        }
    }
}

/// How far the liveness sweep has come, and so what is to be done next.
#[derive(Clone, Copy, Debug, PartialEq, Eq, Structural)]
pub enum SweepState {
    /// [`SWEEP_INTERVAL_SECONDS`] are to pass.
    Sleep,
    /// The registry is to look into the directory.
    Rescan,
    /// There is nothing left to be done.
    Stopped,
}

/// What came of the last thing that was to be done.
#[derive(Clone, Copy, Debug, PartialEq, Eq, Structural)]
pub enum SweepEvent {
    /// The time has passed.
    Woke,
    /// The registry has looked into the directory, if it is still there.
    Rescanned { registry_alive: bool },
}

/// The next state of the sweep.
pub open spec fn next_sweep(state: SweepState, event: SweepEvent) -> SweepState {
    match (state, event) {
        (SweepState::Sleep, SweepEvent::Woke) => SweepState::Rescan,
        (SweepState::Rescan, SweepEvent::Rescanned { registry_alive }) => if registry_alive {
            SweepState::Sleep
        } else {
            SweepState::Stopped
        },
        _ => state,
    }
}

/// Begins the liveness sweep.
pub fn sweep_task() -> (state: SweepState)
    ensures
        state == SweepState::Sleep,
{
    SweepState::Sleep
}

impl SweepState {
    /// Takes the sweep on.
    pub fn advance(self, event: SweepEvent) -> (next: Self)
        ensures
            next == next_sweep(self, event),
    {
        match (self, event) {
            (SweepState::Sleep, SweepEvent::Woke) => SweepState::Rescan,
            (SweepState::Rescan, SweepEvent::Rescanned { registry_alive }) => if registry_alive {
                SweepState::Sleep
            } else {
                SweepState::Stopped
            },
            (state, _) => state,
        }
    }
}

/// How the application's registry may change when the application begins to
/// keep one, and whether the tasks that keep it up to date are begun then: an
/// application that has a registry keeps it as it is, and begins no task.
pub open spec fn is_begun(
    before: GlobalAgentRegistry,
    after: GlobalAgentRegistry,
    tasks_begin: bool,
) -> bool {
    &&& tasks_begin == before.registry.is_none()
    &&& if tasks_begin {
        &&& after.registry matches Some(registry)
        &&& registry.well_formed()
        &&& registry@ == Map::<Seq<char>, AgentState>::empty()
    } else {
        after == before
    }
}

/// Gives the application its registry, and begins the watch and the sweep that
/// keep it up to date. In an application that has a registry nothing is begun.
pub fn begin(global: &mut GlobalAgentRegistry, home: Option<DirPath>) -> (tasks: Option<
    (WatchState, SweepState),
>)
    ensures
        tasks.is_some() == old(global).registry.is_none(),
        tasks matches Some((watch, sweep)) ==> watch@ == first_watch(home) && sweep
            == SweepState::Sleep,
        tasks.is_none() ==> *final(global) == *old(global),
        is_begun(*old(global), *final(global), tasks.is_some()),
{
    if global.registry.is_some() {
        return None;
    }
    AgentRegistry::init(global);
    Some((watch_task(home), sweep_task()))
}

/// The registry and its tasks are begun once: to begin again, right away or
/// after any number of looks into the directory, leaves the registry as it is
/// and begins no second watch and no second sweep.
pub proof fn law_tasks_are_begun_once(
    before: GlobalAgentRegistry,
    after: GlobalAgentRegistry,
    tasks_begin: bool,
    later: GlobalAgentRegistry,
    last: GlobalAgentRegistry,
    tasks_begin_again: bool,
)
    requires
        is_begun(before, after, tasks_begin),
        after.registry.is_some() ==> later.registry.is_some(),
        is_begun(later, last, tasks_begin_again),
    ensures
        after.registry.is_some(),
        before.registry.is_some() ==> after == before && !tasks_begin,
        !tasks_begin_again,
        last == later,
{
}

/// Whatever is waited for, the directory is looked into before the next wait
/// begins: no event, and no death that a sweep could find, is passed over.
pub proof fn law_a_look_comes_before_every_wait(
    state: WatchStateView,
    event: WatchEvent,
    sweep: SweepState,
    sweep_event: SweepEvent,
)
    ensures
        !(state is AwaitEvent) && next_watch(state, event) is AwaitEvent ==> state is Rescan,
        state is AwaitEvent && event is Waited ==> !(next_watch(state, event) is AwaitEvent),
        sweep != SweepState::Sleep && next_sweep(sweep, sweep_event) == SweepState::Sleep ==> sweep
            == SweepState::Rescan,
        sweep == SweepState::Sleep && sweep_event == SweepEvent::Woke ==> next_sweep(
            sweep,
            sweep_event,
        ) == SweepState::Rescan,
{
}

/// Both tasks stop for good when the registry is gone.
pub proof fn law_tasks_stop_with_the_registry(event: WatchEvent, sweep_event: SweepEvent)
    ensures
        next_watch(WatchStateView::Rescan, WatchEvent::Rescanned { registry_alive: false })
            == WatchStateView::Stopped,
        next_sweep(SweepState::Rescan, SweepEvent::Rescanned { registry_alive: false })
            == SweepState::Stopped,
        next_watch(WatchStateView::Stopped, event) == WatchStateView::Stopped,
        next_sweep(SweepState::Stopped, sweep_event) == SweepState::Stopped,
{
}

/// The watch goes through its steps in order: the directory is opened, looked
/// into, awaited, and looked into again. It is opened below the home, where
/// there is one.
pub proof fn law_the_watch_takes_its_steps_in_order(
    state: WatchStateView,
    event: WatchEvent,
    home: DirPath,
)
    ensures
        state is Open && event == WatchEvent::Opened ==> next_watch(state, event) is Rescan,
        state is Rescan && event == (WatchEvent::Rescanned { registry_alive: true })
            ==> next_watch(state, event) is AwaitEvent,
        state is AwaitEvent && event == (WatchEvent::Waited { event: true }) ==> next_watch(
            state,
            event,
        ) is Rescan,
        state is AwaitEvent && event == (WatchEvent::Waited { event: false }) ==> next_watch(
            state,
            event,
        ) is Stopped,
        state is Open && event != WatchEvent::Opened ==> next_watch(state, event) == state,
        state is Rescan && !(event is Rescanned) ==> next_watch(state, event) == state,
        state is AwaitEvent && !(event is Waited) ==> next_watch(state, event) == state,
        first_watch(None) is Stopped,
        ({
            &&& first_watch(Some(home)) matches WatchStateView::Open { directory }
            &&& directory == state_directory(home@)
        }),
{
}

/// The sweep sleeps and looks in turn, and nothing else moves it.
pub proof fn law_the_sweep_sleeps_and_looks_in_turn(state: SweepState, event: SweepEvent)
    ensures
        state == SweepState::Sleep && event == SweepEvent::Woke ==> next_sweep(state, event)
            == SweepState::Rescan,
        state == SweepState::Rescan && event == (SweepEvent::Rescanned { registry_alive: true })
            ==> next_sweep(state, event) == SweepState::Sleep,
        state == SweepState::Sleep && event is Rescanned ==> next_sweep(state, event) == state,
        state == SweepState::Rescan && event == SweepEvent::Woke ==> next_sweep(state, event)
            == state,
{
}

/// The states of the watch are told as they are.
pub proof fn law_watch_states_are_told_as_they_are(state: WatchState)
    ensures
        state is Rescan <==> state@ is Rescan,
        state is AwaitEvent <==> state@ is AwaitEvent,
        state is Stopped <==> state@ is Stopped,
        state matches WatchState::Open { directory } ==> (state@ matches WatchStateView::Open {
            directory: shown,
        } && shown == directory@),
{
}

} // verus!
