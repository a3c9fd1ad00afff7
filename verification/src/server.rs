//! The lifecycle of the bridge server: the HTTP listener that serves the
//! shared folder. The library decides what state the server is in and what
//! has to be done; binding and serving are the caller's work.

use vstd::prelude::*;
use crate::path_guard::PathGuard;

verus! {

/// The port that the bridge listens on.
pub const BRIDGE_PORT: u16 = 3000;

/// Where the bridge listens: an IPv4 address and a port.
#[derive(Clone, Copy, Debug)]
pub struct BindAddress {
    pub host: [u8; 4],
    pub port: u16,
}

/// The address of the bridge: the loopback address and `BRIDGE_PORT`.
pub fn bridge_address() -> (address: BindAddress)
    ensures
        address.host@ == seq![127u8, 0u8, 0u8, 1u8],
        address.port == BRIDGE_PORT,
{
    BindAddress { host: [127, 0, 0, 1], port: BRIDGE_PORT }
}

/// The state of a bridge server.
#[derive(Debug)]
pub enum ServerStatus {
    /// Not started yet.
    Idle,
    /// Asked to start; the listener is not known to be bound.
    Starting,
    /// The listener is bound and serves.
    Running,
    /// Stopped on request.
    Stopped,
    /// The listener could not be bound.
    Failed(String),
}

/// The mathematical value of a [`ServerStatus`].
pub enum StatusView {
    Idle,
    Starting,
    Running,
    Stopped,
    Failed(Seq<char>),
}

impl View for ServerStatus {
    type V = StatusView;

    open spec fn view(&self) -> StatusView {
        match *self {
            ServerStatus::Idle => StatusView::Idle,
            ServerStatus::Starting => StatusView::Starting,
            ServerStatus::Running => StatusView::Running,
            ServerStatus::Stopped => StatusView::Stopped,
            ServerStatus::Failed(reason) => StatusView::Failed(reason@),
        }
    }
}

/// What can happen to a bridge server.
#[derive(Debug)]
pub enum ServerEvent {
    /// The owner asks the server to start.
    Start,
    /// The listener reports that it is bound.
    Bound,
    /// The listener reports that it could not be bound, and why.
    BindFailed(String),
    /// The owner asks the server to stop.
    Stop,
}

/// The mathematical value of a [`ServerEvent`].
pub enum EventView {
    Start,
    Bound,
    BindFailed(Seq<char>),
    Stop,
}

impl View for ServerEvent {
    type V = EventView;

    open spec fn view(&self) -> EventView {
        match *self {
            ServerEvent::Start => EventView::Start,
            ServerEvent::Bound => EventView::Bound,
            ServerEvent::BindFailed(reason) => EventView::BindFailed(reason@),
            ServerEvent::Stop => EventView::Stop,
        }
    }
}

/// What the caller has to do after an event.
#[derive(Clone, Copy, Debug, PartialEq, Eq, Structural)]
pub enum ServerAction {
    /// Nothing.
    Nothing,
    /// Start the listener in the background and return at once.
    Spawn,
    /// Tear the listener down; requests in flight may fail.
    Teardown,
}

/// True while a server has been started and neither stopped nor failed.
pub open spec fn is_active(status: StatusView) -> bool {
    status is Starting || status is Running
}

/// The state after `event` in state `status`.
///
/// A server goes from idle to starting, from starting to running or to
/// failed, and from starting or running to stopped. An event that has no
/// place in a state changes nothing.
pub open spec fn next_status(status: StatusView, event: EventView) -> StatusView {
    match (status, event) {
        (StatusView::Idle, EventView::Start) => StatusView::Starting,
        (StatusView::Starting, EventView::Bound) => StatusView::Running,
        (StatusView::Starting, EventView::BindFailed(reason)) => StatusView::Failed(reason),
        (StatusView::Starting, EventView::Stop) => StatusView::Stopped,
        (StatusView::Running, EventView::Stop) => StatusView::Stopped,
        _ => status,
    }
}

/// What the caller has to do after `event` in state `status`.
pub open spec fn action_for(status: StatusView, event: EventView) -> ServerAction {
    match (status, event) {
        (StatusView::Idle, EventView::Start) => ServerAction::Spawn,
        (StatusView::Starting, EventView::Stop) => ServerAction::Teardown,
        (StatusView::Running, EventView::Stop) => ServerAction::Teardown,
        _ => ServerAction::Nothing,
    }
}

/// How far a server has come: idle, then starting, then running, then over.
pub open spec fn progress(status: StatusView) -> nat {
    match status {
        StatusView::Idle => 0,
        StatusView::Starting => 1,
        StatusView::Running => 2,
        StatusView::Stopped => 3,
        StatusView::Failed(_) => 3,
    }
}

/// The state after the events `events`, taken in order, from state `status`.
pub open spec fn status_after(status: StatusView, events: Seq<EventView>) -> StatusView
    decreases events.len(),
{
    if events.len() == 0 {
        status
    } else {
        next_status(status_after(status, events.drop_last()), events.last())
    }
}

/// How many of the events `events`, taken in order from state `status`, make
/// the caller start a listener.
pub open spec fn spawns(status: StatusView, events: Seq<EventView>) -> nat
    decreases events.len(),
{
    if events.len() == 0 {
        0
    } else {
        let before = status_after(status, events.drop_last());
        let earlier = spawns(status, events.drop_last());
        if action_for(before, events.last()) == ServerAction::Spawn {
            earlier + 1
        } else {
            earlier
        }
    }
}

/// A server never goes back: no event lowers its progress, an event that
/// changes the state raises it, and the caller has something to do only
/// where the state changes.
pub proof fn lemma_status_only_advances(status: StatusView, event: EventView)
    ensures
        progress(next_status(status, event)) >= progress(status),
        next_status(status, event) != status ==> progress(next_status(status, event)) > progress(
            status,
        ),
        action_for(status, event) != ServerAction::Nothing ==> next_status(status, event) != status,
{
}

/// A stopped or failed server stays as it is, and nothing is left to do for it.
pub proof fn lemma_over_is_final(status: StatusView, event: EventView)
    requires
        status is Stopped || status is Failed,
    ensures
        next_status(status, event) == status,
        action_for(status, event) == ServerAction::Nothing,
{
}

/// A server is running only by having been starting when its listener
/// reported that it was bound.
pub proof fn lemma_running_after_bound(status: StatusView, event: EventView)
    requires
        next_status(status, event) is Running,
    ensures
        status is Running || (status is Starting && event is Bound),
{
}

/// Whatever happens to a server, its listener is started at most once, and
/// not at all unless the server was idle.
pub proof fn lemma_spawned_at_most_once(status: StatusView, events: Seq<EventView>)
    ensures
        spawns(status, events) <= 1,
        !(status is Idle) ==> spawns(status, events) == 0,
        spawns(status, events) == 1 ==> !(status_after(status, events) is Idle),
        progress(status_after(status, events)) >= progress(status),
    decreases events.len(),
{
    if events.len() > 0 {
        lemma_spawned_at_most_once(status, events.drop_last());
        lemma_status_only_advances(status_after(status, events.drop_last()), events.last());
    }
}

/// A bridge server for one shared folder.
#[derive(Debug)]
pub struct FileBridgeServer {
    guard: PathGuard,
    status: ServerStatus,
}

impl FileBridgeServer {
    /// The state of the server.
    pub closed spec fn status_view(&self) -> StatusView {
        self.status@
    }

    /// The canonical components of the folder that the server serves.
    pub closed spec fn root(&self) -> Seq<Seq<char>> {
        self.guard.root()
    }

    /// An idle server for the folder that `guard` protects.
    pub fn new(guard: PathGuard) -> (server: FileBridgeServer)
        ensures
            server.status_view() == StatusView::Idle,
            server.root() == guard.root(),
    {
        FileBridgeServer { guard, status: ServerStatus::Idle }
    }

    /// The guard of the served folder. It stays the same for the server's
    /// whole life.
    pub fn guard(&self) -> (guard: &PathGuard)
        ensures
            guard.root() == self.root(),
    {
        &self.guard
    }

    /// Takes note of `event`: moves to the next state and tells the caller
    /// what to do. The served folder does not change.
    pub fn apply(&mut self, event: ServerEvent) -> (action: ServerAction)
        ensures
            final(self).status_view() == next_status(old(self).status_view(), event@),
            action == action_for(old(self).status_view(), event@),
            final(self).root() == old(self).root(),
    {
        match event {
            ServerEvent::Start => match self.status {
                ServerStatus::Idle => {
                    self.status = ServerStatus::Starting;
                    ServerAction::Spawn
                },
                _ => ServerAction::Nothing,
            },
            ServerEvent::Bound => match self.status {
                ServerStatus::Starting => {
                    self.status = ServerStatus::Running;
                    ServerAction::Nothing
                },
                _ => ServerAction::Nothing,
            },
            ServerEvent::BindFailed(reason) => match self.status {
                ServerStatus::Starting => {
                    self.status = ServerStatus::Failed(reason);
                    ServerAction::Nothing
                },
                _ => ServerAction::Nothing,
            },
            ServerEvent::Stop => match self.status {
                ServerStatus::Starting => {
                    self.status = ServerStatus::Stopped;
                    ServerAction::Teardown
                },
                ServerStatus::Running => {
                    self.status = ServerStatus::Stopped;
                    ServerAction::Teardown
                },
                _ => ServerAction::Nothing,
            },
        }
    }

    /// Whether the server has been started and has neither stopped nor failed.
    pub fn active(&self) -> (active: bool)
        ensures
            active == is_active(self.status_view()),
    {
        match self.status {
            ServerStatus::Starting => true,
            ServerStatus::Running => true,
            _ => false,
        }
    }

    /// The state of the server.
    pub fn status(&self) -> (status: &ServerStatus)
        ensures
            status@ == self.status_view(),
    {
        &self.status
    }
}

} // verus!
