//! The session controller: one shared folder at a time, with its PIN and
//! its bridge server.
//!
//! Policy: while a session's server is starting or running, a request to
//! share is refused with `AlreadySharing`; the owner stops first. A session
//! whose server failed to bind may be replaced by a new one.
//!
//! Every session has a number of its own. A listener reports under the
//! number of the session that started it, so that the report of a listener
//! whose session is over changes nothing.

use vstd::prelude::*;
use crate::path_guard::PathGuard;
use crate::pin::{generate, is_pin, validate, PinCode};
use crate::server::{
    bridge_address, is_active, next_status, BindAddress, EventView, FileBridgeServer, ServerAction,
    ServerEvent, ServerStatus, StatusView,
};

verus! {

/// Why the controller refused a request, or what went wrong with a session.
#[derive(Debug)]
pub enum SessionError {
    /// A session is starting or running: stop it first.
    AlreadySharing,
    /// The listener of the session could not be bound, for the given reason.
    BindFailure(String),
}

/// The mathematical value of a [`SessionError`].
pub enum SessionErrorView {
    AlreadySharing,
    BindFailure(Seq<char>),
}

impl View for SessionError {
    type V = SessionErrorView;

    open spec fn view(&self) -> SessionErrorView {
        match *self {
            SessionError::AlreadySharing => SessionErrorView::AlreadySharing,
            SessionError::BindFailure(reason) => SessionErrorView::BindFailure(reason@),
        }
    }
}

/// What the user is told of a session error.
pub open spec fn session_message_of(e: SessionErrorView) -> Seq<char> {
    match e {
        SessionErrorView::AlreadySharing => "A folder is already shared; stop sharing first"@,
        SessionErrorView::BindFailure(reason) => "Failed to bind the server: "@ + reason,
    }
}

impl SessionError {
    /// What the user is told of the error; a bind failure keeps the
    /// listener's own account, unchanged.
    pub fn message(&self) -> (text: String)
        ensures
            text@ == session_message_of(self@),
    {
        match self {
            SessionError::AlreadySharing => String::from_str(
                "A folder is already shared; stop sharing first",
            ),
            SessionError::BindFailure(reason) => {
                let mut text = String::from_str("Failed to bind the server: ");
                text.append(reason.as_str());
                text
            },
        }
    }
}

/// One sharing of one folder.
#[derive(Debug)]
pub struct ShareSession {
    /// The number of the session, under which its listener reports.
    pub id: u64,
    /// The bridge server of the session, which holds the shared folder.
    pub server: FileBridgeServer,
    /// The PIN of the session.
    pub pin: PinCode,
    /// When the session was made, as the caller counts time.
    pub created_at: u64,
}

/// The mathematical value of a [`ShareSession`]. The address is no part of
/// it: every session is served at the one address of the bridge.
pub struct SessionView {
    pub id: u64,
    pub root: Seq<Seq<char>>,
    pub pin: Seq<char>,
    pub created_at: u64,
    pub status: StatusView,
}

impl View for ShareSession {
    type V = SessionView;

    open spec fn view(&self) -> SessionView {
        SessionView {
            id: self.id,
            root: self.server.root(),
            pin: self.pin@,
            created_at: self.created_at,
            status: self.server.status_view(),
        }
    }
}

impl ShareSession {
    /// Where the session's server listens.
    pub fn address(&self) -> (address: BindAddress)
        ensures
            address.host@ == seq![127u8, 0u8, 0u8, 1u8],
            address.port == crate::server::BRIDGE_PORT,
    {
        bridge_address()
    }
}

/// The mathematical value of a [`SessionController`].
pub struct ControllerView {
    /// The session, if there is one.
    pub session: Option<SessionView>,
    /// The PIN that was shown for the session to come, if one was.
    pub reserved: Option<Seq<char>>,
    /// The number of the session that was made last.
    pub issued: u64,
}

/// The number of the session after the one numbered `issued`. The numbers
/// start again at zero after the largest.
pub open spec fn next_id(issued: u64) -> u64 {
    if issued < u64::MAX {
        (issued + 1) as u64
    } else {
        0
    }
}

/// The state of the server in state `state`: idle where there is no session.
pub open spec fn status_of(state: ControllerView) -> StatusView {
    match state.session {
        None => StatusView::Idle,
        Some(session) => session.status,
    }
}

/// True when a request to share is granted in state `state`: there is no
/// session, or its server is neither starting nor running.
pub open spec fn admits_start(state: ControllerView) -> bool {
    match state.session {
        None => true,
        Some(session) => !is_active(session.status),
    }
}

/// The PIN for the user to see in state `state`: that of the session while
/// its server is starting or running, else the one that is reserved for the
/// session to come, if any.
pub open spec fn shown_pin(state: ControllerView) -> Option<Seq<char>> {
    match state.session {
        Some(session) if is_active(session.status) => Some(session.pin),
        _ => state.reserved,
    }
}

/// The session that a granted request makes: its server is starting.
pub open spec fn started(
    id: u64,
    root: Seq<Seq<char>>,
    pin: Seq<char>,
    now: u64,
) -> SessionView {
    SessionView { id, root, pin, created_at: now, status: StatusView::Starting }
}

/// The state after a request to share `root` with the PIN `pin` at time
/// `now`. Where the request is granted, the new session has the next number
/// and no PIN is reserved any more; where it is refused, nothing changes.
pub open spec fn after_start(
    state: ControllerView,
    root: Seq<Seq<char>>,
    pin: Seq<char>,
    now: u64,
) -> ControllerView {
    if admits_start(state) {
        ControllerView {
            session: Some(started(next_id(state.issued), root, pin, now)),
            reserved: None,
            issued: next_id(state.issued),
        }
    } else {
        state
    }
}

/// The state after the listener of the session numbered `id` reported
/// `event`: the session's server takes note where the number is that of the
/// session, and nothing changes where it is not.
pub open spec fn after_event(state: ControllerView, id: u64, event: EventView) -> ControllerView {
    match state.session {
        Some(session) if session.id == id => ControllerView {
            session: Some(
                SessionView {
                    id: session.id,
                    root: session.root,
                    pin: session.pin,
                    created_at: session.created_at,
                    status: next_status(session.status, event),
                },
            ),
            reserved: state.reserved,
            issued: state.issued,
        },
        _ => state,
    }
}

/// The state after the session was ended.
pub open spec fn after_stop(state: ControllerView) -> ControllerView {
    ControllerView { session: None, reserved: state.reserved, issued: state.issued }
}

/// The state after the requests `requests`, each a folder, a PIN and a time,
/// taken in order.
pub open spec fn after_starts(
    state: ControllerView,
    requests: Seq<(Seq<Seq<char>>, Seq<char>, u64)>,
) -> ControllerView
    decreases requests.len(),
{
    if requests.len() == 0 {
        state
    } else {
        let last = requests.last();
        after_start(after_starts(state, requests.drop_last()), last.0, last.1, last.2)
    }
}

/// True when the session, if there is one, has the number that was given
/// last. It holds of a new controller and is kept by whatever is done.
pub open spec fn numbered(state: ControllerView) -> bool {
    state.session matches Some(session) ==> session.id == state.issued
}

/// A granted request to share leaves a session that admits no further one.
pub proof fn lemma_start_occupies(
    state: ControllerView,
    root: Seq<Seq<char>>,
    pin: Seq<char>,
    now: u64,
)
    requires
        admits_start(state),
    ensures
        after_start(state, root, pin, now).session == Some(
            started(next_id(state.issued), root, pin, now),
        ),
        !admits_start(after_start(state, root, pin, now)),
        shown_pin(after_start(state, root, pin, now)) == Some(pin),
{
}

/// While a session is starting or running, every request to share is
/// refused and changes nothing, however many follow one another.
pub proof fn lemma_repeated_start_refused(
    state: ControllerView,
    requests: Seq<(Seq<Seq<char>>, Seq<char>, u64)>,
)
    requires
        !admits_start(state),
    ensures
        after_starts(state, requests) == state,
        forall|k: int|
            0 <= k < requests.len() ==> !admits_start(
                #[trigger] after_starts(state, requests.take(k)),
            ),
    decreases requests.len(),
{
    if requests.len() > 0 {
        lemma_repeated_start_refused(state, requests.drop_last());
        assert forall|k: int| 0 <= k < requests.len() implies !admits_start(
            #[trigger] after_starts(state, requests.take(k)),
        ) by {
            lemma_repeated_start_refused(state, requests.take(k));
        }
    }
}

/// The report that the listener is bound does not free the controller: a
/// session that admitted no request before admits none after, whatever
/// number the report bears.
pub proof fn lemma_bound_keeps_occupied(state: ControllerView, id: u64)
    requires
        !admits_start(state),
    ensures
        !admits_start(after_event(state, id, EventView::Bound)),
{
}

/// Whatever is done keeps the session's number the one that was given last.
pub proof fn lemma_numbered_kept(
    state: ControllerView,
    root: Seq<Seq<char>>,
    pin: Seq<char>,
    now: u64,
    id: u64,
    event: EventView,
)
    requires
        numbered(state),
    ensures
        numbered(after_start(state, root, pin, now)),
        numbered(after_event(state, id, event)),
        numbered(after_stop(state)),
{
}

/// The report of a listener whose session is over changes nothing: after
/// the session is ended and another is granted, a report under the old
/// number leaves the new session as it is.
pub proof fn lemma_stale_report_ignored(
    state: ControllerView,
    root: Seq<Seq<char>>,
    pin: Seq<char>,
    now: u64,
    event: EventView,
)
    requires
        numbered(state),
        state.session is Some,
    ensures
        ({
            let old_id = state.session->0.id;
            let next = after_start(after_stop(state), root, pin, now);
            next.session is Some && next.session->0.id != old_id && after_event(next, old_id, event)
                == next
        }),
{
}

/// The controller of the sharing sessions: it holds at most one.
#[derive(Debug)]
pub struct SessionController {
    session: Option<ShareSession>,
    reserved: Option<PinCode>,
    issued: u64,
}

impl View for SessionController {
    type V = ControllerView;

    closed spec fn view(&self) -> ControllerView {
        ControllerView {
            session: match self.session {
                None => None,
                Some(session) => Some(session@),
            },
            reserved: match self.reserved {
                None => None,
                Some(pin) => Some(pin@),
            },
            issued: self.issued,
        }
    }
}

impl SessionController {
    /// A controller without a session, which has given no number yet and
    /// reserved no PIN.
    pub fn new() -> (controller: SessionController)
        ensures
            controller@ == (ControllerView { session: None, reserved: None, issued: 0 }),
            numbered(controller@),
    {
        SessionController { session: None, reserved: None, issued: 0 }
    }

    /// The session, if there is one.
    pub fn session(&self) -> (session: Option<&ShareSession>)
        ensures
            match session {
                None => self@.session is None,
                Some(s) => self@.session == Some(s@),
            },
    {
        self.session.as_ref()
    }

    /// The state of the session's server; idle where there is no session.
    pub fn status(&self) -> (status: ServerStatus)
        ensures
            status@ == status_of(self@),
    {
        match &self.session {
            None => ServerStatus::Idle,
            Some(session) => match session.server.status() {
                ServerStatus::Idle => ServerStatus::Idle,
                ServerStatus::Starting => ServerStatus::Starting,
                ServerStatus::Running => ServerStatus::Running,
                ServerStatus::Stopped => ServerStatus::Stopped,
                ServerStatus::Failed(reason) => ServerStatus::Failed(reason.clone()),
            },
        }
    }

    /// Whether a session is starting or running, so that a request to share
    /// would be refused.
    pub fn is_sharing(&self) -> (sharing: bool)
        ensures
            sharing == !admits_start(self@),
    {
        match &self.session {
            None => false,
            Some(session) => session.server.active(),
        }
    }

    /// The number under which the next session's listener would report.
    fn next_number(&self) -> (id: u64)
        ensures
            id == next_id(self@.issued),
    {
        if self.issued < u64::MAX {
            self.issued + 1
        } else {
            0
        }
    }

    /// The PIN for the user to see. While a session is starting or running
    /// it is that session's. Otherwise it is the PIN reserved for the
    /// session to come, which is drawn now if none is reserved yet; the next
    /// granted request to share takes it.
    pub fn pairing_pin(&mut self) -> (pin: PinCode)
        ensures
            is_pin(pin@),
            final(self)@.session == old(self)@.session,
            final(self)@.issued == old(self)@.issued,
            shown_pin(final(self)@) == Some(pin@),
            shown_pin(old(self)@) is Some ==> final(self)@ == old(self)@,
    {
        let current = match &self.session {
            Some(session) => {
                if session.server.active() {
                    Some(session.pin)
                } else {
                    self.reserved
                }
            },
            None => self.reserved,
        };
        match current {
            Some(pin) => {
                proof {
                    pin.lemma_is_pin();
                }
                pin
            },
            None => {
                let pin = generate();
                self.reserved = Some(pin);
                pin
            },
        }
    }

    /// Whether `candidate` is exactly the PIN of the session whose server
    /// is starting or running; false where there is none.
    pub fn validate_pin(&self, candidate: &str) -> (valid: bool)
        ensures
            valid == (!admits_start(self@) && shown_pin(self@) == Some(candidate@)),
    {
        match &self.session {
            Some(session) => {
                if session.server.active() {
                    validate(candidate, &session.pin)
                } else {
                    false
                }
            },
            None => false,
        }
    }

    /// Shares the folder of `guard` with the given PIN, unless a session is
    /// starting or running.
    ///
    /// Where the request is granted the new session replaces whatever was
    /// there, its server is starting, and the caller starts the listener in
    /// the background. Where it is refused nothing changes.
    pub fn start_sharing_with(&mut self, guard: PathGuard, pin: PinCode, now: u64) -> (result:
        Result<PinCode, SessionError>)
        ensures
            final(self)@ == after_start(old(self)@, guard.root(), pin@, now),
            match result {
                Ok(given) => admits_start(old(self)@) && given@ == pin@,
                Err(e) => !admits_start(old(self)@) && e@ == SessionErrorView::AlreadySharing,
            },
    {
        if self.is_sharing() {
            return Err(SessionError::AlreadySharing);
        }
        let id = self.next_number();
        let mut server = FileBridgeServer::new(guard);
        let _ = server.apply(ServerEvent::Start);
        self.session = Some(ShareSession { id, server, pin, created_at: now });
        self.reserved = None;
        self.issued = id;
        Ok(pin)
    }

    /// Shares the folder of `guard`, unless a session is starting or
    /// running. The session's PIN is the one that was reserved for it, or a
    /// newly drawn one where none was; none is drawn where the request is
    /// refused.
    pub fn start_sharing(&mut self, guard: PathGuard, now: u64) -> (result: Result<
        PinCode,
        SessionError,
    >)
        ensures
            match result {
                Ok(pin) => {
                    &&& admits_start(old(self)@)
                    &&& is_pin(pin@)
                    &&& old(self)@.reserved matches Some(reserved) ==> pin@ == reserved
                    &&& final(self)@ == after_start(old(self)@, guard.root(), pin@, now)
                },
                Err(e) => {
                    &&& !admits_start(old(self)@)
                    &&& e@ == SessionErrorView::AlreadySharing
                    &&& final(self)@ == old(self)@
                },
            },
    {
        if self.is_sharing() {
            return Err(SessionError::AlreadySharing);
        }
        let pin = match self.reserved {
            Some(pin) => {
                proof {
                    pin.lemma_is_pin();
                }
                pin
            },
            None => generate(),
        };
        self.start_sharing_with(guard, pin, now)
    }

    /// Ends the session, if there is one, and tells whether a listener has
    /// to be torn down: it has where the server was starting or running.
    pub fn stop_sharing(&mut self) -> (action: ServerAction)
        ensures
            final(self)@ == after_stop(old(self)@),
            status_of(final(self)@) == StatusView::Idle,
            action == if !admits_start(old(self)@) {
                ServerAction::Teardown
            } else {
                ServerAction::Nothing
            },
    {
        let action = if self.is_sharing() {
            ServerAction::Teardown
        } else {
            ServerAction::Nothing
        };
        self.session = None;
        action
    }

    /// Takes note that the listener of the session numbered `id` is bound:
    /// a starting server is running from now on.
    pub fn listener_bound(&mut self, id: u64)
        ensures
            final(self)@ == after_event(old(self)@, id, EventView::Bound),
    {
        match &mut self.session {
            None => {},
            Some(session) => {
                if session.id == id {
                    let _ = session.server.apply(ServerEvent::Bound);
                }
            },
        }
    }

    /// Takes note that the listener of the session numbered `id` could not
    /// be bound: a starting server has failed, for the given reason.
    pub fn listener_failed(&mut self, id: u64, reason: String)
        ensures
            final(self)@ == after_event(old(self)@, id, EventView::BindFailed(reason@)),
    {
        match &mut self.session {
            None => {},
            Some(session) => {
                if session.id == id {
                    let _ = session.server.apply(ServerEvent::BindFailed(reason));
                }
            },
        }
    }

    /// The bind failure of the session, if its server failed.
    pub fn failure(&self) -> (failure: Option<SessionError>)
        ensures
            match failure {
                Some(e) => status_of(self@) matches StatusView::Failed(reason) && e@
                    == SessionErrorView::BindFailure(reason),
                None => !(status_of(self@) is Failed),
            },
    {
        match &self.session {
            None => None,
            Some(session) => match session.server.status() {
                ServerStatus::Failed(reason) => Some(SessionError::BindFailure(reason.clone())),
                _ => None,
            },
        }
    }
}

} // verus!
