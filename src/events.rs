use vstd::prelude::*;

verus! {

/// What happened to an instance.
#[derive(Clone, Debug)]
pub enum InstanceEventInner {
    InstanceStarting,
    InstanceStarted,
    InstanceStopping,
    InstanceStopped,
    InstanceWarning,
    InstanceError,
    InstanceCreationFailed,
    InstanceInput { message: String },
    InstanceOutput { message: String },
    SystemMessage { message: String },
    /// The players now online, each named once.
    PlayerChange { player_list: Vec<String> },
    PlayerJoined { player: String },
    PlayerLeft { player: String },
    PlayerMessage { player: String, player_message: String },
    /// Progress of a long operation: what it is doing, and how far it is, in
    /// thousandths.
    Setup { message: String, permille: u32 },
}

#[derive(Clone, Debug)]
pub struct InstanceEvent {
    pub instance_uuid: String,
    pub instance_name: String,
    pub instance_event_inner: InstanceEventInner,
}

/// What happened to a user account.
#[derive(Clone, Copy, Debug, PartialEq, Eq, Structural)]
pub enum UserEventInner {
    UserCreated,
    UserDeleted,
    UserLoggedIn,
    UserLoggedOut,
}

#[derive(Clone, Debug)]
pub struct UserEvent {
    pub user_id: String,
    pub user_event_inner: UserEventInner,
}

#[derive(Clone, Debug)]
pub enum EventInner {
    InstanceEvent(InstanceEvent),
    UserEvent(UserEvent),
}

/// One broadcast event, with its time stamp and a key that identifies it.
#[derive(Clone, Debug)]
pub struct Event {
    pub event_inner: EventInner,
    pub details: String,
    pub timestamp: i64,
    pub idempotency: String,
}

/// Whether an event carries console text: server output, a player's chat
/// message or a system message.
pub open spec fn is_console_message(e: Event) -> bool {
    match e.event_inner {
        EventInner::InstanceEvent(ie) => match ie.instance_event_inner {
            InstanceEventInner::InstanceOutput { .. } => true,
            InstanceEventInner::PlayerMessage { .. } => true,
            InstanceEventInner::SystemMessage { .. } => true,
            _ => false,
        },
        _ => false,
    }
}

impl Event {
    pub fn is_event_console_message(&self) -> (r: bool)
        ensures
            r == is_console_message(*self),
    {
        match &self.event_inner {
            EventInner::InstanceEvent(instance_event) => match &instance_event.instance_event_inner {
                InstanceEventInner::InstanceOutput { .. } => true,
                InstanceEventInner::PlayerMessage { .. } => true,
                InstanceEventInner::SystemMessage { .. } => true,
                _ => false,
            },
            _ => false,
        }
    }

    /// The uuid of the instance an instance event is about.
    pub fn get_instance_uuid(&self) -> (r: String)
        requires
            self.event_inner is InstanceEvent,
        ensures
            r@ == self.event_inner->InstanceEvent_0.instance_uuid@,
    {
        match &self.event_inner {
            EventInner::InstanceEvent(instance_event) => instance_event.instance_uuid.clone(),
            EventInner::UserEvent(_) => String::new(),
        }
    }
}

} // verus!
