//! Events raised by the Remote Desktop control and the small decisions made
//! about the COM calls that carry them.
use vstd::prelude::*;

verus! {

#[derive(Clone, Copy, Debug, PartialEq, Eq)]
pub enum RdpEventKind {
    Connecting,
    Connected,
    LoginCompleted,
    Disconnected,
    AutoReconnecting,
    AutoReconnected,
    DialogDisplaying,
    DialogDismissed,
    EnterFullScreen,
    LeaveFullScreen,
    RequestGoFullScreen,
    RequestLeaveFullScreen,
    RequestContainerMinimize,
    FatalError,
    Warning,
    LogonError,
    NetworkStatusChanged,
    RemoteDesktopSizeChanged,
    RemoteProgramDisplayed,
}

/// One event and its arguments, in the order the control declared them.
#[derive(Debug)]
pub struct RdpEvent {
    pub kind: RdpEventKind,
    pub arguments: Vec<String>,
}

/// The events of the control's outgoing dispinterface, by DISPID.
pub open spec fn event_kind_of(dispid: i32) -> Option<RdpEventKind> {
    if dispid == 1 {
        Some(RdpEventKind::Connecting)
    } else if dispid == 2 {
        Some(RdpEventKind::Connected)
    } else if dispid == 3 {
        Some(RdpEventKind::LoginCompleted)
    } else if dispid == 4 {
        Some(RdpEventKind::Disconnected)
    } else if dispid == 5 {
        Some(RdpEventKind::EnterFullScreen)
    } else if dispid == 6 {
        Some(RdpEventKind::LeaveFullScreen)
    } else if dispid == 8 {
        Some(RdpEventKind::RequestGoFullScreen)
    } else if dispid == 9 {
        Some(RdpEventKind::RequestLeaveFullScreen)
    } else if dispid == 10 {
        Some(RdpEventKind::FatalError)
    } else if dispid == 11 {
        Some(RdpEventKind::Warning)
    } else if dispid == 12 {
        Some(RdpEventKind::RemoteDesktopSizeChanged)
    } else if dispid == 14 {
        Some(RdpEventKind::RequestContainerMinimize)
    } else if dispid == 17 || dispid == 34 {
        Some(RdpEventKind::AutoReconnecting)
    } else if dispid == 18 {
        Some(RdpEventKind::DialogDisplaying)
    } else if dispid == 19 {
        Some(RdpEventKind::DialogDismissed)
    } else if dispid == 21 || dispid == 29 {
        Some(RdpEventKind::RemoteProgramDisplayed)
    } else if dispid == 22 {
        Some(RdpEventKind::LogonError)
    } else if dispid == 32 {
        Some(RdpEventKind::NetworkStatusChanged)
    } else if dispid == 33 {
        Some(RdpEventKind::AutoReconnected)
    } else {
        None
    }
}

pub fn legacy_event_kind(dispid: i32) -> (r: Option<RdpEventKind>)
    ensures
        r == event_kind_of(dispid),
{
    match dispid {
        1 => Some(RdpEventKind::Connecting),
        2 => Some(RdpEventKind::Connected),
        3 => Some(RdpEventKind::LoginCompleted),
        4 => Some(RdpEventKind::Disconnected),
        5 => Some(RdpEventKind::EnterFullScreen),
        6 => Some(RdpEventKind::LeaveFullScreen),
        8 => Some(RdpEventKind::RequestGoFullScreen),
        9 => Some(RdpEventKind::RequestLeaveFullScreen),
        10 => Some(RdpEventKind::FatalError),
        11 => Some(RdpEventKind::Warning),
        12 => Some(RdpEventKind::RemoteDesktopSizeChanged),
        14 => Some(RdpEventKind::RequestContainerMinimize),
        17 | 34 => Some(RdpEventKind::AutoReconnecting),
        18 => Some(RdpEventKind::DialogDisplaying),
        19 => Some(RdpEventKind::DialogDismissed),
        21 | 29 => Some(RdpEventKind::RemoteProgramDisplayed),
        22 => Some(RdpEventKind::LogonError),
        32 => Some(RdpEventKind::NetworkStatusChanged),
        33 => Some(RdpEventKind::AutoReconnected),
        _ => None,
    }
}

/// The IID of the control's outgoing event dispinterface.
pub open spec fn event_sink_iid() -> u128 {
    0x336d5562_efa8_482e_8cb3_c5c0fc7a7db6
}

/// The IID of `IDispatch`.
pub open spec fn dispatch_iid() -> u128 {
    0x00020400_0000_0000_c000_000000000046
}

/// The event sink answers `QueryInterface` for the event dispinterface and
/// for `IDispatch`.
pub fn event_interface_matches(iid: u128) -> (r: bool)
    ensures
        r == (iid == event_sink_iid() || iid == dispatch_iid()),
{
    iid == 0x336d5562_efa8_482e_8cb3_c5c0fc7a7db6 || iid == 0x00020400_0000_0000_c000_000000000046
}

/// An automation boolean: all bits set for true, zero for false.
pub fn variant_bool(value: bool) -> (r: i16)
    ensures
        r == (if value {
            -1i16
        } else {
            0i16
        }),
{
    if value {
        -1
    } else {
        0
    }
}

/// OLE reports a message consumed by an accelerator only with `S_OK`; any
/// other result, `S_FALSE` among them, leaves it to the window.
pub fn accelerator_was_handled(result: i32) -> (r: bool)
    ensures
        r == (result == 0),
{
    result == 0
}

/// Events received from the control and not yet handled, oldest first.
pub struct EventQueue {
    events: Vec<RdpEvent>,
}

impl View for EventQueue {
    type V = Seq<RdpEvent>;

    closed spec fn view(&self) -> Seq<RdpEvent> {
        self.events@
    }
}

impl EventQueue {
    pub fn new() -> (r: Self)
        ensures
            r@ == Seq::<RdpEvent>::empty(),
    {
        EventQueue { events: Vec::new() }
    }

    pub fn push(&mut self, event: RdpEvent)
        ensures
            final(self)@ == old(self)@.push(event),
    {
        self.events.push(event);
    }

    /// Hands out every queued event, oldest first, and leaves the queue empty.
    pub fn take_events(&mut self) -> (r: Vec<RdpEvent>)
        ensures
            r@ == old(self)@,
            final(self)@ == Seq::<RdpEvent>::empty(),
    {
        let mut taken = Vec::new();
        core::mem::swap(&mut taken, &mut self.events);
        taken
    }
}

} // verus!
