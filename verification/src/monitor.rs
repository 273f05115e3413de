//! Whether the tablet's file system is mounted, and what a change of the connection calls for.
use vstd::prelude::*;

use crate::net_listener::Event;

verus! {

/// The state of the connection. `S` is a mounted file system.
pub enum MonitorInner<S> {
    Running(S),
    Pending,
    Disconnected,
    Disconnecting,
}

/// Keeps track of the one connection with the tablet.
pub struct Monitor<S> {
    pub inner: MonitorInner<S>,
}

/// A state without a mounted file system.
#[derive(Clone, Copy, PartialEq, Eq, Structural, Debug)]
pub enum Idle {
    Pending,
    Disconnected,
    Disconnecting,
}

/// Why a connection was not started or ended.
#[derive(Clone, Copy, PartialEq, Eq, Structural, Debug)]
pub enum MonitorError {
    /// Attempt to start a running connection.
    AlreadyRunning,
    /// Attempt to start a pending connection.
    AlreadyPending,
    /// Attempt to disconnect while the monitor reports this state.
    NotRunning(Idle),
}

/// What came of setting up a connection.
pub enum Connecting<S> {
    /// There is no session with the tablet.
    ManagerFailed,
    /// The tablet's files could not be read.
    ProviderFailed,
    /// The file system could not be mounted.
    MountFailed,
    Mounted(S),
}

/// What an event calls for.
pub enum MonitorAction<S> {
    /// Set up a connection.
    Connect,
    /// Unmount this file system.
    Unmount(S),
}

impl<S> Default for Monitor<S> {
    fn default() -> (r: Self)
        ensures
            r.inner == MonitorInner::<S>::Disconnected,
    {
        Self::new()
    }
}

impl<S> Monitor<S> {
    pub fn new() -> (r: Self)
        ensures
            r.inner == MonitorInner::<S>::Disconnected,
    {
        Monitor { inner: MonitorInner::Disconnected }
    }

    /// The state of the connection as a disconnection may begin from it: a mounted file system,
    /// or the error that there is none.
    pub open spec fn mounted(self) -> Result<S, MonitorError> {
        match self.inner {
            MonitorInner::Running(s) => Ok(s),
            MonitorInner::Pending => Err(MonitorError::NotRunning(Idle::Pending)),
            MonitorInner::Disconnected => Err(MonitorError::NotRunning(Idle::Disconnected)),
            MonitorInner::Disconnecting => Err(MonitorError::NotRunning(Idle::Disconnecting)),
        }
    }

    /// Whether a connection may be started.
    pub open spec fn startable(self) -> Result<(), MonitorError> {
        match self.inner {
            MonitorInner::Running(_) => Err(MonitorError::AlreadyRunning),
            MonitorInner::Pending => Err(MonitorError::AlreadyPending),
            MonitorInner::Disconnected => Ok(()),
            MonitorInner::Disconnecting => Ok(()),
        }
    }

    /// The state after an attempt to disconnect.
    pub open spec fn after_disconnect(self) -> Self {
        if self.mounted() is Ok {
            Monitor { inner: MonitorInner::Disconnecting }
        } else {
            self
        }
    }

    /// The state after an attempt to start a connection.
    pub open spec fn after_start(self) -> Self {
        if self.startable() is Ok {
            Monitor { inner: MonitorInner::Pending }
        } else {
            self
        }
    }

    /// The state once setting up a connection has ended.
    pub open spec fn set_up(outcome: Connecting<S>) -> Self {
        match outcome {
            Connecting::Mounted(s) => Monitor { inner: MonitorInner::Running(s) },
            _ => Monitor { inner: MonitorInner::Disconnected },
        }
    }

    /// Begins to disconnect: hands out the mounted file system, which is to be unmounted.
    pub fn disconnect(&mut self) -> (r: Result<S, MonitorError>)
        ensures
            r == old(self).mounted(),
            *final(self) == old(self).after_disconnect(),
    {
        let mut inner = MonitorInner::Disconnecting;
        std::mem::swap(&mut self.inner, &mut inner);
        match inner {
            MonitorInner::Running(s) => Ok(s),
            MonitorInner::Pending => {
                self.inner = MonitorInner::Pending;
                Err(MonitorError::NotRunning(Idle::Pending))
            },
            MonitorInner::Disconnected => {
                self.inner = MonitorInner::Disconnected;
                Err(MonitorError::NotRunning(Idle::Disconnected))
            },
            MonitorInner::Disconnecting => Err(MonitorError::NotRunning(Idle::Disconnecting)),
        }
    }

    /// Notes that unmounting has ended, well or badly.
    pub fn unmounted(&mut self)
        ensures
            final(self).inner == MonitorInner::<S>::Disconnecting,
    {
        self.inner = MonitorInner::Disconnecting;
    }

    /// Begins to connect, unless a connection is running or pending.
    pub fn start_connection(&mut self) -> (r: Result<(), MonitorError>)
        ensures
            r == old(self).startable(),
            *final(self) == old(self).after_start(),
    {
        match self.inner {
            MonitorInner::Running(_) => {
                return Err(MonitorError::AlreadyRunning);
            },
            MonitorInner::Pending => {
                return Err(MonitorError::AlreadyPending);
            },
            MonitorInner::Disconnected => {},
            MonitorInner::Disconnecting => {},
        }
        self.inner = MonitorInner::Pending;
        Ok(())
    }

    /// Notes what came of setting up the connection.
    pub fn connected(&mut self, outcome: Connecting<S>)
        ensures
            *final(self) == Monitor::set_up(outcome),
    {
        self.inner = match outcome {
            Connecting::ManagerFailed => MonitorInner::Disconnected,
            Connecting::ProviderFailed => MonitorInner::Disconnected,
            Connecting::MountFailed => MonitorInner::Disconnected,
            Connecting::Mounted(s) => MonitorInner::Running(s),
        };
    }

    /// Begins what an event calls for: to connect on a connection, to disconnect on a
    /// disconnection.
    pub fn on_event(&mut self, event: Event) -> (r: Result<MonitorAction<S>, MonitorError>)
        ensures
            match event {
                Event::Connection => {
                    &&& r == match old(self).startable() {
                        Ok(_) => Ok(MonitorAction::<S>::Connect),
                        Err(e) => Err(e),
                    }
                    &&& *final(self) == old(self).after_start()
                },
                Event::Disconnection => {
                    &&& r == match old(self).mounted() {
                        Ok(s) => Ok(MonitorAction::Unmount(s)),
                        Err(e) => Err(e),
                    }
                    &&& *final(self) == old(self).after_disconnect()
                },
            },
    {
        match event {
            Event::Connection => match self.start_connection() {
                Ok(_) => Ok(MonitorAction::Connect),
                Err(e) => Err(e),
            },
            Event::Disconnection => match self.disconnect() {
                Ok(s) => Ok(MonitorAction::Unmount(s)),
                Err(e) => Err(e),
            },
        }
    }
}

/// After an attempt to start a connection, a second attempt is refused.
pub proof fn second_start_is_refused<S>(m: Monitor<S>)
    ensures
        m.after_start().startable() is Err,
{
}

/// A file system is handed out for unmounting once.
pub proof fn second_disconnect_is_refused<S>(m: Monitor<S>)
    ensures
        m.after_disconnect().mounted() is Err,
{
}

/// What was mounted is what disconnecting hands out, and no second connection can be started
/// beside it.
pub proof fn mounted_is_handed_out<S>(s: S)
    ensures
        Monitor::set_up(Connecting::Mounted(s)).mounted() == Ok::<S, MonitorError>(s),
        Monitor::set_up(Connecting::Mounted(s)).startable() is Err,
{
}

/// After a set-up that failed, and after a disconnection, a connection can be started again.
pub proof fn can_start_again<S>(m: Monitor<S>, outcome: Connecting<S>)
    ensures
        !(outcome is Mounted) ==> Monitor::set_up(outcome).startable() is Ok,
        m.mounted() is Ok ==> m.after_disconnect().startable() is Ok,
{
}

/// A disconnection hands out what is mounted, and otherwise says in which state there is nothing
/// mounted; what is handed out is unmounted from then on, and a refusal changes nothing.
pub proof fn disconnection_by_state<S>(m: Monitor<S>, s: S)
    ensures
        m.inner == MonitorInner::Running(s) <==> m.mounted() == Ok::<S, MonitorError>(s),
        m.inner == MonitorInner::<S>::Pending <==> m.mounted() == Err::<S, MonitorError>(
            MonitorError::NotRunning(Idle::Pending),
        ),
        m.inner == MonitorInner::<S>::Disconnected <==> m.mounted() == Err::<S, MonitorError>(
            MonitorError::NotRunning(Idle::Disconnected),
        ),
        m.inner == MonitorInner::<S>::Disconnecting <==> m.mounted() == Err::<S, MonitorError>(
            MonitorError::NotRunning(Idle::Disconnecting),
        ),
        m.mounted() is Ok ==> m.after_disconnect().inner == MonitorInner::<S>::Disconnecting,
        m.mounted() is Err ==> m.after_disconnect() == m,
{
}

/// A connection is started exactly where none is running or pending, and is pending from then on;
/// a refusal says which of the two it is, and changes nothing.
pub proof fn start_by_state<S>(m: Monitor<S>)
    ensures
        m.startable() is Ok <==> m.inner == MonitorInner::<S>::Disconnected || m.inner
            == MonitorInner::<S>::Disconnecting,
        m.inner is Running <==> m.startable() == Err::<(), MonitorError>(
            MonitorError::AlreadyRunning,
        ),
        m.inner is Pending <==> m.startable() == Err::<(), MonitorError>(
            MonitorError::AlreadyPending,
        ),
        m.startable() is Ok ==> m.after_start().inner == MonitorInner::<S>::Pending,
        m.startable() is Err ==> m.after_start() == m,
{
}

/// Setting up a connection ends with the file system that was mounted, or with none.
pub proof fn set_up_by_outcome<S>(s: S)
    ensures
        Monitor::set_up(Connecting::Mounted(s)).inner == MonitorInner::Running(s),
        Monitor::<S>::set_up(Connecting::ManagerFailed).inner == MonitorInner::<S>::Disconnected,
        Monitor::<S>::set_up(Connecting::ProviderFailed).inner == MonitorInner::<S>::Disconnected,
        Monitor::<S>::set_up(Connecting::MountFailed).inner == MonitorInner::<S>::Disconnected,
{
}

/// An attempt to disconnect: what is mounted is handed out and the monitor notes that it is
/// disconnecting; otherwise nothing changes, and the answer tells the state.
pub proof fn disconnect_call<S>(m: &mut Monitor<S>, r: Result<S, MonitorError>)
    requires
        call_ensures(Monitor::<S>::disconnect, (m,), r),
    ensures
        match old(m).inner {
            MonitorInner::Running(s) => {
                &&& r == Ok::<S, MonitorError>(s)
                &&& final(m).inner == MonitorInner::<S>::Disconnecting
            },
            MonitorInner::Pending => {
                &&& r == Err::<S, MonitorError>(MonitorError::NotRunning(Idle::Pending))
                &&& *final(m) == *old(m)
            },
            MonitorInner::Disconnected => {
                &&& r == Err::<S, MonitorError>(MonitorError::NotRunning(Idle::Disconnected))
                &&& *final(m) == *old(m)
            },
            MonitorInner::Disconnecting => {
                &&& r == Err::<S, MonitorError>(MonitorError::NotRunning(Idle::Disconnecting))
                &&& *final(m) == *old(m)
            },
        },
{
}

/// An attempt to connect: it is noted as pending unless a connection is running or pending, which
/// is answered and changes nothing.
pub proof fn start_call<S>(m: &mut Monitor<S>, r: Result<(), MonitorError>)
    requires
        call_ensures(Monitor::<S>::start_connection, (m,), r),
    ensures
        match old(m).inner {
            MonitorInner::Running(_) => {
                &&& r == Err::<(), MonitorError>(MonitorError::AlreadyRunning)
                &&& *final(m) == *old(m)
            },
            MonitorInner::Pending => {
                &&& r == Err::<(), MonitorError>(MonitorError::AlreadyPending)
                &&& *final(m) == *old(m)
            },
            _ => r is Ok && final(m).inner == MonitorInner::<S>::Pending,
        },
{
}

/// What comes of setting up a connection, and of unmounting, is noted whatever the state.
pub proof fn noted_calls<S>(m: &mut Monitor<S>, outcome: Connecting<S>, n: &mut Monitor<S>)
    requires
        call_ensures(Monitor::<S>::connected, (m, outcome), ()),
        call_ensures(Monitor::<S>::unmounted, (n,), ()),
    ensures
        outcome matches Connecting::Mounted(s) ==> final(m).inner == MonitorInner::Running(s),
        !(outcome is Mounted) ==> final(m).inner == MonitorInner::<S>::Disconnected,
        final(n).inner == MonitorInner::<S>::Disconnecting,
{
}

/// A connection begins on a connection event and ends on a disconnection event, as if the monitor
/// had been asked for it.
pub proof fn event_call<S>(
    m: &mut Monitor<S>,
    event: Event,
    r: Result<MonitorAction<S>, MonitorError>,
)
    requires
        call_ensures(Monitor::<S>::on_event, (m, event), r),
    ensures
        event == Event::Connection ==> match old(m).inner {
            MonitorInner::Running(_) => {
                &&& r == Err::<MonitorAction<S>, MonitorError>(MonitorError::AlreadyRunning)
                &&& *final(m) == *old(m)
            },
            MonitorInner::Pending => {
                &&& r == Err::<MonitorAction<S>, MonitorError>(MonitorError::AlreadyPending)
                &&& *final(m) == *old(m)
            },
            _ => r == Ok::<MonitorAction<S>, MonitorError>(MonitorAction::Connect) && final(m).inner
                == MonitorInner::<S>::Pending,
        },
        event == Event::Disconnection ==> match old(m).inner {
            MonitorInner::Running(s) => {
                &&& r == Ok::<MonitorAction<S>, MonitorError>(MonitorAction::Unmount(s))
                &&& final(m).inner == MonitorInner::<S>::Disconnecting
            },
            _ => r is Err && *final(m) == *old(m),
        },
{
}

/// A monitor begins without a connection.
pub proof fn monitor_begins_disconnected<S>(m: Monitor<S>)
    requires
        call_ensures(Monitor::<S>::new, (), m),
    ensures
        m.inner == MonitorInner::<S>::Disconnected,
{
}

} // verus!
