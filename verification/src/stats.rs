//! Lifecycle of the hand-speed WebSocket server: when a config change
//! must stop, keep or (re)start it.

use vstd::prelude::*;

verus! {

/// What to do with the stats server for the current config.
#[derive(Clone, Copy, Debug, PartialEq, Eq, Structural)]
pub enum ServerAction {
    /// Shut the running server down.
    Stop,
    /// Leave things as they are.
    Keep,
    /// Drop any running server and start one on the configured address.
    Start,
}

/// Address the stats server is running on, if it is running.
pub struct StatsServerState {
    current: Option<(String, u16)>,
}

/// The action owed to a config, given the address the server runs on.
pub open spec fn action_for(current: Option<(Seq<char>, u16)>, enabled: bool, ip: Seq<char>, port: u16) -> ServerAction {
    if !enabled {
        if current is Some {
            ServerAction::Stop
        } else {
            ServerAction::Keep
        }
    } else if current == Some((ip, port)) {
        ServerAction::Keep
    } else {
        ServerAction::Start
    }
}

impl StatsServerState {
    /// The running server's address as characters, if any.
    pub closed spec fn running_on(&self) -> Option<(Seq<char>, u16)> {
        match self.current {
            Some((ip, port)) => Some((ip@, port)),
            None => None,
        }
    }

    /// No server running.
    pub fn new() -> (s: StatsServerState)
        ensures
            s.running_on() is None,
    {
        StatsServerState { current: None }
    }

    /// Whether the server must be stopped, kept, or (re)started for a
    /// config that enables it or not on `ip:port`.
    pub fn plan(&self, enabled: bool, ip: &str, port: u16) -> (a: ServerAction)
        ensures
            a == action_for(self.running_on(), enabled, ip@, port),
    {
        if !enabled {
            return if self.current.is_some() {
                ServerAction::Stop
            } else {
                ServerAction::Keep
            };
        }
        match &self.current {
            Some((cur_ip, cur_port)) => {
                if *cur_port == port && *cur_ip == ip.to_owned() {
                    ServerAction::Keep
                } else {
                    ServerAction::Start
                }
            },
            None => ServerAction::Start,
        }
    }

    /// Records what happened: a stop leaves no server; a start leaves the
    /// server on `ip:port` when it came up, and none when it failed.
    pub fn record(&mut self, action: ServerAction, started: bool, ip: &str, port: u16)
        ensures
            action == ServerAction::Stop ==> final(self).running_on() is None,
            action == ServerAction::Keep ==> final(self).running_on() == old(self).running_on(),
            action == ServerAction::Start ==> final(self).running_on() == (if started {
                Some((ip@, port))
            } else {
                None
            }),
    {
        match action {
            ServerAction::Stop => {
                self.current = None;
            },
            ServerAction::Keep => {},
            ServerAction::Start => {
                self.current = if started {
                    Some((ip.to_owned(), port))
                } else {
                    None
                };
            },
        }
    }
}

/// Once the server is up on an address, re-applying the same enabled
/// config never restarts it; disabling it always stops it.
pub proof fn lemma_same_config_keeps_server(ip: Seq<char>, port: u16)
    ensures
        action_for(Some((ip, port)), true, ip, port) == ServerAction::Keep,
        action_for(Some((ip, port)), false, ip, port) == ServerAction::Stop,
{
}

} // verus!
