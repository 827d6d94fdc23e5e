//! Process supervisor: the lifecycle state machine of one engine instance
//! bound to one admin port.
//!
//! The supervisor decides; the caller performs. `start` hands back the
//! launch command to run in an independent execution context, `exit` says
//! whether the engine's force-exit entry point must be signaled. Both are
//! idempotent, so disposal of a handle can always signal a stop without
//! fear of a double shutdown, and a handle that was never started performs
//! no native call at all.

use vstd::prelude::*;

use crate::codec::{dec_string, format_u64};

verus! {

/// Lifecycle states of the engine process, as the handle observes them.
/// The starting and stopping phases in between last exactly as long as the
/// native call the caller performs on the state machine's instruction, so
/// only the settled states are recorded here.
#[derive(Debug, Clone, Copy, PartialEq, Eq, Structural)]
pub enum Lifecycle {
    NotStarted,
    Running,
    Stopped,
}

/// The native launch the caller performs on `start`: run the engine's
/// blocking entry point with these arguments, off the caller's thread.
#[derive(Debug)]
pub struct LaunchCommand {
    pub args: Vec<String>,
}

/// The argument list the engine is launched with: its name and the admin
/// port binding.
pub open spec fn launch_args(port: nat) -> Seq<Seq<char>> {
    seq!["pipy-rs"@, "--admin-port="@ + dec_string(port)]
}

/// What a start does to the lifecycle: a no-op while running, otherwise a
/// (re)launch.
pub open spec fn start_transition(s: Lifecycle) -> Lifecycle {
    Lifecycle::Running
}

/// Whether a start issues a native launch.
pub open spec fn start_launches(s: Lifecycle) -> bool {
    !(s is Running)
}

/// What a stop does to the lifecycle: only a running engine changes state.
pub open spec fn stop_transition(s: Lifecycle) -> Lifecycle {
    if s is Running {
        Lifecycle::Stopped
    } else {
        s
    }
}

/// Whether a stop signals the engine's force-exit entry point.
pub open spec fn stop_signals(s: Lifecycle) -> bool {
    s is Running
}

/// Supervisor handle for the single engine instance bound to `port`.
pub struct PipyRepo {
    pub port: u16,
    pub state: Lifecycle,
}

impl PipyRepo {
    pub fn new(port: u16) -> (r: Self)
        ensures
            r.port == port,
            r.state is NotStarted,
    {
        PipyRepo { port, state: Lifecycle::NotStarted }
    }

    /// Requests a launch. While already running this is a no-op; otherwise
    /// the state flips to running and the caller receives the launch
    /// command to run in an execution context of its own.
    pub fn start(&mut self) -> (r: Option<LaunchCommand>)
        ensures
            final(self).port == old(self).port,
            final(self).state == start_transition(old(self).state),
            r is Some <==> start_launches(old(self).state),
            r matches Some(cmd) ==> cmd.args@.map_values(|s: String| s@) == launch_args(
                old(self).port as nat,
            ),
    {
        if let Lifecycle::Running = self.state {
            return None;
        }
        self.state = Lifecycle::Running;
        let mut args: Vec<String> = Vec::new();
        args.push(String::from_str("pipy-rs"));
        let mut port_arg = String::from_str("--admin-port=");
        let p = format_u64(self.port as u64);
        port_arg.append(p.as_str());
        args.push(port_arg);
        proof {
            assert(args@.map_values(|s: String| s@) =~= launch_args(self.port as nat));
        }
        Some(LaunchCommand { args })
    }

    /// Requests a stop. Idempotent: only a running engine is signaled, and
    /// the answer says whether the caller must invoke the force-exit entry
    /// point.
    pub fn exit(&mut self) -> (r: bool)
        ensures
            final(self).port == old(self).port,
            final(self).state == stop_transition(old(self).state),
            r == stop_signals(old(self).state),
    {
        if let Lifecycle::Running = self.state {
            self.state = Lifecycle::Stopped;
            true
        } else {
            false
        }
    }
}

/// Creates a supervisor bound to `port` (6060 when none is given) and
/// requests its launch in one step.
pub fn start_pipy_repo(port: Option<u16>) -> (r: (PipyRepo, LaunchCommand))
    ensures
        r.0.port == (match port {
            Some(p) => p,
            None => 6060u16,
        }),
        r.0.state is Running,
        r.1.args@.map_values(|s: String| s@) == launch_args(r.0.port as nat),
{
    let p = match port {
        Some(p) => p,
        None => 6060,
    };
    let mut repo = PipyRepo::new(p);
    let cmd = repo.start();
    match cmd {
        Some(cmd) => (repo, cmd),
        None => vstd::pervasive::unreached(),
    }
}

/// Stopping twice in a row is idempotent: the second stop changes nothing
/// and signals no native call.
pub proof fn lemma_stop_idempotent(s: Lifecycle)
    ensures
        stop_transition(stop_transition(s)) == stop_transition(s),
        !stop_signals(stop_transition(s)),
{
}

/// Disposing a handle that was never started performs no native call.
pub proof fn lemma_dispose_unstarted()
    ensures
        !stop_signals(Lifecycle::NotStarted),
{
}

} // verus!
