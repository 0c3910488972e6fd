//! Finding the daemon or starting it. The decisions are a state machine; the
//! caller performs each action and reports back what happened.

use vstd::prelude::*;
use vstd::string::*;

verus! {

/// Milliseconds to wait after the descriptor file was found missing.
pub const POLL_INTERVAL_MS: u64 = 25;

/// What the daemon writes down once it accepts connections.
#[derive(Clone, Copy, Debug, PartialEq, Eq, Structural)]
pub struct DaemonFile {
    pub port: u16,
}

/// Where the rendezvous stands.
#[derive(Clone, Copy, Debug, PartialEq, Eq, Structural)]
pub enum BootstrapState {
    /// No descriptor file was found and no daemon was started yet.
    NoDaemon,
    /// A daemon was started; its descriptor file has not been seen.
    Starting,
    /// The daemon listens on this port.
    Ready(u16),
}

/// What the caller has to do next.
#[derive(Clone, Copy, Debug, PartialEq, Eq, Structural)]
pub enum BootstrapAction {
    /// Start the daemon as a process of its own, then report `Spawned`.
    SpawnDaemon,
    /// Read the descriptor file and report it; where it is missing, wait the
    /// interval first.
    Poll { interval_ms: u64 },
    /// Connect to this port of the local host.
    Connect { port: u16 },
}

/// What the caller reports.
#[derive(Clone, Copy, Debug, PartialEq, Eq, Structural)]
pub enum BootstrapEvent {
    /// The daemon process was started.
    Spawned,
    /// The descriptor file was read: its content, or none where it is missing.
    Descriptor(Option<DaemonFile>),
}

impl BootstrapState {
    /// The state that the first look at the descriptor file leads to.
    pub open spec fn spec_initial(descriptor: Option<DaemonFile>) -> BootstrapState {
        match descriptor {
            Some(file) => BootstrapState::Ready(file.port),
            None => BootstrapState::NoDaemon,
        }
    }

    /// The action that a state asks for.
    pub open spec fn spec_action(self) -> BootstrapAction {
        match self {
            BootstrapState::NoDaemon => BootstrapAction::SpawnDaemon,
            BootstrapState::Starting => BootstrapAction::Poll { interval_ms: POLL_INTERVAL_MS },
            BootstrapState::Ready(port) => BootstrapAction::Connect { port },
        }
    }

    /// The state after an event. An event that does not answer the state's
    /// action changes nothing.
    pub open spec fn spec_next(self, event: BootstrapEvent) -> BootstrapState {
        match (self, event) {
            (BootstrapState::NoDaemon, BootstrapEvent::Spawned) => BootstrapState::Starting,
            (BootstrapState::Starting, BootstrapEvent::Descriptor(Some(file))) => {
                BootstrapState::Ready(file.port)
            },
            _ => self,
        }
    }

    /// The state after a sequence of events.
    pub open spec fn run(self, events: Seq<BootstrapEvent>) -> BootstrapState
        decreases events.len(),
    {
        if events.len() == 0 {
            self
        } else {
            self.run(events.drop_last()).spec_next(events.last())
        }
    }

    /// How many daemons were started along a sequence of events.
    pub open spec fn spawned(self, events: Seq<BootstrapEvent>) -> nat
        decreases events.len(),
    {
        if events.len() == 0 {
            0
        } else {
            let before = self.run(events.drop_last());
            let here: nat = if before == BootstrapState::NoDaemon && events.last()
                == BootstrapEvent::Spawned {
                1
            } else {
                0
            };
            self.spawned(events.drop_last()) + here
        }
    }

    /// How many milliseconds were spent waiting along a sequence of events.
    pub open spec fn waited_ms(self, events: Seq<BootstrapEvent>) -> nat
        decreases events.len(),
    {
        if events.len() == 0 {
            0
        } else {
            let before = self.run(events.drop_last());
            let here: nat = if before == BootstrapState::Starting && events.last()
                == BootstrapEvent::Descriptor(None) {
                POLL_INTERVAL_MS as nat
            } else {
                0
            };
            self.waited_ms(events.drop_last()) + here
        }
    }

    /// The state that the first look at the descriptor file leads to.
    #[verifier::when_used_as_spec(spec_initial)]
    pub fn initial(descriptor: Option<DaemonFile>) -> (state: BootstrapState)
        ensures
            state == Self::spec_initial(descriptor),
    {
        match descriptor {
            Some(file) => BootstrapState::Ready(file.port),
            None => BootstrapState::NoDaemon,
        }
    }

    /// The action that this state asks for.
    #[verifier::when_used_as_spec(spec_action)]
    pub fn action(self) -> (action: BootstrapAction)
        ensures
            action == self.spec_action(),
    {
        match self {
            BootstrapState::NoDaemon => BootstrapAction::SpawnDaemon,
            BootstrapState::Starting => BootstrapAction::Poll { interval_ms: POLL_INTERVAL_MS },
            BootstrapState::Ready(port) => BootstrapAction::Connect { port },
        }
    }

    /// The state after `event`.
    #[verifier::when_used_as_spec(spec_next)]
    pub fn next(self, event: BootstrapEvent) -> (state: BootstrapState)
        ensures
            state == self.spec_next(event),
    {
        match self {
            BootstrapState::NoDaemon => match event {
                BootstrapEvent::Spawned => BootstrapState::Starting,
                BootstrapEvent::Descriptor(_) => self,
            },
            BootstrapState::Starting => match event {
                BootstrapEvent::Descriptor(Some(file)) => BootstrapState::Ready(file.port),
                _ => self,
            },
            BootstrapState::Ready(_) => self,
        }
    }
}

/// The character that stands for a digit below ten.
pub open spec fn digit(d: nat) -> char {
    if d == 0 {
        '0'
    } else if d == 1 {
        '1'
    } else if d == 2 {
        '2'
    } else if d == 3 {
        '3'
    } else if d == 4 {
        '4'
    } else if d == 5 {
        '5'
    } else if d == 6 {
        '6'
    } else if d == 7 {
        '7'
    } else if d == 8 {
        '8'
    } else {
        '9'
    }
}

/// A number in decimal, without leading zeros.
pub open spec fn decimal(n: nat) -> Seq<char>
    decreases n,
{
    if n < 10 {
        seq![digit(n)]
    } else {
        decimal(n / 10).push(digit(n % 10))
    }
}

/// The address of the daemon's socket on the local host.
pub open spec fn spec_server_url(port: u16) -> Seq<char> {
    "ws://127.0.0.1:"@ + decimal(port as nat)
}

/// The text of one digit.
fn digit_text(d: u16) -> (text: &'static str)
    requires
        d < 10,
    ensures
        text@ == seq![digit(d as nat)],
{
    proof {
        reveal_strlit("0");
        reveal_strlit("1");
        reveal_strlit("2");
        reveal_strlit("3");
        reveal_strlit("4");
        reveal_strlit("5");
        reveal_strlit("6");
        reveal_strlit("7");
        reveal_strlit("8");
        reveal_strlit("9");
    }
    let text = if d == 0 {
        "0"
    } else if d == 1 {
        "1"
    } else if d == 2 {
        "2"
    } else if d == 3 {
        "3"
    } else if d == 4 {
        "4"
    } else if d == 5 {
        "5"
    } else if d == 6 {
        "6"
    } else if d == 7 {
        "7"
    } else if d == 8 {
        "8"
    } else {
        "9"
    };
    assert(text@ =~= seq![digit(d as nat)]);
    text
}

/// Writes a number in decimal.
pub fn decimal_text(n: u16) -> (text: String)
    ensures
        text@ == decimal(n as nat),
    decreases n,
{
    if n < 10 {
        String::from_str(digit_text(n))
    } else {
        let mut text = decimal_text(n / 10);
        text.append(digit_text(n % 10));
        assert(text@ =~= decimal(n as nat));
        text
    }
}

/// The address to connect to once the daemon is ready on `port`.
pub fn server_url(port: u16) -> (url: String)
    ensures
        url@ == spec_server_url(port),
{
    let mut url = String::from_str("ws://127.0.0.1:");
    let digits = decimal_text(port);
    url.append(digits.as_str());
    url
}

/// The events of a rendezvous that starts a daemon: the start, `misses` looks
/// at a descriptor file that is not there yet, and the look that finds it.
pub open spec fn launch_events(misses: nat, file: DaemonFile) -> Seq<BootstrapEvent> {
    launch_prefix(misses).push(BootstrapEvent::Descriptor(Some(file)))
}

/// The start of a daemon and `misses` looks at a missing descriptor file.
pub open spec fn launch_prefix(misses: nat) -> Seq<BootstrapEvent>
    decreases misses,
{
    if misses == 0 {
        seq![BootstrapEvent::Spawned]
    } else {
        launch_prefix((misses - 1) as nat).push(BootstrapEvent::Descriptor(None))
    }
}

/// With a descriptor file in place at the first look the rendezvous is ready
/// at once, asks for the connection, and whatever is reported afterwards it
/// stays ready and starts no daemon.
pub proof fn law_present_descriptor_spawns_nothing(file: DaemonFile, events: Seq<BootstrapEvent>)
    ensures
        BootstrapState::spec_initial(Some(file)) == BootstrapState::Ready(file.port),
        BootstrapState::Ready(file.port).spec_action() == (BootstrapAction::Connect {
            port: file.port,
        }),
        BootstrapState::spec_initial(Some(file)).run(events) == BootstrapState::Ready(file.port),
        BootstrapState::spec_initial(Some(file)).spawned(events) == 0,
        BootstrapState::spec_initial(Some(file)).waited_ms(events) == 0,
    decreases events.len(),
{
    if events.len() > 0 {
        law_present_descriptor_spawns_nothing(file, events.drop_last());
    }
}

/// After the start and any number of looks that find nothing, the rendezvous
/// is still starting, with one daemon started and one interval waited per look.
proof fn lemma_launch_prefix(misses: nat)
    ensures
        BootstrapState::NoDaemon.run(launch_prefix(misses)) == BootstrapState::Starting,
        BootstrapState::NoDaemon.spawned(launch_prefix(misses)) == 1,
        BootstrapState::NoDaemon.waited_ms(launch_prefix(misses)) == misses * POLL_INTERVAL_MS,
    decreases misses,
{
    let start = BootstrapState::NoDaemon;
    if misses == 0 {
        let events = launch_prefix(0);
        assert(events.drop_last() =~= Seq::empty());
        assert(start.run(events.drop_last()) == start);
        assert(start.spawned(events.drop_last()) == 0);
        assert(start.waited_ms(events.drop_last()) == 0);
    } else {
        lemma_launch_prefix((misses - 1) as nat);
        let front = launch_prefix((misses - 1) as nat);
        let events = launch_prefix(misses);
        assert(events.drop_last() =~= front);
    }
}

/// With no descriptor file at the first look, and a daemon that writes it
/// after `misses` further looks, the rendezvous becomes ready for the port
/// written, has started exactly one daemon, and has waited one interval for
/// each look that found nothing.
pub proof fn law_launch_converges(misses: nat, file: DaemonFile)
    ensures
        BootstrapState::spec_initial(None) == BootstrapState::NoDaemon,
        BootstrapState::NoDaemon.run(launch_events(misses, file)) == BootstrapState::Ready(
            file.port,
        ),
        BootstrapState::NoDaemon.spawned(launch_events(misses, file)) == 1,
        BootstrapState::NoDaemon.waited_ms(launch_events(misses, file)) == misses
            * POLL_INTERVAL_MS,
{
    lemma_launch_prefix(misses);
    let events = launch_events(misses, file);
    assert(events.drop_last() =~= launch_prefix(misses));
}

/// Where the file appears `delay_ms` after the daemon was started and every
/// look before that missed it, the wait is shorter than the delay and one
/// interval together.
pub proof fn law_launch_wait_is_bounded(misses: nat, file: DaemonFile, delay_ms: nat)
    requires
        misses > 0 ==> (misses - 1) * POLL_INTERVAL_MS < delay_ms,
    ensures
        BootstrapState::NoDaemon.waited_ms(launch_events(misses, file)) < delay_ms
            + POLL_INTERVAL_MS,
{
    law_launch_converges(misses, file);
}

} // verus!
