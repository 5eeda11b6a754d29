//! Running scripts against the ports and hosts that a scan found.
//!
//! A run knows which script is to be tried next against what; scripts are evaluated
//! and executed by its user, who reports how each went.
use crate::config::ScanConfig;
use crate::error::CoreError;
use crate::models::{HostResult, PortResult, PortState, Protocol, ScriptResult};
use crate::text::joined;
use vstd::prelude::*;

verus! {

/// Scripts are run against ports that are open, or that may be.
pub open spec fn takes_scripts(p: PortResult) -> bool {
    p.state == PortState::Open || p.state == PortState::OpenOrFiltered
}

/// Where a run of scripts is.
#[derive(Clone, Copy, Debug, PartialEq, Eq, Structural)]
pub enum ScriptPlace {
    /// At a script for a port of a host.
    Port { host: usize, port: usize, script: usize },
    /// At a script for a host.
    Host { host: usize, script: usize },
    /// At the end.
    Ended,
}

/// What is to be done next in a run of scripts.
#[derive(Clone, Copy, Debug, PartialEq, Eq, Structural)]
pub enum ScriptAction {
    /// Evaluate whether the script at this place is to be run.
    Evaluate(ScriptPlace),
    /// Run the script at this place.
    Execute(ScriptPlace),
    /// Nothing: the run has ended.
    Done,
}

/// What the execution of a script brought.
#[derive(Debug)]
pub struct ScriptOutcome {
    pub id: String,
    pub success: bool,
    /// The output to show, if there is any.
    pub output: Option<String>,
}

/// A run of scripts.
#[derive(Debug)]
pub struct ScriptRun {
    /// The number of scripts.
    pub scripts: usize,
    pub place: ScriptPlace,
    /// The script at this place is to be run.
    pub matched: bool,
}

/// The first port from `from` on that takes scripts.
pub open spec fn next_port(ports: Seq<PortResult>, from: int) -> int
    decreases ports.len() - from,
{
    if 0 <= from < ports.len() && !takes_scripts(ports[from]) {
        next_port(ports, from + 1)
    } else {
        from
    }
}

/// The first place at a host from this port on: at its next port that takes
/// scripts, or at the host itself.
pub open spec fn port_place(hosts: Seq<HostResult>, host: int, from: int) -> ScriptPlace {
    let p = next_port(hosts[host].ports@, from);
    if p < hosts[host].ports@.len() {
        ScriptPlace::Port { host: host as usize, port: p as usize, script: 0 }
    } else {
        ScriptPlace::Host { host: host as usize, script: 0 }
    }
}

/// The place behind a place. All scripts are tried against a port, then against the
/// next one, and when there is none against the host; then comes the next host.
pub open spec fn place_after(
    hosts: Seq<HostResult>,
    scripts: int,
    place: ScriptPlace,
) -> ScriptPlace {
    match place {
        ScriptPlace::Port { host, port, script } => if script + 1 < scripts {
            ScriptPlace::Port { host, port, script: (script + 1) as usize }
        } else {
            port_place(hosts, host as int, port + 1)
        },
        ScriptPlace::Host { host, script } => if script + 1 < scripts {
            ScriptPlace::Host { host, script: (script + 1) as usize }
        } else if host + 1 < hosts.len() {
            port_place(hosts, host + 1, 0)
        } else {
            ScriptPlace::Ended
        },
        ScriptPlace::Ended => ScriptPlace::Ended,
    }
}

/// The place is at an existing script, and at an existing port that takes scripts or
/// at an existing host.
pub open spec fn valid_place(hosts: Seq<HostResult>, scripts: int, place: ScriptPlace) -> bool {
    match place {
        ScriptPlace::Port { host, port, script } => host < hosts.len() && port
            < hosts[host as int].ports@.len() && takes_scripts(
            hosts[host as int].ports@[port as int],
        ) && script < scripts,
        ScriptPlace::Host { host, script } => host < hosts.len() && script < scripts,
        ScriptPlace::Ended => true,
    }
}

/// How far a place is in a run: host, port and script. The host itself comes behind
/// its ports.
pub open spec fn progress_of(hosts: Seq<HostResult>, place: ScriptPlace) -> (int, int, int) {
    match place {
        ScriptPlace::Port { host, port, script } => (host as int, port as int, script as int),
        ScriptPlace::Host { host, script } => (
            host as int,
            hosts[host as int].ports@.len() as int,
            script as int,
        ),
        ScriptPlace::Ended => (hosts.len() as int, 0, 0),
    }
}

/// `b` is further than `a`.
pub open spec fn further(a: (int, int, int), b: (int, int, int)) -> bool {
    a.0 < b.0 || (a.0 == b.0 && (a.1 < b.1 || (a.1 == b.1 && a.2 < b.2)))
}

proof fn lemma_next_port(ports: Seq<PortResult>, from: int)
    requires
        0 <= from <= ports.len(),
    ensures
        from <= next_port(ports, from) <= ports.len(),
        forall|p: int| from <= p < next_port(ports, from) ==> !takes_scripts(#[trigger] ports[p]),
        next_port(ports, from) < ports.len() ==> takes_scripts(ports[next_port(ports, from)]),
    decreases ports.len() - from,
{
    if from < ports.len() && !takes_scripts(ports[from]) {
        lemma_next_port(ports, from + 1);
    }
}

/// A run always goes forward, so it ends; and it passes over no port that takes
/// scripts.
pub proof fn script_run_goes_forward(hosts: Seq<HostResult>, scripts: usize, place: ScriptPlace)
    requires
        hosts.len() <= usize::MAX,
        forall|h: int| 0 <= h < hosts.len() ==> (#[trigger] hosts[h]).ports@.len() <= usize::MAX,
        scripts > 0,
        valid_place(hosts, scripts as int, place),
        !(place is Ended),
    ensures
        further(
            progress_of(hosts, place),
            progress_of(hosts, place_after(hosts, scripts as int, place)),
        ),
        place matches ScriptPlace::Port { host, port, script } ==> script + 1 == scripts ==> (
        forall|p: int|
            port < p < hosts[host as int].ports@.len() && takes_scripts(
                #[trigger] hosts[host as int].ports@[p],
            ) ==> !further(
                (host as int, p, 0),
                progress_of(hosts, place_after(hosts, scripts as int, place)),
            )),
{
    match place {
        ScriptPlace::Port { host, port, script } => {
            lemma_next_port(hosts[host as int].ports@, port + 1);
        },
        ScriptPlace::Host { host, script } => {
            if host + 1 < hosts.len() {
                lemma_next_port(hosts[host + 1].ports@, 0);
            }
        },
        ScriptPlace::Ended => {},
    }
}

/// The scripts stand behind those that were there, and nothing else has changed.
pub open spec fn scripts_added(
    before: Seq<HostResult>,
    after: Seq<HostResult>,
    place: ScriptPlace,
    added: Seq<ScriptResult>,
) -> bool {
    match place {
        ScriptPlace::Port { host, port, script } => {
            let b = before[host as int];
            let a = after[host as int];
            &&& after.len() == before.len()
            &&& forall|h: int| 0 <= h < before.len() && h != host ==> #[trigger] after[h] == before[h]
            &&& a.ports@.len() == b.ports@.len()
            &&& a == (HostResult { ports: a.ports, ..b })
            &&& forall|p: int|
                0 <= p < b.ports@.len() && p != port ==> #[trigger] a.ports@[p] == b.ports@[p]
            &&& a.ports@[port as int] == (PortResult {
                scripts: a.ports@[port as int].scripts,
                ..b.ports@[port as int]
            })
            &&& a.ports@[port as int].scripts@ == b.ports@[port as int].scripts@ + added
        },
        ScriptPlace::Host { host, script } => {
            let b = before[host as int];
            let a = after[host as int];
            &&& after.len() == before.len()
            &&& forall|h: int| 0 <= h < before.len() && h != host ==> #[trigger] after[h] == before[h]
            &&& a == (HostResult { scripts: a.scripts, ..b })
            &&& a.scripts@ == b.scripts@ + added
        },
        ScriptPlace::Ended => after == before,
    }
}

/// What is added for an outcome: a result if the script succeeded and has something
/// to show.
pub open spec fn is_added(added: Seq<ScriptResult>, outcome: Option<ScriptOutcome>) -> bool {
    match outcome {
        Some(o) => match o.output {
            Some(text) => if o.success {
                &&& added.len() == 1
                &&& added[0].id == o.id
                &&& added[0].output == text
                &&& added[0].elements@.len() == 0
            } else {
                added.len() == 0
            },
            None => added.len() == 0,
        },
        None => added.len() == 0,
    }
}

impl ScriptRun {
    /// The run is at a place that exists.
    pub open spec fn wf(&self, hosts: Seq<HostResult>) -> bool {
        self.scripts > 0 && valid_place(hosts, self.scripts as int, self.place)
    }

    /// What is to be done next.
    pub open spec fn next_action(&self) -> ScriptAction {
        match self.place {
            ScriptPlace::Ended => ScriptAction::Done,
            _ => if self.matched {
                ScriptAction::Execute(self.place)
            } else {
                ScriptAction::Evaluate(self.place)
            },
        }
    }

    /// Begins a run of a number of scripts against the hosts.
    #[must_use]
    pub fn new(hosts: &Vec<HostResult>, scripts: usize) -> (r: Self)
        requires
            scripts > 0,
        ensures
            r.wf(hosts@),
            r.scripts == scripts,
            !r.matched,
            r.place == if hosts@.len() > 0 {
                port_place(hosts@, 0, 0)
            } else {
                ScriptPlace::Ended
            },
    {
        let place = if hosts.len() > 0 {
            Self::seek_port(hosts, 0, 0)
        } else {
            ScriptPlace::Ended
        };
        ScriptRun { scripts, place, matched: false }
    }

    fn seek_port(hosts: &Vec<HostResult>, host: usize, from: usize) -> (r: ScriptPlace)
        requires
            host < hosts@.len(),
            from <= hosts@[host as int].ports@.len(),
        ensures
            r == port_place(hosts@, host as int, from as int),
            forall|n: int| n > 0 ==> #[trigger] valid_place(hosts@, n, r),
    {
        let mut p: usize = from;
        let ports = &hosts[host].ports;
        while p < ports.len() && !(ports[p].state == PortState::Open || ports[p].state
            == PortState::OpenOrFiltered)
            invariant
                from <= p <= ports@.len(),
                next_port(ports@, from as int) == next_port(ports@, p as int),
            decreases ports.len() - p,
        {
            p += 1;
        }
        if p < ports.len() {
            ScriptPlace::Port { host, port: p, script: 0 }
        } else {
            ScriptPlace::Host { host, script: 0 }
        }
    }

    /// Tells what is to be done next.
    #[must_use]
    pub fn next(&self) -> (r: ScriptAction)
        ensures
            r == self.next_action(),
    {
        match self.place {
            ScriptPlace::Ended => ScriptAction::Done,
            _ => if self.matched {
                ScriptAction::Execute(self.place)
            } else {
                ScriptAction::Evaluate(self.place)
            },
        }
    }

    fn advance(&mut self, hosts: &Vec<HostResult>)
        requires
            old(self).wf(hosts@),
        ensures
            final(self).wf(hosts@),
            final(self).scripts == old(self).scripts,
            !final(self).matched,
            final(self).place == place_after(hosts@, old(self).scripts as int, old(self).place),
    {
        self.matched = false;
        match self.place {
            ScriptPlace::Port { host, port, script } => {
                if script + 1 < self.scripts {
                    self.place = ScriptPlace::Port { host, port, script: script + 1 };
                } else {
                    let count: usize = hosts[host].ports.len();
                    assert(port < count);
                    self.place = Self::seek_port(hosts, host, port + 1);
                }
            },
            ScriptPlace::Host { host, script } => {
                let count: usize = hosts.len();
                assert(host < count);
                if script + 1 < self.scripts {
                    self.place = ScriptPlace::Host { host, script: script + 1 };
                } else if host + 1 < hosts.len() {
                    self.place = Self::seek_port(hosts, host + 1, 0);
                } else {
                    self.place = ScriptPlace::Ended;
                }
            },
            ScriptPlace::Ended => {},
        }
    }

    /// Takes in whether the script at this place is to be run. One whose rule could not
    /// be evaluated is not.
    pub fn evaluated(&mut self, hosts: &Vec<HostResult>, matched: bool)
        requires
            old(self).wf(hosts@),
            old(self).next_action() is Evaluate,
        ensures
            final(self).wf(hosts@),
            final(self).scripts == old(self).scripts,
            matched ==> final(self).matched && final(self).place == old(self).place,
            !matched ==> !final(self).matched && final(self).place == place_after(
                hosts@,
                old(self).scripts as int,
                old(self).place,
            ),
    {
        if matched {
            self.matched = true;
        } else {
            self.advance(hosts);
        }
    }

    /// Takes in what the script at this place brought: nothing if it failed to run.
    pub fn executed(&mut self, hosts: &mut Vec<HostResult>, outcome: Option<ScriptOutcome>)
        requires
            old(self).wf(old(hosts)@),
            old(self).next_action() is Execute,
        ensures
            final(self).wf(final(hosts)@),
            final(self).scripts == old(self).scripts,
            !final(self).matched,
            final(self).place == place_after(
                final(hosts)@,
                old(self).scripts as int,
                old(self).place,
            ),
            exists|added: Seq<ScriptResult>| #[trigger]
                is_added(added, outcome) && scripts_added(
                    old(hosts)@,
                    final(hosts)@,
                    old(self).place,
                    added,
                ),
    {
        let ghost before = hosts@;
        let ghost mut added: Seq<ScriptResult> = Seq::empty();
        if let Some(o) = outcome {
            if o.success {
                if let Some(output) = o.output {
                    let result = ScriptResult { id: o.id, output, elements: Vec::new() };
                    proof {
                        added = seq![result];
                    }
                    match self.place {
                        ScriptPlace::Port { host, port, script } => {
                            let h = &mut hosts[host];
                            let p = &mut h.ports[port];
                            p.scripts.push(result);
                        },
                        ScriptPlace::Host { host, script } => {
                            let h = &mut hosts[host];
                            h.scripts.push(result);
                        },
                        ScriptPlace::Ended => {},
                    }
                }
            }
        }
        proof {
            assert(is_added(added, outcome));
            match self.place {
                ScriptPlace::Port { host, port, script } => {
                    assert(hosts@[host as int].ports@[port as int].scripts@
                        =~= before[host as int].ports@[port as int].scripts@ + added);
                },
                ScriptPlace::Host { host, script } => {
                    assert(hosts@[host as int].scripts@ =~= before[host as int].scripts@ + added);
                },
                ScriptPlace::Ended => {},
            }
            assert(scripts_added(before, hosts@, self.place, added));
        }
        self.advance(hosts);
    }
}

/// The word for a protocol in a script.
#[must_use]
pub fn script_protocol(p: Protocol) -> (r: &'static str)
    ensures
        r@ == match p {
            Protocol::Tcp => "tcp"@,
            Protocol::Udp => "udp"@,
            Protocol::Sctp => "sctp"@,
        },
{
    match p {
        Protocol::Tcp => "tcp",
        Protocol::Udp => "udp",
        Protocol::Sctp => "sctp",
    }
}

/// The name of the service on a port as scripts see it.
#[must_use]
pub fn script_service(p: &PortResult) -> (r: &str)
    ensures
        r@ == match p.service {
            Some(s) => s.name@,
            None => ""@,
        },
{
    match &p.service {
        Some(s) => s.name.as_str(),
        None => "",
    }
}

/// The expression that selects scripts: that of the configuration, or the default.
#[must_use]
pub fn script_selector(config: &ScanConfig) -> (r: &str)
    ensures
        r@ == match config.nse_selector {
            Some(s) => s@,
            None => "default"@,
        },
{
    match &config.nse_selector {
        Some(s) => s.as_str(),
        None => "default",
    }
}

/// Whether scripts are run at all: not without any that is registered, nor when none
/// is selected. A selector that cannot be read is an error.
pub fn scripts_selected(registered: usize, selected: &Result<usize, String>) -> (r: Result<
    bool,
    CoreError,
>)
    ensures
        match r {
            Ok(run) => (registered == 0 && !run) || (registered > 0 && *selected is Ok && run
                == (selected->Ok_0 > 0)),
            Err(CoreError::Config(m)) => registered > 0 && (*selected matches Err(e) && m@
                == "Invalid --script argument: "@ + e@),
            Err(_) => false,
        },
{
    if registered == 0 {
        return Ok(false);
    }
    match selected {
        Ok(n) => Ok(*n > 0),
        Err(e) => Err(CoreError::Config(joined("Invalid --script argument: ", e.as_str()))),
    }
}

/// Scripts are run at ports that are open or may be.
pub proof fn scripts_are_for_open_ports(p: PortResult)
    ensures
        takes_scripts(p) <==> p.state is Open || p.state is OpenOrFiltered,
{
}

/// A script belongs here: at a port that takes scripts, or behind all ports, at the host.
pub open spec fn is_slot(hosts: Seq<HostResult>, scripts: int, slot: (int, int, int)) -> bool {
    &&& 0 <= slot.0 < hosts.len()
    &&& 0 <= slot.1 <= hosts[slot.0].ports@.len()
    &&& slot.1 < hosts[slot.0].ports@.len() ==> hosts[slot.0].ports@[slot.1].state is Open
        || hosts[slot.0].ports@[slot.1].state is OpenOrFiltered
    &&& 0 <= slot.2 < scripts
}

/// No script is passed over: between a place and the one that follows it no script
/// belongs anywhere. So every script has its turn at every port that takes scripts and at
/// every host.
pub proof fn no_script_is_passed_over(
    hosts: Seq<HostResult>,
    scripts: usize,
    place: ScriptPlace,
    slot: (int, int, int),
)
    requires
        hosts.len() <= usize::MAX,
        forall|h: int| 0 <= h < hosts.len() ==> (#[trigger] hosts[h]).ports@.len() <= usize::MAX,
        scripts > 0,
        valid_place(hosts, scripts as int, place),
        is_slot(hosts, scripts as int, slot),
    ensures
        further(progress_of(hosts, place), slot) ==> !further(
            slot,
            progress_of(hosts, place_after(hosts, scripts as int, place)),
        ),
        hosts.len() > 0 ==> !further(slot, progress_of(hosts, port_place(hosts, 0, 0))),
{
    match place {
        ScriptPlace::Port { host, port, script } => {
            lemma_next_port(hosts[host as int].ports@, port + 1);
        },
        ScriptPlace::Host { host, script } => {
            if host + 1 < hosts.len() {
                lemma_next_port(hosts[host + 1].ports@, 0);
            }
        },
        ScriptPlace::Ended => {},
    }
    if hosts.len() > 0 {
        lemma_next_port(hosts[0].ports@, 0);
    }
}

/// A script that succeeded and said something is reported, with its name and what it said;
/// any other is not.
pub proof fn successful_scripts_are_reported(
    added: Seq<ScriptResult>,
    outcome: Option<ScriptOutcome>,
)
    requires
        is_added(added, outcome),
    ensures
        added.len() <= 1,
        added.len() == 1 <==> (outcome matches Some(o) && o.success && o.output is Some),
        added.len() == 1 ==> added[0].id == outcome.unwrap().id && Some(added[0].output)
            == outcome.unwrap().output,
{
}

/// What a script brought stands behind what was there, at its own port or host, and nothing
/// else changes.
pub proof fn script_results_stand_at_their_place(
    before: Seq<HostResult>,
    after: Seq<HostResult>,
    place: ScriptPlace,
    added: Seq<ScriptResult>,
    scripts: int,
    h: int,
    p: int,
)
    requires
        scripts_added(before, after, place, added),
        valid_place(before, scripts, place),
        0 <= h < before.len(),
        0 <= p < before[h].ports@.len(),
    ensures
        after.len() == before.len(),
        after[h].ip == before[h].ip,
        after[h].ports@.len() == before[h].ports@.len(),
        after[h].ports@[p].number == before[h].ports@[p].number,
        after[h].ports@[p].state == before[h].ports@[p].state,
        after[h].ports@[p].service == before[h].ports@[p].service,
        (place matches ScriptPlace::Port { host, port, script } && host == h && port == p)
            ==> after[h].ports@[p].scripts@ == before[h].ports@[p].scripts@ + added,
        !(place matches ScriptPlace::Port { host, port, script } && host == h && port == p)
            ==> after[h].ports@[p] == before[h].ports@[p],
        (place matches ScriptPlace::Host { host, script } && host == h) ==> after[h].scripts@
            == before[h].scripts@ + added,
        !(place matches ScriptPlace::Host { host, script } && host == h) ==> after[h].scripts
            == before[h].scripts,
{
}

/// The next port is the next one that takes scripts.
pub proof fn no_port_is_passed_over(ports: Seq<PortResult>, from: int)
    requires
        0 <= from <= ports.len(),
    ensures
        from <= next_port(ports, from) <= ports.len(),
        forall|i: int| from <= i < next_port(ports, from) ==> !takes_scripts(#[trigger] ports[i]),
        next_port(ports, from) < ports.len() ==> takes_scripts(ports[next_port(ports, from)]),
    decreases ports.len() - from,
{
    if from < ports.len() && !takes_scripts(ports[from]) {
        no_port_is_passed_over(ports, from + 1);
    }
}

} // verus!
