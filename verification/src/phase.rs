//! The phases of a scan and their order.
use crate::config::ScanConfig;
use vstd::prelude::*;

verus! {

/// Scan phase enumeration.
#[derive(Debug, Clone, Copy, PartialEq, Eq, Hash, Structural)]
pub enum ScanPhase {
    /// Target parsing phase.
    TargetParsing,
    /// Host discovery phase.
    HostDiscovery,
    /// Port scanning phase.
    PortScanning,
    /// Service detection phase.
    ServiceDetection,
    /// OS detection phase.
    OsDetection,
    /// NSE script execution phase.
    NseExecution,
    /// Traceroute phase.
    Traceroute,
    /// Result aggregation phase.
    ResultAggregation,
}

impl ScanPhase {
    /// The place of the phase in the sequence of all phases.
    pub open spec fn rank(self) -> int {
        match self {
            ScanPhase::TargetParsing => 0,
            ScanPhase::HostDiscovery => 1,
            ScanPhase::PortScanning => 2,
            ScanPhase::ServiceDetection => 3,
            ScanPhase::OsDetection => 4,
            ScanPhase::NseExecution => 5,
            ScanPhase::Traceroute => 6,
            ScanPhase::ResultAggregation => 7,
        }
    }

    /// Returns the next phase in the pipeline.
    #[must_use]
    pub fn next(self) -> (r: Option<Self>)
        ensures
            match r {
                Some(p) => p.rank() == self.rank() + 1,
                None => self == ScanPhase::ResultAggregation,
            },
    {
        match self {
            Self::TargetParsing => Some(Self::HostDiscovery),
            Self::HostDiscovery => Some(Self::PortScanning),
            Self::PortScanning => Some(Self::ServiceDetection),
            Self::ServiceDetection => Some(Self::OsDetection),
            Self::OsDetection => Some(Self::NseExecution),
            Self::NseExecution => Some(Self::Traceroute),
            Self::Traceroute => Some(Self::ResultAggregation),
            Self::ResultAggregation => None,
        }
    }

    /// Returns true if this phase is enabled by default.
    #[must_use]
    pub fn is_default(self) -> (r: bool)
        ensures
            r == default_phases().contains(self),
    {
        let r = match self {
            Self::TargetParsing => true,
            Self::HostDiscovery => true,
            Self::PortScanning => true,
            Self::ResultAggregation => true,
            _ => false,
        };
        proof {
            let d = default_phases();
            assert(d[0] == ScanPhase::TargetParsing && d[1] == ScanPhase::HostDiscovery && d[2]
                == ScanPhase::PortScanning && d[3] == ScanPhase::ResultAggregation);
        }
        r
    }

    /// The display name of the phase.
    pub open spec fn title(self) -> Seq<char> {
        match self {
            ScanPhase::TargetParsing => "Target Parsing"@,
            ScanPhase::HostDiscovery => "Host Discovery"@,
            ScanPhase::PortScanning => "Port Scanning"@,
            ScanPhase::ServiceDetection => "Service Detection"@,
            ScanPhase::OsDetection => "OS Detection"@,
            ScanPhase::NseExecution => "NSE Script Execution"@,
            ScanPhase::Traceroute => "Traceroute"@,
            ScanPhase::ResultAggregation => "Result Aggregation"@,
        }
    }

    /// Returns the display name for this phase.
    #[must_use]
    pub fn name(self) -> (r: &'static str)
        ensures
            r@ == self.title(),
    {
        match self {
            Self::TargetParsing => "Target Parsing",
            Self::HostDiscovery => "Host Discovery",
            Self::PortScanning => "Port Scanning",
            Self::ServiceDetection => "Service Detection",
            Self::OsDetection => "OS Detection",
            Self::NseExecution => "NSE Script Execution",
            Self::Traceroute => "Traceroute",
            Self::ResultAggregation => "Result Aggregation",
        }
    }

    /// The display name as an owned text.
    #[must_use]
    pub fn to_text(self) -> (r: String)
        ensures
            r@ == self.title(),
    {
        self.name().to_string()
    }
}

/// The phases that are always enabled.
pub open spec fn default_phases() -> Seq<ScanPhase> {
    seq![
        ScanPhase::TargetParsing,
        ScanPhase::HostDiscovery,
        ScanPhase::PortScanning,
        ScanPhase::ResultAggregation,
    ]
}

/// The phase that has to be done before another one.
pub open spec fn required_phase(phase: ScanPhase) -> Option<ScanPhase> {
    match phase {
        ScanPhase::TargetParsing => None,
        ScanPhase::HostDiscovery => Some(ScanPhase::TargetParsing),
        ScanPhase::PortScanning => Some(ScanPhase::HostDiscovery),
        ScanPhase::ServiceDetection => Some(ScanPhase::PortScanning),
        ScanPhase::OsDetection => Some(ScanPhase::PortScanning),
        ScanPhase::NseExecution => Some(ScanPhase::ServiceDetection),
        ScanPhase::Traceroute => Some(ScanPhase::PortScanning),
        ScanPhase::ResultAggregation => Some(ScanPhase::PortScanning),
    }
}

/// `phases` with `phase` added: right behind the phase that it requires, or at the
/// end if that one is not enabled.
pub open spec fn with_phase(phases: Seq<ScanPhase>, phase: ScanPhase) -> Seq<ScanPhase> {
    if phases.contains(phase) {
        phases
    } else {
        match required_phase(phase) {
            Some(d) => if phases.contains(d) {
                phases.insert(phases.index_of(d) + 1, phase)
            } else {
                phases.push(phase)
            },
            None => phases.push(phase),
        }
    }
}

/// An order of phases in which a scan can be done: it starts with parsing the
/// targets, finding the hosts and scanning the ports, no phase occurs twice, and
/// each comes after the phase that it requires if that one is enabled.
pub open spec fn in_order(phases: Seq<ScanPhase>) -> bool {
    &&& phases.len() >= 3
    &&& phases[0] == ScanPhase::TargetParsing
    &&& phases[1] == ScanPhase::HostDiscovery
    &&& phases[2] == ScanPhase::PortScanning
    &&& phases.no_duplicates()
    &&& forall|i: int, j: int|
        0 <= i < phases.len() && 0 <= j < phases.len() && #[trigger] required_phase(phases[i])
            == Some(#[trigger] phases[j]) ==> j < i
}

/// The place of a phase in an order without repetitions.
proof fn lemma_place(phases: Seq<ScanPhase>, i: int)
    requires
        phases.no_duplicates(),
        0 <= i < phases.len(),
    ensures
        phases.index_of(phases[i]) == i,
        phases.contains(phases[i]),
{
}

/// Adding a phase keeps the order.
pub proof fn with_phase_keeps_order(phases: Seq<ScanPhase>, phase: ScanPhase)
    requires
        in_order(phases),
    ensures
        in_order(with_phase(phases, phase)),
        with_phase(phases, phase).contains(phase),
        forall|p: ScanPhase| #[trigger]
            phases.contains(p) ==> with_phase(phases, phase).contains(p),
        forall|p: ScanPhase| #[trigger]
            with_phase(phases, phase).contains(p) ==> phases.contains(p) || p == phase,
{
    lemma_place(phases, 0);
    lemma_place(phases, 1);
    lemma_place(phases, 2);
    let after = with_phase(phases, phase);
    if !phases.contains(phase) {
        let d = required_phase(phase).unwrap();
        if phases.contains(d) {
            let pos = phases.index_of(d);
            assert(0 <= pos < phases.len() && phases[pos] == d);
            assert(pos >= 2);
            let at = pos + 1;
            assert(after[at] == phase);
            assert forall|p: ScanPhase| #[trigger] phases.contains(p) implies after.contains(p) by {
                let i = phases.index_of(p);
                assert(0 <= i < phases.len() && phases[i] == p);
                if i < at {
                    assert(after[i] == p);
                } else {
                    assert(after[i + 1] == p);
                }
            }
            assert forall|p: ScanPhase| #[trigger]
                after.contains(p) implies phases.contains(p) || p == phase by {
                let i = after.index_of(p);
                assert(0 <= i < after.len() && after[i] == p);
                if i < at {
                    assert(phases[i] == p);
                } else if i > at {
                    assert(phases[i - 1] == p);
                }
            }
            assert forall|i: int, j: int|
                0 <= i < after.len() && 0 <= j < after.len() && #[trigger] required_phase(after[i])
                    == Some(#[trigger] after[j]) implies j < i by {
                let i0 = if i < at { i } else { i - 1 };
                let j0 = if j < at { j } else { j - 1 };
                if i == at {
                    assert(j != at);
                    assert(phases[j0] == d);
                    assert(j0 == pos);
                } else if j == at {
                    assert(phases[i0] == after[i]);
                    if i < at {
                        assert(i0 <= pos);
                        if i0 < 3 {
                            assert(false);
                        } else {
                            assert(phases[pos] == d && d == ScanPhase::ServiceDetection);
                            assert(false);
                        }
                    }
                } else {
                    assert(phases[i0] == after[i] && phases[j0] == after[j]);
                }
            }
        } else {
            assert(after[phases.len() as int] == phase);
            assert forall|p: ScanPhase| #[trigger] phases.contains(p) implies after.contains(p) by {
                let i = phases.index_of(p);
                assert(after[i] == p);
            }
        }
    }
}

/// Enabled phases with what each requires.
#[derive(Debug)]
pub struct ScanPipeline {
    phases: Vec<ScanPhase>,
    dependencies: Vec<(ScanPhase, Vec<ScanPhase>)>,
}

/// What each phase requires.
spec fn lists_requirements(dependencies: Seq<(ScanPhase, Vec<ScanPhase>)>) -> bool {
    &&& forall|i: int|
        0 <= i < dependencies.len() ==> required_phase((#[trigger] dependencies[i]).0) == Some(
            dependencies[i].1@[0],
        ) && dependencies[i].1@.len() == 1
    &&& dependencies.len() == 7
    &&& dependencies[0].0 == ScanPhase::HostDiscovery
    &&& dependencies[1].0 == ScanPhase::PortScanning
    &&& dependencies[2].0 == ScanPhase::ServiceDetection
    &&& dependencies[3].0 == ScanPhase::OsDetection
    &&& dependencies[4].0 == ScanPhase::NseExecution
    &&& dependencies[5].0 == ScanPhase::Traceroute
    &&& dependencies[6].0 == ScanPhase::ResultAggregation
}

impl View for ScanPipeline {
    type V = Seq<ScanPhase>;

    closed spec fn view(&self) -> Seq<ScanPhase> {
        self.phases@
    }
}

impl Default for ScanPipeline {
    fn default() -> (r: Self)
        ensures
            r.wf(),
            r@ == default_phases(),
    {
        let phases = vec![
            ScanPhase::TargetParsing,
            ScanPhase::HostDiscovery,
            ScanPhase::PortScanning,
            ScanPhase::ResultAggregation,
        ];
        let mut dependencies: Vec<(ScanPhase, Vec<ScanPhase>)> = Vec::new();
        dependencies.push((ScanPhase::HostDiscovery, vec![ScanPhase::TargetParsing]));
        dependencies.push((ScanPhase::PortScanning, vec![ScanPhase::HostDiscovery]));
        dependencies.push((ScanPhase::ServiceDetection, vec![ScanPhase::PortScanning]));
        dependencies.push((ScanPhase::OsDetection, vec![ScanPhase::PortScanning]));
        dependencies.push((ScanPhase::NseExecution, vec![ScanPhase::ServiceDetection]));
        dependencies.push((ScanPhase::Traceroute, vec![ScanPhase::PortScanning]));
        dependencies.push((ScanPhase::ResultAggregation, vec![ScanPhase::PortScanning]));
        proof {
            assert(phases@ =~= default_phases());
        }
        Self { phases, dependencies }
    }
}

/// The phases that a configuration enables.
pub open spec fn configured_phases(config: ScanConfig) -> Seq<ScanPhase> {
    let p0 = default_phases();
    let p1 = if config.service_detection {
        with_phase(p0, ScanPhase::ServiceDetection)
    } else {
        p0
    };
    let p2 = if config.os_detection {
        with_phase(p1, ScanPhase::OsDetection)
    } else {
        p1
    };
    let p3 = if config.nse_scripts {
        with_phase(p2, ScanPhase::NseExecution)
    } else {
        p2
    };
    if config.traceroute {
        with_phase(p3, ScanPhase::Traceroute)
    } else {
        p3
    }
}

/// A configuration enables the phases that are always enabled and those that it
/// asks for, and no others.
pub proof fn configured_phases_are_those_asked_for(config: ScanConfig, phase: ScanPhase)
    ensures
        in_order(configured_phases(config)),
        configured_phases(config).contains(phase) <==> match phase {
            ScanPhase::ServiceDetection => config.service_detection,
            ScanPhase::OsDetection => config.os_detection,
            ScanPhase::NseExecution => config.nse_scripts,
            ScanPhase::Traceroute => config.traceroute,
            _ => true,
        },
{
    let p0 = default_phases();
    assert(p0[0] == ScanPhase::TargetParsing && p0[1] == ScanPhase::HostDiscovery && p0[2]
        == ScanPhase::PortScanning && p0[3] == ScanPhase::ResultAggregation);
    assert(in_order(p0));
    assert(p0.contains(phase) <==> match phase {
        ScanPhase::ServiceDetection => false,
        ScanPhase::OsDetection => false,
        ScanPhase::NseExecution => false,
        ScanPhase::Traceroute => false,
        _ => true,
    });
    with_phase_keeps_order(p0, ScanPhase::ServiceDetection);
    let p1 = if config.service_detection {
        with_phase(p0, ScanPhase::ServiceDetection)
    } else {
        p0
    };
    assert(p1.contains(phase) <==> p0.contains(phase) || (phase == ScanPhase::ServiceDetection
        && config.service_detection));
    with_phase_keeps_order(p1, ScanPhase::OsDetection);
    let p2 = if config.os_detection {
        with_phase(p1, ScanPhase::OsDetection)
    } else {
        p1
    };
    assert(p2.contains(phase) <==> p1.contains(phase) || (phase == ScanPhase::OsDetection
        && config.os_detection));
    with_phase_keeps_order(p2, ScanPhase::NseExecution);
    let p3 = if config.nse_scripts {
        with_phase(p2, ScanPhase::NseExecution)
    } else {
        p2
    };
    assert(p3.contains(phase) <==> p2.contains(phase) || (phase == ScanPhase::NseExecution
        && config.nse_scripts));
    with_phase_keeps_order(p3, ScanPhase::Traceroute);
}

impl ScanPipeline {
    /// The phases are in order, and what each requires is listed.
    pub closed spec fn wf(&self) -> bool {
        in_order(self.phases@) && lists_requirements(self.dependencies@)
    }

    /// The phases of a pipeline are in order.
    pub proof fn phases_are_in_order(&self)
        requires
            self.wf(),
        ensures
            in_order(self@),
    {
    }

    /// Creates a new scan pipeline from a scan configuration.
    #[must_use]
    pub fn from_config(config: &ScanConfig) -> (r: Self)
        ensures
            r.wf(),
            r@ == configured_phases(*config),
    {
        let mut pipeline = Self::default();
        if config.service_detection {
            pipeline.add_phase(ScanPhase::ServiceDetection);
        }
        if config.os_detection {
            pipeline.add_phase(ScanPhase::OsDetection);
        }
        if config.nse_scripts {
            pipeline.add_phase(ScanPhase::NseExecution);
        }
        if config.traceroute {
            pipeline.add_phase(ScanPhase::Traceroute);
        }
        pipeline
    }

    /// The place of a phase.
    fn position(phases: &Vec<ScanPhase>, phase: ScanPhase) -> (r: Option<usize>)
        requires
            phases@.no_duplicates(),
        ensures
            match r {
                Some(i) => i < phases@.len() && phases@.contains(phase) && i == phases@.index_of(
                    phase,
                ),
                None => !phases@.contains(phase),
            },
    {
        let mut i: usize = 0;
        while i < phases.len()
            invariant
                i <= phases.len(),
                phases@.no_duplicates(),
                forall|j: int| 0 <= j < i ==> phases@[j] != phase,
            decreases phases.len() - i,
        {
            if phases[i] == phase {
                proof {
                    lemma_place(phases@, i as int);
                }
                return Some(i);
            }
            i += 1;
        }
        None
    }

    /// Adds a phase to the pipeline.
    pub fn add_phase(&mut self, phase: ScanPhase)
        requires
            old(self).wf(),
        ensures
            final(self).wf(),
            final(self)@ == with_phase(old(self)@, phase),
    {
        proof {
            with_phase_keeps_order(self.phases@, phase);
        }
        if Self::position(&self.phases, phase).is_some() {
            return;
        }
        let last_dep: Option<ScanPhase> = match self.dependencies(phase) {
            Some(deps) => if deps.len() > 0 {
                Some(deps[deps.len() - 1])
            } else {
                None
            },
            None => None,
        };
        if let Some(dep) = last_dep {
            if let Some(pos) = Self::position(&self.phases, dep) {
                let count: usize = self.phases.len();
                assert(pos < count);
                self.phases.insert(pos + 1, phase);
                return;
            }
        }
        self.phases.push(phase);
    }

    /// Returns the enabled phases in order.
    #[must_use]
    pub fn phases(&self) -> (r: &[ScanPhase])
        ensures
            r@ == self@,
    {
        self.phases.as_slice()
    }

    /// Returns true if the given phase is enabled.
    #[must_use]
    pub fn is_enabled(&self, phase: ScanPhase) -> (r: bool)
        requires
            self.wf(),
        ensures
            r == self@.contains(phase),
    {
        Self::position(&self.phases, phase).is_some()
    }

    /// Returns the dependencies for a phase.
    #[must_use]
    pub fn dependencies(&self, phase: ScanPhase) -> (r: Option<&[ScanPhase]>)
        requires
            self.wf(),
        ensures
            match r {
                Some(deps) => required_phase(phase) is Some && deps@ == seq![
                    required_phase(phase).unwrap(),
                ],
                None => required_phase(phase) is None,
            },
    {
        let mut i: usize = 0;
        while i < self.dependencies.len()
            invariant
                i <= self.dependencies.len(),
                lists_requirements(self.dependencies@),
                forall|j: int| 0 <= j < i ==> (#[trigger] self.dependencies@[j]).0 != phase,
            decreases self.dependencies.len() - i,
        {
            if self.dependencies[i].0 == phase {
                let deps = self.dependencies[i].1.as_slice();
                assert(deps@ =~= seq![required_phase(phase).unwrap()]);
                return Some(deps);
            }
            i += 1;
        }
        None
    }
}

impl Clone for ScanPipeline {
    fn clone(&self) -> (r: Self)
        ensures
            r@ == self@,
            self.wf() ==> r.wf(),
    {
        let phases = self.phases.clone();
        assert(phases@ =~= self.phases@);
        let mut dependencies: Vec<(ScanPhase, Vec<ScanPhase>)> = Vec::new();
        let mut i: usize = 0;
        while i < self.dependencies.len()
            invariant
                i <= self.dependencies.len(),
                dependencies@.len() == i,
                forall|j: int|
                    0 <= j < i ==> (#[trigger] dependencies@[j]).0 == self.dependencies@[j].0
                        && dependencies@[j].1@ == self.dependencies@[j].1@,
            decreases self.dependencies.len() - i,
        {
            let required = self.dependencies[i].1.clone();
            assert(required@ =~= self.dependencies@[i as int].1@);
            dependencies.push((self.dependencies[i].0, required));
            i += 1;
        }
        Self { phases, dependencies }
    }
}

/// Each phase has its own name and its own place in the order of the phases.
pub proof fn phases_have_their_own_names(a: ScanPhase, b: ScanPhase)
    ensures
        a is TargetParsing ==> a.title() == "Target Parsing"@,
        a is HostDiscovery ==> a.title() == "Host Discovery"@,
        a is PortScanning ==> a.title() == "Port Scanning"@,
        a is ServiceDetection ==> a.title() == "Service Detection"@,
        a is OsDetection ==> a.title() == "OS Detection"@,
        a is NseExecution ==> a.title() == "NSE Script Execution"@,
        a is Traceroute ==> a.title() == "Traceroute"@,
        a is ResultAggregation ==> a.title() == "Result Aggregation"@,
        a.rank() == b.rank() ==> a == b,
        required_phase(a) == Some(b) ==> b.rank() < a.rank(),
{
}

/// Ports are scanned after hosts have been looked for; services, operating systems and
/// routes are found out after ports have been scanned, and so are results put together;
/// scripts are run after services have been found out. Nothing precedes reading targets.
pub proof fn phases_require_their_input(phase: ScanPhase)
    ensures
        required_phase(phase) is None <==> phase is TargetParsing,
        required_phase(phase) == Some(ScanPhase::TargetParsing) <==> phase is HostDiscovery,
        required_phase(phase) == Some(ScanPhase::HostDiscovery) <==> phase is PortScanning,
        required_phase(phase) == Some(ScanPhase::ServiceDetection) <==> phase is NseExecution,
        required_phase(phase) == Some(ScanPhase::PortScanning) <==> phase is ServiceDetection
            || phase is OsDetection || phase is Traceroute || phase is ResultAggregation,
{
}

/// Every scan reads its targets, looks for hosts, scans ports and puts the results
/// together, in this order, and does no more unless it is asked to.
pub proof fn every_scan_has_these_phases(phase: ScanPhase)
    ensures
        default_phases().len() == 4,
        default_phases()[0] == ScanPhase::TargetParsing,
        default_phases()[1] == ScanPhase::HostDiscovery,
        default_phases()[2] == ScanPhase::PortScanning,
        default_phases()[3] == ScanPhase::ResultAggregation,
{
}

/// A phase that is put in stands right behind the one whose results it needs; the others
/// keep their order, and a phase that is there is not put in twice.
pub proof fn a_phase_is_put_in_its_place(phases: Seq<ScanPhase>, phase: ScanPhase, d: int)
    requires
        0 <= d < phases.len(),
        required_phase(phase) == Some(phases[d]),
        phases.no_duplicates(),
    ensures
        phases.contains(phase) ==> with_phase(phases, phase) == phases,
        !phases.contains(phase) ==> {
            let r = with_phase(phases, phase);
            &&& r.len() == phases.len() + 1
            &&& r[d + 1] == phase
            &&& forall|i: int| 0 <= i <= d ==> #[trigger] r[i] == phases[i]
            &&& forall|i: int| d + 1 < i < r.len() ==> #[trigger] r[i] == phases[i - 1]
        },
{
    assert(phases.contains(phases[d]));
    assert(phases.index_of(phases[d]) == d);
}

} // verus!
