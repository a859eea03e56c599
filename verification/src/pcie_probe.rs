//! How the ports of a PCIe controller are brought up.
//!
//! [`PcieProbe`] goes through the ports of a controller. It is handed what came of its last request,
//! and says what is to be done next.

use vstd::prelude::*;
use crate::pcie::{
    init_steps, new_port, port_fits, register_port, ApplePciePort, MsiPortConfig, PcieRegistry,
    PCI_COMMAND_BUS_MASTER, PCI_COMMAND_MEMORY_SPACE, PCI_COMMAND_SERR, PCI_CONFIG_COMMAND,
    PHY_OFFSET, PHY_STRIDE, PORT_LINKSTS_UP,
};
use crate::sequence::Step;

verus! {

/// What is known of a controller before its ports are brought up. The configuration space lies at
/// `config` and is mapped at `config_vaddr`; `msi` holds the first vector and the vectors of a port.
#[derive(Clone, Copy, Debug, PartialEq, Eq)]
pub struct PcieSetup {
    pub config: (usize, usize),
    pub config_vaddr: usize,
    pub phandle: u32,
    pub msi: (u32, u32),
}

/// Something to be done.
#[derive(Clone, Copy, Debug, PartialEq, Eq)]
pub enum PcieRequest {
    /// Map the registers of a port.
    MapPort { paddr: usize, size: usize },
    /// Run the program of [`PcieProbe::init`]. The registers of the port and its lane are mapped at
    /// these addresses.
    InitPort { port_base: usize, phy_base: usize },
    /// Enable the message interrupts of a port, and register them under a phandle.
    EnableMsi { phandle: u32, config: MsiPortConfig },
    /// Read the link status of the port that is mapped here.
    ReadLink { port_base: usize },
    /// Read the command word at this address.
    ReadCommand { address: usize },
    WriteCommand { address: usize, value: u16 },
    /// Look for devices behind the ports.
    Scan { paddr: usize, size: usize },
    Finish { result: Result<(), &'static str> },
}

/// What came of a request.
#[derive(Clone, Copy, Debug, PartialEq, Eq, Structural)]
pub enum PcieReply {
    Done,
    Mapped { vaddr: Option<usize> },
    Initialized { ok: bool },
    Link { status: u32 },
    Command { word: u16 },
}

/// How far a probe has come.
#[derive(Clone, Copy, Debug, PartialEq, Eq, Structural)]
pub enum PciePhase {
    /// The registers of port `index` are being mapped.
    Mapping { index: usize },
    /// Port `index` is being brought up.
    Init { index: usize, port_base: usize },
    /// The interrupts of port `index` are being enabled.
    Msi { index: usize, port_base: usize },
    /// The link of a port that is up is being read; `next` counts the ports that are up.
    Link { next: usize },
    /// The command word of its root port is being read.
    Command { next: usize },
    /// The command word of its root port is being written.
    Enable { next: usize },
    Scan,
    Over,
}

/// A probe as a value. `up` holds where the registers of the ports that came up are mapped.
#[verifier::ext_equal]
pub ghost struct PcieView {
    pub setup: PcieSetup,
    pub ports: Seq<(usize, usize)>,
    pub up: Seq<usize>,
    pub phase: PciePhase,
}

/// Port `index` before it is brought up.
pub open spec fn fresh_port(setup: PcieSetup, index: int, port_base: usize) -> ApplePciePort {
    ApplePciePort {
        index: index as u32,
        port_base,
        phy_base: (setup.config_vaddr + PHY_OFFSET + index * PHY_STRIDE) as usize,
        ecam: setup.config_vaddr,
        initialized: false,
        msi_config: None,
        msi_phandle: setup.phandle,
        msi_base_vector: (setup.msi.0 + index * setup.msi.1) as u32,
        msi_num_vectors: setup.msi.1,
    }
}

/// The interrupts of port `index`.
pub open spec fn msi_of(setup: PcieSetup, index: int, port_base: usize) -> MsiPortConfig {
    MsiPortConfig {
        port_base,
        base_vector: (setup.msi.0 + index * setup.msi.1) as u32,
        num_vectors: setup.msi.1,
    }
}

/// Port `index` when it is up.
pub open spec fn ready_port(setup: PcieSetup, index: int, port_base: usize) -> ApplePciePort {
    ApplePciePort {
        initialized: true,
        msi_config: Some(msi_of(setup, index, port_base)),
        ..fresh_port(setup, index, port_base)
    }
}

/// Goes on with port `index`, or with the links where there is no such port.
pub open spec fn go_to_port(v: PcieView, index: usize) -> (PcieView, PcieRequest) {
    if index < v.ports.len() {
        (
            PcieView { phase: PciePhase::Mapping { index }, ..v },
            PcieRequest::MapPort {
                paddr: v.ports[index as int].0,
                size: v.ports[index as int].1,
            },
        )
    } else {
        go_to_link(v, 0)
    }
}

/// Goes on with the link of a port that is up, or with the scan where there is none left.
pub open spec fn go_to_link(v: PcieView, next: usize) -> (PcieView, PcieRequest) {
    if next < v.up.len() {
        (
            PcieView { phase: PciePhase::Link { next }, ..v },
            PcieRequest::ReadLink { port_base: v.up[next as int] },
        )
    } else {
        (
            PcieView { phase: PciePhase::Scan, ..v },
            PcieRequest::Scan { paddr: v.setup.config.0, size: v.setup.config.1 },
        )
    }
}

/// The probe is over.
pub open spec fn over(v: PcieView, result: Result<(), &'static str>) -> (PcieView, PcieRequest) {
    (PcieView { phase: PciePhase::Over, ..v }, PcieRequest::Finish { result })
}

/// One move: a port that cannot be mapped ends the probe, one that does not come up is left out,
/// and the root port of one whose link is up is enabled. What becomes of the ports that are
/// registered comes second.
pub open spec fn transition(v: PcieView, ports: Seq<ApplePciePort>, reply: PcieReply) -> (
    PcieView,
    Seq<ApplePciePort>,
    PcieRequest,
) {
    match (v.phase, reply) {
        (PciePhase::Mapping { index }, PcieReply::Mapped { vaddr }) => match vaddr {
            None => {
                let (next, request) = over(v, Err("pcie: port ioremap failed"));
                (next, ports, request)
            },
            Some(port_base) => (
                PcieView { phase: PciePhase::Init { index, port_base }, ..v },
                ports,
                PcieRequest::InitPort {
                    port_base,
                    phy_base: fresh_port(v.setup, index as int, port_base).phy_base,
                },
            ),
        },
        (PciePhase::Init { index, port_base }, PcieReply::Initialized { ok }) => if ok {
            (
                PcieView { phase: PciePhase::Msi { index, port_base }, ..v },
                ports,
                PcieRequest::EnableMsi {
                    phandle: v.setup.phandle,
                    config: msi_of(v.setup, index as int, port_base),
                },
            )
        } else {
            let (next, request) = go_to_port(v, (index + 1) as usize);
            (next, ports, request)
        },
        (PciePhase::Msi { index, port_base }, PcieReply::Done) => {
            let (next, request) = go_to_port(
                PcieView { up: v.up.push(port_base), ..v },
                (index + 1) as usize,
            );
            (next, ports.push(ready_port(v.setup, index as int, port_base)), request)
        },
        (PciePhase::Link { next }, PcieReply::Link { status }) => if status & PORT_LINKSTS_UP != 0 {
            (
                PcieView { phase: PciePhase::Command { next }, ..v },
                ports,
                PcieRequest::ReadCommand {
                    address: (v.setup.config_vaddr + PCI_CONFIG_COMMAND) as usize,
                },
            )
        } else {
            let (after, request) = go_to_link(v, (next + 1) as usize);
            (after, ports, request)
        },
        (PciePhase::Command { next }, PcieReply::Command { word }) => (
            PcieView { phase: PciePhase::Enable { next }, ..v },
            ports,
            PcieRequest::WriteCommand {
                address: (v.setup.config_vaddr + PCI_CONFIG_COMMAND) as usize,
                value: word | PCI_COMMAND_MEMORY_SPACE | PCI_COMMAND_BUS_MASTER | PCI_COMMAND_SERR,
            },
        ),
        (PciePhase::Enable { next }, PcieReply::Done) => {
            let (after, request) = go_to_link(v, (next + 1) as usize);
            (after, ports, request)
        },
        _ => {
            let (next, request) = over(v, Ok(()));
            (next, ports, request)
        },
    }
}

/// What a probe relies on: the port that it is at exists and fits, and so did those that are up.
pub open spec fn view_ok(v: PcieView) -> bool {
    &&& v.ports.len() <= u32::MAX
    &&& v.up.len() > 0 ==> v.setup.config_vaddr + PHY_OFFSET <= usize::MAX
    &&& match v.phase {
        PciePhase::Mapping { index } => index < v.ports.len(),
        PciePhase::Init { index, .. } | PciePhase::Msi { index, .. } => index < v.ports.len()
            && port_fits(v.setup.config_vaddr, index as u32, v.setup.msi),
        PciePhase::Link { next } | PciePhase::Command { next } | PciePhase::Enable { next } => next
            < v.up.len(),
        _ => true,
    }
}

/// A reply that belongs to the last request, where the probe is not over. A port that was mapped
/// fits.
pub open spec fn reply_fits(v: PcieView, reply: PcieReply) -> bool {
    match v.phase {
        PciePhase::Mapping { index } => reply matches PcieReply::Mapped { vaddr } && (vaddr is Some
            ==> port_fits(v.setup.config_vaddr, index as u32, v.setup.msi)),
        PciePhase::Init { .. } => reply is Initialized,
        PciePhase::Link { .. } => reply is Link,
        PciePhase::Command { .. } => reply is Command,
        PciePhase::Msi { .. } | PciePhase::Enable { .. } | PciePhase::Scan => reply is Done,
        PciePhase::Over => false,
    }
}

/// Brings the ports of a controller up.
#[derive(Debug)]
pub struct PcieProbe {
    setup: PcieSetup,
    ports: Vec<(usize, usize)>,
    up: Vec<usize>,
    phase: PciePhase,
}

impl View for PcieProbe {
    type V = PcieView;

    closed spec fn view(&self) -> PcieView {
        PcieView {
            setup: self.setup,
            ports: self.ports@,
            up: self.up@,
            phase: self.phase,
        }
    }
}

impl PcieProbe {
    pub open spec fn wf(&self) -> bool {
        view_ok(self@)
    }

    /// Begins with the first port.
    pub fn new(setup: PcieSetup, ports: Vec<(usize, usize)>) -> (r: (Self, PcieRequest))
        requires
            ports@.len() <= u32::MAX,
        ensures
            r.0.wf(),
            (r.0@, r.1) == go_to_port(
                PcieView { setup, ports: ports@, up: Seq::empty(), phase: PciePhase::Over },
                0,
            ),
    {
        let mut probe = PcieProbe { setup, ports, up: Vec::new(), phase: PciePhase::Over };
        let ghost v = probe@;
        assert(v =~= PcieView { setup, ports: ports@, up: Seq::empty(), phase: PciePhase::Over });
        let request = probe.go_to_port(0);
        (probe, request)
    }

    /// Whether the lane of the port that is being mapped lies within the address space, and its
    /// vectors have numbers.
    pub fn port_fits(&self) -> (r: bool)
        requires
            self.wf(),
        ensures
            r == (self@.phase matches PciePhase::Mapping { index } ==> port_fits(
                self@.setup.config_vaddr,
                index as u32,
                self@.setup.msi,
            )),
    {
        let index: u32 = match self.phase {
            PciePhase::Mapping { index } => index as u32,
            _ => return true,
        };
        let count: u32 = self.setup.msi.1;
        assert(index * count <= 0xffff_ffff * 0xffff_ffff) by (nonlinear_arith)
            requires
                index <= 0xffff_ffff,
                count <= 0xffff_ffff,
        ;
        let vectors: u64 = index as u64 * count as u64;
        if vectors > (u32::MAX - self.setup.msi.0) as u64 {
            return false;
        }
        match (index as usize).checked_mul(PHY_STRIDE) {
            Some(lane) => match self.setup.config_vaddr.checked_add(PHY_OFFSET) {
                Some(first) => first.checked_add(lane).is_some(),
                None => false,
            },
            None => false,
        }
    }

    /// What brings the port up that the probe is at. Window 0 is the port, and window 1 its lane.
    pub fn init(&self) -> (r: Vec<Step>)
        requires
            self.wf(),
        ensures
            r@ == (match self@.phase {
                PciePhase::Init { index, .. } => init_steps(index as u32),
                _ => Seq::empty(),
            }),
    {
        match self.phase {
            PciePhase::Init { index, port_base } => self.port(index, port_base).init(),
            _ => Vec::new(),
        }
    }

    fn go_to_port(&mut self, index: usize) -> (r: PcieRequest)
        requires
            old(self)@.ports.len() <= u32::MAX,
            old(self)@.up.len() > 0 ==> old(self)@.setup.config_vaddr + PHY_OFFSET <= usize::MAX,
        ensures
            (final(self)@, r) == go_to_port(old(self)@, index),
            final(self).wf(),
    {
        let ghost v = self@;
        if index < self.ports.len() {
            let (paddr, size) = self.ports[index];
            self.phase = PciePhase::Mapping { index };
            assert(self@ =~= PcieView { phase: PciePhase::Mapping { index }, ..v });
            PcieRequest::MapPort { paddr, size }
        } else {
            self.go_to_link(0)
        }
    }

    fn go_to_link(&mut self, next: usize) -> (r: PcieRequest)
        requires
            old(self)@.ports.len() <= u32::MAX,
            old(self)@.up.len() > 0 ==> old(self)@.setup.config_vaddr + PHY_OFFSET <= usize::MAX,
        ensures
            (final(self)@, r) == go_to_link(old(self)@, next),
            final(self).wf(),
    {
        let ghost v = self@;
        if next < self.up.len() {
            self.phase = PciePhase::Link { next };
            assert(self@ =~= PcieView { phase: PciePhase::Link { next }, ..v });
            PcieRequest::ReadLink { port_base: self.up[next] }
        } else {
            self.phase = PciePhase::Scan;
            assert(self@ =~= PcieView { phase: PciePhase::Scan, ..v });
            PcieRequest::Scan { paddr: self.setup.config.0, size: self.setup.config.1 }
        }
    }

    fn finish(&mut self, result: Result<(), &'static str>) -> (r: PcieRequest)
        requires
            old(self).wf(),
        ensures
            (final(self)@, r) == over(old(self)@, result),
            final(self).wf(),
    {
        let ghost v = self@;
        self.phase = PciePhase::Over;
        assert(self@ =~= PcieView { phase: PciePhase::Over, ..v });
        PcieRequest::Finish { result }
    }

    /// Takes what came of the last request, and says what is to be done next.
    pub fn next(&mut self, registry: &mut PcieRegistry, reply: PcieReply) -> (r: PcieRequest)
        requires
            old(self).wf(),
            reply_fits(old(self)@, reply),
        ensures
            final(self).wf(),
            (final(self)@, final(registry)@, r) == transition(old(self)@, old(registry)@, reply),
    {
        let ghost v = self@;
        assert(v.up.len() == self.up.len());
        match (self.phase, reply) {
            (PciePhase::Mapping { index }, PcieReply::Mapped { vaddr }) => match vaddr {
                None => self.finish(Err("pcie: port ioremap failed")),
                Some(port_base) => {
                    let port = self.port(index, port_base);
                    self.phase = PciePhase::Init { index, port_base };
                    assert(self@ =~= PcieView { phase: PciePhase::Init { index, port_base }, ..v });
                    PcieRequest::InitPort { port_base, phy_base: port.phy_base }
                },
            },
            (PciePhase::Init { index, port_base }, PcieReply::Initialized { ok }) => {
                if !ok {
                    return self.go_to_port(index + 1);
                }
                let mut port = self.port(index, port_base);
                let config = port.initialized();
                self.phase = PciePhase::Msi { index, port_base };
                assert(self@ =~= PcieView { phase: PciePhase::Msi { index, port_base }, ..v });
                PcieRequest::EnableMsi { phandle: self.setup.phandle, config }
            },
            (PciePhase::Msi { index, port_base }, PcieReply::Done) => {
                let mut port = self.port(index, port_base);
                let _config = port.initialized();
                register_port(registry, port);
                self.up.push(port_base);
                assert(self@ =~= PcieView { up: v.up.push(port_base), ..v });
                assert(0 <= index * PHY_STRIDE) by (nonlinear_arith)
                    requires
                        index >= 0,
                        PHY_STRIDE == 0x4000,
                ;
                self.go_to_port(index + 1)
            },
            (PciePhase::Link { next }, PcieReply::Link { status }) => {
                if !ApplePciePort::is_link_up(status) {
                    return self.go_to_link(next + 1);
                }
                self.phase = PciePhase::Command { next };
                assert(self@ =~= PcieView { phase: PciePhase::Command { next }, ..v });
                PcieRequest::ReadCommand { address: self.root_command() }
            },
            (PciePhase::Command { next }, PcieReply::Command { word }) => {
                self.phase = PciePhase::Enable { next };
                assert(self@ =~= PcieView { phase: PciePhase::Enable { next }, ..v });
                PcieRequest::WriteCommand {
                    address: self.root_command(),
                    value: ApplePciePort::enable_root_port(word),
                }
            },
            (PciePhase::Enable { next }, PcieReply::Done) => self.go_to_link(next + 1),
            _ => self.finish(Ok(())),
        }
    }

    fn port(&self, index: usize, port_base: usize) -> (r: ApplePciePort)
        requires
            index <= u32::MAX,
            port_fits(self@.setup.config_vaddr, index as u32, self@.setup.msi),
        ensures
            r == fresh_port(self@.setup, index as int, port_base),
    {
        new_port(
            index as u32,
            port_base,
            self.setup.config_vaddr,
            self.setup.phandle,
            self.setup.msi,
        )
    }

    fn root_command(&self) -> (r: usize)
        requires
            self@.setup.config_vaddr + PHY_OFFSET <= usize::MAX,
        ensures
            r == self@.setup.config_vaddr + PCI_CONFIG_COMMAND,
    {
        self.setup.config_vaddr + (PCI_CONFIG_COMMAND as usize)
    }
}

/// A bound on the requests that a probe can still make.
pub open spec fn moves_left(v: PcieView) -> int {
    let up = 3 * v.up.len();
    match v.phase {
        PciePhase::Mapping { index } => 6 * (v.ports.len() - index) + up + 10,
        PciePhase::Init { index, .. } => 6 * (v.ports.len() - index) + up + 9,
        PciePhase::Msi { index, .. } => 6 * (v.ports.len() - index) + up + 8,
        PciePhase::Link { next } => 3 * (v.up.len() - next) + 4,
        PciePhase::Command { next } => 3 * (v.up.len() - next) + 3,
        PciePhase::Enable { next } => 3 * (v.up.len() - next) + 2,
        PciePhase::Scan => 1,
        PciePhase::Over => 0,
    }
}

/// Law: a probe comes to an end.
pub proof fn law_probe_ends(v: PcieView, ports: Seq<ApplePciePort>, reply: PcieReply)
    requires
        view_ok(v),
        v.up.len() < usize::MAX,
        reply_fits(v, reply),
    ensures
        0 <= moves_left(transition(v, ports, reply).0) < moves_left(v),
{
}

/// Law: a port that does not come up is left out: the probe goes on with the next one as if there
/// had been none.
pub proof fn law_failed_port_is_left_out(
    v: PcieView,
    ports: Seq<ApplePciePort>,
    index: usize,
    port_base: usize,
)
    requires
        view_ok(v),
        v.phase == (PciePhase::Init { index, port_base }),
    ensures
        ({
            let (next, after, request) = transition(v, ports, PcieReply::Initialized { ok: false });
            &&& after == ports
            &&& next.up == v.up
            &&& (next, request) == go_to_port(v, (index + 1) as usize)
        }),
{
}

/// Law: only a port that cannot be mapped fails a probe, and what is registered are ports that came
/// up, behind those that were there.
pub proof fn law_only_a_missing_mapping_fails(
    v: PcieView,
    ports: Seq<ApplePciePort>,
    reply: PcieReply,
)
    requires
        view_ok(v),
        reply_fits(v, reply),
    ensures
        ({
            let (next, after, request) = transition(v, ports, reply);
            &&& (request matches PcieRequest::Finish { result } && result is Err) <==> reply == (
            PcieReply::Mapped { vaddr: None })
            &&& after == ports || (after.len() == ports.len() + 1 && after.drop_last() =~= ports
                && after.last().initialized)
        }),
{
    if let PciePhase::Msi { index, port_base } = v.phase {
        assert(ports.push(ready_port(v.setup, index as int, port_base)).drop_last() =~= ports);
    }
}

} // verus!
