//! Apple SoC CPU frequency driver.
//!
//! This driver exposes Apple cluster DVFS registers through a common cpufreq
//! policy layer. Policy decisions are made there; this driver only translates
//! performance state requests into DVFS commands.

use vstd::prelude::*;
use vstd::string::*;
use crate::bytes::{be32, be64, get_be32, get_be64};
use crate::device::{
    cell_of, child_nodes, children, find_cell, find_node_with, find_region, find_node,
    find_value, has_property, node_compatible, node_is, node_with, property_of, region_of,
    node_at, value_of, Property, TreeNode,
};

verus! {

pub const APPLE_DVFS_CMD: usize = 0x20;
pub const APPLE_DVFS_CMD_BUSY: u64 = 0x8000_0000;
pub const APPLE_DVFS_CMD_SET: u64 = 0x0200_0000;
pub const APPLE_DVFS_CMD_PS1_S5L8960X_MASK: u64 = 0x01c0_0000;
pub const APPLE_DVFS_CMD_PS1_S5L8960X_SHIFT: u32 = 22;
pub const APPLE_DVFS_CMD_PS2_MASK: u64 = 0xf000;
pub const APPLE_DVFS_CMD_PS2_SHIFT: u32 = 12;
pub const APPLE_DVFS_CMD_PS1_MASK: u64 = 0x1f;
pub const APPLE_DVFS_CMD_PS1_SHIFT: u32 = 0;
pub const APPLE_DVFS_STATUS: usize = 0x50;
pub const APPLE_DVFS_TRANSITION_TIMEOUT_US: u64 = 400;
pub const APPLE_DVFS_POLL_INTERVAL_US: u64 = 2;
pub const MIN_MMIO_SIZE: usize = 0x1000;
pub const MAX_CPUFREQ_DOMAINS: usize = 8;
pub const T8103_ECPU_DVFS_PADDR: u64 = 0x2_10e2_0000;
pub const T8103_PCPU_DVFS_PADDR: u64 = 0x2_11e2_0000;
pub const T8103_ECPU_BOOT_PSTATE: u32 = 5;
pub const T8103_PCPU_BOOT_PSTATE: u32 = 7;

/// The name that the driver goes by.
pub fn backend_name() -> (r: &'static str)
    ensures
        r@ == "apple-soc-cpufreq"@,
{
    "apple-soc-cpufreq"
}

#[derive(Debug, Clone, Copy, PartialEq, Eq, Structural)]
pub enum PstateEncoding {
    S5l8960x,
    T8103,
    T8112,
    Unknown,
}

#[derive(Debug, Clone, Copy, PartialEq, Eq, Structural)]
pub struct CpuFrequencyOpp {
    pub pstate: u32,
    pub freq_khz: u64,
}

/// The encoding that a node's compatible list names.
pub open spec fn encoding_of(node: TreeNode) -> PstateEncoding {
    if node_is(node, "apple,s5l8960x-cluster-cpufreq".spec_bytes()) {
        PstateEncoding::S5l8960x
    } else if node_is(node, "apple,t8103-cluster-cpufreq".spec_bytes()) {
        PstateEncoding::T8103
    } else if node_is(node, "apple,t8112-cluster-cpufreq".spec_bytes()) {
        PstateEncoding::T8112
    } else {
        PstateEncoding::Unknown
    }
}

/// The performance state that a cluster is in.
pub open spec fn current_of(e: PstateEncoding, status: u32) -> Option<u32> {
    match e {
        PstateEncoding::S5l8960x => Some((status >> 3) & 0x7),
        PstateEncoding::T8103 => Some((status >> 4) & 0xf),
        PstateEncoding::T8112 => Some((status >> 5) & 0x1f),
        PstateEncoding::Unknown => None,
    }
}

/// The performance state that a cluster is going to.
pub open spec fn target_of(e: PstateEncoding, status: u32) -> Option<u32> {
    match e {
        PstateEncoding::S5l8960x => Some(status & 0x7),
        PstateEncoding::T8103 => Some(status & 0xf),
        PstateEncoding::T8112 => Some(status & 0x1f),
        PstateEncoding::Unknown => None,
    }
}

/// The highest performance state of a cluster.
pub open spec fn highest(e: PstateEncoding) -> u32 {
    match e {
        PstateEncoding::S5l8960x => 7,
        PstateEncoding::T8103 => 15,
        PstateEncoding::T8112 => 31,
        PstateEncoding::Unknown => 15,
    }
}

impl PstateEncoding {
    pub fn from_node(node: &TreeNode) -> (r: Self)
        ensures
            r == encoding_of(*node),
    {
        if node_compatible(node, "apple,s5l8960x-cluster-cpufreq") {
            PstateEncoding::S5l8960x
        } else if node_compatible(node, "apple,t8103-cluster-cpufreq") {
            PstateEncoding::T8103
        } else if node_compatible(node, "apple,t8112-cluster-cpufreq") {
            PstateEncoding::T8112
        } else {
            PstateEncoding::Unknown
        }
    }

    pub fn current_pstate(self, status: u32) -> (r: Option<u32>)
        ensures
            r == current_of(self, status),
    {
        match self {
            PstateEncoding::S5l8960x => Some((status >> 3) & 0x7),
            PstateEncoding::T8103 => Some((status >> 4) & 0xf),
            PstateEncoding::T8112 => Some((status >> 5) & 0x1f),
            PstateEncoding::Unknown => None,
        }
    }

    pub fn target_pstate(self, status: u32) -> (r: Option<u32>)
        ensures
            r == target_of(self, status),
    {
        match self {
            PstateEncoding::S5l8960x => Some(status & 0x7),
            PstateEncoding::T8103 => Some(status & 0xf),
            PstateEncoding::T8112 => Some(status & 0x1f),
            PstateEncoding::Unknown => None,
        }
    }

    pub fn ps1_mask(self) -> (r: u64)
        ensures
            r == if self == PstateEncoding::S5l8960x {
                APPLE_DVFS_CMD_PS1_S5L8960X_MASK
            } else {
                APPLE_DVFS_CMD_PS1_MASK
            },
    {
        match self {
            PstateEncoding::S5l8960x => APPLE_DVFS_CMD_PS1_S5L8960X_MASK,
            _ => APPLE_DVFS_CMD_PS1_MASK,
        }
    }

    pub fn ps1_shift(self) -> (r: u32)
        ensures
            r == if self == PstateEncoding::S5l8960x {
                APPLE_DVFS_CMD_PS1_S5L8960X_SHIFT
            } else {
                APPLE_DVFS_CMD_PS1_SHIFT
            },
    {
        match self {
            PstateEncoding::S5l8960x => APPLE_DVFS_CMD_PS1_S5L8960X_SHIFT,
            _ => APPLE_DVFS_CMD_PS1_SHIFT,
        }
    }

    pub fn has_ps2(self) -> (r: bool)
        ensures
            r == (self == PstateEncoding::T8103),
    {
        match self {
            PstateEncoding::T8103 => true,
            _ => false,
        }
    }

    pub fn max_pstate(self) -> (r: u32)
        ensures
            r == highest(self),
    {
        match self {
            PstateEncoding::S5l8960x => 7,
            PstateEncoding::T8103 => 15,
            PstateEncoding::T8112 => 31,
            PstateEncoding::Unknown => 15,
        }
    }
}

/// A cluster of processors that change frequency together.
#[derive(Debug)]
pub struct AppleCpuFreqDomain {
    pub valid: bool,
    pub phandle: u32,
    pub paddr: usize,
    pub size: usize,
    pub vaddr: usize,
    pub map_failed: bool,
    pub encoding: PstateEncoding,
    pub opps: Vec<CpuFrequencyOpp>,
}

/// The first operating point from `i` on with a performance state.
pub open spec fn opp_with(opps: Seq<CpuFrequencyOpp>, pstate: u32, i: int) -> Option<
    CpuFrequencyOpp,
>
    decreases opps.len() - i,
{
    if i < 0 || i >= opps.len() {
        None
    } else if opps[i].pstate == pstate {
        Some(opps[i])
    } else {
        opp_with(opps, pstate, i + 1)
    }
}

/// The frequency of a performance state, where both are known.
pub open spec fn freq_of(opps: Seq<CpuFrequencyOpp>, pstate: Option<u32>) -> Option<u64> {
    match pstate {
        None => None,
        Some(p) => match opp_with(opps, p, 0) {
            Some(opp) => Some(opp.freq_khz),
            None => None,
        },
    }
}

/// `m` is the highest frequency of the operating points.
pub open spec fn is_max_freq(opps: Seq<CpuFrequencyOpp>, m: Option<u64>) -> bool {
    match m {
        None => opps.len() == 0,
        Some(m) => {
            &&& exists|i: int| 0 <= i < opps.len() && (#[trigger] opps[i]).freq_khz == m
            &&& forall|i: int| 0 <= i < opps.len() ==> (#[trigger] opps[i]).freq_khz <= m
        },
    }
}

/// The state that a cluster boots into.
pub open spec fn boot_pstate(encoding: PstateEncoding, paddr: usize) -> Option<u32> {
    if encoding == PstateEncoding::T8103 && paddr == T8103_ECPU_DVFS_PADDR {
        Some(T8103_ECPU_BOOT_PSTATE)
    } else if encoding == PstateEncoding::T8103 && paddr == T8103_PCPU_DVFS_PADDR {
        Some(T8103_PCPU_BOOT_PSTATE)
    } else {
        None
    }
}

/// The operating point that a cluster is put into at boot.
pub open spec fn boot_opp_of(d: AppleCpuFreqDomain) -> Option<CpuFrequencyOpp> {
    match boot_pstate(d.encoding, d.paddr) {
        Some(p) => opp_with(d.opps@, p, 0),
        None => None,
    }
}

/// What is to be done before the registers of a cluster can be used.
#[derive(Debug, Clone, Copy, PartialEq, Eq, Structural)]
pub enum Mapping {
    Ready { vaddr: usize },
    Failed,
    Wanted { paddr: usize, size: usize },
}

pub open spec fn mapping_of(d: AppleCpuFreqDomain) -> Mapping {
    if d.vaddr != 0 {
        Mapping::Ready { vaddr: d.vaddr }
    } else if d.map_failed {
        Mapping::Failed
    } else {
        Mapping::Wanted {
            paddr: d.paddr,
            size: if d.size >= MIN_MMIO_SIZE {
                d.size
            } else {
                MIN_MMIO_SIZE
            },
        }
    }
}

impl AppleCpuFreqDomain {
    pub fn empty() -> (r: Self)
        ensures
            !r.valid,
            r.phandle == 0 && r.paddr == 0 && r.size == 0 && r.vaddr == 0,
            !r.map_failed,
            r.encoding == PstateEncoding::Unknown,
            r.opps@ == Seq::<CpuFrequencyOpp>::empty(),
    {
        AppleCpuFreqDomain {
            valid: false,
            phandle: 0,
            paddr: 0,
            size: 0,
            vaddr: 0,
            map_failed: false,
            encoding: PstateEncoding::Unknown,
            opps: Vec::new(),
        }
    }

    pub fn opp_for_pstate(&self, pstate: u32) -> (r: Option<CpuFrequencyOpp>)
        ensures
            r == opp_with(self.opps@, pstate, 0),
    {
        let mut i: usize = 0;
        while i < self.opps.len()
            invariant
                i <= self.opps@.len(),
                opp_with(self.opps@, pstate, 0) == opp_with(self.opps@, pstate, i as int),
            decreases self.opps@.len() - i,
        {
            if self.opps[i].pstate == pstate {
                return Some(self.opps[i]);
            }
            i = i + 1;
        }
        None
    }

    pub fn freq_for_pstate(&self, pstate: Option<u32>) -> (r: Option<u64>)
        ensures
            r == freq_of(self.opps@, pstate),
    {
        match pstate {
            None => None,
            Some(p) => match self.opp_for_pstate(p) {
                Some(opp) => Some(opp.freq_khz),
                None => None,
            },
        }
    }

    pub fn max_freq_khz(&self) -> (r: Option<u64>)
        ensures
            is_max_freq(self.opps@, r),
    {
        if self.opps.len() == 0 {
            return None;
        }
        let mut best: u64 = self.opps[0].freq_khz;
        let mut i: usize = 1;
        while i < self.opps.len()
            invariant
                1 <= i <= self.opps@.len(),
                exists|k: int| 0 <= k < i && (#[trigger] self.opps@[k]).freq_khz == best,
                forall|k: int| 0 <= k < i ==> (#[trigger] self.opps@[k]).freq_khz <= best,
            decreases self.opps@.len() - i,
        {
            if self.opps[i].freq_khz > best {
                best = self.opps[i].freq_khz;
            }
            i = i + 1;
        }
        Some(best)
    }

    pub fn boot_opp(&self) -> (r: Option<CpuFrequencyOpp>)
        ensures
            r == boot_opp_of(*self),
    {
        if self.encoding != PstateEncoding::T8103 {
            return None;
        }
        if self.paddr as u64 == T8103_ECPU_DVFS_PADDR {
            self.opp_for_pstate(T8103_ECPU_BOOT_PSTATE)
        } else if self.paddr as u64 == T8103_PCPU_DVFS_PADDR {
            self.opp_for_pstate(T8103_PCPU_BOOT_PSTATE)
        } else {
            None
        }
    }

    /// What is to be done before the registers can be used.
    pub fn ensure_mapped(&self) -> (r: Mapping)
        ensures
            r == mapping_of(*self),
    {
        if self.vaddr != 0 {
            return Mapping::Ready { vaddr: self.vaddr };
        }
        if self.map_failed {
            return Mapping::Failed;
        }
        let size: usize = if self.size >= MIN_MMIO_SIZE {
            self.size
        } else {
            MIN_MMIO_SIZE
        };
        Mapping::Wanted { paddr: self.paddr, size }
    }

    /// Records where the registers were mapped, if they could be. A failure is not tried again.
    pub fn mapped(&mut self, vaddr: Option<usize>)
        ensures
            *final(self) == match vaddr {
                Some(v) => AppleCpuFreqDomain { vaddr: v, ..*old(self) },
                None => AppleCpuFreqDomain { map_failed: true, ..*old(self) },
            },
    {
        match vaddr {
            Some(v) => {
                self.vaddr = v;
            },
            None => {
                self.map_failed = true;
            },
        }
    }
}

/// What a cluster is doing.
#[derive(Debug, Clone, Copy, PartialEq, Eq, Structural)]
pub struct CpuFrequencyInfo {
    pub performance_domain: u32,
    pub raw_status: u32,
    pub current_pstate: Option<u32>,
    pub target_pstate: Option<u32>,
    pub current_freq_khz: Option<u64>,
    pub target_freq_khz: Option<u64>,
    pub max_freq_khz: Option<u64>,
}

/// What a cluster is doing, from its status register.
pub fn cpu_frequency_info(domain: &AppleCpuFreqDomain, raw_status: u32) -> (r: CpuFrequencyInfo)
    ensures
        r.performance_domain == domain.phandle,
        r.raw_status == raw_status,
        r.current_pstate == current_of(domain.encoding, raw_status),
        r.target_pstate == target_of(domain.encoding, raw_status),
        r.current_freq_khz == freq_of(domain.opps@, r.current_pstate),
        r.target_freq_khz == freq_of(domain.opps@, r.target_pstate),
        is_max_freq(domain.opps@, r.max_freq_khz),
{
    let current_pstate: Option<u32> = domain.encoding.current_pstate(raw_status);
    let target_pstate: Option<u32> = domain.encoding.target_pstate(raw_status);
    CpuFrequencyInfo {
        performance_domain: domain.phandle,
        raw_status,
        current_pstate,
        target_pstate,
        current_freq_khz: domain.freq_for_pstate(current_pstate),
        target_freq_khz: domain.freq_for_pstate(target_pstate),
        max_freq_khz: domain.max_freq_khz(),
    }
}

/// The first valid domain from `i` on with a phandle.
pub open spec fn domain_with(domains: Seq<AppleCpuFreqDomain>, phandle: u32, i: int) -> Option<int>
    decreases domains.len() - i,
{
    if i < 0 || i >= domains.len() {
        None
    } else if domains[i].valid && domains[i].phandle == phandle {
        Some(i)
    } else {
        domain_with(domains, phandle, i + 1)
    }
}

/// The position of a domain.
pub fn find_domain(domains: &[AppleCpuFreqDomain], domain_phandle: u32) -> (r: Result<
    usize,
    &'static str,
>)
    ensures
        match r {
            Ok(i) => domain_with(domains@, domain_phandle, 0) == Some(i as int) && i
                < domains@.len(),
            Err(e) => domain_with(domains@, domain_phandle, 0) is None && e
                == "apple-cpufreq: domain not found",
        },
{
    let mut i: usize = 0;
    while i < domains.len()
        invariant
            i <= domains@.len(),
            domain_with(domains@, domain_phandle, 0) == domain_with(
                domains@,
                domain_phandle,
                i as int,
            ),
        decreases domains@.len() - i,
    {
        if domains[i].valid && domains[i].phandle == domain_phandle {
            return Ok(i);
        }
        i = i + 1;
    }
    Err("apple-cpufreq: domain not found")
}

/// The command that asks for a performance state, made from what the command register held. A
/// state that is too high stands for the highest.
pub open spec fn command_for(e: PstateEncoding, command: u64, pstate: u32) -> u64 {
    let p = (if pstate <= highest(e) {
        pstate
    } else {
        highest(e)
    }) as u64;
    if e == PstateEncoding::S5l8960x {
        ((command & !APPLE_DVFS_CMD_PS1_S5L8960X_MASK) | (p << APPLE_DVFS_CMD_PS1_S5L8960X_SHIFT))
            | APPLE_DVFS_CMD_SET
    } else if e == PstateEncoding::T8103 {
        (((command & !APPLE_DVFS_CMD_PS1_MASK) | (p << APPLE_DVFS_CMD_PS1_SHIFT))
            & !APPLE_DVFS_CMD_PS2_MASK | (p << APPLE_DVFS_CMD_PS2_SHIFT)) | APPLE_DVFS_CMD_SET
    } else {
        ((command & !APPLE_DVFS_CMD_PS1_MASK) | (p << APPLE_DVFS_CMD_PS1_SHIFT))
            | APPLE_DVFS_CMD_SET
    }
}

/// The command that asks for a performance state.
pub fn pstate_command(encoding: PstateEncoding, command: u64, pstate: u32) -> (r: u64)
    ensures
        r == command_for(encoding, command, pstate),
{
    let max: u32 = encoding.max_pstate();
    let pstate: u32 = if pstate <= max {
        pstate
    } else {
        max
    };
    let mut command: u64 = command;
    command = command & !encoding.ps1_mask();
    command = command | ((pstate as u64) << encoding.ps1_shift());
    if encoding.has_ps2() {
        command = command & !APPLE_DVFS_CMD_PS2_MASK;
        command = command | ((pstate as u64) << APPLE_DVFS_CMD_PS2_SHIFT);
    }
    command | APPLE_DVFS_CMD_SET
}

/// What to do next while the command register may be busy.
#[derive(Debug, Clone, Copy, PartialEq, Eq)]
pub enum CommandWait {
    Ready,
    Failed { error: &'static str },
    PollAgain { after_us: u64 },
}

/// Looks at the command register; the time was taken after it was read.
pub fn wait_command_ready(command: u64, now_us: u64, start_us: u64) -> (r: CommandWait)
    ensures
        r == if command & APPLE_DVFS_CMD_BUSY == 0 {
            CommandWait::Ready
        } else if now_us - start_us >= APPLE_DVFS_TRANSITION_TIMEOUT_US {
            CommandWait::Failed { error: "apple-cpufreq: DVFS command busy timeout" }
        } else {
            CommandWait::PollAgain { after_us: APPLE_DVFS_POLL_INTERVAL_US }
        },
{
    if command & APPLE_DVFS_CMD_BUSY == 0 {
        return CommandWait::Ready;
    }
    if now_us >= start_us && now_us - start_us >= APPLE_DVFS_TRANSITION_TIMEOUT_US {
        return CommandWait::Failed { error: "apple-cpufreq: DVFS command busy timeout" };
    }
    CommandWait::PollAgain { after_us: APPLE_DVFS_POLL_INTERVAL_US }
}

/// What a domain is put into at boot.
pub fn boot_target_for_domain(domains: &[AppleCpuFreqDomain], index: usize) -> (r: Option<
    (u32, CpuFrequencyOpp),
>)
    ensures
        r == if index < domains@.len() && domains@[index as int].valid {
            match boot_opp_of(domains@[index as int]) {
                Some(opp) => Some((domains@[index as int].phandle, opp)),
                None => None,
            }
        } else {
            None
        },
{
    if index >= domains.len() {
        return None;
    }
    if !domains[index].valid {
        return None;
    }
    match domains[index].boot_opp() {
        Some(opp) => Some((domains[index].phandle, opp)),
        None => None,
    }
}

/// The number in a property: one cell or two.
pub open spec fn wide_of(props: Seq<Property>, name: Seq<char>) -> Option<u64> {
    match value_of(props, name) {
        None => None,
        Some(v) => if v.len() < 4 {
            None
        } else if v.len() < 8 {
            Some(be32(v, 0) as u64)
        } else {
            Some(be64(v, 0))
        },
    }
}

pub fn read_u64_prop(props: &[Property], name: &str) -> (r: Option<u64>)
    ensures
        r == wide_of(props@, name@),
{
    match find_value(props, name) {
        None => None,
        Some(v) => if v.len() < 4 {
            None
        } else if v.len() < 8 {
            Some(get_be32(v, 0) as u64)
        } else {
            Some(get_be64(v, 0))
        },
    }
}

/// The operating point in a node; turbo points and incomplete ones do not count.
pub open spec fn opp_in(node: TreeNode) -> Option<CpuFrequencyOpp> {
    let props = node.properties@;
    if property_of(props, "turbo-mode"@) is Some {
        None
    } else {
        match (cell_of(props, "opp-level"@), wide_of(props, "opp-hz"@)) {
            (Some(pstate), Some(hz)) => Some(
                CpuFrequencyOpp { pstate, freq_khz: ((hz + 999) / 1000) as u64 },
            ),
            _ => None,
        }
    }
}

fn read_opp(node: &TreeNode) -> (r: Option<CpuFrequencyOpp>)
    ensures
        r == opp_in(*node),
{
    let props = node.properties.as_slice();
    if has_property(props, "turbo-mode") {
        return None;
    }
    let pstate: u32 = match find_cell(props, "opp-level") {
        Some(pstate) => pstate,
        None => {
            return None;
        },
    };
    let freq_hz: u64 = match read_u64_prop(props, "opp-hz") {
        Some(hz) => hz,
        None => {
            return None;
        },
    };
    let freq_khz: u64 = if freq_hz % 1000 == 0 {
        freq_hz / 1000
    } else {
        freq_hz / 1000 + 1
    };
    Some(CpuFrequencyOpp { pstate, freq_khz })
}

/// The operating points in the nodes from `k` on, no more than `max` in all.
pub open spec fn opps_in(
    tree: Seq<TreeNode>,
    nodes: Seq<int>,
    k: int,
    so_far: Seq<CpuFrequencyOpp>,
    max: int,
) -> Seq<CpuFrequencyOpp>
    decreases nodes.len() - k,
{
    if k < 0 || k >= nodes.len() || so_far.len() >= max {
        so_far
    } else {
        match opp_in(tree[nodes[k]]) {
            Some(opp) => opps_in(tree, nodes, k + 1, so_far.push(opp), max),
            None => opps_in(tree, nodes, k + 1, so_far, max),
        }
    }
}

/// The operating point table that the first processor of a domain, from `k` on, refers to.
pub open spec fn table_handle(
    tree: Seq<TreeNode>,
    cpus: Seq<int>,
    k: int,
    domain: u32,
) -> Option<u32>
    decreases cpus.len() - k,
{
    if k < 0 || k >= cpus.len() {
        None
    } else {
        let props = tree[cpus[k]].properties@;
        if cell_of(props, "performance-domains"@) == Some(domain) && cell_of(
            props,
            "operating-points-v2"@,
        ) is Some {
            cell_of(props, "operating-points-v2"@)
        } else {
            table_handle(tree, cpus, k + 1, domain)
        }
    }
}

/// The node with a phandle; where none has it as `phandle`, the one that has it as
/// `linux,phandle`.
pub open spec fn node_by_phandle(tree: Seq<TreeNode>, phandle: u32) -> Option<int> {
    match node_with(tree, "phandle"@, phandle, 0) {
        Some(i) => Some(i),
        None => node_with(tree, "linux,phandle"@, phandle, 0),
    }
}

pub fn find_node_by_phandle(tree: &[TreeNode], phandle: u32) -> (r: Option<usize>)
    ensures
        match r {
            Some(i) => node_by_phandle(tree@, phandle) == Some(i as int) && i < tree@.len(),
            None => node_by_phandle(tree@, phandle) is None,
        },
{
    match find_node_with(tree, "phandle", phandle) {
        Some(i) => Some(i),
        None => find_node_with(tree, "linux,phandle", phandle),
    }
}

/// The operating point table of a domain.
pub open spec fn domain_table(tree: Seq<TreeNode>, domain: u32) -> Option<u32> {
    match node_at(tree, "/cpus"@) {
        None => None,
        Some(cpus) => table_handle(tree, children(tree, cpus), 0, domain),
    }
}

pub fn opp_table_phandle_for_domain(tree: &[TreeNode], domain_phandle: u32) -> (r: Option<u32>)
    ensures
        r == domain_table(tree@, domain_phandle),
{
    let cpus: usize = match find_node(tree, "/cpus") {
        Some(cpus) => cpus,
        None => {
            return None;
        },
    };
    let list = child_nodes(tree, cpus);
    let ghost nodes = children(tree@, cpus as int);
    assert(nodes =~= list@.map_values(|i: usize| i as int));
    let mut k: usize = 0;
    while k < list.len()
        invariant
            k <= list@.len(),
            nodes == list@.map_values(|i: usize| i as int),
            forall|j: int| 0 <= j < list@.len() ==> #[trigger] list@[j] < tree@.len(),
            node_at(tree@, "/cpus"@) == Some(cpus as int),
            nodes == children(tree@, cpus as int),
            table_handle(tree@, nodes, 0, domain_phandle) == table_handle(
                tree@,
                nodes,
                k as int,
                domain_phandle,
            ),
        decreases list@.len() - k,
    {
        assert(nodes[k as int] == list@[k as int]);
        let props = tree[list[k]].properties.as_slice();
        if let Some(domain) = find_cell(props, "performance-domains") {
            if domain == domain_phandle {
                if let Some(phandle) = find_cell(props, "operating-points-v2") {
                    return Some(phandle);
                }
            }
        }
        k = k + 1;
    }
    None
}

/// The operating points of a domain, no more than `max`.
pub open spec fn domain_opps(tree: Seq<TreeNode>, domain: u32, max: int) -> Seq<CpuFrequencyOpp> {
    match domain_table(tree, domain) {
        None => Seq::empty(),
        Some(handle) => match node_by_phandle(tree, handle) {
            None => Seq::empty(),
            Some(table) => opps_in(tree, children(tree, table), 0, Seq::empty(), max),
        },
    }
}

pub fn load_domain_opps(tree: &[TreeNode], domain_phandle: u32, max_opps: usize) -> (r: Vec<
    CpuFrequencyOpp,
>)
    ensures
        r@ == domain_opps(tree@, domain_phandle, max_opps as int),
{
    let mut opps: Vec<CpuFrequencyOpp> = Vec::new();
    let handle: u32 = match opp_table_phandle_for_domain(tree, domain_phandle) {
        Some(handle) => handle,
        None => {
            return opps;
        },
    };
    let table: usize = match find_node_by_phandle(tree, handle) {
        Some(table) => table,
        None => {
            return opps;
        },
    };
    let list = child_nodes(tree, table);
    let ghost nodes = children(tree@, table as int);
    assert(nodes =~= list@.map_values(|i: usize| i as int));
    let ghost all = opps_in(tree@, nodes, 0, Seq::empty(), max_opps as int);
    let mut k: usize = 0;
    while k < list.len() && opps.len() < max_opps
        invariant
            k <= list@.len(),
            nodes == list@.map_values(|i: usize| i as int),
            forall|j: int| 0 <= j < list@.len() ==> #[trigger] list@[j] < tree@.len(),
            all == opps_in(tree@, nodes, k as int, opps@, max_opps as int),
        decreases list@.len() - k,
    {
        assert(nodes[k as int] == list@[k as int]);
        if let Some(opp) = read_opp(&tree[list[k]]) {
            opps.push(opp);
        }
        k = k + 1;
    }
    opps
}

/// A node stands for a cluster.
pub open spec fn is_cluster(node: TreeNode) -> bool {
    ||| node_is(node, "apple,cluster-cpufreq".spec_bytes())
    ||| node_is(node, "apple,s5l8960x-cluster-cpufreq".spec_bytes())
    ||| node_is(node, "apple,t8103-cluster-cpufreq".spec_bytes())
    ||| node_is(node, "apple,t8112-cluster-cpufreq".spec_bytes())
}

/// The phandle and the registers of a cluster's node, where it has both.
pub open spec fn cluster_in(node: TreeNode) -> Option<(u32, usize, usize)> {
    let phandle = match cell_of(node.properties@, "phandle"@) {
        Some(p) => Some(p),
        None => cell_of(node.properties@, "linux,phandle"@),
    };
    if !is_cluster(node) {
        None
    } else {
        match (phandle, region_of(node, 0)) {
            (Some(p), Some(reg)) => Some(
                (
                    p,
                    reg.address,
                    match reg.size {
                        Some(size) => size,
                        None => MIN_MMIO_SIZE,
                    },
                ),
            ),
            _ => None,
        }
    }
}

fn read_cluster(node: &TreeNode) -> (r: Option<(u32, usize, usize)>)
    ensures
        r == cluster_in(*node),
{
    if !node_compatible(node, "apple,cluster-cpufreq") && !node_compatible(
        node,
        "apple,s5l8960x-cluster-cpufreq",
    ) && !node_compatible(node, "apple,t8103-cluster-cpufreq") && !node_compatible(
        node,
        "apple,t8112-cluster-cpufreq",
    ) {
        return None;
    }
    let props = node.properties.as_slice();
    let phandle: Option<u32> = match find_cell(props, "phandle") {
        Some(p) => Some(p),
        None => find_cell(props, "linux,phandle"),
    };
    match (phandle, find_region(node, 0)) {
        (Some(p), Some(reg)) => Some((p, reg.address, reg.size.unwrap_or(MIN_MMIO_SIZE))),
        _ => None,
    }
}

/// What is found of a cluster.
#[verifier::ext_equal]
pub struct DomainView {
    pub phandle: u32,
    pub paddr: usize,
    pub size: usize,
    pub encoding: PstateEncoding,
    pub opps: Seq<CpuFrequencyOpp>,
}

/// The clusters in the nodes from `i` on, no more than eight in all.
pub open spec fn clusters_from(
    tree: Seq<TreeNode>,
    i: int,
    so_far: Seq<DomainView>,
    max_opps: int,
) -> Seq<DomainView>
    decreases tree.len() - i,
{
    if i < 0 || i >= tree.len() {
        so_far
    } else {
        match cluster_in(tree[i]) {
            None => clusters_from(tree, i + 1, so_far, max_opps),
            Some((phandle, paddr, size)) => if so_far.len() >= MAX_CPUFREQ_DOMAINS {
                so_far
            } else {
                clusters_from(
                    tree,
                    i + 1,
                    so_far.push(
                        DomainView {
                            phandle,
                            paddr,
                            size,
                            encoding: encoding_of(tree[i]),
                            opps: domain_opps(tree, phandle, max_opps),
                        },
                    ),
                    max_opps,
                )
            },
        }
    }
}

impl AppleCpuFreqDomain {
    /// What was found of the cluster.
    pub open spec fn view(&self) -> DomainView {
        DomainView {
            phandle: self.phandle,
            paddr: self.paddr,
            size: self.size,
            encoding: self.encoding,
            opps: self.opps@,
        }
    }
}

/// Finds the clusters of the machine.
pub fn scan_fdt(tree: &[TreeNode], max_opps: usize) -> (r: Vec<AppleCpuFreqDomain>)
    ensures
        r@.map_values(|d: AppleCpuFreqDomain| d@) == clusters_from(
            tree@,
            0,
            Seq::empty(),
            max_opps as int,
        ),
        r@.len() <= MAX_CPUFREQ_DOMAINS,
        forall|k: int|
            0 <= k < r@.len() ==> (#[trigger] r@[k]).valid && r@[k].vaddr == 0 && !r@[k].map_failed,
{
    let mut domains: Vec<AppleCpuFreqDomain> = Vec::new();
    let ghost all = clusters_from(tree@, 0, Seq::empty(), max_opps as int);
    assert(domains@.map_values(|d: AppleCpuFreqDomain| d@) =~= Seq::<DomainView>::empty());
    let mut i: usize = 0;
    while i < tree.len()
        invariant
            i <= tree@.len(),
            domains@.len() <= MAX_CPUFREQ_DOMAINS,
            forall|k: int|
                0 <= k < domains@.len() ==> (#[trigger] domains@[k]).valid && domains@[k].vaddr
                    == 0 && !domains@[k].map_failed,
            all == clusters_from(tree@, 0, Seq::empty(), max_opps as int),
            all == clusters_from(
                tree@,
                i as int,
                domains@.map_values(|d: AppleCpuFreqDomain| d@),
                max_opps as int,
            ),
        decreases tree@.len() - i,
    {
        if let Some((phandle, paddr, size)) = read_cluster(&tree[i]) {
            if domains.len() >= MAX_CPUFREQ_DOMAINS {
                return domains;
            }
            let ghost before = domains@;
            let domain = AppleCpuFreqDomain {
                valid: true,
                phandle,
                paddr,
                size,
                vaddr: 0,
                map_failed: false,
                encoding: PstateEncoding::from_node(&tree[i]),
                opps: load_domain_opps(tree, phandle, max_opps),
            };
            let ghost found = domain@;
            domains.push(domain);
            assert(domains@.map_values(|d: AppleCpuFreqDomain| d@) =~= before.map_values(
                |d: AppleCpuFreqDomain| d@,
            ).push(found));
        }
        i = i + 1;
    }
    domains
}

/// The domain that a policy is registered for, and how long a change takes; none for a domain
/// without operating points.
pub fn domain_policy(domain: &AppleCpuFreqDomain) -> (r: Option<(u32, u64)>)
    ensures
        r == if domain.opps@.len() == 0 {
            None
        } else {
            Some((domain.phandle, 400_000u64))
        },
{
    if domain.opps.len() == 0 {
        return None;
    }
    Some((domain.phandle, APPLE_DVFS_TRANSITION_TIMEOUT_US * 1000))
}

/// Force linker retention for the Apple SoC CPU frequency driver crate.
pub fn force_link() {
}

/// Law: the command holds the state that it asks for, capped at the highest one, is marked as a
/// request, and leaves every other field of the register alone.
pub proof fn law_command_asks_for_the_state(e: PstateEncoding, command: u64, pstate: u32)
    ensures
        ({
            let p = if pstate <= highest(e) {
                pstate
            } else {
                highest(e)
            };
            let c = command_for(e, command, pstate);
            &&& c & APPLE_DVFS_CMD_SET != 0
            &&& e == PstateEncoding::S5l8960x ==> (c >> 22) & 0x7 == p && c & !0x03c0_0000u64
                == command & !0x03c0_0000u64
            &&& e == PstateEncoding::T8103 ==> c & 0x1f == p && (c >> 12) & 0xf == p && c
                & !0x0200_f01fu64 == command & !0x0200_f01fu64
            &&& e == PstateEncoding::T8112 || e == PstateEncoding::Unknown ==> c & 0x1f == p && c
                & !0x0200_001fu64 == command & !0x0200_001fu64
        }),
{
    let p = (if pstate <= highest(e) {
        pstate
    } else {
        highest(e)
    }) as u64;
    assert({
        let a = ((command & !0x01c0_0000u64) | (p << 22u32)) | 0x0200_0000u64;
        let b = (((command & !0x1fu64) | (p << 0u32)) & !0xf000u64 | (p << 12u32)) | 0x0200_0000u64;
        let c = ((command & !0x1fu64) | (p << 0u32)) | 0x0200_0000u64;
        &&& a & 0x0200_0000 != 0 && b & 0x0200_0000 != 0 && c & 0x0200_0000 != 0
        &&& p <= 7 ==> (a >> 22) & 0x7 == p && a & !0x03c0_0000u64 == command & !0x03c0_0000u64
        &&& p <= 15 ==> b & 0x1f == p && (b >> 12) & 0xf == p && b & !0x0200_f01fu64 == command
            & !0x0200_f01fu64
        &&& c & 0x1f == p && c & !0x0200_001fu64 == command & !0x0200_001fu64
    }) by (bit_vector)
        requires
            p <= 31,
    ;
}

/// Law: a failed mapping is never tried again.
pub proof fn law_mapping_failure_is_final(d: AppleCpuFreqDomain)
    requires
        d.vaddr == 0,
    ensures
        mapping_of(AppleCpuFreqDomain { map_failed: true, ..d }) == Mapping::Failed,
{
}

/// The fields of a status word as numbers.
proof fn lemma_status_fields(status: u32)
    by (bit_vector)
    ensures
        (status >> 3) & 0x7 == (status / 8) % 8,
        (status >> 4) & 0xf == (status / 16) % 16,
        (status >> 5) & 0x1f == (status / 32) % 32,
        status & 0x7 == status % 8,
        status & 0xf == status % 16,
        status & 0x1f == status % 32,
{
}

/// Law: a status word holds the state that a cluster goes to in its lowest bits and the state that it
/// is in right above them; each takes as many bits as the highest state needs.
pub proof fn law_status_holds_both_states(e: PstateEncoding, status: u32)
    ensures
        e == PstateEncoding::Unknown <==> current_of(e, status) is None,
        e == PstateEncoding::Unknown <==> target_of(e, status) is None,
        e != PstateEncoding::Unknown ==> {
            let states = highest(e) + 1;
            &&& target_of(e, status)->Some_0 == status as int % states
            &&& current_of(e, status)->Some_0 == (status as int / states) % states
            &&& target_of(e, status)->Some_0 <= highest(e)
            &&& current_of(e, status)->Some_0 <= highest(e)
        },
        highest(PstateEncoding::S5l8960x) == 7,
        highest(PstateEncoding::T8103) == 15,
        highest(PstateEncoding::T8112) == 31,
        highest(PstateEncoding::Unknown) == 15,
{
    lemma_status_fields(status);
}

/// Law: the operating point of a performance state is the first of the list with that state, and there
/// is one exactly where the list holds any; its frequency is the state's frequency.
pub proof fn law_operating_point_of_a_state(opps: Seq<CpuFrequencyOpp>, pstate: u32, from: int, i: int)
    requires
        0 <= from <= i < opps.len(),
    ensures
        opps[i].pstate == pstate ==> opp_with(opps, pstate, from) is Some,
        opp_with(opps, pstate, from) matches Some(opp) ==> opp.pstate == pstate && exists|k: int|
            from <= k < opps.len() && #[trigger] opps[k] == opp && (opps[i].pstate == pstate ==> k
                <= i),
        from == 0 ==> freq_of(opps, Some(pstate)) == match opp_with(opps, pstate, 0) {
            Some(opp) => Some(opp.freq_khz),
            None => None,
        },
        freq_of(opps, None) is None,
    decreases opps.len() - from,
{
    if opps[from].pstate != pstate {
        if from < i {
            law_operating_point_of_a_state(opps, pstate, from + 1, i);
        } else if from + 1 < opps.len() {
            law_operating_point_of_a_state(opps, pstate, from + 1, from + 1);
            if let Some(opp) = opp_with(opps, pstate, from + 1) {
                let k = choose|k: int|
                    from + 1 <= k < opps.len() && #[trigger] opps[k] == opp && (opps[from + 1].pstate
                        == pstate ==> k <= from + 1);
                assert(opps[k] == opp);
            }
        }
    } else {
        assert(opps[from].pstate == pstate);
    }
}

/// Law: an operating point is read from a node with a level and a frequency that is not a turbo mode;
/// its frequency in kHz is the node's in Hz, rounded up.
pub proof fn law_operating_point_is_read(node: TreeNode)
    ensures
        opp_in(node) matches Some(opp) ==> {
            &&& property_of(node.properties@, "turbo-mode"@) is None
            &&& cell_of(node.properties@, "opp-level"@) == Some(opp.pstate)
            &&& wide_of(node.properties@, "opp-hz"@) matches Some(hz) && (1000 * opp.freq_khz >= hz
                && 1000 * (opp.freq_khz - 1) < hz)
        },
        opp_in(node) is Some <==> property_of(node.properties@, "turbo-mode"@) is None && cell_of(
            node.properties@,
            "opp-level"@,
        ) is Some && wide_of(node.properties@, "opp-hz"@) is Some,
{
}

/// Law: the operating points of a table are those of its nodes, in the order of the nodes and without
/// the nodes that hold none, until there are as many as there is room for.
pub proof fn law_operating_points_keep_their_order(
    tree: Seq<TreeNode>,
    nodes: Seq<int>,
    so_far: Seq<CpuFrequencyOpp>,
    max: int,
)
    requires
        so_far.len() <= max,
    ensures
        ({
            let found = nodes.filter(|n: int| opp_in(tree[n]) is Some).map_values(
                |n: int| opp_in(tree[n])->Some_0,
            );
            let room = max - so_far.len();
            opps_in(tree, nodes, 0, so_far, max) == so_far + if found.len() <= room {
                found
            } else {
                found.take(room)
            }
        }),
    decreases nodes.len(),
{
    let holds = |n: int| opp_in(tree[n]) is Some;
    let value = |n: int| opp_in(tree[n])->Some_0;
    let found = nodes.filter(holds).map_values(value);
    let room = max - so_far.len();
    if nodes.len() == 0 {
        assert(nodes.filter(holds) =~= Seq::<int>::empty()) by {
            reveal(Seq::filter);
        }
        assert(found =~= Seq::<CpuFrequencyOpp>::empty());
        assert(so_far + found =~= so_far);
    } else if room == 0 {
        assert(so_far + found.take(0) =~= so_far);
        assert(found.len() == 0 ==> so_far + found =~= so_far);
        assert(found.len() == 0 ==> found =~= found.take(0));
    } else {
        let rest = nodes.drop_first();
        lemma_filter_first(nodes, holds);
        lemma_opps_shift(tree, nodes, 0, match opp_in(tree[nodes[0]]) {
            Some(opp) => so_far.push(opp),
            None => so_far,
        }, max);
        let later = rest.filter(holds).map_values(value);
        match opp_in(tree[nodes[0]]) {
            Some(opp) => {
                law_operating_points_keep_their_order(tree, rest, so_far.push(opp), max);
                assert(found =~= seq![opp] + later);
                if found.len() <= room {
                    assert(so_far.push(opp) + later =~= so_far + found);
                } else {
                    assert(so_far.push(opp) + later.take(room - 1) =~= so_far + found.take(room));
                }
            },
            None => {
                law_operating_points_keep_their_order(tree, rest, so_far, max);
                assert(found =~= later);
            },
        }
    }
}

proof fn lemma_filter_first(nodes: Seq<int>, p: spec_fn(int) -> bool)
    requires
        nodes.len() > 0,
    ensures
        nodes.filter(p) == (if p(nodes[0]) {
            seq![nodes[0]]
        } else {
            Seq::empty()
        }) + nodes.drop_first().filter(p),
{
    let head = seq![nodes[0]];
    assert(nodes =~= head + nodes.drop_first());
    Seq::filter_distributes_over_add(head, nodes.drop_first(), p);
    assert(head.filter(p) =~= if p(nodes[0]) {
        seq![nodes[0]]
    } else {
        Seq::empty()
    }) by {
        reveal_with_fuel(Seq::filter, 2);
        assert(head.drop_last() =~= Seq::<int>::empty());
    }
}

/// Going on behind the first node is going through the others.
proof fn lemma_opps_shift(
    tree: Seq<TreeNode>,
    nodes: Seq<int>,
    k: int,
    so_far: Seq<CpuFrequencyOpp>,
    max: int,
)
    requires
        0 <= k < nodes.len(),
    ensures
        opps_in(tree, nodes, k + 1, so_far, max) == opps_in(
            tree,
            nodes.drop_first(),
            k,
            so_far,
            max,
        ),
    decreases nodes.len() - k,
{
    if k + 1 < nodes.len() && so_far.len() < max {
        match opp_in(tree[nodes[k + 1]]) {
            Some(opp) => lemma_opps_shift(tree, nodes, k + 1, so_far.push(opp), max),
            None => lemma_opps_shift(tree, nodes, k + 1, so_far, max),
        }
    }
}

/// Law: a domain is found by its handle, and the first valid one of the list is taken.
pub proof fn law_first_valid_domain(
    domains: Seq<AppleCpuFreqDomain>,
    phandle: u32,
    from: int,
    i: int,
)
    requires
        0 <= from <= i < domains.len(),
    ensures
        match domain_with(domains, phandle, from) {
            Some(k) => {
                &&& from <= k < domains.len()
                &&& domains[k].valid && domains[k].phandle == phandle
                &&& domains[i].valid && domains[i].phandle == phandle ==> k <= i
            },
            None => !(domains[i].valid && domains[i].phandle == phandle),
        },
    decreases domains.len() - from,
{
    if from < i {
        law_first_valid_domain(domains, phandle, from + 1, i);
    } else if from + 1 < domains.len() {
        law_first_valid_domain(domains, phandle, from + 1, from + 1);
    } else {
        reveal_with_fuel(domain_with, 2);
    }
}

/// Law: the operating points of a domain are those of the first processor of the domain that names a
/// table.
pub proof fn law_first_processor_names_the_table(
    tree: Seq<TreeNode>,
    cpus: Seq<int>,
    from: int,
    domain: u32,
    i: int,
) -> (k: int)
    requires
        0 <= from <= i < cpus.len(),
    ensures
        ({
            let named = |c: int|
                cell_of(tree[cpus[c]].properties@, "performance-domains"@) == Some(domain) && cell_of(
                    tree[cpus[c]].properties@,
                    "operating-points-v2"@,
                ) is Some;
            match table_handle(tree, cpus, from, domain) {
                Some(handle) => {
                    &&& from <= k < cpus.len()
                    &&& named(k)
                    &&& cell_of(tree[cpus[k]].properties@, "operating-points-v2"@) == Some(handle)
                    &&& named(i) ==> k <= i
                },
                None => !named(i),
            }
        }),
    decreases cpus.len() - from,
{
    let props = tree[cpus[from]].properties@;
    if cell_of(props, "performance-domains"@) == Some(domain) && cell_of(
        props,
        "operating-points-v2"@,
    ) is Some {
        from
    } else if from < i {
        law_first_processor_names_the_table(tree, cpus, from + 1, domain, i)
    } else if from + 1 < cpus.len() {
        law_first_processor_names_the_table(tree, cpus, from + 1, domain, from + 1)
    } else {
        reveal_with_fuel(table_handle, 2);
        0
    }
}

/// Law: clusters come in the order of the tree, none is left out while fewer than eight have been found,
/// and there are no more than eight.
pub proof fn law_clusters_come_in_order(
    tree: Seq<TreeNode>,
    i: int,
    so_far: Seq<DomainView>,
    max_opps: int,
)
    requires
        0 <= i <= tree.len(),
        so_far.len() <= 8,
    ensures
        ({
            let all = clusters_from(tree, i, so_far, max_opps);
            &&& so_far.len() <= all.len() <= 8
            &&& forall|j: int| 0 <= j < so_far.len() ==> all[j] == so_far[j]
            &&& i < tree.len() && so_far.len() < 8 ==> (cluster_in(tree[i]) matches Some((
                phandle,
                paddr,
                size,
            )) ==> {
                let d = all[so_far.len() as int];
                &&& all.len() > so_far.len()
                &&& d.phandle == phandle && d.paddr == paddr && d.size == size
                &&& d.encoding == encoding_of(tree[i])
                &&& d.opps == domain_opps(tree, phandle, max_opps)
            })
            &&& i < tree.len() && cluster_in(tree[i]) is None ==> all == clusters_from(
                tree,
                i + 1,
                so_far,
                max_opps,
            )
        }),
    decreases tree.len() - i,
{
    if i < tree.len() {
        match cluster_in(tree[i]) {
            None => {
                law_clusters_come_in_order(tree, i + 1, so_far, max_opps);
            },
            Some((phandle, paddr, size)) => {
                if so_far.len() < 8 {
                    let d = DomainView {
                        phandle,
                        paddr,
                        size,
                        encoding: encoding_of(tree[i]),
                        opps: domain_opps(tree, phandle, max_opps),
                    };
                    let more = so_far.push(d);
                    law_clusters_come_in_order(tree, i + 1, more, max_opps);
                    let all = clusters_from(tree, i, so_far, max_opps);
                    assert(more[so_far.len() as int] == d);
                    assert(all[so_far.len() as int] == d);
                    assert forall|j: int| 0 <= j < so_far.len() implies all[j] == so_far[j] by {
                        assert(more[j] == so_far[j]);
                    }
                }
            },
        }
    }
}

/// Law: two clusters of one chip have a state to boot into, each its own; the point is the one of that
/// state.
pub proof fn law_boot_states(d: AppleCpuFreqDomain)
    ensures
        d.encoding == PstateEncoding::T8103 && d.paddr == 0x2_10e2_0000 ==> boot_opp_of(d) == opp_with(
            d.opps@,
            5,
            0,
        ),
        d.encoding == PstateEncoding::T8103 && d.paddr == 0x2_11e2_0000 ==> boot_opp_of(d) == opp_with(
            d.opps@,
            7,
            0,
        ),
        d.encoding != PstateEncoding::T8103 || (d.paddr != 0x2_10e2_0000 && d.paddr != 0x2_11e2_0000)
            ==> boot_opp_of(d) is None,
{
}

} // verus!
