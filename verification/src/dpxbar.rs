//! Apple DisplayPort crossbar driver.

use vstd::prelude::*;
use crate::device::{
    find_resource, first_resource, has_string, lists, region_size, span, DeviceNode, ResourceKind,
};
use crate::sequence::{
    clear32, delay, lemma_masked_update, lemma_set_and_clear, mask32, register_effect, set32,
    write32, Step,
};

verus! {

pub const FIFO_WR_DPTX_CLK_EN: usize = 0x000;
pub const FIFO_WR_N_CLK_EN: usize = 0x004;
pub const FIFO_WR_UNK_EN: usize = 0x008;
pub const FIFO_RD_PCLK1_EN: usize = 0x020;
pub const FIFO_RD_N_CLK_EN: usize = 0x028;
pub const FIFO_RD_UNK_EN: usize = 0x02c;
pub const OUT_PCLK1_EN: usize = 0x040;
pub const OUT_N_CLK_EN: usize = 0x048;
pub const OUT_UNK_EN: usize = 0x04c;
pub const CROSSBAR_DISPEXT_EN: usize = 0x050;
pub const CROSSBAR_MUX_CTRL: usize = 0x060;
pub const CROSSBAR_ATC_EN: usize = 0x070;
pub const UNK_TUNABLE: usize = 0xc00;

pub const ATC_DPIN0: u32 = 0x001;
pub const ATC_DPIN1: u32 = 0x010;
pub const ATC_DPPHY: u32 = 0x100;

pub const MUX_DPPHY: usize = 0;
pub const MUX_DPIN0: usize = 1;
pub const MUX_DPIN1: usize = 2;
pub const MUX_MAX: usize = 3;

/// Size of the crossbar block of a t8103 ATC.
pub const T8103_CROSSBAR_SIZE: usize = 0x4000;

/// External display engines that a crossbar takes.
pub const UPSTREAM_PORTS: u32 = 2;

#[derive(Debug, Clone, Copy, PartialEq, Eq, Structural)]
pub enum DpxbarPort {
    DpPhy,
    Dpin0,
    Dpin1,
}

/// The position of a port in the selection table.
pub open spec fn index_of(port: DpxbarPort) -> usize {
    match port {
        DpxbarPort::DpPhy => MUX_DPPHY,
        DpxbarPort::Dpin0 => MUX_DPIN0,
        DpxbarPort::Dpin1 => MUX_DPIN1,
    }
}

/// The bit of a port in the ATC registers.
pub open spec fn atc_bit_of(port: int) -> u32 {
    if port == MUX_DPPHY {
        ATC_DPPHY
    } else if port == MUX_DPIN0 {
        ATC_DPIN0
    } else {
        ATC_DPIN1
    }
}

/// Where the two copies of a port's selection start in the mux register.
pub open spec fn mux_shifts(port: int) -> (u32, u32) {
    if port == MUX_DPPHY {
        (20, 8)
    } else if port == MUX_DPIN0 {
        (16, 0)
    } else {
        (12, 4)
    }
}

pub open spec fn mux_mask_of(port: int) -> u32 {
    (0xfu32 << mux_shifts(port).0) | (0xfu32 << mux_shifts(port).1)
}

/// What the mux register gets for `state`; all ones for a disconnected port.
pub open spec fn mux_set_of(port: int, state: i32) -> u32 {
    (((state as u32) & 0xf) << mux_shifts(port).0) | (((state as u32) & 0xf)
        << mux_shifts(port).1)
}

/// One bit for a display engine.
pub open spec fn engine_bit(state: i32) -> u32 {
    1u32 << (state as u32)
}

/// One bit for a display engine, in the registers with two bits per engine.
pub open spec fn wide_engine_bit(state: i32) -> u32 {
    1u32 << ((2 * state) as u32)
}

/// What is remembered of a requested state.
pub open spec fn settled(state: i32) -> i32 {
    if state >= 0 {
        state
    } else {
        -1i32
    }
}

/// Quiesces the output of a port.
pub open spec fn quiesce_steps(port: int) -> Seq<Step> {
    seq![
        set32(0, OUT_N_CLK_EN, atc_bit_of(port)),
        clear32(0, OUT_UNK_EN, atc_bit_of(port)),
        clear32(0, OUT_PCLK1_EN, atc_bit_of(port)),
        clear32(0, CROSSBAR_ATC_EN, atc_bit_of(port)),
    ]
}

/// Releases the display engine that a port was connected to.
pub open spec fn release_steps(prev: i32) -> Seq<Step> {
    if prev >= 0 {
        seq![
            set32(0, FIFO_WR_N_CLK_EN, engine_bit(prev)),
            set32(0, FIFO_RD_N_CLK_EN, engine_bit(prev)),
            clear32(0, FIFO_WR_UNK_EN, engine_bit(prev)),
            clear32(0, FIFO_RD_UNK_EN, wide_engine_bit(prev)),
            clear32(0, FIFO_WR_DPTX_CLK_EN, engine_bit(prev)),
            clear32(0, FIFO_RD_PCLK1_EN, engine_bit(prev)),
            clear32(0, CROSSBAR_DISPEXT_EN, engine_bit(prev)),
        ]
    } else {
        Seq::empty()
    }
}

/// Selects `state` in the mux.
pub open spec fn select_steps(port: int, state: i32) -> Seq<Step> {
    seq![mask32(0, CROSSBAR_MUX_CTRL, mux_mask_of(port), mux_set_of(port, state))]
}

/// Connects a display engine to a port; the read clock is cycled once at the end.
pub open spec fn connect_steps(port: int, state: i32) -> Seq<Step> {
    if state >= 0 {
        seq![
            clear32(0, FIFO_WR_N_CLK_EN, engine_bit(state)),
            clear32(0, FIFO_RD_N_CLK_EN, engine_bit(state)),
            clear32(0, OUT_N_CLK_EN, atc_bit_of(port)),
            set32(0, FIFO_WR_UNK_EN, engine_bit(state)),
            set32(0, FIFO_RD_UNK_EN, wide_engine_bit(state)),
            set32(0, OUT_UNK_EN, atc_bit_of(port)),
            set32(0, FIFO_WR_DPTX_CLK_EN, engine_bit(state)),
            set32(0, FIFO_RD_PCLK1_EN, engine_bit(state)),
            set32(0, OUT_PCLK1_EN, atc_bit_of(port)),
            set32(0, CROSSBAR_ATC_EN, atc_bit_of(port)),
            set32(0, CROSSBAR_DISPEXT_EN, engine_bit(state)),
            clear32(0, FIFO_RD_PCLK1_EN, engine_bit(state)),
            delay(10),
            set32(0, FIFO_RD_PCLK1_EN, engine_bit(state)),
        ]
    } else {
        Seq::empty()
    }
}

/// The whole change of a port from `prev` to `state`, where -1 stands for disconnected.
pub open spec fn switch_steps(port: int, prev: i32, state: i32) -> Seq<Step> {
    quiesce_steps(port) + release_steps(prev) + select_steps(port, state) + connect_steps(
        port,
        state,
    )
}

pub struct AppleDpxbar {
    paddr: usize,
    base: usize,
    selected_dispext: [i32; 3],
    n_ufp: u32,
}

impl AppleDpxbar {
    /// The physical address of the register block.
    pub closed spec fn spec_paddr(&self) -> usize {
        self.paddr
    }

    /// The address that the register block is mapped at.
    pub closed spec fn spec_base(&self) -> usize {
        self.base
    }

    /// The display engine of each port, -1 for none.
    pub closed spec fn selection(&self) -> Seq<i32> {
        self.selected_dispext@
    }

    /// The number of display engines.
    pub closed spec fn upstream(&self) -> u32 {
        self.n_ufp
    }

    /// Every selected engine exists, and so does its bit in every register.
    pub open spec fn wf(&self) -> bool {
        &&& self.selection().len() == MUX_MAX
        &&& self.upstream() <= 16
        &&& forall|i: int|
            0 <= i < MUX_MAX ==> -1 <= #[trigger] self.selection()[i] < self.upstream() as int
    }

    pub fn new(paddr: usize, base: usize, n_ufp: u32) -> (r: Self)
        requires
            n_ufp <= 16,
        ensures
            r.wf(),
            r.spec_paddr() == paddr,
            r.spec_base() == base,
            r.upstream() == n_ufp,
            r.selection() == seq![-1i32, -1i32, -1i32],
    {
        AppleDpxbar { paddr, base, selected_dispext: [-1, -1, -1], n_ufp }
    }

    pub fn paddr(&self) -> (r: usize)
        ensures
            r == self.spec_paddr(),
    {
        self.paddr
    }

    pub fn base(&self) -> (r: usize)
        ensures
            r == self.spec_base(),
    {
        self.base
    }

    pub fn port_index(port: DpxbarPort) -> (r: usize)
        ensures
            r == index_of(port),
    {
        match port {
            DpxbarPort::DpPhy => MUX_DPPHY,
            DpxbarPort::Dpin0 => MUX_DPIN0,
            DpxbarPort::Dpin1 => MUX_DPIN1,
        }
    }

    /// Connects a port to a display engine, or disconnects it.
    pub fn set_port(&mut self, port: DpxbarPort, dispext_state: Option<u32>) -> (r: Result<
        Vec<Step>,
        &'static str,
    >)
        requires
            old(self).wf(),
        ensures
            final(self).wf(),
            final(self).spec_paddr() == old(self).spec_paddr(),
            final(self).spec_base() == old(self).spec_base(),
            final(self).upstream() == old(self).upstream(),
            match dispext_state {
                Some(value) => if value >= old(self).upstream() {
                    &&& r == Err::<Vec<Step>, &'static str>("apple-dpxbar: invalid dispext state")
                    &&& *final(self) == *old(self)
                } else {
                    let port = index_of(port) as int;
                    &&& r is Ok
                    &&& r->Ok_0@ == switch_steps(port, old(self).selection()[port], value as i32)
                    &&& final(self).selection() == old(self).selection().update(port, value as i32)
                },
                None => {
                    let port = index_of(port) as int;
                    &&& r is Ok
                    &&& r->Ok_0@ == switch_steps(port, old(self).selection()[port], -1i32)
                    &&& final(self).selection() == old(self).selection().update(port, -1i32)
                },
            },
    {
        let state: i32 = match dispext_state {
            Some(value) => {
                if value >= self.n_ufp {
                    return Err("apple-dpxbar: invalid dispext state");
                }
                value as i32
            },
            None => -1,
        };
        self.set(Self::port_index(port), state)
    }

    /// Disconnects every port.
    pub fn disconnect_all(&mut self) -> (r: Vec<Step>)
        requires
            old(self).wf(),
        ensures
            final(self).wf(),
            final(self).spec_paddr() == old(self).spec_paddr(),
            final(self).spec_base() == old(self).spec_base(),
            final(self).upstream() == old(self).upstream(),
            final(self).selection() == seq![-1i32, -1i32, -1i32],
            r@ == switch_steps(0, old(self).selection()[0], -1i32) + switch_steps(
                1,
                old(self).selection()[1],
                -1i32,
            ) + switch_steps(2, old(self).selection()[2], -1i32),
    {
        let mut steps: Vec<Step> = Vec::new();
        if let Ok(mut more) = self.set(MUX_DPPHY, -1) {
            steps.append(&mut more);
        }
        if let Ok(mut more) = self.set(MUX_DPIN0, -1) {
            steps.append(&mut more);
        }
        if let Ok(mut more) = self.set(MUX_DPIN1, -1) {
            steps.append(&mut more);
        }
        steps
    }

    /// Changes a port to `dispext_state`; a negative state disconnects it.
    pub fn set(&mut self, port_index: usize, dispext_state: i32) -> (r: Result<
        Vec<Step>,
        &'static str,
    >)
        requires
            old(self).wf(),
        ensures
            final(self).wf(),
            final(self).spec_paddr() == old(self).spec_paddr(),
            final(self).spec_base() == old(self).spec_base(),
            final(self).upstream() == old(self).upstream(),
            if port_index >= MUX_MAX {
                &&& r == Err::<Vec<Step>, &'static str>("apple-dpxbar: invalid port index")
                &&& *final(self) == *old(self)
            } else if dispext_state >= 0 && dispext_state as int >= old(self).upstream() {
                &&& r == Err::<Vec<Step>, &'static str>("apple-dpxbar: dispext state out of range")
                &&& *final(self) == *old(self)
            } else {
                let port = port_index as int;
                &&& r is Ok
                &&& r->Ok_0@ == switch_steps(port, old(self).selection()[port], dispext_state)
                &&& final(self).selection() == old(self).selection().update(
                    port,
                    settled(dispext_state),
                )
            },
    {
        if port_index >= MUX_MAX {
            return Err("apple-dpxbar: invalid port index");
        }
        if dispext_state >= 0 && (dispext_state as u32) >= self.n_ufp {
            return Err("apple-dpxbar: dispext state out of range");
        }
        let state_bits: u32 = dispext_state as u32;
        let (atc_bit, high, low): (u32, u32, u32) = if port_index == MUX_DPPHY {
            (ATC_DPPHY, 20, 8)
        } else if port_index == MUX_DPIN0 {
            (ATC_DPIN0, 16, 0)
        } else {
            (ATC_DPIN1, 12, 4)
        };
        let mux_mask: u32 = (0xfu32 << high) | (0xfu32 << low);
        let mux_set: u32 = field_prep(high, state_bits) | field_prep(low, state_bits);
        let mut steps: Vec<Step> = vec![
            set32(0, OUT_N_CLK_EN, atc_bit),
            clear32(0, OUT_UNK_EN, atc_bit),
            clear32(0, OUT_PCLK1_EN, atc_bit),
            clear32(0, CROSSBAR_ATC_EN, atc_bit),
        ];
        let prev_state: i32 = self.selected_dispext[port_index];
        assert(prev_state == old(self).selection()[port_index as int]);
        if prev_state >= 0 {
            let prev_bit: u32 = 1u32 << (prev_state as u32);
            let prev_bit_en: u32 = 1u32 << ((2 * prev_state) as u32);
            let mut more: Vec<Step> = vec![
                set32(0, FIFO_WR_N_CLK_EN, prev_bit),
                set32(0, FIFO_RD_N_CLK_EN, prev_bit),
                clear32(0, FIFO_WR_UNK_EN, prev_bit),
                clear32(0, FIFO_RD_UNK_EN, prev_bit_en),
                clear32(0, FIFO_WR_DPTX_CLK_EN, prev_bit),
                clear32(0, FIFO_RD_PCLK1_EN, prev_bit),
                clear32(0, CROSSBAR_DISPEXT_EN, prev_bit),
            ];
            steps.append(&mut more);
            self.selected_dispext[port_index] = -1;
        }
        steps.push(mask32(0, CROSSBAR_MUX_CTRL, mux_mask, mux_set));
        if dispext_state >= 0 {
            let bit: u32 = 1u32 << (dispext_state as u32);
            let bit_en: u32 = 1u32 << ((2 * dispext_state) as u32);
            let mut more: Vec<Step> = vec![
                clear32(0, FIFO_WR_N_CLK_EN, bit),
                clear32(0, FIFO_RD_N_CLK_EN, bit),
                clear32(0, OUT_N_CLK_EN, atc_bit),
                set32(0, FIFO_WR_UNK_EN, bit),
                set32(0, FIFO_RD_UNK_EN, bit_en),
                set32(0, OUT_UNK_EN, atc_bit),
                set32(0, FIFO_WR_DPTX_CLK_EN, bit),
                set32(0, FIFO_RD_PCLK1_EN, bit),
                set32(0, OUT_PCLK1_EN, atc_bit),
                set32(0, CROSSBAR_ATC_EN, atc_bit),
                set32(0, CROSSBAR_DISPEXT_EN, bit),
                clear32(0, FIFO_RD_PCLK1_EN, bit),
                delay(10),
                set32(0, FIFO_RD_PCLK1_EN, bit),
            ];
            steps.append(&mut more);
            self.selected_dispext[port_index] = dispext_state;
        }
        assert(steps@ =~= switch_steps(
            port_index as int,
            old(self).selection()[port_index as int],
            dispext_state,
        ));
        assert(self.selected_dispext@ =~= old(self).selected_dispext@.update(
            port_index as int,
            settled(dispext_state),
        ));
        Ok(steps)
    }
}

/// A selection moved to its place in the mux register.
pub fn field_prep(shift: u32, value: u32) -> (r: u32)
    requires
        shift < 32,
    ensures
        r == (value & 0xf) << shift,
{
    (value & 0xf) << shift
}

/// The crossbars that have been found, in the order in which they were.
pub struct DpxbarRegistry {
    entries: Vec<AppleDpxbar>,
}

/// The first position from `i` on of a crossbar at `paddr`.
pub open spec fn entry_index(entries: Seq<AppleDpxbar>, paddr: usize, i: int) -> Option<int>
    decreases entries.len() - i,
{
    if i < 0 || i >= entries.len() {
        None
    } else if entries[i].spec_paddr() == paddr {
        Some(i)
    } else {
        entry_index(entries, paddr, i + 1)
    }
}

/// The crossbars that are not at `paddr`.
pub open spec fn entries_without(entries: Seq<AppleDpxbar>, paddr: usize) -> Seq<AppleDpxbar> {
    entries.filter(|entry: AppleDpxbar| entry.spec_paddr() != paddr)
}

impl DpxbarRegistry {
    pub closed spec fn view(&self) -> Seq<AppleDpxbar> {
        self.entries@
    }

    pub open spec fn wf(&self) -> bool {
        forall|i: int| 0 <= i < self@.len() ==> (#[trigger] self@[i]).wf()
    }

    pub fn new() -> (r: Self)
        ensures
            r@ == Seq::<AppleDpxbar>::empty(),
            r.wf(),
    {
        DpxbarRegistry { entries: Vec::new() }
    }

    fn find(&self, paddr: usize) -> (r: Option<usize>)
        ensures
            match r {
                Some(i) => entry_index(self@, paddr, 0) == Some(i as int) && i < self@.len()
                    && self@[i as int].spec_paddr() == paddr,
                None => entry_index(self@, paddr, 0) is None,
            },
    {
        let mut i: usize = 0;
        while i < self.entries.len()
            invariant
                i <= self.entries@.len(),
                entry_index(self.entries@, paddr, 0) == entry_index(self.entries@, paddr, i as int),
            decreases self.entries@.len() - i,
        {
            if self.entries[i].paddr == paddr {
                return Some(i);
            }
            i = i + 1;
        }
        None
    }

    /// Whether a crossbar at `paddr` is known.
    pub fn contains(&self, paddr: usize) -> (r: bool)
        ensures
            r == (entry_index(self@, paddr, 0) is Some),
    {
        self.find(paddr).is_some()
    }

    /// Takes a crossbar in; it replaces the first one at the same address.
    pub fn install(&mut self, dpxbar: AppleDpxbar)
        requires
            old(self).wf(),
            dpxbar.wf(),
        ensures
            final(self).wf(),
            final(self)@ == match entry_index(old(self)@, dpxbar.spec_paddr(), 0) {
                Some(i) => old(self)@.update(i, dpxbar),
                None => old(self)@.push(dpxbar),
            },
    {
        match self.find(dpxbar.paddr) {
            Some(i) => {
                self.entries.set(i, dpxbar);
            },
            None => {
                self.entries.push(dpxbar);
            },
        }
    }

    /// Drops the crossbars at `paddr`.
    pub fn remove(&mut self, paddr: usize)
        requires
            old(self).wf(),
        ensures
            final(self).wf(),
            final(self)@ == entries_without(old(self)@, paddr),
    {
        let ghost before = self.entries@;
        let ghost keep = |entry: AppleDpxbar| entry.spec_paddr() != paddr;
        let mut done: usize = 0;
        let mut i: usize = 0;
        let len: usize = self.entries.len();
        proof {
            assert forall|k: int| 0 <= k < self.entries@.len() implies (
            #[trigger] self.entries@[k]).wf() by {
                assert(self@[k].wf());
            }
            assert(before.take(0).filter(keep) =~= Seq::<AppleDpxbar>::empty()) by {
                reveal(Seq::filter);
            }
        }
        while done < len
            invariant
                keep == (|entry: AppleDpxbar| entry.spec_paddr() != paddr),
                done <= len == before.len(),
                i <= self.entries@.len(),
                self.entries@.len() - i == len - done,
                self.entries@ == before.take(done as int).filter(keep) + before.skip(done as int),
                before.take(done as int).filter(keep).len() == i,
                forall|k: int| 0 <= k < self.entries@.len() ==> (#[trigger] self.entries@[k]).wf(),
            decreases len - done,
        {
            let ghost prefix = before.take(done as int).filter(keep);
            proof {
                assert(self.entries@[i as int] == before[done as int]);
                assert(before.take(done as int + 1).drop_last() =~= before.take(done as int));
                assert(before.take(done as int + 1).last() == before[done as int]);
                reveal(Seq::filter);
            }
            if self.entries[i].paddr == paddr {
                let _ = self.entries.remove(i);
                assert(self.entries@ =~= prefix + before.skip(done as int + 1));
            } else {
                assert(self.entries@ =~= prefix.push(before[done as int]) + before.skip(
                    done as int + 1,
                ));
                i = i + 1;
            }
            done = done + 1;
        }
        proof {
            assert(before.take(done as int) =~= before);
            assert(before.skip(done as int) =~= Seq::<AppleDpxbar>::empty());
        }
    }
}

/// The first crossbar, to be worked on.
pub fn with_dpxbar(registry: &mut DpxbarRegistry) -> (r: Option<&mut AppleDpxbar>)
    ensures
        match r {
            Some(d) => {
                &&& old(registry)@.len() > 0
                &&& *d == old(registry)@[0]
                &&& final(registry)@ == old(registry)@.update(0, *final(d))
            },
            None => old(registry)@.len() == 0 && final(registry)@ == old(registry)@,
        },
{
    if registry.entries.len() > 0 {
        Some(&mut registry.entries[0])
    } else {
        None
    }
}

/// The register block of a crossbar.
pub open spec fn block_of(device: DeviceNode) -> Result<(usize, usize), &'static str> {
    match first_resource(device.resources@, ResourceKind::Mem) {
        None => Err("apple-dpxbar: missing memory resource"),
        Some(region) => match span(region.start, region.end) {
            None => Err("apple-dpxbar: invalid memory resource"),
            Some(size) => Ok((region.start, size)),
        },
    }
}

/// The physical address and size of the register block.
pub fn dpxbar_resource(device: &DeviceNode) -> (r: Result<(usize, usize), &'static str>)
    ensures
        r == block_of(*device),
{
    let region = find_resource(
        device.resources.as_slice(),
        ResourceKind::Mem,
    ).ok_or("apple-dpxbar: missing memory resource")?;
    let size: usize = region_size(region.start, region.end).ok_or(
        "apple-dpxbar: invalid memory resource",
    )?;
    Ok((region.start, size))
}

pub fn is_t8103(device: &DeviceNode) -> (r: bool)
    ensures
        r == lists(device.compatible@, "apple,t8103-display-crossbar"@),
{
    has_string(device.compatible.as_slice(), "apple,t8103-display-crossbar")
}

/// Disconnects every port of a crossbar that has none connected.
pub open spec fn idle_steps() -> Seq<Step> {
    switch_steps(0, -1i32, -1i32) + switch_steps(1, -1i32, -1i32) + switch_steps(2, -1i32, -1i32)
}

/// Sets a crossbar up whose registers are mapped at `base`, and takes it in.
pub fn probe(registry: &mut DpxbarRegistry, device: &DeviceNode, base: usize) -> (r: Result<
    Vec<Step>,
    &'static str,
>)
    requires
        old(registry).wf(),
    ensures
        final(registry).wf(),
        match block_of(*device) {
            Err(e) => r == Err::<Vec<Step>, &'static str>(e) && final(registry)@ == old(registry)@,
            Ok((paddr, _)) => {
                &&& r is Ok
                &&& r->Ok_0@ == (if lists(
                    device.compatible@,
                    "apple,t8103-display-crossbar"@,
                ) {
                    seq![write32(0, UNK_TUNABLE, 0)]
                } else {
                    Seq::empty()
                }) + idle_steps()
                &&& exists|d: AppleDpxbar| #[trigger]
                    d.wf() && fresh(d, paddr, base) && final(registry)@ == match entry_index(
                        old(registry)@,
                        paddr,
                        0,
                    ) {
                        Some(i) => old(registry)@.update(i, d),
                        None => old(registry)@.push(d),
                    }
            },
        },
{
    let (paddr, _) = dpxbar_resource(device)?;
    let mut dpxbar = AppleDpxbar::new(paddr, base, UPSTREAM_PORTS);
    let mut steps: Vec<Step> = Vec::new();
    if is_t8103(device) {
        steps.push(write32(0, UNK_TUNABLE, 0));
    }
    let mut more = dpxbar.disconnect_all();
    steps.append(&mut more);
    assert(dpxbar.wf() && fresh(dpxbar, paddr, base));
    registry.install(dpxbar);
    Ok(steps)
}

/// A crossbar with nothing connected.
pub open spec fn fresh(d: AppleDpxbar, paddr: usize, base: usize) -> bool {
    &&& d.spec_paddr() == paddr
    &&& d.spec_base() == base
    &&& d.upstream() == UPSTREAM_PORTS
    &&& d.selection() == seq![-1i32, -1i32, -1i32]
}

/// Forgets the crossbar of a device that went away.
pub fn remove(registry: &mut DpxbarRegistry, device: &DeviceNode)
    requires
        old(registry).wf(),
    ensures
        final(registry).wf(),
        final(registry)@ == match block_of(*device) {
            Ok((paddr, _)) => entries_without(old(registry)@, paddr),
            Err(_) => old(registry)@,
        },
{
    if let Ok((paddr, _)) = dpxbar_resource(device) {
        registry.remove(paddr);
    }
}

/// Routes the DPPHY input of a t8103 ATC crossbar to display engine 0, and says where the
/// crossbar is mapped.
///
/// The boot device tree does not always have nodes for the crossbars, but each lies at a fixed
/// place behind its ATC. An unknown crossbar is taken in first; `mapped` is where its registers
/// were mapped, if they could be.
pub fn route_t8103_dpphy(
    registry: &mut DpxbarRegistry,
    crossbar_paddr: usize,
    mapped: Option<usize>,
) -> (r: Result<(usize, Vec<Step>), &'static str>)
    requires
        old(registry).wf(),
    ensures
        final(registry).wf(),
        match entry_index(old(registry)@, crossbar_paddr, 0) {
            None => match mapped {
                None => {
                    &&& r == Err::<(usize, Vec<Step>), &'static str>(
                        "apple-dpxbar: failed to map t8103 ATC crossbar",
                    )
                    &&& final(registry)@ == old(registry)@
                },
                Some(base) => {
                    &&& r is Ok
                    &&& r->Ok_0.0 == base
                    &&& r->Ok_0.1@ == seq![write32(0, UNK_TUNABLE, 0)] + idle_steps()
                        + switch_steps(0, -1i32, 0i32)
                    &&& final(registry)@.len() == old(registry)@.len() + 1
                    &&& final(registry)@.drop_last() == old(registry)@
                    &&& final(registry)@.last().spec_paddr() == crossbar_paddr
                    &&& final(registry)@.last().spec_base() == base
                    &&& final(registry)@.last().upstream() == UPSTREAM_PORTS
                    &&& final(registry)@.last().selection() == seq![0i32, -1i32, -1i32]
                },
            },
            Some(i) => {
                let d = old(registry)@[i];
                if d.upstream() == 0 {
                    &&& r == Err::<(usize, Vec<Step>), &'static str>(
                        "apple-dpxbar: invalid dispext state",
                    )
                    &&& final(registry)@ == old(registry)@
                } else {
                    &&& r is Ok
                    &&& r->Ok_0.0 == d.spec_base()
                    &&& r->Ok_0.1@ == switch_steps(0, d.selection()[0], 0i32)
                    &&& final(registry)@.len() == old(registry)@.len()
                    &&& forall|j: int|
                        0 <= j < old(registry)@.len() && j != i ==> #[trigger] final(registry)@[j]
                            == old(registry)@[j]
                    &&& final(registry)@[i].spec_paddr() == crossbar_paddr
                    &&& final(registry)@[i].spec_base() == d.spec_base()
                    &&& final(registry)@[i].upstream() == d.upstream()
                    &&& final(registry)@[i].selection() == d.selection().update(0, 0i32)
                }
            },
        },
{
    match registry.find(crossbar_paddr) {
        None => {
            let base: usize = mapped.ok_or("apple-dpxbar: failed to map t8103 ATC crossbar")?;
            let mut crossbar = AppleDpxbar::new(crossbar_paddr, base, UPSTREAM_PORTS);
            let mut steps: Vec<Step> = vec![write32(0, UNK_TUNABLE, 0)];
            let mut idle = crossbar.disconnect_all();
            steps.append(&mut idle);
            let mut route = crossbar.set_port(DpxbarPort::DpPhy, Some(0))?;
            steps.append(&mut route);
            assert(crossbar.selection() =~= seq![0i32, -1i32, -1i32]);
            registry.entries.push(crossbar);
            assert(registry.entries@.drop_last() =~= old(registry)@);
            Ok((base, steps))
        },
        Some(i) => {
            let base: usize = registry.entries[i].base;
            assert(registry@[i as int].wf());
            let steps = registry.entries[i].set_port(DpxbarPort::DpPhy, Some(0))?;
            Ok((base, steps))
        },
    }
}

/// Anchors the driver in the image.
pub fn force_link() {
}

/// Law: no two ports share a bit of the mux register.
pub proof fn law_ports_have_separate_selections(p: int, q: int)
    requires
        0 <= p < MUX_MAX,
        0 <= q < MUX_MAX,
        p != q,
    ensures
        mux_mask_of(p) & mux_mask_of(q) == 0,
{
    assert({
        &&& ((0xfu32 << 20) | (0xfu32 << 8)) & ((0xfu32 << 16) | (0xfu32 << 0)) == 0
        &&& ((0xfu32 << 20) | (0xfu32 << 8)) & ((0xfu32 << 12) | (0xfu32 << 4)) == 0
        &&& ((0xfu32 << 16) | (0xfu32 << 0)) & ((0xfu32 << 20) | (0xfu32 << 8)) == 0
        &&& ((0xfu32 << 16) | (0xfu32 << 0)) & ((0xfu32 << 12) | (0xfu32 << 4)) == 0
        &&& ((0xfu32 << 12) | (0xfu32 << 4)) & ((0xfu32 << 20) | (0xfu32 << 8)) == 0
        &&& ((0xfu32 << 12) | (0xfu32 << 4)) & ((0xfu32 << 16) | (0xfu32 << 0)) == 0
    }) by (bit_vector);
}

proof fn lemma_mux_set_within_mask(port: int, state: i32)
    requires
        0 <= port < MUX_MAX,
    ensures
        mux_set_of(port, state) & !mux_mask_of(port) == 0,
{
    let v = state as u32;
    assert({
        &&& (((v & 0xf) << 20) | ((v & 0xf) << 8)) & !((0xfu32 << 20) | (0xfu32 << 8)) == 0
        &&& (((v & 0xf) << 16) | ((v & 0xf) << 0)) & !((0xfu32 << 16) | (0xfu32 << 0)) == 0
        &&& (((v & 0xf) << 12) | ((v & 0xf) << 4)) & !((0xfu32 << 12) | (0xfu32 << 4)) == 0
    }) by (bit_vector);
}

/// Law: on a device whose registers are plain storage, a change of a port writes its selection
/// into the mux register and leaves the selections of the other ports alone.
pub proof fn law_switch_selects(port: int, prev: i32, state: i32, mux: u32)
    requires
        0 <= port < MUX_MAX,
    ensures
        ({
            let after = register_effect(
                switch_steps(port, prev, state),
                0,
                (0u8, CROSSBAR_MUX_CTRL),
                mux,
            );
            &&& after & mux_mask_of(port) == mux_set_of(port, state)
            &&& after & !mux_mask_of(port) == mux & !mux_mask_of(port)
        }),
{
    reveal_with_fuel(register_effect, 27);
    lemma_mux_set_within_mask(port, state);
    lemma_masked_update(mux, mux_mask_of(port), mux_set_of(port, state));
}

/// Law: on a device whose registers are plain storage, a port that gets a display engine is
/// enabled afterwards, one that is disconnected is not, and the other ports stay as they were.
pub proof fn law_switch_enables(port: int, prev: i32, state: i32, enables: u32)
    requires
        0 <= port < MUX_MAX,
    ensures
        ({
            let after = register_effect(
                switch_steps(port, prev, state),
                0,
                (0u8, CROSSBAR_ATC_EN),
                enables,
            );
            &&& after & atc_bit_of(port) == if state >= 0 {
                atc_bit_of(port)
            } else {
                0
            }
            &&& after & !atc_bit_of(port) == enables & !atc_bit_of(port)
        }),
{
    reveal_with_fuel(register_effect, 27);
    let bit = atc_bit_of(port);
    lemma_set_and_clear(enables, bit);
    lemma_set_and_clear((enables & !bit) | 0u32, bit);
}

/// Law: on a device whose registers are plain storage, the engine that a port gives up is
/// disabled, and the one that it gets is enabled.
pub proof fn law_switch_hands_engines_over(port: int, prev: i32, state: i32, engines: u32)
    requires
        0 <= port < MUX_MAX,
    ensures
        ({
            let after = register_effect(
                switch_steps(port, prev, state),
                0,
                (0u8, CROSSBAR_DISPEXT_EN),
                engines,
            );
            &&& state >= 0 ==> after & engine_bit(state) == engine_bit(state)
            &&& state < 0 && prev >= 0 ==> after & engine_bit(prev) == 0
        }),
{
    reveal_with_fuel(register_effect, 27);
    lemma_set_and_clear(engines, engine_bit(prev));
    lemma_set_and_clear(engines, engine_bit(state));
    lemma_set_and_clear((engines & !engine_bit(prev)) | 0u32, engine_bit(state));
}

/// What a change of a port leaves in one register of plain storage.
pub open spec fn switched(port: int, prev: i32, state: i32, offset: usize, value: u32) -> u32 {
    register_effect(switch_steps(port, prev, state), 0, (0u8, offset), value)
}

/// Law: the engine that a port gets is fed on both sides: its writing and reading ends are enabled and
/// clocked, and their gates opened; where the port is disconnected, the engine that it gives up is shut
/// off in the same registers. Engines have a bit each, ports too.
pub proof fn law_engines_are_fed(port: int, prev: i32, state: i32, value: u32)
    requires
        0 <= port < MUX_MAX,
    ensures
        ({
            let bit = 1u32 << (state as u32);
            let left = 1u32 << (prev as u32);
            let output = if port == 0 {
                ATC_DPPHY
            } else if port == 1 {
                ATC_DPIN0
            } else {
                ATC_DPIN1
            };
            &&& state >= 0 ==> {
                &&& switched(port, prev, state, FIFO_WR_UNK_EN, value) & bit == bit
                &&& switched(port, prev, state, FIFO_WR_DPTX_CLK_EN, value) & bit == bit
                &&& switched(port, prev, state, FIFO_RD_PCLK1_EN, value) & bit == bit
                &&& switched(port, prev, state, FIFO_WR_N_CLK_EN, value) & bit == 0
                &&& switched(port, prev, state, FIFO_RD_N_CLK_EN, value) & bit == 0
                &&& switched(port, prev, state, OUT_UNK_EN, value) & output == output
                &&& switched(port, prev, state, OUT_PCLK1_EN, value) & output == output
                &&& switched(port, prev, state, OUT_N_CLK_EN, value) & output == 0
            }
            &&& state < 0 ==> {
                &&& switched(port, prev, state, OUT_UNK_EN, value) & output == 0
                &&& switched(port, prev, state, OUT_PCLK1_EN, value) & output == 0
                &&& switched(port, prev, state, OUT_N_CLK_EN, value) & output == output
            }
            &&& state < 0 && prev >= 0 ==> {
                &&& switched(port, prev, state, FIFO_WR_UNK_EN, value) & left == 0
                &&& switched(port, prev, state, FIFO_WR_DPTX_CLK_EN, value) & left == 0
                &&& switched(port, prev, state, FIFO_RD_PCLK1_EN, value) & left == 0
                &&& switched(port, prev, state, FIFO_WR_N_CLK_EN, value) & left == left
                &&& switched(port, prev, state, FIFO_RD_N_CLK_EN, value) & left == left
            }
        }),
{
    reveal_with_fuel(register_effect, 27);
    let (e, f, o) = (engine_bit(state), engine_bit(prev), atc_bit_of(port));
    lemma_set_and_clear(value, e);
    lemma_set_and_clear(value, f);
    lemma_set_and_clear(value, o);
    let off = (value & !f) | 0u32;
    let on = (value & !0u32) | f;
    lemma_set_and_clear(off, e);
    lemma_set_and_clear((off & !0u32) | e, e);
    lemma_set_and_clear((((off & !0u32) | e) & !e) | 0u32, e);
    lemma_set_and_clear(on, e);
    lemma_set_and_clear((value & !0u32) | e, e);
    lemma_set_and_clear((((value & !0u32) | e) & !e) | 0u32, e);
    lemma_set_and_clear((value & !o) | 0u32, o);
    lemma_set_and_clear((value & !0u32) | o, o);
}

/// Law: each port has two fields of four bits in the mux register, at places of its own.
pub proof fn law_selections_have_their_places(state: i32)
    requires
        state >= 0,
    ensures
        mux_mask_of(0) == (0xfu32 << 20) | (0xfu32 << 8),
        mux_mask_of(1) == (0xfu32 << 16) | (0xfu32 << 0),
        mux_mask_of(2) == (0xfu32 << 12) | (0xfu32 << 4),
        mux_set_of(0, state) == (((state as u32) & 0xf) << 20) | (((state as u32) & 0xf) << 8),
        mux_set_of(1, state) == (((state as u32) & 0xf) << 16) | (((state as u32) & 0xf) << 0),
        mux_set_of(2, state) == (((state as u32) & 0xf) << 12) | (((state as u32) & 0xf) << 4),
        settled(state) == state,
        settled(-1i32) == -1i32,
{
}

} // verus!
