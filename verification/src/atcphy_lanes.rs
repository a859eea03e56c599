//! The lanes that an Apple Type-C PHY offers, and the PHYs that have been found.

use vstd::prelude::*;
use crate::atcphy::{
    dummy_steps, entering_dp, init_dp_steps, init_steps, lane_modes, lane_plan, lanes_steps,
    parse_tunable_prop, power_off_steps, tunable_step, tunables_in, usb3_pipe_steps, AppleAtcPhy,
    AtcPhyMode, HardwareTunable, PhyError, PhyMode, PhyOrientation,
};
use crate::atcphy_programs::{
    dwc3_reset_assert_raw_steps, dwc3_reset_release_steps, usb2_power_off, usb2_power_off_steps,
    ACIOPHY_LANE_MODE, ACIOPHY_LANE_MODE_MASK, CORE, PHY_TYPE_USB2, PHY_TYPE_USB3, USB2,
    USB2PHY_SIG, USB2PHY_SIG_HOST,
};
use crate::device::{
    any_phandle_number, find_any_phandle_number, resources_of, select_resources, DeviceNode,
    Resource, ResourceKind,
};
use crate::sequence::{
    clear32, lemma_masked_update, register_effect, register_step, set32, Step,
};

verus! {

/// One function of a PHY. `lane` is the PHY type in the device tree.
#[derive(Debug, Clone, Copy)]
pub struct AppleAtcPhyLane {
    pub lane: u32,
    pub mode: Option<PhyMode>,
    pub orientation: Option<PhyOrientation>,
}

/// The protocol mode that a lane is to be powered up in.
pub open spec fn wanted_mode(lane: AppleAtcPhyLane, phy: AppleAtcPhy) -> Result<
    AtcPhyMode,
    PhyError,
> {
    if lane.lane == PHY_TYPE_USB3 && phy.dp_mode is Some {
        Ok(phy.dp_mode->Some_0)
    } else {
        match lane.mode {
            None => Ok(AtcPhyMode::Usb3),
            Some(PhyMode::UsbHost) => Ok(AtcPhyMode::Usb3),
            Some(PhyMode::UsbDevice) => Ok(AtcPhyMode::Usb3),
            Some(PhyMode::UsbOtg) => Ok(AtcPhyMode::Usb3),
            Some(PhyMode::DisplayPort) => Ok(AtcPhyMode::DisplayPort),
            Some(PhyMode::Other(n)) => if n == 0 {
                Ok(AtcPhyMode::Usb3)
            } else if n == 1 {
                Ok(AtcPhyMode::Usb3Dp)
            } else {
                Err(PhyError::InvalidMode)
            },
        }
    }
}

/// The steps that give the USB2 block its role, where the mode is one.
pub open spec fn usb2_role(mode: PhyMode) -> Result<Seq<Step>, PhyError> {
    match mode {
        PhyMode::UsbHost => Ok(seq![set32(USB2, USB2PHY_SIG, USB2PHY_SIG_HOST)]),
        PhyMode::UsbOtg => Ok(seq![set32(USB2, USB2PHY_SIG, USB2PHY_SIG_HOST)]),
        PhyMode::UsbDevice => Ok(seq![clear32(USB2, USB2PHY_SIG, USB2PHY_SIG_HOST)]),
        _ => Err(PhyError::InvalidMode),
    }
}

/// What powering a lane up takes, and the state of the PHY once it is under way.
pub open spec fn power_on_of(lane: AppleAtcPhyLane, phy: AppleAtcPhy) -> (
    AppleAtcPhy,
    Result<Seq<Step>, PhyError>,
) {
    match wanted_mode(lane, phy) {
        Err(e) => (phy, Err(e)),
        Ok(AtcPhyMode::Usb3) => if lane.lane == PHY_TYPE_USB2 {
            (
                phy,
                usb2_role(
                    match lane.mode {
                        Some(mode) => mode,
                        None => PhyMode::UsbHost,
                    },
                ),
            )
        } else if lane.lane == PHY_TYPE_USB3 {
            (
                AppleAtcPhy { dp_mode: None, dp_link_rate: None, active_dp_lanes: 0, ..phy },
                Ok(init_steps(phy)),
            )
        } else {
            (phy, Err(PhyError::PowerOnFailed))
        },
        Ok(mode) => if phy.lpdptx_base is None || phy.axi2af_base is None {
            (phy, Err(PhyError::PowerOnFailed))
        } else {
            (entering_dp(phy, mode), Ok(init_dp_steps(phy, mode)))
        },
    }
}

/// A mode that a lane can be told.
pub open spec fn settable(mode: PhyMode) -> bool {
    match mode {
        PhyMode::Other(n) => n <= 1,
        _ => true,
    }
}

/// What a mode means for PIPE: the dummy endpoint in DisplayPort mode, the USB3 endpoint
/// otherwise, and nothing for modes that say nothing of USB.
pub open spec fn pipe_for(phy: AppleAtcPhy, mode: PhyMode) -> Seq<Step> {
    let host = match mode {
        PhyMode::UsbHost => true,
        PhyMode::UsbOtg => true,
        PhyMode::Other(n) => n == 0,
        _ => false,
    };
    if host || mode == PhyMode::UsbDevice {
        if phy.dp_mode == Some(AtcPhyMode::DisplayPort) {
            dummy_steps(false)
        } else if phy.pipehandler_up {
            Seq::empty()
        } else {
            usb3_pipe_steps(host)
        }
    } else {
        Seq::empty()
    }
}

/// A result of a sequence-making function holds exactly these steps, or this error.
pub open spec fn agrees(r: Result<Vec<Step>, PhyError>, s: Result<Seq<Step>, PhyError>) -> bool {
    match (r, s) {
        (Ok(v), Ok(t)) => v@ == t,
        (Err(e), Err(f)) => e == f,
        _ => false,
    }
}

impl AppleAtcPhyLane {
    pub fn new(phy_type: u32) -> (r: Self)
        ensures
            r == (AppleAtcPhyLane { lane: phy_type, mode: None, orientation: None }),
    {
        AppleAtcPhyLane { lane: phy_type, mode: None, orientation: None }
    }

    pub fn phy_type(&self) -> (r: u32)
        ensures
            r == self.lane,
    {
        self.lane
    }

    pub fn name(&self) -> (r: &'static str)
        ensures
            r@ == if self.lane == PHY_TYPE_USB2 {
                "apple-atcphy-usb2"@
            } else if self.lane == PHY_TYPE_USB3 {
                "apple-atcphy-usb3"@
            } else {
                "apple-atcphy-lane"@
            },
    {
        if self.lane == PHY_TYPE_USB2 {
            "apple-atcphy-usb2"
        } else if self.lane == PHY_TYPE_USB3 {
            "apple-atcphy-usb3"
        } else {
            "apple-atcphy-lane"
        }
    }

    /// The protocol mode that the lane is to be powered up in. DisplayPort that is set up
    /// already stays.
    pub fn atc_mode(&self, phy: &AppleAtcPhy) -> (r: Result<AtcPhyMode, PhyError>)
        ensures
            r == wanted_mode(*self, *phy),
    {
        if self.lane == PHY_TYPE_USB3 {
            if let Some(mode) = phy.dp_mode {
                return Ok(mode);
            }
        }
        match self.mode {
            None => Ok(AtcPhyMode::Usb3),
            Some(PhyMode::UsbHost) => Ok(AtcPhyMode::Usb3),
            Some(PhyMode::UsbDevice) => Ok(AtcPhyMode::Usb3),
            Some(PhyMode::UsbOtg) => Ok(AtcPhyMode::Usb3),
            Some(PhyMode::DisplayPort) => Ok(AtcPhyMode::DisplayPort),
            Some(PhyMode::Other(0)) => Ok(AtcPhyMode::Usb3),
            Some(PhyMode::Other(1)) => Ok(AtcPhyMode::Usb3Dp),
            Some(_) => Err(PhyError::InvalidMode),
        }
    }

    /// Powers the lane up in its mode. A sequence that fails means `PowerOnFailed`.
    pub fn power_on(&self, phy: &mut AppleAtcPhy) -> (r: Result<Vec<Step>, PhyError>)
        requires
            old(phy).wf(),
        ensures
            final(phy).wf(),
            *final(phy) == power_on_of(*self, *old(phy)).0,
            agrees(r, power_on_of(*self, *old(phy)).1),
    {
        let mode = self.atc_mode(phy)?;
        match mode {
            AtcPhyMode::Usb3 => {
                if self.lane == PHY_TYPE_USB2 {
                    let phy_mode = self.mode.unwrap_or(PhyMode::UsbHost);
                    phy.usb2_set_mode(phy_mode)
                } else if self.lane == PHY_TYPE_USB3 {
                    Ok(phy.init())
                } else {
                    Err(PhyError::PowerOnFailed)
                }
            },
            _ => match phy.init_dp(mode) {
                Ok(steps) => Ok(steps),
                Err(_) => Err(PhyError::PowerOnFailed),
            },
        }
    }

    /// Powers the lane down. A sequence that fails means `PowerOffFailed`.
    pub fn power_off(&self, phy: &mut AppleAtcPhy) -> (r: Result<Vec<Step>, PhyError>)
        requires
            old(phy).wf(),
        ensures
            final(phy).wf(),
            if self.lane == PHY_TYPE_USB2 {
                r is Ok && r->Ok_0@ == usb2_power_off_steps() && *final(phy) == *old(phy)
            } else if self.lane == PHY_TYPE_USB3 {
                &&& r is Ok
                &&& r->Ok_0@ == dummy_steps(true) + power_off_steps(old(phy).lpdptx_base is Some)
                &&& *final(phy) == (AppleAtcPhy { pipehandler_up: false, ..*old(phy) })
            } else {
                r == Err::<Vec<Step>, PhyError>(PhyError::PowerOffFailed) && *final(phy) == *old(
                    phy,
                )
            },
    {
        if self.lane == PHY_TYPE_USB2 {
            Ok(usb2_power_off())
        } else if self.lane == PHY_TYPE_USB3 {
            let mut steps = crate::atcphy::dummy(true);
            phy.pipehandler_up = false;
            let mut more = phy.core_power_off();
            steps.append(&mut more);
            Ok(steps)
        } else {
            Err(PhyError::PowerOffFailed)
        }
    }

    /// Powers the lane up anew. A sequence that fails means `ResetFailed`.
    pub fn reset(&self, phy: &mut AppleAtcPhy) -> (r: Result<Vec<Step>, PhyError>)
        requires
            old(phy).wf(),
        ensures
            final(phy).wf(),
            *final(phy) == power_on_of(*self, *old(phy)).0,
            agrees(
                r,
                match power_on_of(*self, *old(phy)).1 {
                    Err(PhyError::PowerOnFailed) => Err(PhyError::ResetFailed),
                    other => other,
                },
            ),
    {
        match self.power_on(phy) {
            Err(PhyError::PowerOnFailed) => Err(PhyError::ResetFailed),
            other => other,
        }
    }

    /// Tells the lane its mode. A sequence that fails means `HardwareError`.
    pub fn set_mode(&mut self, phy: &AppleAtcPhy, mode: PhyMode) -> (r: Result<
        Vec<Step>,
        PhyError,
    >)
        ensures
            *final(self) == if settable(mode) {
                AppleAtcPhyLane { mode: Some(mode), ..*old(self) }
            } else {
                *old(self)
            },
            agrees(
                r,
                if !settable(mode) {
                    Err(PhyError::InvalidMode)
                } else if old(self).lane == PHY_TYPE_USB2 {
                    usb2_role(mode)
                } else if old(self).lane == PHY_TYPE_USB3 {
                    Ok(pipe_for(*phy, mode))
                } else {
                    Ok(Seq::empty())
                },
            ),
    {
        if let PhyMode::Other(n) = mode {
            if n > 1 {
                return Err(PhyError::InvalidMode);
            }
        }
        self.mode = Some(mode);
        if self.lane == PHY_TYPE_USB2 {
            return phy.usb2_set_mode(mode);
        }
        if self.lane == PHY_TYPE_USB3 {
            let host: Option<bool> = match mode {
                PhyMode::UsbHost => Some(true),
                PhyMode::UsbOtg => Some(true),
                PhyMode::Other(0) => Some(true),
                PhyMode::UsbDevice => Some(false),
                _ => None,
            };
            if let Some(host) = host {
                let dp_only: bool = match phy.dp_mode {
                    Some(AtcPhyMode::DisplayPort) => true,
                    _ => false,
                };
                if dp_only {
                    return Ok(phy.configure_pipehandler_dummy());
                }
                return Ok(phy.configure_pipehandler_usb3(host));
            }
        }
        Ok(Vec::new())
    }

    pub fn get_mode(&self) -> (r: Option<PhyMode>)
        ensures
            r == self.mode,
    {
        self.mode
    }

    /// Tells the lane which way round the plug is in. The lanes are set anew once a mode is known.
    pub fn set_orientation(&mut self, phy: &mut AppleAtcPhy, orientation: PhyOrientation) -> (r:
        Vec<Step>)
        ensures
            *final(self) == (AppleAtcPhyLane { orientation: Some(orientation), ..*old(self) }),
            if old(self).lane == PHY_TYPE_USB3 {
                &&& *final(phy) == (AppleAtcPhy {
                    swap_lanes: orientation == PhyOrientation::Reverse,
                    ..*old(phy)
                })
                &&& r@ == if old(self).mode is Some {
                    lanes_steps(
                        match old(phy).dp_mode {
                            Some(mode) => mode,
                            None => AtcPhyMode::Usb3,
                        },
                        orientation == PhyOrientation::Reverse,
                    )
                } else {
                    Seq::empty()
                }
            } else {
                *final(phy) == *old(phy) && r@ == Seq::<Step>::empty()
            },
    {
        self.orientation = Some(orientation);
        if self.lane == PHY_TYPE_USB3 {
            phy.set_orientation(orientation);
            if self.mode.is_some() {
                return phy.configure_crossbar();
            }
        }
        Vec::new()
    }

    pub fn get_orientation(&self) -> (r: Option<PhyOrientation>)
        ensures
            r == self.orientation,
    {
        self.orientation
    }
}

/// What the outcome of a power-up sequence means.
pub fn power_on_result(result: Result<(), &'static str>) -> (r: Result<(), PhyError>)
    ensures
        r == match result {
            Ok(()) => Ok::<(), PhyError>(()),
            Err(_) => Err::<(), PhyError>(PhyError::PowerOnFailed),
        },
{
    match result {
        Ok(()) => Ok(()),
        Err(_) => Err(PhyError::PowerOnFailed),
    }
}

/// What a PHY offers to the device tree.
pub struct AppleAtcPhyProvider {
    pub lanes: Vec<AppleAtcPhyLane>,
}

impl AppleAtcPhyProvider {
    pub fn new() -> (r: Self)
        ensures
            r.lanes@ == seq![
                AppleAtcPhyLane { lane: PHY_TYPE_USB2, mode: None, orientation: None },
                AppleAtcPhyLane { lane: PHY_TYPE_USB3, mode: None, orientation: None },
            ],
    {
        AppleAtcPhyProvider {
            lanes: vec![AppleAtcPhyLane::new(PHY_TYPE_USB2), AppleAtcPhyLane::new(PHY_TYPE_USB3)],
        }
    }

    pub fn name(&self) -> (r: &'static str)
        ensures
            r@ == "apple-atcphy"@,
    {
        "apple-atcphy"
    }

    pub fn phy_cells(&self) -> (r: usize)
        ensures
            r == 1,
    {
        1
    }

    pub fn reset_cells(&self) -> (r: usize)
        ensures
            r == 0,
    {
        0
    }

    /// The position of the lane that a specifier names: its one cell is the PHY type.
    pub fn get_phy(&self, spec: &[u32]) -> (r: Result<usize, PhyError>)
        ensures
            match r {
                Ok(i) => {
                    &&& spec@.len() == 1
                    &&& i < self.lanes@.len()
                    &&& self.lanes@[i as int].lane == spec@[0]
                    &&& forall|j: int| 0 <= j < i ==> (#[trigger] self.lanes@[j]).lane != spec@[0]
                },
                Err(e) => {
                    &&& e == PhyError::NotFound
                    &&& spec@.len() != 1 || forall|j: int|
                        0 <= j < self.lanes@.len() ==> (#[trigger] self.lanes@[j]).lane != spec@[0]
                },
            },
    {
        if spec.len() != self.phy_cells() {
            return Err(PhyError::NotFound);
        }
        let mut i: usize = 0;
        while i < self.lanes.len()
            invariant
                i <= self.lanes@.len(),
                spec@.len() == 1,
                forall|j: int| 0 <= j < i ==> (#[trigger] self.lanes@[j]).lane != spec@[0],
            decreases self.lanes@.len() - i,
        {
            if self.lanes[i].lane == spec[0] {
                return Ok(i);
            }
            i = i + 1;
        }
        Err(PhyError::NotFound)
    }

    /// Holds the USB controller in reset.
    pub fn assert_reset(&self, phy: &AppleAtcPhy, spec: &[u32]) -> (r: Result<
        Vec<Step>,
        &'static str,
    >)
        ensures
            match r {
                Ok(steps) => spec@.len() == 0 && steps@ == dwc3_reset_assert_raw_steps() + (
                if phy.pipehandler_up {
                    dummy_steps(true)
                } else {
                    Seq::empty()
                }) + usb2_power_off_steps(),
                Err(e) => spec@.len() > 0 && e == "apple-atcphy: invalid reset specifier",
            },
    {
        if !spec.is_empty() {
            return Err("apple-atcphy: invalid reset specifier");
        }
        Ok(phy.dwc3_reset_assert())
    }

    /// Lets the USB controller out of reset.
    pub fn deassert_reset(&self, phy: &AppleAtcPhy, spec: &[u32]) -> (r: Result<
        Vec<Step>,
        &'static str,
    >)
        ensures
            match r {
                Ok(steps) => spec@.len() == 0 && steps@ == dwc3_reset_release_steps(),
                Err(e) => spec@.len() > 0 && e == "apple-atcphy: invalid reset specifier",
            },
    {
        if !spec.is_empty() {
            return Err("apple-atcphy: invalid reset specifier");
        }
        Ok(phy.dwc3_reset_deassert())
    }
}

#[derive(Debug)]
pub struct AtcPhyEntry {
    pub instance: AppleAtcPhy,
    pub phandle: u32,
    pub core_paddr: usize,
}

/// The PHYs that have been found, in the order in which they were.
pub struct AtcPhyRegistry {
    entries: Vec<AtcPhyEntry>,
}

impl AtcPhyRegistry {
    pub closed spec fn view(&self) -> Seq<AtcPhyEntry> {
        self.entries@
    }

    pub fn new() -> (r: Self)
        ensures
            r@ == Seq::<AtcPhyEntry>::empty(),
    {
        AtcPhyRegistry { entries: Vec::new() }
    }
}

/// Register an ATC PHY instance.
///
/// # Arguments
///
/// * `phy` - ATC PHY instance to store.
/// * `phandle` - Firmware phandle associated with the PHY node.
///
/// # Returns
///
/// Numeric local registry ID assigned to the instance.
pub fn register_atcphy(registry: &mut AtcPhyRegistry, phy: AppleAtcPhy, phandle: u32) -> (r: u32)
    ensures
        r == old(registry)@.len() as u32,
        final(registry)@ == old(registry)@.push(
            AtcPhyEntry { instance: phy, phandle, core_paddr: phy.core_paddr },
        ),
{
    let id: u32 = registry.entries.len() as u32;
    let core_paddr: usize = phy.core_paddr;
    registry.entries.push(AtcPhyEntry { instance: phy, phandle, core_paddr });
    id
}

/// The PHY at a position of the registry, to be worked on, or nothing.
pub open spec fn lends(
    before: Seq<AtcPhyEntry>,
    after: Seq<AtcPhyEntry>,
    position: Option<int>,
    given: Option<(AppleAtcPhy, AppleAtcPhy)>,
) -> bool {
    match (position, given) {
        (Some(i), Some((was, becomes))) => {
            &&& 0 <= i < before.len()
            &&& was == before[i].instance
            &&& after == before.update(
                i,
                AtcPhyEntry {
                    instance: becomes,
                    phandle: before[i].phandle,
                    core_paddr: before[i].core_paddr,
                },
            )
        },
        (None, None) => after == before,
        _ => false,
    }
}

/// The first position from `i` on of a PHY with a phandle.
pub open spec fn phy_with_phandle(entries: Seq<AtcPhyEntry>, phandle: u32, i: int) -> Option<int>
    decreases entries.len() - i,
{
    if i < 0 || i >= entries.len() {
        None
    } else if entries[i].phandle == phandle {
        Some(i)
    } else {
        phy_with_phandle(entries, phandle, i + 1)
    }
}

/// The first position from `i` on of a PHY with a core address.
pub open spec fn phy_at(entries: Seq<AtcPhyEntry>, core_paddr: usize, i: int) -> Option<int>
    decreases entries.len() - i,
{
    if i < 0 || i >= entries.len() {
        None
    } else if entries[i].core_paddr == core_paddr {
        Some(i)
    } else {
        phy_at(entries, core_paddr, i + 1)
    }
}

fn lend(registry: &mut AtcPhyRegistry, position: usize) -> (r: &mut AppleAtcPhy)
    requires
        position < old(registry)@.len(),
    ensures
        lends(
            old(registry)@,
            final(registry)@,
            Some(position as int),
            Some((*r, *final(r))),
        ),
{
    &mut registry.entries[position].instance
}

/// Look up a registered ATC PHY instance by local registry ID.
///
/// # Arguments
///
/// * `id` - Local registry ID returned by [`register_atcphy`].
pub fn get_atcphy(registry: &mut AtcPhyRegistry, id: u32) -> (r: Option<&mut AppleAtcPhy>)
    ensures
        match r {
            Some(phy) => lends(
                old(registry)@,
                final(registry)@,
                Some(id as int),
                Some((*phy, *final(phy))),
            ),
            None => id >= old(registry)@.len() && final(registry)@ == old(registry)@,
        },
{
    if (id as usize) < registry.entries.len() {
        Some(lend(registry, id as usize))
    } else {
        None
    }
}

/// Look up a registered ATC PHY instance by firmware phandle.
pub fn get_atcphy_by_phandle(registry: &mut AtcPhyRegistry, phandle: u32) -> (r: Option<
    &mut AppleAtcPhy,
>)
    ensures
        match r {
            Some(phy) => phy_with_phandle(old(registry)@, phandle, 0) is Some && lends(
                old(registry)@,
                final(registry)@,
                phy_with_phandle(old(registry)@, phandle, 0),
                Some((*phy, *final(phy))),
            ),
            None => phy_with_phandle(old(registry)@, phandle, 0) is None && final(registry)@ == old(
                registry,
            )@,
        },
{
    let mut i: usize = 0;
    while i < registry.entries.len()
        invariant
            registry@ == old(registry)@,
            i <= registry@.len(),
            phy_with_phandle(registry@, phandle, 0) == phy_with_phandle(registry@, phandle, i as int),
        decreases registry@.len() - i,
    {
        if registry.entries[i].phandle == phandle {
            return Some(lend(registry, i));
        }
        i = i + 1;
    }
    None
}

/// Look up a registered ATC PHY by its core MMIO physical address.
///
/// The local registry ID depends on probe order, and firmware may disable an unused controller.
/// Hardware routes such as DCP's DPTX target must therefore use the physical identity instead of
/// the registry position.
pub fn get_atcphy_by_core_paddr(registry: &mut AtcPhyRegistry, core_paddr: usize) -> (r: Option<
    &mut AppleAtcPhy,
>)
    ensures
        match r {
            Some(phy) => phy_at(old(registry)@, core_paddr, 0) is Some && lends(
                old(registry)@,
                final(registry)@,
                phy_at(old(registry)@, core_paddr, 0),
                Some((*phy, *final(phy))),
            ),
            None => phy_at(old(registry)@, core_paddr, 0) is None && final(registry)@ == old(
                registry,
            )@,
        },
{
    let mut i: usize = 0;
    while i < registry.entries.len()
        invariant
            registry@ == old(registry)@,
            i <= registry@.len(),
            phy_at(registry@, core_paddr, 0) == phy_at(registry@, core_paddr, i as int),
        decreases registry@.len() - i,
    {
        if registry.entries[i].core_paddr == core_paddr {
            return Some(lend(registry, i));
        }
        i = i + 1;
    }
    None
}

/// A resource whose size can be told.
pub open spec fn sized(m: Resource) -> bool {
    m.start <= m.end && m.end - m.start < usize::MAX
}

/// The register blocks of a PHY: core, LPDPTX, AXI2AF, USB2 and PIPE, each with its size.
///
/// A memory resource never ends before it starts, nor does it cover all addresses.
pub fn atcphy_resources(device: &DeviceNode) -> (r: Result<Vec<(usize, usize)>, &'static str>)
    requires
        forall|i: int|
            0 <= i < resources_of(device.resources@, ResourceKind::Mem).len() ==> sized(
                #[trigger] resources_of(device.resources@, ResourceKind::Mem)[i],
            ),
    ensures
        ({
            let mem = resources_of(device.resources@, ResourceKind::Mem);
            match r {
                Ok(blocks) => mem.len() >= 5 && blocks@ == Seq::new(
                    5,
                    |i: int| (mem[i].start, (mem[i].end - mem[i].start + 1) as usize),
                ),
                Err(e) => mem.len() < 5 && e
                    == "apple-atcphy: expected at least 5 memory resources",
            }
        }),
{
    let mem = select_resources(device.resources.as_slice(), ResourceKind::Mem);
    if mem.len() < 5 {
        return Err("apple-atcphy: expected at least 5 memory resources");
    }
    let mut blocks: Vec<(usize, usize)> = Vec::new();
    let mut i: usize = 0;
    while i < 5
        invariant
            i <= 5 <= mem@.len(),
            mem@ == resources_of(device.resources@, ResourceKind::Mem),
            forall|k: int| 0 <= k < mem@.len() ==> sized(#[trigger] mem@[k]),
            blocks@ == Seq::new(
                i as nat,
                |k: int| (mem@[k].start, (mem@[k].end - mem@[k].start + 1) as usize),
            ),
        decreases 5 - i,
    {
        assert(sized(mem@[i as int]));
        blocks.push((mem[i].start, mem[i].end - mem[i].start + 1));
        i = i + 1;
        assert(blocks@ =~= Seq::new(
            i as nat,
            |k: int| (mem@[k].start, (mem@[k].end - mem@[k].start + 1) as usize),
        ));
    }
    Ok(blocks)
}

/// Where the register blocks were mapped, if they could be.
#[derive(Debug, Clone, Copy)]
pub struct AtcPhyMapping {
    pub core: Option<usize>,
    pub lpdptx: Option<usize>,
    pub axi2af: Option<usize>,
    pub usb2phy: Option<usize>,
    pub pipehandler: Option<usize>,
}

/// Makes the PHY of a device, with the tunables of its node. DisplayPort can do without its
/// blocks until it is asked for; the others are needed.
pub fn probe(device: &DeviceNode, core_paddr: usize, mapping: AtcPhyMapping) -> (r: Result<
    AppleAtcPhy,
    &'static str,
>)
    ensures
        match r {
            Err(e) => if mapping.core is None {
                e == "apple-atcphy: ioremap core failed"
            } else if mapping.usb2phy is None {
                e == "apple-atcphy: ioremap usb2phy failed"
            } else {
                mapping.pipehandler is None && e == "apple-atcphy: ioremap pipehandler failed"
            },
            Ok(phy) => {
                let props = device.properties@;
                &&& phy.wf()
                &&& phy.core_paddr == core_paddr
                &&& Some(phy.core_base) == mapping.core
                &&& phy.lpdptx_base == mapping.lpdptx
                &&& phy.axi2af_base == mapping.axi2af
                &&& Some(phy.usb2phy_base) == mapping.usb2phy
                &&& Some(phy.pipehandler_base) == mapping.pipehandler
                &&& phy.common_a@ == tunables_in(props, "apple,tunable-common-a"@)
                &&& phy.common_b@ == tunables_in(props, "apple,tunable-common-b"@)
                &&& phy.axi2af_tunables@ == tunables_in(props, "apple,tunable-axi2af"@)
                &&& phy.lane0_usb@ == tunables_in(props, "apple,tunable-lane0-usb"@)
                &&& phy.lane1_usb@ == tunables_in(props, "apple,tunable-lane1-usb"@)
                &&& phy.lane0_dp@ == tunables_in(props, "apple,tunable-lane0-dp"@)
                &&& phy.lane1_dp@ == tunables_in(props, "apple,tunable-lane1-dp"@)
                &&& !phy.pipehandler_up && !phy.swap_lanes
                &&& phy.dp_mode is None && phy.dp_link_rate is None && phy.active_dp_lanes == 0
            },
        },
{
    let core_base: usize = mapping.core.ok_or("apple-atcphy: ioremap core failed")?;
    let usb2phy_base: usize = mapping.usb2phy.ok_or("apple-atcphy: ioremap usb2phy failed")?;
    let pipehandler_base: usize = mapping.pipehandler.ok_or(
        "apple-atcphy: ioremap pipehandler failed",
    )?;
    let mut phy = AppleAtcPhy::new(
        core_paddr,
        core_base,
        mapping.lpdptx,
        mapping.axi2af,
        usb2phy_base,
        pipehandler_base,
    );
    phy.common_a = parse_tunable_prop(device, "apple,tunable-common-a");
    phy.common_b = parse_tunable_prop(device, "apple,tunable-common-b");
    phy.axi2af_tunables = parse_tunable_prop(device, "apple,tunable-axi2af");
    phy.lane0_usb = parse_tunable_prop(device, "apple,tunable-lane0-usb");
    phy.lane1_usb = parse_tunable_prop(device, "apple,tunable-lane1-usb");
    phy.lane0_dp = parse_tunable_prop(device, "apple,tunable-lane0-dp");
    phy.lane1_dp = parse_tunable_prop(device, "apple,tunable-lane1-dp");
    Ok(phy)
}

/// Takes in a PHY that was prepared. The result is its identifier and its phandle, 0 where the
/// node has none.
pub fn enroll(registry: &mut AtcPhyRegistry, device: &DeviceNode, phy: AppleAtcPhy) -> (r: (
    u32,
    u32,
))
    ensures
        r.0 == old(registry)@.len() as u32,
        r.1 == match any_phandle_number(device.properties@) {
            Some(n) => n as u32,
            None => 0,
        },
        final(registry)@ == old(registry)@.push(
            AtcPhyEntry { instance: phy, phandle: r.1, core_paddr: phy.core_paddr },
        ),
{
    let phandle: u32 = match find_any_phandle_number(device.properties.as_slice()) {
        Some(n) => n as u32,
        None => 0,
    };
    let id: u32 = register_atcphy(registry, phy, phandle);
    (id, phandle)
}

/// Keep the driver object linked into kernel builds that rely on initcall anchors.
pub fn force_link() {
}

/// No step of the sequence gives up.
pub open spec fn never_fails(steps: Seq<Step>) -> bool {
    forall|i: int| 0 <= i < steps.len() ==> !(#[trigger] steps[i] is Fail)
}

/// Law: holding the USB controller in reset cannot be refused by the hardware, whatever state
/// PIPE is in.
pub proof fn law_reset_never_fails(phy: AppleAtcPhy)
    ensures
        never_fails(
            dwc3_reset_assert_raw_steps() + (if phy.pipehandler_up {
                dummy_steps(true)
            } else {
                Seq::empty()
            }) + usb2_power_off_steps(),
        ),
        never_fails(dwc3_reset_release_steps()),
{
}

/// Law: on a device whose registers are plain storage, setting the lanes leaves every field of
/// the lane mode register alone but the four protocol selectors, and those hold the plan.
pub proof fn law_lane_mode_keeps_other_fields(mode: AtcPhyMode, swapped: bool, before: u32)
    ensures
        ({
            let after = register_effect(
                lanes_steps(mode, swapped),
                0,
                (CORE, ACIOPHY_LANE_MODE),
                before,
            );
            &&& after & !ACIOPHY_LANE_MODE_MASK == before & !ACIOPHY_LANE_MODE_MASK
            &&& after & ACIOPHY_LANE_MODE_MASK == lane_modes(lane_plan(mode, swapped))
        }),
{
    reveal_with_fuel(register_effect, 10);
    let plan = lane_plan(mode, swapped);
    let a = plan.lane0;
    let b = plan.lane1;
    assert(((a << 0) | (a << 3) | (b << 6) | (b << 9)) & !0xfffu32 == 0) by (bit_vector)
        requires
            a <= 7,
            b <= 7,
    ;
    lemma_masked_update(before, ACIOPHY_LANE_MODE_MASK, lane_modes(plan));
}

/// Law: a tunable that was applied changes nothing when it is applied again.
pub proof fn law_tunable_is_idempotent(t: HardwareTunable, win: u8, value: u32)
    ensures
        ({
            let at = (win, t.offset as usize);
            let once = register_step(tunable_step(win, t), at, value);
            register_step(tunable_step(win, t), at, once) == once
        }),
{
    let m = t.mask;
    let v = t.value;
    assert(((((value & !m) | v) & !m) | v) == ((value & !m) | v)) by (bit_vector);
}

/// Law: a PHY that leaves DisplayPort, or enters it anew, has no lane in use and no link rate.
pub proof fn law_mode_change_starts_over(lane: AppleAtcPhyLane, phy: AppleAtcPhy)
    requires
        lane.lane == PHY_TYPE_USB3,
        power_on_of(lane, phy).1 is Ok,
    ensures
        power_on_of(lane, phy).0.active_dp_lanes == 0,
        power_on_of(lane, phy).0.dp_link_rate is None,
        power_on_of(lane, phy).0.swap_lanes == phy.swap_lanes,
{
}

/// Law: a connector whose display mode is set keeps it for the fast lanes; otherwise the mode that the
/// lane was given counts, and a lane without one carries USB.
pub proof fn law_lanes_get_the_mode_that_was_set(lane: AppleAtcPhyLane, phy: AppleAtcPhy)
    ensures
        lane.lane == PHY_TYPE_USB3 && phy.dp_mode is Some ==> wanted_mode(lane, phy) == Ok::<
            AtcPhyMode,
            PhyError,
        >(phy.dp_mode->Some_0),
        !(lane.lane == PHY_TYPE_USB3 && phy.dp_mode is Some) ==> {
            let r = wanted_mode(lane, phy);
            &&& lane.mode is None ==> r == Ok::<AtcPhyMode, PhyError>(AtcPhyMode::Usb3)
            &&& lane.mode == Some(PhyMode::DisplayPort) ==> r == Ok::<AtcPhyMode, PhyError>(
                AtcPhyMode::DisplayPort,
            )
            &&& lane.mode == Some(PhyMode::UsbHost) || lane.mode == Some(PhyMode::UsbDevice)
                || lane.mode == Some(PhyMode::UsbOtg) || lane.mode == Some(PhyMode::Other(0)) ==> r
                == Ok::<AtcPhyMode, PhyError>(AtcPhyMode::Usb3)
            &&& lane.mode == Some(PhyMode::Other(1)) ==> r == Ok::<AtcPhyMode, PhyError>(
                AtcPhyMode::Usb3Dp,
            )
            &&& (lane.mode matches Some(PhyMode::Other(n)) && n > 1) ==> r is Err
        },
{
}

/// Law: a connector is found by its place or by its handle, and the first of the list is taken.
pub proof fn law_first_connector_is_found(
    entries: Seq<AtcPhyEntry>,
    core_paddr: usize,
    phandle: u32,
    from: int,
    i: int,
)
    requires
        0 <= from <= i < entries.len(),
    ensures
        match phy_at(entries, core_paddr, from) {
            Some(k) => from <= k < entries.len() && entries[k].core_paddr == core_paddr && (
            entries[i].core_paddr == core_paddr ==> k <= i),
            None => entries[i].core_paddr != core_paddr,
        },
        match phy_with_phandle(entries, phandle, from) {
            Some(k) => from <= k < entries.len() && entries[k].phandle == phandle && (entries[i].phandle
                == phandle ==> k <= i),
            None => entries[i].phandle != phandle,
        },
    decreases entries.len() - from,
{
    if from < i {
        law_first_connector_is_found(entries, core_paddr, phandle, from + 1, i);
    } else if from + 1 < entries.len() {
        law_first_connector_is_found(entries, core_paddr, phandle, from + 1, from + 1);
    } else {
        reveal_with_fuel(phy_at, 2);
        reveal_with_fuel(phy_with_phandle, 2);
    }
}

} // verus!
