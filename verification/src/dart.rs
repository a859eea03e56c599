//! Apple DART IOMMU driver.

use vstd::prelude::*;
use crate::arith::{drop_value, holds, without};
use crate::dart_table::{
    geometry_of, map_pages, page_count, pages_fit, unmap_pages, DartPageTable, Demand, Geometry,
    TableMemory, Tables, DART_PTE_NO_READ, DART_PTE_NO_WRITE, DART_PTE_SP_DIS, DART_PTE_VALID,
};
use crate::device::{
    any_phandle_number, find_any_phandle_number, find_resource, first_resource, DeviceNode,
    ResourceKind,
};
use crate::sequence::{fail, write32, Step};

verus! {

pub const DART_PARAMS1: usize = 0x00;
pub const DART_PARAMS2: usize = 0x04;
pub const DART_TCR: usize = 0x100;
pub const DART_TTBR: usize = 0x200;
pub const DART_TTBR_COUNT: usize = 4;
pub const DART_ENABLE_STREAMS: usize = 0xfc;
pub const DART_STREAM_COMMAND: usize = 0x20;
pub const DART_STREAM_SELECT: usize = 0x34;
pub const DART_ERROR_STATUS: usize = 0x40;

pub const DART_TCR_TRANSLATE_ENABLE: u32 = 0x0080;
pub const DART_TCR_BYPASS_DART: u32 = 0x0100;
pub const DART_TCR_BYPASS_DAPF: u32 = 0x1000;
pub const DART_TTBR_VALID: u32 = 0x8000_0000;
pub const DART_PARAMS1_SHIFT: u32 = 24;
pub const DART_PARAMS1_MASK: u32 = 0x0f00_0000;
pub const DART_STREAM_COMMAND_BUSY: u32 = 0x0000_0004;
pub const DART_STREAM_COMMAND_BUSY_TIMEOUT_US: u32 = 100;
pub const DART_STREAM_COMMAND_INV_ALL: u32 = 0x0010_0000;

/// The part of an address that the DART looks at.
pub const DART_IAS_MASK: u64 = 0xffff_ffff;

#[derive(Debug, Clone, Copy, PartialEq, Eq, Structural)]
pub enum IommuError {
    Busy,
    NotSupported,
    InvalidSpec,
    AttachFailed,
    DomainAllocationFailed,
    MapFailed,
    UnmapFailed,
}

#[derive(Debug, Clone, Copy, PartialEq, Eq, Structural)]
pub struct IommuStreamId {
    pub id: u32,
    pub substream_id: Option<u32>,
}

/// An `iommus` reference.
#[derive(Debug)]
pub struct IommuSpec {
    pub controller_phandle: u32,
    pub cells: Vec<u32>,
}

/// What a mapping permits.
#[derive(Debug, Clone, Copy, PartialEq, Eq, Structural)]
pub struct IommuMapFlags {
    pub read: bool,
    pub write: bool,
    pub coherent: bool,
}

#[derive(Debug, Clone, Copy, PartialEq, Eq, Structural)]
pub enum IommuDomainType {
    Identity,
    Dma,
}

/// What kind of domain a request gets.
#[derive(Debug, Clone, Copy, PartialEq, Eq, Structural)]
pub enum DomainChoice {
    Bypass,
    Translated,
}

#[derive(Debug, Clone, Copy, PartialEq, Eq, Structural)]
pub struct DartParams {
    pub page_shift: u32,
    pub supports_bypass: bool,
    pub num_streams: u32,
}

/// The parameters in the two parameter registers. Stream widths from 1 to 8 bits are believed;
/// any other width stands for 16 streams.
pub open spec fn decoded(raw_params1: u32, raw_params2: u32) -> DartParams {
    let width = (raw_params1 >> 20) & 0xf;
    DartParams {
        page_shift: (raw_params1 & DART_PARAMS1_MASK) >> DART_PARAMS1_SHIFT,
        supports_bypass: raw_params2 & 1 != 0,
        num_streams: if 0 < width <= 8 {
            1u32 << width
        } else {
            16
        },
    }
}

/// The first root pointer of a stream.
pub open spec fn ttbr_offset_of(sid: int) -> int {
    DART_TTBR + sid * DART_TTBR_COUNT * 4
}

/// The translation control register of a stream.
pub open spec fn tcr_offset_of(sid: int) -> int {
    DART_TCR + sid * 4
}

/// The registers of a stream are addressable.
pub open spec fn sid_ok(sid: usize) -> bool {
    ttbr_offset_of(sid as int) <= usize::MAX
}

/// The root pointer for a table.
pub open spec fn ttbr_value(paddr: usize) -> u32 {
    ((paddr >> 12) as u32) | DART_TTBR_VALID
}

/// The table of a root pointer.
pub open spec fn ttbr_table(ttbr: u32) -> Option<usize> {
    if ttbr & DART_TTBR_VALID == 0 {
        None
    } else {
        Some((((ttbr & !DART_TTBR_VALID) as u64) << 12) as usize)
    }
}

/// Drops every cached translation; `skip` steps after the poll are for a timeout.
pub open spec fn invalidate_steps(skip: usize) -> Seq<Step> {
    seq![
        Step::Fence,
        write32(0, DART_STREAM_SELECT, u32::MAX),
        write32(0, DART_STREAM_COMMAND, DART_STREAM_COMMAND_INV_ALL),
        Step::Poll {
            win: 0,
            offset: DART_STREAM_COMMAND,
            mask: DART_STREAM_COMMAND_BUSY,
            want: 0,
            attempts: DART_STREAM_COMMAND_BUSY_TIMEOUT_US,
            interval_us: 1,
            skip,
        },
    ]
}

/// Points a stream at a table. A timeout of the invalidation is of no account here.
pub open spec fn translation_steps(sid: int, table: usize) -> Seq<Step> {
    seq![
        write32(0, DART_ENABLE_STREAMS, u32::MAX),
        write32(0, ttbr_offset_of(sid) as usize, ttbr_value(table)),
        write32(0, tcr_offset_of(sid) as usize, DART_TCR_TRANSLATE_ENABLE),
    ] + invalidate_steps(0)
}

/// Lets a stream through untranslated, where the hardware can.
pub open spec fn bypass_steps(params: DartParams, sid: int) -> Seq<Step> {
    if params.supports_bypass {
        seq![
            write32(0, DART_ENABLE_STREAMS, u32::MAX),
            write32(
                0,
                tcr_offset_of(sid) as usize,
                DART_TCR_BYPASS_DART | DART_TCR_BYPASS_DAPF,
            ),
        ]
    } else {
        seq![write32(0, DART_ENABLE_STREAMS, u32::MAX)] + translation_steps(sid, 0)
    }
}

/// Stops the streams from `sid` on that have no root pointer.
pub open spec fn quiet_steps(sid: int, count: int) -> Seq<Step>
    decreases count - sid,
{
    if sid >= count {
        Seq::empty()
    } else {
        seq![
            Step::SkipIf {
                win: 0,
                offset: ttbr_offset_of(sid) as usize,
                mask: DART_TTBR_VALID,
                want: DART_TTBR_VALID,
                skip: 1,
            },
            write32(0, tcr_offset_of(sid) as usize, 0),
        ] + quiet_steps(sid + 1, count)
    }
}

/// What a timeout of an invalidation is called in a sequence.
pub const BUSY: &'static str = "apple-dart: busy";

/// Apple DART IOMMU hardware instance.
#[derive(Clone, Copy, Debug, PartialEq, Eq)]
pub struct DartInstance {
    base_addr: usize,
    params: DartParams,
}

impl DartInstance {
    pub closed spec fn spec_base(&self) -> usize {
        self.base_addr
    }

    pub closed spec fn spec_params(&self) -> DartParams {
        self.params
    }

    /// There are at most 256 streams.
    pub open spec fn wf(&self) -> bool {
        self.spec_params().num_streams <= 256
    }

    /// Create a DART instance from a mapped MMIO base address.
    ///
    /// # Arguments
    ///
    /// * `base_addr` - Kernel virtual address of the DART MMIO region.
    /// * `raw_params1`, `raw_params2` - Contents of the parameter registers.
    ///
    /// # Returns
    ///
    /// Initialized DART instance with hardware parameters decoded.
    pub fn new(base_addr: usize, raw_params1: u32, raw_params2: u32) -> (r: Self)
        ensures
            r.wf(),
            r.spec_base() == base_addr,
            r.spec_params() == decoded(raw_params1, raw_params2),
    {
        let page_shift: u32 = (raw_params1 & DART_PARAMS1_MASK) >> DART_PARAMS1_SHIFT;
        let supports_bypass: bool = raw_params2 & 1 != 0;
        let sid_width: u32 = (raw_params1 >> 20) & 0xf;
        assert(0 < sid_width <= 8 ==> 1u32 << sid_width <= 256) by (bit_vector);
        let num_streams: u32 = if sid_width > 0 && sid_width <= 8 {
            1u32 << sid_width
        } else {
            16
        };
        DartInstance { base_addr, params: DartParams { page_shift, supports_bypass, num_streams } }
    }

    /// A DART with given parameters.
    pub fn with_params(base_addr: usize, params: DartParams) -> (r: Self)
        requires
            params.num_streams <= 256,
        ensures
            r.wf(),
            r.spec_base() == base_addr,
            r.spec_params() == params,
    {
        DartInstance { base_addr, params }
    }

    pub fn base_addr(&self) -> (r: usize)
        ensures
            r == self.spec_base(),
    {
        self.base_addr
    }

    pub fn name(&self) -> (r: &'static str)
        ensures
            r@ == "apple-dart"@,
    {
        "apple-dart"
    }

    fn invalidate_all_tlbs(skip: usize) -> (r: Vec<Step>)
        ensures
            r@ == invalidate_steps(skip),
    {
        vec![
            Step::Fence,
            write32(0, DART_STREAM_SELECT, u32::MAX),
            write32(0, DART_STREAM_COMMAND, DART_STREAM_COMMAND_INV_ALL),
            Step::Poll {
                win: 0,
                offset: DART_STREAM_COMMAND,
                mask: DART_STREAM_COMMAND_BUSY,
                want: 0,
                attempts: DART_STREAM_COMMAND_BUSY_TIMEOUT_US,
                interval_us: 1,
                skip,
            },
        ]
    }

    fn tcr_offset(sid: usize) -> (r: usize)
        requires
            sid_ok(sid),
        ensures
            r == tcr_offset_of(sid as int),
    {
        DART_TCR + sid * 4
    }

    /// Where the root pointer of a stream is read.
    pub fn ttbr_offset(sid: usize) -> (r: usize)
        requires
            sid_ok(sid),
        ensures
            r == ttbr_offset_of(sid as int),
    {
        DART_TTBR + sid * DART_TTBR_COUNT * 4
    }

    /// Enable translated DMA for a stream ID.
    ///
    /// # Arguments
    ///
    /// * `sid` - Stream ID to configure.
    /// * `ttbr_paddr` - Physical address of the root page table.
    /// * `num_levels` - Number of page table levels used by the domain.
    pub fn enable_translation(&self, sid: usize, ttbr_paddr: usize, num_levels: u32) -> (r: Vec<
        Step,
    >)
        requires
            sid_ok(sid),
        ensures
            r@ == translation_steps(sid as int, ttbr_paddr),
    {
        let _ = num_levels;
        let mut steps: Vec<Step> = vec![
            write32(0, DART_ENABLE_STREAMS, u32::MAX),
            write32(0, Self::ttbr_offset(sid), ((ttbr_paddr >> 12) as u32) | DART_TTBR_VALID),
            write32(0, Self::tcr_offset(sid), DART_TCR_TRANSLATE_ENABLE),
        ];
        let mut more = Self::invalidate_all_tlbs(0);
        steps.append(&mut more);
        steps
    }

    /// Publish page-table updates and invalidate cached translations.
    ///
    /// Unlike [`Self::enable_translation`], this preserves the TTBR and TCR installed by firmware.
    /// This is required for locked DART streams. The sequence fails when the invalidation times
    /// out.
    pub fn sync_page_tables(&self) -> (r: Vec<Step>)
        ensures
            r@ == invalidate_steps(1).push(fail(BUSY)),
    {
        let mut steps = Self::invalidate_all_tlbs(1);
        steps.push(fail(BUSY));
        steps
    }

    /// What the outcome of [`Self::sync_page_tables`] means.
    pub fn sync_result(result: Result<(), &'static str>) -> (r: Result<(), IommuError>)
        ensures
            r == match result {
                Ok(()) => Ok::<(), IommuError>(()),
                Err(_) => Err::<(), IommuError>(IommuError::Busy),
            },
    {
        match result {
            Ok(()) => Ok(()),
            Err(_) => Err(IommuError::Busy),
        }
    }

    /// The physical address of the root page table that a root pointer installs, or `None` when
    /// the TTBR is not valid.
    ///
    /// The TTBR register survives [`Self::disable_translation`]: only the TCR is cleared. So this
    /// recovers the page table that was installed by firmware or a previous boot stage.
    ///
    /// # Arguments
    ///
    /// * `ttbr` - What was read at [`Self::ttbr_offset`].
    pub fn ttbr_paddr(&self, ttbr: u32) -> (r: Option<usize>)
        ensures
            r == ttbr_table(ttbr),
    {
        if ttbr & DART_TTBR_VALID == 0 {
            return None;
        }
        Some((((ttbr & !DART_TTBR_VALID) as u64) << 12) as usize)
    }

    /// Disable translated DMA for a stream ID.
    ///
    /// # Arguments
    ///
    /// * `sid` - Stream ID to disable.
    pub fn disable_translation(&self, sid: usize) -> (r: Vec<Step>)
        requires
            sid_ok(sid),
        ensures
            r@ == seq![write32(0, tcr_offset_of(sid as int) as usize, 0)],
    {
        vec![write32(0, Self::tcr_offset(sid), 0)]
    }

    /// Enable hardware bypass mode for a stream ID when supported.
    ///
    /// # Arguments
    ///
    /// * `sid` - Stream ID to configure for bypass.
    pub fn enable_bypass(&self, sid: usize) -> (r: Vec<Step>)
        requires
            sid_ok(sid),
        ensures
            r@ == bypass_steps(self.spec_params(), sid as int),
    {
        let mut steps: Vec<Step> = vec![write32(0, DART_ENABLE_STREAMS, u32::MAX)];
        if !self.params.supports_bypass {
            let mut more = self.enable_translation(sid, 0, 3);
            steps.append(&mut more);
            return steps;
        }
        let tcr: u32 = DART_TCR_BYPASS_DART | DART_TCR_BYPASS_DAPF;
        steps.push(write32(0, Self::tcr_offset(sid), tcr));
        assert(steps@ =~= bypass_steps(self.spec_params(), sid as int));
        steps
    }

    /// Return the hardware page shift reported by the DART.
    pub fn page_shift(&self) -> (r: u32)
        ensures
            r == self.spec_params().page_shift,
    {
        self.params.page_shift
    }

    /// Whether a page of the DART is larger than one of the processor.
    pub fn page_size_exceeds_cpu_page_size(&self, cpu_page_shift: u32) -> (r: bool)
        ensures
            r == (self.spec_params().page_shift > cpu_page_shift),
    {
        self.params.page_shift > cpu_page_shift
    }

    /// Which kind of domain a request gets. Where the hardware can bypass, that is preferred for
    /// identity domains and for pages that the processor cannot match.
    pub fn alloc_domain(&self, domain_type: IommuDomainType, cpu_page_shift: u32) -> (r: Result<
        DomainChoice,
        IommuError,
    >)
        ensures
            r == if self.spec_params().supports_bypass && (domain_type == IommuDomainType::Identity
                || self.spec_params().page_shift > cpu_page_shift) {
                Ok::<DomainChoice, IommuError>(DomainChoice::Bypass)
            } else if domain_type == IommuDomainType::Identity {
                Err::<DomainChoice, IommuError>(IommuError::NotSupported)
            } else {
                Ok(DomainChoice::Translated)
            },
    {
        let identity: bool = domain_type == IommuDomainType::Identity;
        if self.params.supports_bypass && (identity || self.page_size_exceeds_cpu_page_size(
            cpu_page_shift,
        )) {
            return Ok(DomainChoice::Bypass);
        }
        if identity {
            return Err(IommuError::NotSupported);
        }
        Ok(DomainChoice::Translated)
    }

    /// The stream that an `iommus` reference names: its first cell.
    pub fn stream_ids_from_fdt(&self, spec: &IommuSpec) -> (r: Result<
        Vec<IommuStreamId>,
        IommuError,
    >)
        ensures
            spec.cells@.len() == 0 <==> r is Err,
            r is Err ==> r->Err_0 == IommuError::InvalidSpec,
            r is Ok ==> r->Ok_0@ == seq![
                IommuStreamId { id: spec.cells@[0], substream_id: None },
            ],
    {
        if spec.cells.is_empty() {
            return Err(IommuError::InvalidSpec);
        }
        Ok(vec![IommuStreamId { id: spec.cells[0], substream_id: None }])
    }

    /// The stream of a DART that a reference names.
    pub fn validate_stream(&self, stream: IommuStreamId) -> (r: Result<usize, IommuError>)
        ensures
            r == stream_of(self.spec_params(), stream),
    {
        if stream.substream_id.is_some() {
            return Err(IommuError::NotSupported);
        }
        if stream.id >= self.params.num_streams {
            return Err(IommuError::AttachFailed);
        }
        Ok(stream.id as usize)
    }

    /// Brings a DART up: streams that firmware set no table for are stopped.
    pub fn bring_up(&self) -> (r: Vec<Step>)
        requires
            self.wf(),
        ensures
            r@ == quiet_steps(0, self.spec_params().num_streams as int) + seq![
                write32(0, DART_ENABLE_STREAMS, u32::MAX),
            ] + invalidate_steps(1) + seq![
                fail("apple-dart: timed out invalidating TLBs during probe"),
                write32(0, DART_ERROR_STATUS, 0xffff_ffff),
            ],
    {
        let mut steps: Vec<Step> = Vec::new();
        let count: u32 = self.params.num_streams;
        let mut sid: u32 = 0;
        assert(quiet_steps(0, count as int) =~= steps@ + quiet_steps(0, count as int));
        while sid < count
            invariant
                sid <= count <= 256,
                quiet_steps(0, count as int) == steps@ + quiet_steps(sid as int, count as int),
            decreases count - sid,
        {
            let ghost before = steps@;
            steps.push(
                Step::SkipIf {
                    win: 0,
                    offset: Self::ttbr_offset(sid as usize),
                    mask: DART_TTBR_VALID,
                    want: DART_TTBR_VALID,
                    skip: 1,
                },
            );
            steps.push(write32(0, Self::tcr_offset(sid as usize), 0));
            sid = sid + 1;
            assert(before + quiet_steps(sid - 1, count as int) =~= steps@ + quiet_steps(
                sid as int,
                count as int,
            ));
        }
        assert(steps@ =~= quiet_steps(0, count as int));
        steps.push(write32(0, DART_ENABLE_STREAMS, u32::MAX));
        let mut more = Self::invalidate_all_tlbs(1);
        steps.append(&mut more);
        steps.push(fail("apple-dart: timed out invalidating TLBs during probe"));
        steps.push(write32(0, DART_ERROR_STATUS, 0xffff_ffff));
        steps
    }
}

/// The stream of a DART that a reference names.
pub open spec fn stream_of(params: DartParams, stream: IommuStreamId) -> Result<
    usize,
    IommuError,
> {
    if stream.substream_id is Some {
        Err(IommuError::NotSupported)
    } else if stream.id >= params.num_streams {
        Err(IommuError::AttachFailed)
    } else {
        Ok(stream.id as usize)
    }
}

/// A domain whose streams pass untranslated.
pub struct DartBypassDomain {
    dart: DartInstance,
    attached_streams: Vec<u32>,
}

/// The streams of a domain once `id` is among them.
pub open spec fn joined(streams: Seq<u32>, id: u32) -> Seq<u32> {
    if streams.contains(id) {
        streams
    } else {
        streams.push(id)
    }
}

impl DartBypassDomain {
    pub closed spec fn spec_dart(&self) -> DartInstance {
        self.dart
    }

    pub closed spec fn streams(&self) -> Seq<u32> {
        self.attached_streams@
    }

    pub fn new(dart: DartInstance) -> (r: Self)
        ensures
            r.spec_dart() == dart,
            r.streams() == Seq::<u32>::empty(),
    {
        DartBypassDomain { dart, attached_streams: Vec::new() }
    }

    pub fn attach_stream(&mut self, stream: IommuStreamId) -> (r: Result<Vec<Step>, IommuError>)
        requires
            old(self).spec_dart().wf(),
        ensures
            final(self).spec_dart() == old(self).spec_dart(),
            match stream_of(old(self).spec_dart().spec_params(), stream) {
                Err(e) => r == Err::<Vec<Step>, IommuError>(e) && final(self).streams() == old(
                    self,
                ).streams(),
                Ok(sid) => {
                    &&& r is Ok
                    &&& r->Ok_0@ == bypass_steps(old(self).spec_dart().spec_params(), sid as int)
                    &&& final(self).streams() == joined(old(self).streams(), stream.id)
                },
            },
    {
        let sid: usize = self.dart.validate_stream(stream)?;
        let steps = self.dart.enable_bypass(sid);
        if !holds(&self.attached_streams, stream.id) {
            self.attached_streams.push(stream.id);
        }
        Ok(steps)
    }

    pub fn detach_stream(&mut self, stream: IommuStreamId) -> (r: Result<Vec<Step>, IommuError>)
        requires
            old(self).spec_dart().wf(),
        ensures
            final(self).spec_dart() == old(self).spec_dart(),
            match stream_of(old(self).spec_dart().spec_params(), stream) {
                Err(e) => r == Err::<Vec<Step>, IommuError>(e) && final(self).streams() == old(
                    self,
                ).streams(),
                Ok(sid) => {
                    &&& r is Ok
                    &&& r->Ok_0@ == seq![write32(0, tcr_offset_of(sid as int) as usize, 0)]
                    &&& final(self).streams() == without(old(self).streams(), stream.id)
                },
            },
    {
        let sid: usize = self.dart.validate_stream(stream)?;
        let steps = self.dart.disable_translation(sid);
        self.attached_streams = drop_value(&self.attached_streams, stream.id);
        Ok(steps)
    }

    /// Nothing needs to be mapped.
    pub fn map(&self, _iova: u64, _paddr: usize, _len: usize, _flags: IommuMapFlags) -> (r: Result<
        (),
        IommuError,
    >)
        ensures
            r == Ok::<(), IommuError>(()),
    {
        Ok(())
    }

    pub fn unmap(&self, _iova: u64, _len: usize) -> (r: Result<(), IommuError>)
        ensures
            r == Ok::<(), IommuError>(()),
    {
        Ok(())
    }

    /// Addresses are what they are.
    pub fn iova_to_phys(&self, iova: u64) -> (r: Option<usize>)
        ensures
            r == Some(iova as usize),
    {
        Some(iova as usize)
    }

    /// The processor's page size.
    pub fn page_size(&self, cpu_page_size: usize) -> (r: usize)
        ensures
            r == cpu_page_size,
    {
        cpu_page_size
    }

    pub fn flush(&self) -> (r: Result<(), IommuError>)
        ensures
            r == Ok::<(), IommuError>(()),
    {
        Ok(())
    }
}

/// The flags of an entry for a mapping.
pub open spec fn pte_flags(flags: IommuMapFlags) -> u64 {
    DART_PTE_VALID | DART_PTE_SP_DIS | (if flags.read {
        0
    } else {
        DART_PTE_NO_READ
    }) | (if flags.write {
        0
    } else {
        DART_PTE_NO_WRITE
    })
}

/// The flags of an entry for a mapping.
pub fn dart_pte_flags(flags: IommuMapFlags) -> (r: u64)
    ensures
        r == pte_flags(flags),
{
    let mut pte: u64 = DART_PTE_VALID | DART_PTE_SP_DIS;
    proof {
        lemma_entry_bits(0, 0, 0);
    }
    if !flags.read {
        pte = pte | DART_PTE_NO_READ;
    }
    if !flags.write {
        pte = pte | DART_PTE_NO_WRITE;
    }
    pte
}

/// Law: what a mapping permits, and nothing else, decides the flags of its entry; they make the
/// entry valid and leave its address alone.
pub proof fn law_pte_flags(flags: IommuMapFlags)
    ensures
        pte_flags(flags) & DART_PTE_VALID != 0,
        pte_flags(flags) & crate::dart_table::DART_PADDR_MASK == 0,
        (pte_flags(flags) & DART_PTE_NO_READ != 0) == !flags.read,
        (pte_flags(flags) & DART_PTE_NO_WRITE != 0) == !flags.write,
{
    let r: u64 = if flags.read {
        0
    } else {
        DART_PTE_NO_READ
    };
    let w: u64 = if flags.write {
        0
    } else {
        DART_PTE_NO_WRITE
    };
    lemma_entry_bits(0, r, w);
}

/// The bits of an entry's flags, and of a root pointer.
proof fn lemma_entry_bits(p: u64, r: u64, w: u64)
    by (bit_vector)
    requires
        r == 0 || r == 0x100,
        w == 0 || w == 0x080,
    ensures
        0x001u64 | 0x002u64 == ((0x001u64 | 0x002u64) | 0u64),
        (0x001u64 | 0x002u64) | 0x100u64 == ((0x001u64 | 0x002u64) | 0x100u64) | 0u64,
        (0x001u64 | 0x002u64 | r | w) & 0x001 != 0,
        (0x001u64 | 0x002u64 | r | w) & 0x000f_ffff_f000 == 0,
        ((0x001u64 | 0x002u64 | r | w) & 0x100 != 0) == (r != 0),
        ((0x001u64 | 0x002u64 | r | w) & 0x080 != 0) == (w != 0),
        (((p >> 12) as u32) | 0x8000_0000) & 0x8000_0000 != 0,
        p % 0x1000 == 0 && p < 0x800_0000_0000 ==> (((((p >> 12) as u32) | 0x8000_0000)
            & !0x8000_0000u32) as u64) << 12 == p,
        p < 0x800_0000_0000 ==> ((((p >> 12) as u32) | 0x8000_0000) as u64) == 0x8000_0000u64 + p
            / 0x1000,
{
}

/// Apple DART translation domain backed by an owned or firmware page table.
pub struct DartDomain<'a> {
    dart: DartInstance,
    page_table: DartPageTable<'a>,
    attached_streams: Vec<u32>,
    firmware_stream: Option<u32>,
}

impl<'a> DartDomain<'a> {
    pub closed spec fn spec_dart(&self) -> DartInstance {
        self.dart
    }

    pub closed spec fn geometry(&self) -> Geometry {
        self.page_table.spec_geometry()
    }

    pub closed spec fn tables(&self) -> Tables {
        self.page_table@
    }

    pub closed spec fn streams(&self) -> Seq<u32> {
        self.attached_streams@
    }

    /// The stream whose table the firmware owns.
    pub closed spec fn firmware(&self) -> Option<u32> {
        self.firmware_stream
    }

    pub closed spec fn wf(&self) -> bool {
        self.dart.wf() && self.page_table.wf()
    }

    /// Create a new DART translation domain.
    ///
    /// # Arguments
    ///
    /// * `dart` - DART hardware instance that will own the domain.
    /// * `root` - Memory for the root table, if it could be allocated.
    ///
    /// # Returns
    ///
    /// A domain with a fresh root page table.
    pub fn new(dart: DartInstance, cpu_page_shift: u32, root: Option<TableMemory<'a>>) -> (r:
        Result<Self, IommuError>)
        requires
            dart.wf(),
            geometry_of(dart.spec_params().page_shift, cpu_page_shift) is Ok && root is Some
                ==> root->Some_0@.entries.len() == geometry_of(
                dart.spec_params().page_shift,
                cpu_page_shift,
            )->Ok_0.pte_count,
        ensures
            match (geometry_of(dart.spec_params().page_shift, cpu_page_shift), root) {
                (Ok(geo), Some(root)) => {
                    &&& r is Ok
                    &&& r->Ok_0.wf()
                    &&& r->Ok_0.spec_dart() == dart
                    &&& r->Ok_0.geometry() == geo
                    &&& r->Ok_0.tables() == (Tables {
                        tables: seq![
                            crate::dart_table::zero_table(root@.paddr, geo.pte_count as nat),
                        ],
                        stock: Seq::empty(),
                    })
                    &&& r->Ok_0.streams() == Seq::<u32>::empty()
                    &&& r->Ok_0.firmware() is None
                },
                _ => r is Err && r->Err_0 == IommuError::DomainAllocationFailed,
            },
    {
        match DartPageTable::new_for_page_shift(dart.page_shift(), cpu_page_shift, root) {
            Err(_) => Err(IommuError::DomainAllocationFailed),
            Ok(page_table) => Ok(
                DartDomain {
                    dart,
                    page_table,
                    attached_streams: Vec::new(),
                    firmware_stream: None,
                },
            ),
        }
    }

    /// The root table that the firmware installed for a stream.
    ///
    /// # Arguments
    ///
    /// * `ttbr` - The root pointer of the stream.
    pub fn existing_root(dart: &DartInstance, stream: IommuStreamId, ttbr: u32) -> (r: Result<
        usize,
        IommuError,
    >)
        ensures
            r == match stream_of(dart.spec_params(), stream) {
                Err(e) => Err::<usize, IommuError>(e),
                Ok(_) => match ttbr_table(ttbr) {
                    Some(paddr) => Ok::<usize, IommuError>(paddr),
                    None => Err(IommuError::DomainAllocationFailed),
                },
            },
    {
        let _ = dart.validate_stream(stream)?;
        dart.ttbr_paddr(ttbr).ok_or(IommuError::DomainAllocationFailed)
    }

    /// Wrap the page table already installed for a firmware-owned stream.
    ///
    /// The TTBR and TCR are preserved; later mapping operations only update PTEs and invalidate
    /// cached translations.
    ///
    /// # Arguments
    ///
    /// * `dart` - DART hardware instance containing the firmware stream.
    /// * `stream` - Firmware-owned stream whose existing TTBR should be used.
    /// * `root` - Memory of the table that [`Self::existing_root`] found.
    pub fn wrap_existing(
        dart: DartInstance,
        stream: IommuStreamId,
        cpu_page_shift: u32,
        root: TableMemory<'a>,
    ) -> (r: Result<Self, IommuError>)
        requires
            dart.wf(),
            geometry_of(dart.spec_params().page_shift, cpu_page_shift) is Ok
                ==> root@.entries.len() == geometry_of(
                dart.spec_params().page_shift,
                cpu_page_shift,
            )->Ok_0.pte_count,
        ensures
            match (
                stream_of(dart.spec_params(), stream),
                geometry_of(dart.spec_params().page_shift, cpu_page_shift),
            ) {
                (Err(e), _) => r is Err && r->Err_0 == e,
                (Ok(_), Err(_)) => r is Err && r->Err_0 == IommuError::DomainAllocationFailed,
                (Ok(_), Ok(geo)) => {
                    &&& r is Ok
                    &&& r->Ok_0.wf()
                    &&& r->Ok_0.spec_dart() == dart
                    &&& r->Ok_0.geometry() == geo
                    &&& r->Ok_0.tables() == (Tables { tables: seq![root@], stock: Seq::empty() })
                    &&& r->Ok_0.streams() == seq![stream.id]
                    &&& r->Ok_0.firmware() == Some(stream.id)
                },
            },
    {
        let _ = dart.validate_stream(stream)?;
        match DartPageTable::wrap_existing(dart.page_shift(), cpu_page_shift, root) {
            Err(_) => Err(IommuError::DomainAllocationFailed),
            Ok(page_table) => Ok(
                DartDomain {
                    dart,
                    page_table,
                    attached_streams: vec![stream.id],
                    firmware_stream: Some(stream.id),
                },
            ),
        }
    }

    /// The table of the domain, to be worked on.
    pub fn page_table(&mut self) -> (r: &mut DartPageTable<'a>)
        requires
            old(self).wf(),
        ensures
            r.wf(),
            r@ == old(self).tables(),
            r.spec_geometry() == old(self).geometry(),
            final(self).tables() == final(r)@,
            final(self).geometry() == final(r).spec_geometry(),
            final(r).wf() ==> final(self).wf(),
            final(self).spec_dart() == old(self).spec_dart(),
            final(self).streams() == old(self).streams(),
            final(self).firmware() == old(self).firmware(),
    {
        &mut self.page_table
    }

    /// Lets a stream into the domain. Nothing is programmed for the stream of the firmware, and
    /// no other stream is let into its domain.
    pub fn attach_stream(&mut self, stream: IommuStreamId) -> (r: Result<Vec<Step>, IommuError>)
        requires
            old(self).wf(),
        ensures
            final(self).wf(),
            final(self).spec_dart() == old(self).spec_dart(),
            final(self).tables() == old(self).tables(),
            final(self).geometry() == old(self).geometry(),
            final(self).firmware() == old(self).firmware(),
            match stream_of(old(self).spec_dart().spec_params(), stream) {
                Err(e) => r == Err::<Vec<Step>, IommuError>(e) && final(self).streams() == old(
                    self,
                ).streams(),
                Ok(sid) => if old(self).firmware() is Some && old(self).firmware()->Some_0
                    != stream.id {
                    &&& r == Err::<Vec<Step>, IommuError>(IommuError::AttachFailed)
                    &&& final(self).streams() == old(self).streams()
                } else {
                    &&& r is Ok
                    &&& r->Ok_0@ == if old(self).firmware() is Some {
                        Seq::empty()
                    } else {
                        translation_steps(sid as int, old(self).tables().tables[0].paddr)
                    }
                    &&& final(self).streams() == joined(old(self).streams(), stream.id)
                },
            },
    {
        let sid: usize = self.dart.validate_stream(stream)?;
        if let Some(firmware_stream) = self.firmware_stream {
            if stream.id != firmware_stream {
                return Err(IommuError::AttachFailed);
            }
            if !holds(&self.attached_streams, stream.id) {
                self.attached_streams.push(stream.id);
            }
            return Ok(Vec::new());
        }
        let root_paddr: usize = self.page_table.root_paddr();
        let levels: u32 = self.page_table.translation_levels();
        let steps = self.dart.enable_translation(sid, root_paddr, levels);
        if !holds(&self.attached_streams, stream.id) {
            self.attached_streams.push(stream.id);
        }
        Ok(steps)
    }

    /// Takes a stream out of the domain. The stream of the firmware keeps its table.
    pub fn detach_stream(&mut self, stream: IommuStreamId) -> (r: Result<Vec<Step>, IommuError>)
        requires
            old(self).wf(),
        ensures
            final(self).wf(),
            final(self).spec_dart() == old(self).spec_dart(),
            final(self).tables() == old(self).tables(),
            final(self).geometry() == old(self).geometry(),
            final(self).firmware() == old(self).firmware(),
            match stream_of(old(self).spec_dart().spec_params(), stream) {
                Err(e) => r == Err::<Vec<Step>, IommuError>(e) && final(self).streams() == old(
                    self,
                ).streams(),
                Ok(sid) => {
                    &&& r is Ok
                    &&& r->Ok_0@ == if old(self).firmware() is Some {
                        Seq::empty()
                    } else {
                        seq![write32(0, tcr_offset_of(sid as int) as usize, 0)]
                    }
                    &&& final(self).streams() == without(old(self).streams(), stream.id)
                },
            },
    {
        let sid: usize = self.dart.validate_stream(stream)?;
        let steps: Vec<Step> = if self.firmware_stream.is_none() {
            self.dart.disable_translation(sid)
        } else {
            Vec::new()
        };
        self.attached_streams = drop_value(&self.attached_streams, stream.id);
        Ok(steps)
    }

    /// Maps a range, `done` pages of which are mapped already. On success the steps publish the
    /// tables; otherwise memory is asked for, as [`DartPageTable::map_contiguous`] does.
    pub fn map(
        &mut self,
        iova: u64,
        paddr: usize,
        len: usize,
        flags: IommuMapFlags,
        done: usize,
    ) -> (r: Result<Vec<Step>, (usize, Demand)>)
        requires
            old(self).wf(),
            pages_fit(old(self).geometry(), (iova & DART_IAS_MASK) as usize, len),
            pages_fit(old(self).geometry(), paddr, len),
            done <= page_count(old(self).geometry(), len),
        ensures
            final(self).wf(),
            final(self).spec_dart() == old(self).spec_dart(),
            final(self).geometry() == old(self).geometry(),
            final(self).streams() == old(self).streams(),
            final(self).firmware() == old(self).firmware(),
            ({
                let (after, pages, demand) = map_pages(
                    old(self).geometry(),
                    old(self).tables(),
                    (iova & DART_IAS_MASK) as usize,
                    paddr,
                    pte_flags(flags),
                    done as int,
                    page_count(old(self).geometry(), len),
                );
                &&& final(self).tables() == after
                &&& match demand {
                    None => r is Ok && r->Ok_0@ == invalidate_steps(1).push(fail(BUSY)),
                    Some(d) => r is Err && r->Err_0 == (pages as usize, d),
                }
            }),
    {
        match self.page_table.map_contiguous(
            (iova & DART_IAS_MASK) as usize,
            paddr,
            len,
            dart_pte_flags(flags),
            done,
        ) {
            Err(wait) => Err(wait),
            Ok(()) => Ok(self.flush()),
        }
    }

    /// Unmaps a range, `done` pages of which are unmapped already.
    pub fn unmap(&mut self, iova: u64, len: usize, done: usize) -> (r: Result<
        Vec<Step>,
        (usize, Demand),
    >)
        requires
            old(self).wf(),
            pages_fit(old(self).geometry(), (iova & DART_IAS_MASK) as usize, len),
            done <= page_count(old(self).geometry(), len),
        ensures
            final(self).wf(),
            final(self).spec_dart() == old(self).spec_dart(),
            final(self).geometry() == old(self).geometry(),
            final(self).streams() == old(self).streams(),
            final(self).firmware() == old(self).firmware(),
            ({
                let (after, pages, demand) = unmap_pages(
                    old(self).geometry(),
                    old(self).tables(),
                    (iova & DART_IAS_MASK) as usize,
                    done as int,
                    page_count(old(self).geometry(), len),
                );
                &&& final(self).tables() == after
                &&& match demand {
                    None => r is Ok && r->Ok_0@ == invalidate_steps(1).push(fail(BUSY)),
                    Some(d) => r is Err && r->Err_0 == (pages as usize, d),
                }
            }),
    {
        match self.page_table.unmap_contiguous((iova & DART_IAS_MASK) as usize, len, done) {
            Err(wait) => Err(wait),
            Ok(()) => Ok(self.flush()),
        }
    }

    /// What a domain says when the memory that a mapping waits for cannot be had.
    pub fn map_error() -> (r: IommuError)
        ensures
            r == IommuError::MapFailed,
    {
        IommuError::MapFailed
    }

    /// What a domain says when the memory that an unmapping waits for cannot be had.
    pub fn unmap_error() -> (r: IommuError)
        ensures
            r == IommuError::UnmapFailed,
    {
        IommuError::UnmapFailed
    }

    /// The domain does not tell where an address leads.
    pub fn iova_to_phys(&self, _iova: u64) -> (r: Option<usize>)
        ensures
            r is None,
    {
        None
    }

    pub fn page_size(&self) -> (r: usize)
        requires
            self.wf(),
        ensures
            r == self.geometry().table_size,
    {
        self.page_table.page_size()
    }

    pub fn flush(&self) -> (r: Vec<Step>)
        ensures
            r@ == invalidate_steps(1).push(fail(BUSY)),
    {
        self.dart.sync_page_tables()
    }
}

#[derive(Clone, Copy, Debug)]
pub struct DartEntry {
    pub instance: DartInstance,
    pub phandle: u32,
}

/// The DARTs that have been found, in the order in which they were.
pub struct DartRegistry {
    entries: Vec<DartEntry>,
}

impl DartRegistry {
    pub closed spec fn view(&self) -> Seq<DartEntry> {
        self.entries@
    }

    pub fn new() -> (r: Self)
        ensures
            r@ == Seq::<DartEntry>::empty(),
    {
        DartRegistry { entries: Vec::new() }
    }
}

/// The first DART from `i` on with a phandle.
pub open spec fn dart_with(entries: Seq<DartEntry>, phandle: u32, i: int) -> Option<DartInstance>
    decreases entries.len() - i,
{
    if i < 0 || i >= entries.len() {
        None
    } else if entries[i].phandle == phandle {
        Some(entries[i].instance)
    } else {
        dart_with(entries, phandle, i + 1)
    }
}

/// Register a DART instance.
///
/// # Arguments
///
/// * `instance` - DART hardware instance to register.
/// * `phandle` - Firmware phandle for this DART node.
///
/// # Returns
///
/// Numeric registry identifier assigned to the DART instance.
pub fn register_dart(registry: &mut DartRegistry, instance: DartInstance, phandle: u32) -> (r: u32)
    ensures
        r == old(registry)@.len() as u32,
        final(registry)@ == old(registry)@.push(DartEntry { instance, phandle }),
{
    let id: u32 = registry.entries.len() as u32;
    registry.entries.push(DartEntry { instance, phandle });
    id
}

/// Look up a DART instance by registry identifier.
pub fn get_dart(registry: &DartRegistry, id: u32) -> (r: Option<DartInstance>)
    ensures
        r == if (id as int) < registry@.len() {
            Some(registry@[id as int].instance)
        } else {
            None
        },
{
    if (id as usize) < registry.entries.len() {
        Some(registry.entries[id as usize].instance)
    } else {
        None
    }
}

/// Look up a DART instance by firmware phandle.
pub fn get_dart_by_phandle(registry: &DartRegistry, phandle: u32) -> (r: Option<DartInstance>)
    ensures
        r == dart_with(registry@, phandle, 0),
{
    let mut i: usize = 0;
    while i < registry.entries.len()
        invariant
            i <= registry.entries@.len(),
            dart_with(registry@, phandle, 0) == dart_with(registry@, phandle, i as int),
        decreases registry.entries@.len() - i,
    {
        if registry.entries[i].phandle == phandle {
            return Some(registry.entries[i].instance);
        }
        i = i + 1;
    }
    None
}

/// The physical address and size of the register block.
///
/// A memory resource never ends before it starts, nor does it cover all addresses.
pub fn dart_resource(device: &DeviceNode) -> (r: Result<(usize, usize), &'static str>)
    requires
        first_resource(device.resources@, ResourceKind::Mem) matches Some(m) ==> m.start <= m.end
            && m.end - m.start < usize::MAX,
    ensures
        r == match first_resource(device.resources@, ResourceKind::Mem) {
            Some(m) => Ok::<(usize, usize), &'static str>(
                (m.start, (m.end - m.start + 1) as usize),
            ),
            None => Err("apple-dart: no memory resource found"),
        },
{
    let m = find_resource(device.resources.as_slice(), ResourceKind::Mem).ok_or(
        "apple-dart: no memory resource found",
    )?;
    Ok((m.start, m.end - m.start + 1))
}

/// Takes in a DART that was brought up. The result is its identifier and its phandle, 0 where
/// the node has none.
pub fn enroll(registry: &mut DartRegistry, device: &DeviceNode, dart: DartInstance) -> (r: (
    u32,
    u32,
))
    ensures
        r.0 == old(registry)@.len() as u32,
        r.1 == match any_phandle_number(device.properties@) {
            Some(n) => n as u32,
            None => 0,
        },
        final(registry)@ == old(registry)@.push(DartEntry { instance: dart, phandle: r.1 }),
{
    let phandle: u32 = match find_any_phandle_number(device.properties.as_slice()) {
        Some(n) => n as u32,
        None => 0,
    };
    let id: u32 = register_dart(registry, dart, phandle);
    (id, phandle)
}

/// Force linker retention for the Apple DART driver crate.
pub fn force_link() {
}

/// Law: the root pointer of a table leads back to it, for any table that a root pointer can hold.
pub proof fn law_root_pointer_round_trip(paddr: usize)
    requires
        paddr % 0x1000 == 0,
        paddr < 0x800_0000_0000u64,
    ensures
        ttbr_table(ttbr_value(paddr)) == Some(paddr),
{
    let p = paddr as u64;
    lemma_entry_bits(p, 0, 0);
    assert((paddr >> 12) as u32 == (p >> 12) as u32);
}

/// Law: a DART that was registered is found under its identifier, as long as identifiers last;
/// and under its phandle, unless an earlier one has the same.
pub proof fn law_registered_dart_is_found(
    before: Seq<DartEntry>,
    instance: DartInstance,
    phandle: u32,
    i: int,
)
    requires
        0 <= i <= before.len(),
    ensures
        before.push(DartEntry { instance, phandle })[before.len() as int].instance == instance,
        dart_with(before.push(DartEntry { instance, phandle }), phandle, i) == match dart_with(
            before,
            phandle,
            i,
        ) {
            Some(d) => Some(d),
            None => Some(instance),
        },
    decreases before.len() - i,
{
    if i < before.len() {
        law_registered_dart_is_found(before, instance, phandle, i + 1);
    } else {
        assert(dart_with(before.push(DartEntry { instance, phandle }), phandle, i) == Some(
            instance,
        ));
    }
}

/// The fields of the parameter registers as numbers.
proof fn lemma_parameter_bits(raw: u32, width: u32)
    by (bit_vector)
    ensures
        (raw & 0x0f00_0000) >> 24 == (raw / 0x0100_0000) % 16,
        (raw >> 20) & 0xf == (raw / 0x10_0000) % 16,
        raw & 1 != 0 <==> raw % 2 == 1,
        width == 1 ==> 1u32 << width == 2,
        width == 2 ==> 1u32 << width == 4,
        width == 3 ==> 1u32 << width == 8,
        width == 4 ==> 1u32 << width == 16,
        width == 5 ==> 1u32 << width == 32,
        width == 6 ==> 1u32 << width == 64,
        width == 7 ==> 1u32 << width == 128,
        width == 8 ==> 1u32 << width == 256,
        0x0100u32 | 0x1000 == 0x1100,
{
}

/// Law: the parameter registers hold the page size in bits 24 to 27, whether streams can bypass in the
/// lowest bit of the second, and the width of stream numbers in bits 20 to 23: there are as many
/// streams as numbers of that width, from 2 to 256, and 16 for any other width.
pub proof fn law_parameters_are_read_out(raw_params1: u32, raw_params2: u32)
    ensures
        ({
            let params = decoded(raw_params1, raw_params2);
            let width = (raw_params1 / 0x10_0000) % 16;
            &&& params.page_shift == (raw_params1 / 0x0100_0000) % 16
            &&& params.supports_bypass <==> raw_params2 % 2 == 1
            &&& 1 <= width <= 8 ==> params.num_streams == vstd::arithmetic::power2::pow2(
                width as nat,
            )
            &&& width == 0 || width > 8 ==> params.num_streams == 16
        }),
{
    let width = (raw_params1 / 0x10_0000) % 16;
    lemma_parameter_bits(raw_params1, width);
    lemma_parameter_bits(raw_params2, 0);
    vstd::arithmetic::power2::lemma2_to64();
}

/// Law: a stream that is put under translation has the root pointer of its table, and valid, in its
/// own root register before its own control register lets translation begin; cached translations of
/// every stream are dropped after that. No register of another stream is written.
pub proof fn law_stream_is_pointed_at_its_table(sid: int, table: usize)
    requires
        0 <= sid < 256,
        table < 0x800_0000_0000u64,
    ensures
        ({
            let steps = translation_steps(sid, table);
            &&& steps.len() == 7
            &&& steps[0] == (Step::Write { win: 0, offset: 0xfc, value: 0xffff_ffff })
            &&& steps[1] == (Step::Write {
                win: 0,
                offset: (0x200 + 16 * sid) as usize,
                value: (0x8000_0000 + table as int / 0x1000) as u32,
            })
            &&& steps[2] == (Step::Write {
                win: 0,
                offset: (0x100 + 4 * sid) as usize,
                value: 0x80,
            })
            &&& steps[3] is Fence
            &&& steps[4] == (Step::Write { win: 0, offset: 0x34, value: 0xffff_ffff })
            &&& steps[5] == (Step::Write { win: 0, offset: 0x20, value: 0x0010_0000 })
            &&& steps[6] matches Step::Poll { offset, mask, want, .. } && offset == 0x20 && mask == 4
                && want == 0
        }),
{
    lemma_entry_bits(table as u64, 0, 0);
    assert((table >> 12) as u32 == ((table as u64) >> 12) as u32);
    assert(ttbr_value(table) == (0x8000_0000 + table as int / 0x1000) as u32);
}

/// Law: a stream that may bypass is let past translation and past the address filter, and no root
/// pointer is touched; where the hardware cannot, the stream is put under translation with no table.
pub proof fn law_bypass_where_the_hardware_can(params: DartParams, sid: int)
    requires
        0 <= sid < 256,
    ensures
        ({
            let steps = bypass_steps(params, sid);
            &&& steps[0] == (Step::Write { win: 0, offset: 0xfc, value: 0xffff_ffff })
            &&& params.supports_bypass ==> steps.len() == 2 && steps[1] == (Step::Write {
                win: 0,
                offset: (0x100 + 4 * sid) as usize,
                value: 0x1100,
            })
            &&& !params.supports_bypass ==> steps.len() == 8 && steps.subrange(1, 8)
                == translation_steps(sid, 0)
        }),
{
    lemma_parameter_bits(0, 0);
    let steps = bypass_steps(params, sid);
    if !params.supports_bypass {
        assert(steps.subrange(1, 8) =~= translation_steps(sid, 0));
    }
}

/// Law: a stream without a valid root pointer is stopped when a DART is brought up, and one with a
/// root pointer is left alone: the write that stops it is passed over.
pub proof fn law_streams_without_a_root_are_stopped(first: int, sid: int, count: int)
    requires
        0 <= first <= sid < count <= 256,
    ensures
        ({
            let steps = quiet_steps(first, count);
            let at = 2 * (sid - first);
            &&& steps.len() == 2 * (count - first)
            &&& steps[at] == (Step::SkipIf {
                win: 0,
                offset: (0x200 + 16 * sid) as usize,
                mask: 0x8000_0000,
                want: 0x8000_0000,
                skip: 1,
            })
            &&& steps[at + 1] == (Step::Write {
                win: 0,
                offset: (0x100 + 4 * sid) as usize,
                value: 0,
            })
        }),
    decreases count - first,
{
    if first < sid {
        law_streams_without_a_root_are_stopped(first + 1, sid, count);
        let rest = quiet_steps(first + 1, count);
        let steps = quiet_steps(first, count);
        assert(forall|i: int| 0 <= i < rest.len() ==> #[trigger] steps[i + 2] == rest[i]);
        assert(steps[2 * (sid - first - 1) + 2] == rest[2 * (sid - first - 1)]);
        assert(steps[2 * (sid - first - 1) + 1 + 2] == rest[2 * (sid - first - 1) + 1]);
    } else if first + 1 < count {
        law_streams_without_a_root_are_stopped(first + 1, first + 1, count);
    } else {
        reveal_with_fuel(quiet_steps, 2);
    }
}

/// Law: a reference names a stream exactly when it has no substream and the DART has that stream; the
/// stream keeps its number.
pub proof fn law_stream_is_checked(params: DartParams, stream: IommuStreamId)
    ensures
        stream_of(params, stream) matches Ok(sid) ==> sid == stream.id && stream.id
            < params.num_streams && stream.substream_id is None,
        stream_of(params, stream) is Ok <==> stream.substream_id is None && stream.id
            < params.num_streams,
        stream.substream_id is Some ==> stream_of(params, stream) == Err::<usize, IommuError>(
            IommuError::NotSupported,
        ),
        stream.substream_id is None && stream.id >= params.num_streams ==> stream_of(params, stream)
            == Err::<usize, IommuError>(IommuError::AttachFailed),
{
}

/// Law: a domain holds a stream once it joined, holds it no longer once it left, and neither changes
/// which others it holds; joining twice does what joining once does.
pub proof fn law_streams_join_and_leave(streams: Seq<u32>, id: u32, other: u32)
    ensures
        joined(streams, id).contains(id),
        joined(joined(streams, id), id) == joined(streams, id),
        !without(joined(streams, id), id).contains(id),
        other != id ==> (joined(streams, id).contains(other) <==> streams.contains(other)),
        other != id ==> (without(streams, id).contains(other) <==> streams.contains(other)),
{
    crate::arith::law_drop_value(streams, id);
    crate::arith::law_drop_value(joined(streams, id), id);
    if !streams.contains(id) {
        assert(streams.push(id)[streams.len() as int] == id);
        if streams.contains(other) {
            let i = choose|i: int| 0 <= i < streams.len() && streams[i] == other;
            assert(streams.push(id)[i] == other);
        }
    }
}

} // verus!
