//! Native Apple DCP display driver.
//!
//! The driver takes the coprocessor over from the firmware: it rebuilds the mappings that the
//! firmware hands over, boots the coprocessor, selects a panel mode, and presents frames by swapping
//! surfaces.

use vstd::prelude::*;
use crate::dcp_iboot::FramebufferConfig;
use crate::iomfb_wire::{OutputRect, SwapRequest};

verus! {

/// A part of the screen.
#[derive(Clone, Copy, Debug, PartialEq, Eq, Structural)]
pub struct DisplayRegion {
    pub x: u32,
    pub y: u32,
    pub width: u32,
    pub height: u32,
}

/// Bytes of a scanout buffer.
#[derive(Clone, Copy, Debug, PartialEq, Eq, Structural)]
pub struct CleanRange {
    pub start: usize,
    pub len: usize,
}

/// How a scanout buffer is made visible to the coprocessor.
#[derive(Debug)]
pub enum CleanPlan {
    /// A write barrier will do.
    Barrier,
    /// The cache is cleaned for these ranges; the error, if any, comes after them.
    Ranges { ranges: Vec<CleanRange>, error: Option<&'static str> },
}

pub open spec fn min32(a: u32, b: u32) -> u32 {
    if a < b {
        a
    } else {
        b
    }
}

fn lesser(a: u32, b: u32) -> (r: u32)
    ensures
        r == min32(a, b),
{
    if a < b {
        a
    } else {
        b
    }
}

/// What of a region lies on the screen.
pub open spec fn clipped(config: FramebufferConfig, region: DisplayRegion) -> DisplayRegion {
    let x = min32(region.x, config.width);
    let y = min32(region.y, config.height);
    DisplayRegion {
        x,
        y,
        width: min32(region.width, (config.width - x) as u32),
        height: min32(region.height, (config.height - y) as u32),
    }
}

/// The bytes of a region, from its first pixel to its last, with the gaps between its rows. A region
/// that is not on the screen has none.
pub open spec fn damage_of(
    config: FramebufferConfig,
    bytes_per_pixel: usize,
    size: usize,
    region: DisplayRegion,
) -> Result<Option<CleanRange>, &'static str> {
    let part = clipped(config, region);
    let start = part.y * config.stride + part.x * bytes_per_pixel;
    let end = (part.y + part.height - 1) * config.stride + (part.x + part.width) * bytes_per_pixel;
    if part.width == 0 || part.height == 0 {
        Ok(None)
    } else if start > usize::MAX {
        Err("apple-dcp: scanout damage offset overflow")
    } else if end > usize::MAX {
        Err("apple-dcp: scanout damage end overflow")
    } else if end > size {
        Err("apple-dcp: scanout damage exceeds buffer")
    } else {
        Ok(Some(CleanRange { start: start as usize, len: (end - start) as usize }))
    }
}

fn clip(config: &FramebufferConfig, region: &DisplayRegion) -> (r: DisplayRegion)
    ensures
        r == clipped(*config, *region),
        r.x + r.width <= config.width,
        r.y + r.height <= config.height,
{
    let x: u32 = lesser(region.x, config.width);
    let y: u32 = lesser(region.y, config.height);
    DisplayRegion {
        x,
        y,
        width: lesser(region.width, config.width - x),
        height: lesser(region.height, config.height - y),
    }
}

/// The bytes of a region of a frame of `size` bytes.
pub fn damage(
    config: &FramebufferConfig,
    bytes_per_pixel: usize,
    size: usize,
    region: &DisplayRegion,
) -> (r: Result<Option<CleanRange>, &'static str>)
    requires
        config.width * bytes_per_pixel <= usize::MAX,
    ensures
        r == damage_of(*config, bytes_per_pixel, size, *region),
{
    let part = clip(config, region);
    if part.width == 0 || part.height == 0 {
        return Ok(None);
    }
    let stride: usize = config.stride as usize;
    let (x, y) = (part.x as usize, part.y as usize);
    let (right, bottom) = (x + part.width as usize, y + part.height as usize);
    assert(x * bytes_per_pixel <= right * bytes_per_pixel <= config.width * bytes_per_pixel)
        by (nonlinear_arith)
        requires
            x <= right <= config.width,
            bytes_per_pixel >= 0,
    ;
    assert(y * stride <= (bottom - 1) * stride) by (nonlinear_arith)
        requires
            y <= bottom - 1,
            stride >= 0,
    ;
    assert(x * bytes_per_pixel + bytes_per_pixel <= right * bytes_per_pixel) by (nonlinear_arith)
        requires
            x + 1 <= right,
            bytes_per_pixel >= 0,
    ;
    let start: usize = match y.checked_mul(stride) {
        Some(row) => match row.checked_add(x * bytes_per_pixel) {
            Some(start) => start,
            None => return Err("apple-dcp: scanout damage offset overflow"),
        },
        None => return Err("apple-dcp: scanout damage offset overflow"),
    };
    let end: usize = match (bottom - 1).checked_mul(stride) {
        Some(row) => match row.checked_add(right * bytes_per_pixel) {
            Some(end) => end,
            None => return Err("apple-dcp: scanout damage end overflow"),
        },
        None => return Err("apple-dcp: scanout damage end overflow"),
    };
    if end > size {
        return Err("apple-dcp: scanout damage exceeds buffer");
    }
    Ok(Some(CleanRange { start, len: end - start }))
}

/// The ranges of the regions from `i` on, behind those in `done`, as far as the first region that is
/// refused.
pub open spec fn damages_from(
    config: FramebufferConfig,
    bytes_per_pixel: usize,
    size: usize,
    regions: Seq<DisplayRegion>,
    i: int,
    done: Seq<CleanRange>,
) -> (Seq<CleanRange>, Option<&'static str>)
    decreases regions.len() - i,
{
    if i < 0 || i >= regions.len() {
        (done, None)
    } else {
        match damage_of(config, bytes_per_pixel, size, regions[i]) {
            Err(error) => (done, Some(error)),
            Ok(None) => damages_from(config, bytes_per_pixel, size, regions, i + 1, done),
            Ok(Some(range)) => damages_from(
                config,
                bytes_per_pixel,
                size,
                regions,
                i + 1,
                done.push(range),
            ),
        }
    }
}

/// Plans how a scanout buffer of `size` bytes is made visible. `cached` tells whether it is ordinary
/// memory. No region stands for all of it.
pub fn clean_scanout_regions(
    config: &FramebufferConfig,
    bytes_per_pixel: usize,
    size: usize,
    cached: bool,
    regions: &Vec<DisplayRegion>,
) -> (r: CleanPlan)
    requires
        config.width * bytes_per_pixel <= usize::MAX,
    ensures
        match r {
            CleanPlan::Barrier => !cached,
            CleanPlan::Ranges { ranges, error } => cached && (ranges@, error) == if regions@.len()
                == 0 {
                (seq![CleanRange { start: 0, len: size }], None)
            } else {
                damages_from(*config, bytes_per_pixel, size, regions@, 0, Seq::empty())
            },
        },
{
    if !cached {
        return CleanPlan::Barrier;
    }
    let mut ranges: Vec<CleanRange> = Vec::new();
    if regions.len() == 0 {
        ranges.push(CleanRange { start: 0, len: size });
        assert(ranges@ =~= seq![CleanRange { start: 0, len: size }]);
        return CleanPlan::Ranges { ranges, error: None };
    }
    assert(ranges@ =~= Seq::<CleanRange>::empty());
    let mut i: usize = 0;
    while i < regions.len()
        invariant
            i <= regions@.len(),
            regions@.len() > 0,
            cached,
            config.width * bytes_per_pixel <= usize::MAX,
            damages_from(*config, bytes_per_pixel, size, regions@, 0, Seq::empty())
                == damages_from(
                *config,
                bytes_per_pixel,
                size,
                regions@,
                i as int,
                ranges@,
            ),
        decreases regions@.len() - i,
    {
        match damage(config, bytes_per_pixel, size, &regions[i]) {
            Err(error) => return CleanPlan::Ranges { ranges, error: Some(error) },
            Ok(None) => {},
            Ok(Some(range)) => ranges.push(range),
        }
        i = i + 1;
    }
    CleanPlan::Ranges { ranges, error: None }
}

/// The display with its two scanout buffers. `front` is the one that is shown.
#[derive(Clone, Copy, Debug, PartialEq, Eq)]
pub struct AppleDcpGraphics {
    pub config: FramebufferConfig,
    pub scanout_paddr: (usize, usize),
    pub scanout_dva: (u64, u64),
    pub front: usize,
    pub destination: OutputRect,
    pub external_mirror: bool,
}

/// The address of a buffer.
pub open spec fn paddr_of(g: AppleDcpGraphics, index: usize) -> usize {
    if index == 0 {
        g.scanout_paddr.0
    } else {
        g.scanout_paddr.1
    }
}

/// The address of a buffer, as the coprocessor calls it.
pub open spec fn dva_of(g: AppleDcpGraphics, index: usize) -> u64 {
    if index == 0 {
        g.scanout_dva.0
    } else {
        g.scanout_dva.1
    }
}

/// The other buffer.
pub open spec fn other(index: usize) -> usize {
    if index == 0 {
        1
    } else {
        0
    }
}

impl AppleDcpGraphics {
    /// One of the two buffers is shown.
    pub open spec fn wf(&self) -> bool {
        self.front < 2
    }

    pub fn new(
        config: FramebufferConfig,
        scanout_paddr: (usize, usize),
        scanout_dva: (u64, u64),
        destination: OutputRect,
        external_mirror: bool,
    ) -> (r: Self)
        ensures
            r.wf(),
            r == (AppleDcpGraphics {
                config,
                scanout_paddr,
                scanout_dva,
                front: 0,
                destination,
                external_mirror,
            }),
    {
        AppleDcpGraphics {
            config,
            scanout_paddr,
            scanout_dva,
            front: 0,
            destination,
            external_mirror,
        }
    }

    pub fn scanout_buffer_count(&self) -> (r: usize)
        ensures
            r == 2,
    {
        2
    }

    pub fn front_scanout_buffer(&self) -> (r: Option<usize>)
        ensures
            r == Some(self.front),
    {
        Some(self.front)
    }

    fn paddr(&self, index: usize) -> (r: usize)
        ensures
            r == paddr_of(*self, index),
    {
        if index == 0 {
            self.scanout_paddr.0
        } else {
            self.scanout_paddr.1
        }
    }

    /// The buffer that is drawn on: the one that is not shown.
    pub fn back_buffer(&self) -> (r: usize)
        requires
            self.wf(),
        ensures
            r == other(self.front),
    {
        if self.front == 0 {
            1
        } else {
            0
        }
    }

    pub fn get_framebuffer_address(&self) -> (r: usize)
        requires
            self.wf(),
        ensures
            r == paddr_of(*self, other(self.front)),
    {
        self.paddr(self.back_buffer())
    }

    pub fn get_scanout_buffer_info(&self, index: usize) -> (r: Result<
        (FramebufferConfig, usize),
        &'static str,
    >)
        ensures
            r == if index < 2 {
                Ok::<(FramebufferConfig, usize), &'static str>(
                    (self.config, paddr_of(*self, index)),
                )
            } else {
                Err("apple-dcp: invalid scanout buffer index")
            },
    {
        if index < 2 {
            Ok((self.config, self.paddr(index)))
        } else {
            Err("apple-dcp: invalid scanout buffer index")
        }
    }

    /// Checks that a frame is in the back buffer; the buffer that is to be shown comes back.
    pub fn present_framebuffer_region(
        &self,
        config: &FramebufferConfig,
        physical_addr: usize,
    ) -> (r: Result<usize, &'static str>)
        requires
            self.wf(),
        ensures
            r == if physical_addr == paddr_of(*self, other(self.front)) && *config == self.config {
                Ok::<usize, &'static str>(other(self.front))
            } else {
                Err("apple-dcp: framebuffer does not match back buffer")
            },
    {
        let back: usize = self.back_buffer();
        if physical_addr != self.paddr(back) || config.width != self.config.width || config.height
            != self.config.height || config.stride != self.config.stride || config.format
            != self.config.format {
            return Err("apple-dcp: framebuffer does not match back buffer");
        }
        Ok(back)
    }

    /// Checks that a buffer can be shown.
    pub fn present_scanout_buffer(&self, index: usize) -> (r: Result<(), &'static str>)
        ensures
            r == if index >= 2 {
                Err::<(), &'static str>("apple-dcp: invalid scanout buffer index")
            } else if index == self.front {
                Err("apple-dcp: scanout buffer is already front-most")
            } else {
                Ok(())
            },
    {
        if index >= 2 {
            return Err("apple-dcp: invalid scanout buffer index");
        }
        if index == self.front {
            return Err("apple-dcp: scanout buffer is already front-most");
        }
        Ok(())
    }

    /// The swap that shows a buffer.
    pub fn swap_request(&self, index: usize, swap_id: u32) -> (r: SwapRequest)
        requires
            index < 2,
        ensures
            r == (SwapRequest {
                swap_id,
                surface_dva: dva_of(*self, index),
                width: self.config.width,
                height: self.config.height,
                stride: self.config.stride,
                destination: self.destination,
            }),
    {
        let surface_dva: u64 = if index == 0 {
            self.scanout_dva.0
        } else {
            self.scanout_dva.1
        };
        SwapRequest {
            swap_id,
            surface_dva,
            width: self.config.width,
            height: self.config.height,
            stride: self.config.stride,
            destination: self.destination,
        }
    }

    /// Takes note of a complete swap. Tells whether the external display is to follow: the internal
    /// panel comes first, so that a failure of the external link cannot hold it back.
    pub fn presented(&mut self, index: usize) -> (r: bool)
        requires
            index < 2,
        ensures
            final(self).wf(),
            *final(self) == (AppleDcpGraphics { front: index, ..*old(self) }),
            r == old(self).external_mirror,
    {
        self.front = index;
        self.external_mirror
    }

    /// Takes note of a failure on the external display: it is given up, so that no later frame waits
    /// for it. Tells whether it had been in use.
    pub fn mirror_failed(&mut self) -> (r: bool)
        ensures
            *final(self) == (AppleDcpGraphics { external_mirror: false, ..*old(self) }),
            r == old(self).external_mirror,
    {
        let was: bool = self.external_mirror;
        self.external_mirror = false;
        was
    }
}

/// Keep the driver object linked into module builds.
pub fn force_link() {
}

/// Law: a frame that is accepted for presentation is never in the buffer that is shown.
pub proof fn law_shown_buffer_is_not_drawn_on(g: AppleDcpGraphics)
    requires
        g.wf(),
    ensures
        other(g.front) < 2,
        other(g.front) != g.front,
        other(other(g.front)) == g.front,
{
}

/// Law: the bytes that are cleaned for a region lie in the buffer and hold every pixel of the region
/// that is on the screen.
pub proof fn law_damage_covers_the_region(
    config: FramebufferConfig,
    bytes_per_pixel: usize,
    size: usize,
    region: DisplayRegion,
    x: int,
    y: int,
)
    requires
        damage_of(config, bytes_per_pixel, size, region) matches Ok(Some(range)),
        region.x <= x < region.x + region.width,
        region.y <= y < region.y + region.height,
        0 <= x < config.width,
        0 <= y < config.height,
    ensures
        ({
            let range = damage_of(config, bytes_per_pixel, size, region)->Ok_0->Some_0;
            let pixel = y * config.stride + x * bytes_per_pixel;
            &&& range.start <= pixel
            &&& pixel + bytes_per_pixel <= range.start + range.len
            &&& range.start + range.len <= size
        }),
{
    let part = clipped(config, region);
    let (s, b) = (config.stride as int, bytes_per_pixel as int);
    let (left, top) = (part.x as int, part.y as int);
    let (right, bottom) = (part.x + part.width, part.y + part.height);
    assert(left <= x < right && top <= y < bottom);
    assert(top * s <= y * s <= (bottom - 1) * s) by (nonlinear_arith)
        requires
            top <= y <= bottom - 1,
            s >= 0,
    ;
    assert(left * b <= x * b && x * b + b <= right * b) by (nonlinear_arith)
        requires
            left <= x,
            x + 1 <= right,
            b >= 0,
    ;
}

} // verus!
