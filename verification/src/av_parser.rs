//! The list of audio modes that a DisplayPort sink offers, as serialized by DCP.
//!
//! The format is a sequence of tagged objects. A tag is a little-endian word on
//! a four-byte boundary: 24 bits of size, 5 bits of kind, 2 bits that must be
//! clear, and a bit that marks the last object of a collection.

use vstd::prelude::*;
use vstd::string::*;
use crate::bytes::{get_le32, get_le64, le32, le64, same_bytes};

verus! {

pub const OSSERIALIZE_MAGIC: u32 = 0xd3;
pub const OS_TYPE_DICTIONARY: u8 = 1;
pub const OS_TYPE_ARRAY: u8 = 2;
pub const OS_TYPE_INT64: u8 = 4;
pub const OS_TYPE_STRING: u8 = 9;
pub const OS_TYPE_BLOB: u8 = 10;
pub const OS_TYPE_BOOL: u8 = 11;

/// Opaque mode token returned by the display sink through DCP.
pub type DcpAvAudioCookie = [u8; 24];

#[derive(Clone, Copy, Debug, PartialEq, Eq, Structural)]
pub struct OsTag {
    pub size: usize,
    pub kind: u8,
}

/// The end of `count` bytes from `pos` on.
pub open spec fn bytes_at(b: Seq<u8>, pos: int, count: int) -> Result<int, &'static str> {
    if pos + count > usize::MAX {
        Err("apple-dcpext: audio elements cursor overflow")
    } else if pos + count > b.len() {
        Err("apple-dcpext: truncated audio elements object")
    } else {
        Ok(pos + count)
    }
}

/// The next position that a tag can stand at.
pub open spec fn boundary(pos: int) -> int {
    (pos + 3) / 4 * 4
}

/// The tag behind `pos`, and where it ends.
pub open spec fn tag_at(b: Seq<u8>, pos: int) -> Result<(OsTag, int), &'static str> {
    if pos + 3 > usize::MAX {
        Err("apple-dcpext: audio elements cursor overflow")
    } else if boundary(pos) > b.len() {
        Err("apple-dcpext: truncated audio elements padding")
    } else {
        match bytes_at(b, boundary(pos), 4) {
            Err(e) => Err(e),
            Ok(end) => {
                let raw = le32(b, boundary(pos));
                if raw / 0x2000_0000 % 4 != 0 {
                    Err("apple-dcpext: unsupported audio elements tag padding")
                } else {
                    Ok(
                        (
                            OsTag {
                                size: (raw % 0x100_0000) as usize,
                                kind: (raw / 0x100_0000 % 0x20) as u8,
                            },
                            end,
                        ),
                    )
                }
            },
        }
    }
}

/// The size in a tag of the given kind, and where the tag ends.
pub open spec fn expected_at(b: Seq<u8>, pos: int, kind: u8) -> Result<(int, int), &'static str> {
    match tag_at(b, pos) {
        Err(e) => Err(e),
        Ok((tag, end)) => if tag.kind != kind {
            Err("apple-dcpext: unexpected audio elements object type")
        } else {
            Ok((tag.size as int, end))
        },
    }
}

/// A string, and where it ends.
pub open spec fn string_at(b: Seq<u8>, pos: int) -> Result<(Seq<u8>, int), &'static str> {
    match expected_at(b, pos, OS_TYPE_STRING) {
        Err(e) => Err(e),
        Ok((size, start)) => match bytes_at(b, start, size) {
            Err(e) => Err(e),
            Ok(end) => Ok((b.subrange(start, end), end)),
        },
    }
}

/// A signed 64-bit number, and where it ends. Of the number only what fits in 32 bits matters.
pub open spec fn number_at(b: Seq<u8>, pos: int) -> Result<(Option<u32>, int), &'static str> {
    match expected_at(b, pos, OS_TYPE_INT64) {
        Err(e) => Err(e),
        Ok((_, start)) => match bytes_at(b, start, 8) {
            Err(e) => Err(e),
            Ok(end) => Ok(
                (
                    if le64(b, start) <= u32::MAX {
                        Some(le64(b, start) as u32)
                    } else {
                        None
                    },
                    end,
                ),
            ),
        },
    }
}

/// The first 24 bytes of a blob, and where the blob ends.
pub open spec fn cookie_at(b: Seq<u8>, pos: int) -> Result<(Seq<u8>, int), &'static str> {
    match expected_at(b, pos, OS_TYPE_BLOB) {
        Err(e) => Err(e),
        Ok((size, start)) => match bytes_at(b, start, size) {
            Err(e) => Err(e),
            Ok(end) => if size < 24 {
                Err("apple-dcpext: short DCP audio cookie")
            } else {
                Ok((b.subrange(start, start + 24), end))
            },
        },
    }
}

/// The end of `pending` objects, with all that is in them.
pub open spec fn skipped(b: Seq<u8>, pos: int, pending: int) -> Result<int, &'static str>
    decreases b.len() - pos,
    when 0 <= pos
{
    if pending <= 0 {
        Ok(pos)
    } else {
        match tag_at(b, pos) {
            Err(e) => Err(e),
            Ok((tag, end)) => if tag.kind == OS_TYPE_DICTIONARY {
                skipped(b, end, pending - 1 + 2 * tag.size)
            } else if tag.kind == OS_TYPE_ARRAY {
                skipped(b, end, pending - 1 + tag.size)
            } else if tag.kind == OS_TYPE_BOOL {
                skipped(b, end, pending - 1)
            } else if tag.kind == OS_TYPE_INT64 || tag.kind == OS_TYPE_STRING || tag.kind
                == OS_TYPE_BLOB {
                let count = if tag.kind == OS_TYPE_INT64 {
                    8
                } else {
                    tag.size as int
                };
                match bytes_at(b, end, count) {
                    Err(e) => Err(e),
                    Ok(end) => skipped(b, end, pending - 1),
                }
            } else {
                Err("apple-dcpext: unsupported audio elements object type")
            },
        }
    }
}

/// The channel count in the `pairs` entries of a channel layout: the last one given.
pub open spec fn layout_at(b: Seq<u8>, pos: int, pairs: int, active: Option<u32>) -> Result<
    (Option<u32>, int),
    &'static str,
>
    decreases pairs,
{
    if pairs <= 0 {
        Ok((active, pos))
    } else {
        match string_at(b, pos) {
            Err(e) => Err(e),
            Ok((key, next)) => if key == "ActiveChannelCount".spec_bytes() {
                match number_at(b, next) {
                    Err(e) => Err(e),
                    Ok((n, end)) => layout_at(b, end, pairs - 1, n),
                }
            } else {
                match skipped(b, next, 1) {
                    Err(e) => Err(e),
                    Ok(end) => layout_at(b, end, pairs - 1, active),
                }
            },
        }
    }
}

/// Whether one of `count` channel layouts has the wanted number of channels.
pub open spec fn layouts_at(b: Seq<u8>, pos: int, count: int, wanted: u32, matched: bool) -> Result<
    (bool, int),
    &'static str,
>
    decreases count,
{
    if count <= 0 {
        Ok((matched, pos))
    } else {
        match expected_at(b, pos, OS_TYPE_DICTIONARY) {
            Err(e) => Err(e),
            Ok((pairs, start)) => match layout_at(b, start, pairs, None) {
                Err(e) => Err(e),
                Ok((active, end)) => layouts_at(
                    b,
                    end,
                    count - 1,
                    wanted,
                    matched || active == Some(wanted),
                ),
            },
        }
    }
}

/// What is known of an audio mode.
#[verifier::ext_equal]
pub struct ElementView {
    pub rate: Option<u32>,
    pub bits: Option<u32>,
    pub channels_match: bool,
    pub cookie: Option<Seq<u8>>,
}

/// The `pairs` entries of an audio mode; what is given last counts, and unknown entries are
/// passed over.
pub open spec fn element_at(
    b: Seq<u8>,
    pos: int,
    pairs: int,
    channels: u32,
    so_far: ElementView,
) -> Result<(ElementView, int), &'static str>
    decreases pairs,
{
    if pairs <= 0 {
        Ok((so_far, pos))
    } else {
        match string_at(b, pos) {
            Err(e) => Err(e),
            Ok((key, next)) => if key == "StreamSampleRate".spec_bytes() {
                match number_at(b, next) {
                    Err(e) => Err(e),
                    Ok((n, end)) => element_at(
                        b,
                        end,
                        pairs - 1,
                        channels,
                        ElementView { rate: n, ..so_far },
                    ),
                }
            } else if key == "SampleSize".spec_bytes() {
                match number_at(b, next) {
                    Err(e) => Err(e),
                    Ok((n, end)) => element_at(
                        b,
                        end,
                        pairs - 1,
                        channels,
                        ElementView { bits: n, ..so_far },
                    ),
                }
            } else if key == "AudioChannelLayoutElements".spec_bytes() {
                match expected_at(b, next, OS_TYPE_ARRAY) {
                    Err(e) => Err(e),
                    Ok((count, start)) => match layouts_at(b, start, count, channels, false) {
                        Err(e) => Err(e),
                        Ok((m, end)) => element_at(
                            b,
                            end,
                            pairs - 1,
                            channels,
                            ElementView { channels_match: m, ..so_far },
                        ),
                    },
                }
            } else if key == "ElementData".spec_bytes() {
                match cookie_at(b, next) {
                    Err(e) => Err(e),
                    Ok((c, end)) => element_at(
                        b,
                        end,
                        pairs - 1,
                        channels,
                        ElementView { cookie: Some(c), ..so_far },
                    ),
                }
            } else {
                match skipped(b, next, 1) {
                    Err(e) => Err(e),
                    Ok(end) => element_at(b, end, pairs - 1, channels, so_far),
                }
            },
        }
    }
}

pub open spec fn nothing_known() -> ElementView {
    ElementView { rate: None, bits: None, channels_match: false, cookie: None }
}

/// The token of an audio mode that is exactly the wanted one.
pub open spec fn matching(e: ElementView, rate: u32, bits: u32) -> Option<Seq<u8>> {
    if e.rate == Some(rate) && e.bits == Some(bits) && e.channels_match {
        e.cookie
    } else {
        None
    }
}

/// The token of the first of `count` audio modes that is the wanted one.
pub open spec fn first_match(
    b: Seq<u8>,
    pos: int,
    count: int,
    rate: u32,
    bits: u32,
    channels: u32,
) -> Result<Seq<u8>, &'static str>
    decreases count,
{
    if count <= 0 {
        Err("apple-dcpext: requested DisplayPort audio mode is unsupported")
    } else {
        match expected_at(b, pos, OS_TYPE_DICTIONARY) {
            Err(e) => Err(e),
            Ok((pairs, start)) => match element_at(b, start, pairs, channels, nothing_known()) {
                Err(e) => Err(e),
                Ok((element, end)) => match matching(element, rate, bits) {
                    Some(cookie) => Ok(cookie),
                    None => first_match(b, end, count - 1, rate, bits, channels),
                },
            },
        }
    }
}

/// The token for an audio mode in a list of modes.
pub open spec fn selected(b: Seq<u8>, rate: u32, bits: u32, channels: u32) -> Result<
    Seq<u8>,
    &'static str,
> {
    if channels == 0 || channels > 16 {
        Err("apple-dcpext: invalid DisplayPort audio channel count")
    } else if b.len() < 4 {
        Err("apple-dcpext: truncated audio elements header")
    } else if le32(b, 0) != OSSERIALIZE_MAGIC {
        Err("apple-dcpext: invalid audio elements serialization")
    } else {
        match expected_at(b, 4, OS_TYPE_ARRAY) {
            Err(e) => Err(e),
            Ok((count, start)) => first_match(b, start, count, rate, bits, channels),
        }
    }
}

/// A cursor over serialized objects.
pub struct OsObjectParser<'a> {
    bytes: &'a [u8],
    pos: usize,
}

impl<'a> OsObjectParser<'a> {
    pub closed spec fn input(&self) -> Seq<u8> {
        self.bytes@
    }

    pub closed spec fn at(&self) -> int {
        self.pos as int
    }

    pub open spec fn wf(&self) -> bool {
        0 <= self.at() <= self.input().len() <= usize::MAX
    }

    pub fn new(bytes: &'a [u8]) -> (r: Result<Self, &'static str>)
        ensures
            match r {
                Ok(p) => {
                    &&& bytes@.len() >= 4
                    &&& le32(bytes@, 0) == OSSERIALIZE_MAGIC
                    &&& p.wf()
                    &&& p.input() == bytes@
                    &&& p.at() == 4
                },
                Err(e) => if bytes@.len() < 4 {
                    e == "apple-dcpext: truncated audio elements header"
                } else {
                    &&& le32(bytes@, 0) != OSSERIALIZE_MAGIC
                    &&& e == "apple-dcpext: invalid audio elements serialization"
                },
            },
    {
        if bytes.len() < 4 {
            return Err("apple-dcpext: truncated audio elements header");
        }
        if get_le32(bytes, 0) != OSSERIALIZE_MAGIC {
            return Err("apple-dcpext: invalid audio elements serialization");
        }
        Ok(OsObjectParser { bytes, pos: 4 })
    }

    /// Moves past `count` bytes and returns where they started.
    fn bytes(&mut self, count: usize) -> (r: Result<usize, &'static str>)
        requires
            old(self).wf(),
        ensures
            final(self).wf(),
            final(self).input() == old(self).input(),
            match bytes_at(old(self).input(), old(self).at(), count as int) {
                Ok(end) => {
                    &&& r == Ok::<usize, &'static str>(old(self).at() as usize)
                    &&& final(self).at() == end
                },
                Err(e) => r == Err::<usize, &'static str>(e),
            },
    {
        let start: usize = self.pos;
        let end: usize = start.checked_add(count).ok_or(
            "apple-dcpext: audio elements cursor overflow",
        )?;
        if end > self.bytes.len() {
            return Err("apple-dcpext: truncated audio elements object");
        }
        self.pos = end;
        Ok(start)
    }

    fn tag(&mut self) -> (r: Result<OsTag, &'static str>)
        requires
            old(self).wf(),
        ensures
            final(self).wf(),
            final(self).input() == old(self).input(),
            match tag_at(old(self).input(), old(self).at()) {
                Ok((tag, end)) => r == Ok::<OsTag, &'static str>(tag) && final(self).at() == end,
                Err(e) => r == Err::<OsTag, &'static str>(e),
            },
    {
        let padded: usize = self.pos.checked_add(3).ok_or(
            "apple-dcpext: audio elements cursor overflow",
        )?;
        let aligned: usize = padded / 4 * 4;
        if aligned > self.bytes.len() {
            return Err("apple-dcpext: truncated audio elements padding");
        }
        self.pos = aligned;
        let start: usize = self.bytes(4)?;
        let raw: u32 = get_le32(self.bytes, start);
        if raw / 0x2000_0000 % 4 != 0 {
            return Err("apple-dcpext: unsupported audio elements tag padding");
        }
        Ok(
            OsTag {
                size: (raw % 0x100_0000) as usize,
                kind: (raw / 0x100_0000 % 0x20) as u8,
            },
        )
    }

    fn expect_tag(&mut self, kind: u8) -> (r: Result<usize, &'static str>)
        requires
            old(self).wf(),
        ensures
            final(self).wf(),
            final(self).input() == old(self).input(),
            match expected_at(old(self).input(), old(self).at(), kind) {
                Ok((size, end)) => r is Ok && r->Ok_0 == size && final(self).at() == end,
                Err(e) => r == Err::<usize, &'static str>(e),
            },
    {
        let tag = self.tag()?;
        if tag.kind != kind {
            return Err("apple-dcpext: unexpected audio elements object type");
        }
        Ok(tag.size)
    }

    fn string(&mut self) -> (r: Result<&'a [u8], &'static str>)
        requires
            old(self).wf(),
        ensures
            final(self).wf(),
            final(self).input() == old(self).input(),
            match string_at(old(self).input(), old(self).at()) {
                Ok((s, end)) => r is Ok && r->Ok_0@ == s && final(self).at() == end,
                Err(e) => r is Err && r->Err_0 == e,
            },
    {
        let size: usize = self.expect_tag(OS_TYPE_STRING)?;
        let start: usize = self.bytes(size)?;
        let bytes: &'a [u8] = self.bytes;
        Ok(vstd::slice::slice_subrange(bytes, start, start + size))
    }

    /// A number, where it fits in 32 bits.
    fn number(&mut self) -> (r: Result<Option<u32>, &'static str>)
        requires
            old(self).wf(),
        ensures
            final(self).wf(),
            final(self).input() == old(self).input(),
            match number_at(old(self).input(), old(self).at()) {
                Ok((n, end)) => r == Ok::<Option<u32>, &'static str>(n) && final(self).at() == end,
                Err(e) => r == Err::<Option<u32>, &'static str>(e),
            },
    {
        let _ = self.expect_tag(OS_TYPE_INT64)?;
        let start: usize = self.bytes(8)?;
        let value: u64 = get_le64(self.bytes, start);
        if value <= u32::MAX as u64 {
            Ok(Some(value as u32))
        } else {
            Ok(None)
        }
    }

    fn blob_cookie(&mut self) -> (r: Result<DcpAvAudioCookie, &'static str>)
        requires
            old(self).wf(),
        ensures
            final(self).wf(),
            final(self).input() == old(self).input(),
            match cookie_at(old(self).input(), old(self).at()) {
                Ok((c, end)) => r is Ok && r->Ok_0@ == c && final(self).at() == end,
                Err(e) => r is Err && r->Err_0 == e,
            },
    {
        let size: usize = self.expect_tag(OS_TYPE_BLOB)?;
        let start: usize = self.bytes(size)?;
        if size < 24 {
            return Err("apple-dcpext: short DCP audio cookie");
        }
        let mut cookie: DcpAvAudioCookie = [0u8; 24];
        let mut i: usize = 0;
        while i < 24
            invariant
                i <= 24,
                cookie@.len() == 24,
                start + 24 <= self.bytes@.len() <= usize::MAX,
                forall|k: int| 0 <= k < i ==> cookie@[k] == self.bytes@[start + k],
            decreases 24 - i,
        {
            cookie[i] = self.bytes[start + i];
            i = i + 1;
        }
        assert(cookie@ =~= self.bytes@.subrange(start as int, start + 24));
        Ok(cookie)
    }

    /// Passes over one object and all that is in it.
    fn skip(&mut self) -> (r: Result<(), &'static str>)
        requires
            old(self).wf(),
        ensures
            final(self).wf(),
            final(self).input() == old(self).input(),
            match skipped(old(self).input(), old(self).at(), 1) {
                Ok(end) => r == Ok::<(), &'static str>(()) && final(self).at() == end,
                Err(e) => r == Err::<(), &'static str>(e),
            },
    {
        let mut pending: u128 = 1;
        while pending > 0
            invariant
                self.wf(),
                self.input() == old(self).input(),
                pending <= 1 + 0x200_0000 * self.at(),
                skipped(old(self).input(), old(self).at(), 1) == skipped(
                    self.input(),
                    self.at(),
                    pending as int,
                ),
            decreases self.input().len() - self.at(), pending,
        {
            let tag = self.tag()?;
            pending = pending - 1;
            if tag.kind == OS_TYPE_DICTIONARY {
                pending = pending + 2 * (tag.size as u128);
            } else if tag.kind == OS_TYPE_ARRAY {
                pending = pending + (tag.size as u128);
            } else if tag.kind == OS_TYPE_INT64 {
                let _ = self.bytes(8)?;
            } else if tag.kind == OS_TYPE_STRING || tag.kind == OS_TYPE_BLOB {
                let _ = self.bytes(tag.size)?;
            } else if tag.kind != OS_TYPE_BOOL {
                return Err("apple-dcpext: unsupported audio elements object type");
            }
        }
        Ok(())
    }
}

/// Looks for an audio mode in the list of modes that a sink offers.
pub fn select_cookie(elements: &[u8], rate_hz: u32, sample_bits: u32, channels: u32) -> (r: Result<
    DcpAvAudioCookie,
    &'static str,
>)
    ensures
        match selected(elements@, rate_hz, sample_bits, channels) {
            Ok(cookie) => r is Ok && r->Ok_0@ == cookie,
            Err(e) => r is Err && r->Err_0 == e,
        },
{
    if channels == 0 || channels > 16 {
        return Err("apple-dcpext: invalid DisplayPort audio channel count");
    }
    let mut parser = OsObjectParser::new(elements)?;
    let count: usize = parser.expect_tag(OS_TYPE_ARRAY)?;
    let mut i: usize = 0;
    while i < count
        invariant
            i <= count,
            parser.wf(),
            parser.input() == elements@,
            selected(elements@, rate_hz, sample_bits, channels) == first_match(
                elements@,
                parser.at(),
                count - i,
                rate_hz,
                sample_bits,
                channels,
            ),
        decreases count - i,
    {
        if let Some(cookie) = parse_audio_element(&mut parser, rate_hz, sample_bits, channels)? {
            return Ok(cookie);
        }
        i = i + 1;
    }
    Err("apple-dcpext: requested DisplayPort audio mode is unsupported")
}

/// One audio mode and where it ends.
pub open spec fn mode_at(b: Seq<u8>, pos: int, rate: u32, bits: u32, channels: u32) -> Result<
    (Option<Seq<u8>>, int),
    &'static str,
> {
    match expected_at(b, pos, OS_TYPE_DICTIONARY) {
        Err(e) => Err(e),
        Ok((pairs, start)) => match element_at(b, start, pairs, channels, nothing_known()) {
            Err(e) => Err(e),
            Ok((element, end)) => Ok((matching(element, rate, bits), end)),
        },
    }
}

fn parse_audio_element(
    parser: &mut OsObjectParser,
    wanted_rate: u32,
    wanted_bits: u32,
    wanted_channels: u32,
) -> (r: Result<Option<DcpAvAudioCookie>, &'static str>)
    requires
        old(parser).wf(),
    ensures
        final(parser).wf(),
        final(parser).input() == old(parser).input(),
        match mode_at(
            old(parser).input(),
            old(parser).at(),
            wanted_rate,
            wanted_bits,
            wanted_channels,
        ) {
            Err(e) => r is Err && r->Err_0 == e,
            Ok((found, end)) => {
                &&& final(parser).at() == end
                &&& r is Ok
                &&& match (found, r->Ok_0) {
                    (Some(c), Some(cookie)) => cookie@ == c,
                    (None, None) => true,
                    _ => false,
                }
            },
        },
{
    let ghost b = parser.input();
    let pairs: usize = parser.expect_tag(OS_TYPE_DICTIONARY)?;
    let ghost start = parser.at();
    let mut rate: Option<u32> = None;
    let mut bits: Option<u32> = None;
    let mut channel_layout_matches: bool = false;
    let mut cookie: Option<DcpAvAudioCookie> = None;
    let ghost mut known = nothing_known();
    let mut i: usize = 0;
    while i < pairs
        invariant
            i <= pairs,
            parser.wf(),
            parser.input() == b,
            b == old(parser).input(),
            expected_at(b, old(parser).at(), OS_TYPE_DICTIONARY) == Ok::<(int, int), &'static str>(
                (pairs as int, start),
            ),
            known.rate == rate,
            known.bits == bits,
            known.channels_match == channel_layout_matches,
            match (known.cookie, cookie) {
                (Some(c), Some(k)) => k@ == c,
                (None, None) => true,
                _ => false,
            },
            element_at(b, start, pairs as int, wanted_channels, nothing_known()) == element_at(
                b,
                parser.at(),
                pairs - i,
                wanted_channels,
                known,
            ),
        decreases pairs - i,
    {
        let key = parser.string()?;
        if same_bytes(key, "StreamSampleRate".as_bytes()) {
            rate = parser.number()?;
            proof {
                known = ElementView { rate, ..known };
            }
        } else if same_bytes(key, "SampleSize".as_bytes()) {
            bits = parser.number()?;
            proof {
                known = ElementView { bits, ..known };
            }
        } else if same_bytes(key, "AudioChannelLayoutElements".as_bytes()) {
            channel_layout_matches = parse_channel_layouts(parser, wanted_channels)?;
            proof {
                known = ElementView { channels_match: channel_layout_matches, ..known };
            }
        } else if same_bytes(key, "ElementData".as_bytes()) {
            let found = parser.blob_cookie()?;
            cookie = Some(found);
            proof {
                known = ElementView { cookie: Some(found@), ..known };
            }
        } else {
            parser.skip()?;
        }
        i = i + 1;
    }
    let same_rate: bool = match rate {
        Some(n) => n == wanted_rate,
        None => false,
    };
    let same_bits: bool = match bits {
        Some(n) => n == wanted_bits,
        None => false,
    };
    if same_rate && same_bits && channel_layout_matches {
        Ok(cookie)
    } else {
        Ok(None)
    }
}

fn parse_channel_layouts(parser: &mut OsObjectParser, wanted_channels: u32) -> (r: Result<
    bool,
    &'static str,
>)
    requires
        old(parser).wf(),
    ensures
        final(parser).wf(),
        final(parser).input() == old(parser).input(),
        match expected_at(old(parser).input(), old(parser).at(), OS_TYPE_ARRAY) {
            Err(e) => r == Err::<bool, &'static str>(e),
            Ok((count, start)) => match layouts_at(
                old(parser).input(),
                start,
                count,
                wanted_channels,
                false,
            ) {
                Err(e) => r == Err::<bool, &'static str>(e),
                Ok((m, end)) => r == Ok::<bool, &'static str>(m) && final(parser).at() == end,
            },
        },
{
    let ghost b = parser.input();
    let count: usize = parser.expect_tag(OS_TYPE_ARRAY)?;
    let ghost start = parser.at();
    let mut matches: bool = false;
    let mut i: usize = 0;
    while i < count
        invariant
            i <= count,
            parser.wf(),
            parser.input() == b,
            b == old(parser).input(),
            expected_at(b, old(parser).at(), OS_TYPE_ARRAY) == Ok::<(int, int), &'static str>(
                (count as int, start),
            ),
            layouts_at(b, start, count as int, wanted_channels, false) == layouts_at(
                b,
                parser.at(),
                count - i,
                wanted_channels,
                matches,
            ),
        decreases count - i,
    {
        let pairs: usize = parser.expect_tag(OS_TYPE_DICTIONARY)?;
        let ghost inner = parser.at();
        let mut active_channels: Option<u32> = None;
        let mut j: usize = 0;
        while j < pairs
            invariant
                j <= pairs,
                parser.wf(),
                parser.input() == b,
                b == old(parser).input(),
                expected_at(b, old(parser).at(), OS_TYPE_ARRAY) == Ok::<(int, int), &'static str>(
                    (count as int, start),
                ),
                layouts_at(b, start, count as int, wanted_channels, false) == match layout_at(
                    b,
                    inner,
                    pairs as int,
                    None,
                ) {
                    Err(e) => Err(e),
                    Ok((active, end)) => layouts_at(
                        b,
                        end,
                        count - i - 1,
                        wanted_channels,
                        matches || active == Some(wanted_channels),
                    ),
                },
                layout_at(b, inner, pairs as int, None) == layout_at(
                    b,
                    parser.at(),
                    pairs - j,
                    active_channels,
                ),
            decreases pairs - j,
        {
            let key = parser.string()?;
            if same_bytes(key, "ActiveChannelCount".as_bytes()) {
                active_channels = parser.number()?;
            } else {
                parser.skip()?;
            }
            j = j + 1;
        }
        let same: bool = match active_channels {
            Some(n) => n == wanted_channels,
            None => false,
        };
        matches = matches || same;
        i = i + 1;
    }
    Ok(matches)
}

/// Two byte strings agree on their first `n` bytes.
pub open spec fn agree(b: Seq<u8>, other: Seq<u8>, n: int) -> bool {
    &&& 0 <= n <= b.len()
    &&& n <= other.len()
    &&& forall|i: int| 0 <= i < n ==> #[trigger] b[i] == other[i]
}

proof fn lemma_tag_agrees(b: Seq<u8>, other: Seq<u8>, pos: int, n: int)
    requires
        0 <= pos,
        tag_at(b, pos) matches Ok((_, end)) && end <= n,
        agree(b, other, n),
    ensures
        tag_at(other, pos) == tag_at(b, pos),
        pos < tag_at(b, pos)->Ok_0.1,
{
    let at = boundary(pos);
    assert(pos <= at);
    assert(b[at] == other[at] && b[at + 1] == other[at + 1] && b[at + 2] == other[at + 2] && b[at
        + 3] == other[at + 3]);
}

proof fn lemma_string_agrees(b: Seq<u8>, other: Seq<u8>, pos: int, n: int)
    requires
        0 <= pos,
        string_at(b, pos) matches Ok((_, end)) && end <= n,
        agree(b, other, n),
    ensures
        string_at(other, pos) == string_at(b, pos),
        pos < string_at(b, pos)->Ok_0.1,
{
    let (size, start) = expected_at(b, pos, OS_TYPE_STRING)->Ok_0;
    lemma_tag_agrees(b, other, pos, n);
    assert(b.subrange(start, start + size) =~= other.subrange(start, start + size));
}

proof fn lemma_number_agrees(b: Seq<u8>, other: Seq<u8>, pos: int, n: int)
    requires
        0 <= pos,
        number_at(b, pos) matches Ok((_, end)) && end <= n,
        agree(b, other, n),
    ensures
        number_at(other, pos) == number_at(b, pos),
        pos < number_at(b, pos)->Ok_0.1,
{
    let start = expected_at(b, pos, OS_TYPE_INT64)->Ok_0.1;
    lemma_tag_agrees(b, other, pos, n);
    assert(b.subrange(start, start + 8) =~= other.subrange(start, start + 8));
    assert(forall|i: int|
        0 <= i < 8 ==> #[trigger] b.subrange(start, start + 8)[i] == b[start + i]);
    assert(b[start + 0] == other[start + 0] && b[start + 1] == other[start + 1] && b[start + 2]
        == other[start + 2] && b[start + 3] == other[start + 3]);
    assert(b[start + 4] == other[start + 4] && b[start + 5] == other[start + 5] && b[start + 6]
        == other[start + 6] && b[start + 7] == other[start + 7]);
}

proof fn lemma_cookie_agrees(b: Seq<u8>, other: Seq<u8>, pos: int, n: int)
    requires
        0 <= pos,
        cookie_at(b, pos) matches Ok((_, end)) && end <= n,
        agree(b, other, n),
    ensures
        cookie_at(other, pos) == cookie_at(b, pos),
        pos < cookie_at(b, pos)->Ok_0.1,
{
    let start = expected_at(b, pos, OS_TYPE_BLOB)->Ok_0.1;
    lemma_tag_agrees(b, other, pos, n);
    assert(b.subrange(start, start + 24) =~= other.subrange(start, start + 24));
}

proof fn lemma_skipped_agrees(b: Seq<u8>, other: Seq<u8>, pos: int, pending: int, n: int)
    requires
        0 <= pos,
        skipped(b, pos, pending) matches Ok(end) && end <= n,
        agree(b, other, n),
    ensures
        skipped(other, pos, pending) == skipped(b, pos, pending),
        pos <= skipped(b, pos, pending)->Ok_0,
    decreases b.len() - pos,
{
    if pending > 0 {
        lemma_skip_order(b, pos, pending);
        let (tag, end) = tag_at(b, pos)->Ok_0;
        lemma_tag_agrees(b, other, pos, n);
        if tag.kind == OS_TYPE_DICTIONARY {
            lemma_skipped_agrees(b, other, end, pending - 1 + 2 * tag.size, n);
        } else if tag.kind == OS_TYPE_ARRAY {
            lemma_skipped_agrees(b, other, end, pending - 1 + tag.size, n);
        } else if tag.kind == OS_TYPE_BOOL {
            lemma_skipped_agrees(b, other, end, pending - 1, n);
        } else {
            let count = if tag.kind == OS_TYPE_INT64 {
                8
            } else {
                tag.size as int
            };
            lemma_skip_order(b, end + count, pending - 1);
            lemma_skipped_agrees(b, other, end + count, pending - 1, n);
        }
    }
}

/// Skipping goes forward, past the tag that it starts with.
proof fn lemma_skip_order(b: Seq<u8>, pos: int, pending: int)
    requires
        0 <= pos,
        skipped(b, pos, pending) is Ok,
    ensures
        pos <= skipped(b, pos, pending)->Ok_0,
        pending > 0 ==> tag_at(b, pos) is Ok && pos < tag_at(b, pos)->Ok_0.1 <= skipped(
            b,
            pos,
            pending,
        )->Ok_0,
    decreases b.len() - pos,
{
    if pending > 0 {
        let (tag, end) = tag_at(b, pos)->Ok_0;
        if tag.kind == OS_TYPE_DICTIONARY {
            lemma_skip_order(b, end, pending - 1 + 2 * tag.size);
        } else if tag.kind == OS_TYPE_ARRAY {
            lemma_skip_order(b, end, pending - 1 + tag.size);
        } else if tag.kind == OS_TYPE_BOOL {
            lemma_skip_order(b, end, pending - 1);
        } else {
            let count = if tag.kind == OS_TYPE_INT64 {
                8
            } else {
                tag.size as int
            };
            lemma_skip_order(b, end + count, pending - 1);
        }
    }
}

/// A layout goes forward.
proof fn lemma_layout_order(b: Seq<u8>, pos: int, pairs: int, active: Option<u32>)
    requires
        0 <= pos,
        layout_at(b, pos, pairs, active) is Ok,
    ensures
        pos <= layout_at(b, pos, pairs, active)->Ok_0.1,
    decreases pairs,
{
    if pairs > 0 {
        let (key, next) = string_at(b, pos)->Ok_0;
        if key == "ActiveChannelCount".spec_bytes() {
            let (n, end) = number_at(b, next)->Ok_0;
            lemma_layout_order(b, end, pairs - 1, n);
        } else {
            lemma_skip_order(b, next, 1);
            lemma_layout_order(b, skipped(b, next, 1)->Ok_0, pairs - 1, active);
        }
    }
}

proof fn lemma_layout_agrees(
    b: Seq<u8>,
    other: Seq<u8>,
    pos: int,
    pairs: int,
    active: Option<u32>,
    n: int,
)
    requires
        0 <= pos,
        layout_at(b, pos, pairs, active) matches Ok((_, end)) && end <= n,
        agree(b, other, n),
    ensures
        layout_at(other, pos, pairs, active) == layout_at(b, pos, pairs, active),
    decreases pairs,
{
    if pairs > 0 {
        let (key, next) = string_at(b, pos)->Ok_0;
        if key == "ActiveChannelCount".spec_bytes() {
            let (number, end) = number_at(b, next)->Ok_0;
            lemma_layout_order(b, end, pairs - 1, number);
            lemma_string_agrees(b, other, pos, n);
            lemma_number_agrees(b, other, next, n);
            lemma_layout_agrees(b, other, end, pairs - 1, number, n);
        } else {
            let end = skipped(b, next, 1)->Ok_0;
            lemma_skip_order(b, next, 1);
            lemma_layout_order(b, end, pairs - 1, active);
            lemma_string_agrees(b, other, pos, n);
            lemma_skipped_agrees(b, other, next, 1, n);
            lemma_layout_agrees(b, other, end, pairs - 1, active, n);
        }
    }
}

/// Layouts go forward.
proof fn lemma_layouts_order(b: Seq<u8>, pos: int, count: int, wanted: u32, matched: bool)
    requires
        0 <= pos,
        layouts_at(b, pos, count, wanted, matched) is Ok,
    ensures
        pos <= layouts_at(b, pos, count, wanted, matched)->Ok_0.1,
    decreases count,
{
    if count > 0 {
        let (pairs, start) = expected_at(b, pos, OS_TYPE_DICTIONARY)->Ok_0;
        let (active, end) = layout_at(b, start, pairs, None)->Ok_0;
        lemma_layout_order(b, start, pairs, None);
        lemma_layouts_order(b, end, count - 1, wanted, matched || active == Some(wanted));
    }
}

proof fn lemma_layouts_agree(
    b: Seq<u8>,
    other: Seq<u8>,
    pos: int,
    count: int,
    wanted: u32,
    matched: bool,
    n: int,
)
    requires
        0 <= pos,
        layouts_at(b, pos, count, wanted, matched) matches Ok((_, end)) && end <= n,
        agree(b, other, n),
    ensures
        layouts_at(other, pos, count, wanted, matched) == layouts_at(
            b,
            pos,
            count,
            wanted,
            matched,
        ),
    decreases count,
{
    if count > 0 {
        let (pairs, start) = expected_at(b, pos, OS_TYPE_DICTIONARY)->Ok_0;
        let (active, end) = layout_at(b, start, pairs, None)->Ok_0;
        let more = matched || active == Some(wanted);
        lemma_layout_order(b, start, pairs, None);
        lemma_layouts_order(b, end, count - 1, wanted, more);
        lemma_tag_agrees(b, other, pos, n);
        lemma_layout_agrees(b, other, start, pairs, None, n);
        lemma_layouts_agree(b, other, end, count - 1, wanted, more, n);
    }
}

/// What an entry of an audio mode adds to what is known, and where it ends.
spec fn entry_of(b: Seq<u8>, pos: int, channels: u32, so_far: ElementView) -> Result<
    (ElementView, int),
    &'static str,
> {
    element_at(b, pos, 1, channels, so_far)
}

proof fn lemma_entry(b: Seq<u8>, pos: int, pairs: int, channels: u32, so_far: ElementView)
    requires
        0 <= pos,
        pairs > 0,
    ensures
        element_at(b, pos, pairs, channels, so_far) == match entry_of(b, pos, channels, so_far) {
            Err(e) => Err(e),
            Ok((known, end)) => element_at(b, end, pairs - 1, channels, known),
        },
        entry_of(b, pos, channels, so_far) is Ok ==> pos < entry_of(
            b,
            pos,
            channels,
            so_far,
        )->Ok_0.1,
{
    reveal_with_fuel(element_at, 2);
    if let Ok((key, next)) = string_at(b, pos) {
        if skipped(b, next, 1) is Ok {
            lemma_skip_order(b, next, 1);
        }
        if let Ok((count, start)) = expected_at(b, next, OS_TYPE_ARRAY) {
            if layouts_at(b, start, count, channels, false) is Ok {
                lemma_layouts_order(b, start, count, channels, false);
            }
        }
    }
}

proof fn lemma_entry_agrees(
    b: Seq<u8>,
    other: Seq<u8>,
    pos: int,
    channels: u32,
    so_far: ElementView,
    n: int,
)
    requires
        0 <= pos,
        entry_of(b, pos, channels, so_far) matches Ok((_, end)) && end <= n,
        agree(b, other, n),
    ensures
        entry_of(other, pos, channels, so_far) == entry_of(b, pos, channels, so_far),
{
    reveal_with_fuel(element_at, 2);
    let (key, next) = string_at(b, pos)->Ok_0;
    if key == "StreamSampleRate".spec_bytes() || key == "SampleSize".spec_bytes() {
        lemma_string_agrees(b, other, pos, n);
        lemma_number_agrees(b, other, next, n);
    } else if key == "AudioChannelLayoutElements".spec_bytes() {
        let (count, start) = expected_at(b, next, OS_TYPE_ARRAY)->Ok_0;
        lemma_layouts_order(b, start, count, channels, false);
        lemma_string_agrees(b, other, pos, n);
        lemma_tag_agrees(b, other, next, n);
        lemma_layouts_agree(b, other, start, count, channels, false, n);
    } else if key == "ElementData".spec_bytes() {
        lemma_string_agrees(b, other, pos, n);
        lemma_cookie_agrees(b, other, next, n);
    } else {
        lemma_skip_order(b, next, 1);
        lemma_string_agrees(b, other, pos, n);
        lemma_skipped_agrees(b, other, next, 1, n);
    }
}

/// An audio mode goes forward.
proof fn lemma_element_order(b: Seq<u8>, pos: int, pairs: int, channels: u32, so_far: ElementView)
    requires
        0 <= pos,
        element_at(b, pos, pairs, channels, so_far) is Ok,
    ensures
        pos <= element_at(b, pos, pairs, channels, so_far)->Ok_0.1,
    decreases pairs,
{
    if pairs > 0 {
        lemma_entry(b, pos, pairs, channels, so_far);
        let (known, end) = entry_of(b, pos, channels, so_far)->Ok_0;
        lemma_element_order(b, end, pairs - 1, channels, known);
    }
}

proof fn lemma_element_agrees(
    b: Seq<u8>,
    other: Seq<u8>,
    pos: int,
    pairs: int,
    channels: u32,
    so_far: ElementView,
    n: int,
)
    requires
        0 <= pos,
        element_at(b, pos, pairs, channels, so_far) matches Ok((_, end)) && end <= n,
        agree(b, other, n),
    ensures
        element_at(other, pos, pairs, channels, so_far) == element_at(
            b,
            pos,
            pairs,
            channels,
            so_far,
        ),
    decreases pairs,
{
    if pairs > 0 {
        lemma_entry(b, pos, pairs, channels, so_far);
        lemma_entry(other, pos, pairs, channels, so_far);
        let (known, end) = entry_of(b, pos, channels, so_far)->Ok_0;
        lemma_element_order(b, end, pairs - 1, channels, known);
        lemma_entry_agrees(b, other, pos, channels, so_far, n);
        lemma_element_agrees(b, other, end, pairs - 1, channels, known, n);
    }
}

/// Where the first of `count` audio modes that is the wanted one ends.
pub open spec fn match_end(
    b: Seq<u8>,
    pos: int,
    count: int,
    rate: u32,
    bits: u32,
    channels: u32,
) -> int
    decreases count,
{
    match expected_at(b, pos, OS_TYPE_DICTIONARY) {
        Err(_) => pos,
        Ok((pairs, start)) => match element_at(b, start, pairs, channels, nothing_known()) {
            Err(_) => pos,
            Ok((element, end)) => if count <= 1 || matching(element, rate, bits) is Some {
                end
            } else {
                match_end(b, end, count - 1, rate, bits, channels)
            },
        },
    }
}

/// Where the audio mode ends whose token is selected.
pub open spec fn selected_end(b: Seq<u8>, rate: u32, bits: u32, channels: u32) -> int {
    match expected_at(b, 4, OS_TYPE_ARRAY) {
        Err(_) => 4,
        Ok((count, start)) => match_end(b, start, count, rate, bits, channels),
    }
}

proof fn lemma_match_agrees(
    b: Seq<u8>,
    other: Seq<u8>,
    pos: int,
    count: int,
    rate: u32,
    bits: u32,
    channels: u32,
)
    requires
        0 <= pos,
        first_match(b, pos, count, rate, bits, channels) is Ok,
        agree(b, other, match_end(b, pos, count, rate, bits, channels)),
    ensures
        first_match(other, pos, count, rate, bits, channels) == first_match(
            b,
            pos,
            count,
            rate,
            bits,
            channels,
        ),
        pos < match_end(b, pos, count, rate, bits, channels),
    decreases count,
{
    let n = match_end(b, pos, count, rate, bits, channels);
    let (pairs, start) = expected_at(b, pos, OS_TYPE_DICTIONARY)->Ok_0;
    let (element, end) = element_at(b, start, pairs, channels, nothing_known())->Ok_0;
    lemma_element_order(b, start, pairs, channels, nothing_known());
    if matching(element, rate, bits) is None {
        lemma_match_agrees(b, other, end, count - 1, rate, bits, channels);
    }
    lemma_tag_agrees(b, other, pos, n);
    lemma_element_agrees(b, other, start, pairs, channels, nothing_known(), n);
}

/// Law: what comes behind the audio mode whose token is selected never changes the token.
pub proof fn law_later_bytes_do_not_matter(
    b: Seq<u8>,
    other: Seq<u8>,
    rate: u32,
    bits: u32,
    channels: u32,
)
    requires
        selected(b, rate, bits, channels) is Ok,
        agree(b, other, selected_end(b, rate, bits, channels)),
    ensures
        selected(other, rate, bits, channels) == selected(b, rate, bits, channels),
{
    let n = selected_end(b, rate, bits, channels);
    let (count, start) = expected_at(b, 4, OS_TYPE_ARRAY)->Ok_0;
    lemma_match_agrees(b, other, start, count, rate, bits, channels);
    lemma_tag_agrees(b, other, 4, n);
    assert(b[0] == other[0] && b[1] == other[1] && b[2] == other[2] && b[3] == other[3]);
}

/// Law: a tag stands on the first four-byte boundary behind the cursor. Its word is the size, then the
/// kind from bit 24 on, and bit 31 marks the last object; the cursor ends behind the word.
pub proof fn law_tag_is_its_word(b: Seq<u8>, pos: int, at: int)
    requires
        0 <= pos <= at < pos + 4,
        at % 4 == 0,
        b.len() <= usize::MAX,
    ensures
        tag_at(b, pos) matches Ok((tag, end)) ==> {
            &&& end == at + 4 <= b.len()
            &&& tag.kind < 32
            &&& tag.size < 0x100_0000
            &&& le32(b, at) == tag.size + 0x100_0000 * tag.kind || le32(b, at) == 0x8000_0000
                + tag.size + 0x100_0000 * tag.kind
        },
        tag_at(b, pos) is Ok <==> at + 4 <= b.len() && le32(b, at) % 0x8000_0000 < 0x2000_0000,
{
    assert(boundary(pos) == at);
}

/// Law: a string is the bytes behind its tag, as many as the tag says; a number is the eight bytes
/// behind its tag, and the token of a mode the first 24 bytes of a blob.
pub proof fn law_objects_are_the_bytes_behind_their_tags(b: Seq<u8>, pos: int, tag: OsTag, start: int)
    requires
        0 <= pos,
        b.len() <= usize::MAX,
        tag_at(b, pos) == Ok::<(OsTag, int), &'static str>((tag, start)),
    ensures
        string_at(b, pos) matches Ok((bytes, end)) ==> {
            &&& tag.kind == 9
            &&& bytes.len() == tag.size
            &&& end == start + tag.size <= b.len()
            &&& forall|i: int| 0 <= i < tag.size ==> #[trigger] bytes[i] == b[start + i]
        },
        string_at(b, pos) is Ok <==> tag.kind == 9 && start + tag.size <= b.len(),
        number_at(b, pos) matches Ok((n, end)) ==> {
            &&& tag.kind == 4
            &&& end == start + 8 <= b.len()
            &&& n matches Some(value) ==> le64(b, start) == value
            &&& n is None ==> le64(b, start) > u32::MAX
        },
        number_at(b, pos) is Ok <==> tag.kind == 4 && start + 8 <= b.len(),
        cookie_at(b, pos) matches Ok((cookie, end)) ==> {
            &&& tag.kind == 10
            &&& tag.size >= 24
            &&& cookie.len() == 24
            &&& end == start + tag.size <= b.len()
            &&& forall|i: int| 0 <= i < 24 ==> #[trigger] cookie[i] == b[start + i]
        },
        cookie_at(b, pos) is Ok <==> tag.kind == 10 && tag.size >= 24 && start + tag.size
            <= b.len(),
{
}

/// The channel count of layout `i` of a list of layouts, and where the layout ends.
pub open spec fn nth_layout(b: Seq<u8>, pos: int, i: int) -> Result<
    (Option<u32>, int),
    &'static str,
>
    decreases i,
{
    match expected_at(b, pos, OS_TYPE_DICTIONARY) {
        Err(e) => Err(e),
        Ok((pairs, start)) => match layout_at(b, start, pairs, None) {
            Err(e) => Err(e),
            Ok((active, end)) => if i <= 0 {
                Ok((active, end))
            } else {
                nth_layout(b, end, i - 1)
            },
        },
    }
}

proof fn lemma_layouts(b: Seq<u8>, pos: int, count: int, wanted: u32, matched: bool)
    requires
        count >= 0,
    ensures
        layouts_at(b, pos, count, wanted, matched) matches Ok((found, end)) ==> {
            &&& found <==> matched || exists|i: int|
                0 <= i < count && (#[trigger] nth_layout(b, pos, i) matches Ok((active, _))
                    && active == Some(wanted))
            &&& count > 0 ==> nth_layout(b, pos, count - 1) is Ok && end == nth_layout(
                b,
                pos,
                count - 1,
            )->Ok_0.1
            &&& forall|i: int| 0 <= i < count ==> #[trigger] nth_layout(b, pos, i) is Ok
        },
    decreases count,
{
    if count > 0 && layouts_at(b, pos, count, wanted, matched) is Ok {
        let (pairs, start) = expected_at(b, pos, OS_TYPE_DICTIONARY)->Ok_0;
        let (active, end) = layout_at(b, start, pairs, None)->Ok_0;
        let more = active == Some(wanted) || matched;
        assert(nth_layout(b, pos, 0) == Ok::<(Option<u32>, int), &'static str>((active, end)));
        assert(forall|i: int|
            0 < i < count ==> #[trigger] nth_layout(b, pos, i) == nth_layout(b, end, i - 1));
        if layouts_at(b, end, count - 1, wanted, more) is Ok {
            lemma_layouts(b, end, count - 1, wanted, more);
            if exists|i: int|
                0 <= i < count - 1 && (#[trigger] nth_layout(b, end, i) matches Ok((active, _))
                    && active == Some(wanted)) {
                let i = choose|i: int|
                    0 <= i < count - 1 && (#[trigger] nth_layout(b, end, i) matches Ok((active, _))
                        && active == Some(wanted));
                assert(nth_layout(b, pos, i + 1) == nth_layout(b, end, i));
            }
            assert forall|i: int| 0 <= i < count implies #[trigger] nth_layout(b, pos, i) is Ok by {
                if i > 0 {
                    assert(nth_layout(b, end, i - 1) is Ok);
                }
            }
        }
    }
}

/// Law: a list of channel layouts matches exactly when some layout in it, at any place, has the
/// wanted number of channels; the list ends where its last layout ends.
pub proof fn law_layouts_match_anywhere(b: Seq<u8>, pos: int, count: int, wanted: u32)
    requires
        count >= 0,
    ensures
        layouts_at(b, pos, count, wanted, false) matches Ok((found, end)) ==> {
            &&& found <==> exists|i: int|
                0 <= i < count && (#[trigger] nth_layout(b, pos, i) matches Ok((active, _))
                    && active == Some(wanted))
            &&& count > 0 ==> nth_layout(b, pos, count - 1) is Ok && end == nth_layout(
                b,
                pos,
                count - 1,
            )->Ok_0.1
        },
{
    lemma_layouts(b, pos, count, wanted, false);
}

/// Law: a list of channel layouts that matches still matches when a layout is added behind its last
/// one; and one that does not match is made to by an added layout exactly when that one has the
/// wanted number of channels.
pub proof fn law_added_layout_keeps_a_match(b: Seq<u8>, pos: int, count: int, wanted: u32)
    requires
        count >= 0,
        layouts_at(b, pos, count, wanted, false) is Ok,
        layouts_at(b, pos, count + 1, wanted, false) is Ok,
    ensures
        layouts_at(b, pos, count, wanted, false)->Ok_0.0 ==> layouts_at(
            b,
            pos,
            count + 1,
            wanted,
            false,
        )->Ok_0.0,
        !layouts_at(b, pos, count, wanted, false)->Ok_0.0 ==> (layouts_at(
            b,
            pos,
            count + 1,
            wanted,
            false,
        )->Ok_0.0 <==> (nth_layout(b, pos, count) matches Ok((active, _)) && active == Some(
            wanted,
        ))),
{
    lemma_layouts(b, pos, count, wanted, false);
    lemma_layouts(b, pos, count + 1, wanted, false);
    if layouts_at(b, pos, count, wanted, false)->Ok_0.0 {
        let i = choose|i: int|
            0 <= i < count && (#[trigger] nth_layout(b, pos, i) matches Ok((active, _)) && active
                == Some(wanted));
        assert(0 <= i < count + 1 && (nth_layout(b, pos, i) matches Ok((active, _)) && active
            == Some(wanted)));
    }
}

/// Where entry `i` of a dictionary starts: behind the keys and the values of those before it.
pub open spec fn entry_start(b: Seq<u8>, pos: int, i: int) -> Result<int, &'static str>
    decreases i,
{
    if i <= 0 {
        Ok(pos)
    } else {
        match entry_start(b, pos, i - 1) {
            Err(e) => Err(e),
            Ok(at) => match string_at(b, at) {
                Err(e) => Err(e),
                Ok((_, value)) => skipped(b, value, 1),
            },
        }
    }
}

/// Passing over an object that was read leads to where reading it did.
proof fn lemma_read_is_skipped(b: Seq<u8>, pos: int)
    requires
        0 <= pos,
        b.len() <= usize::MAX,
    ensures
        string_at(b, pos) matches Ok((_, end)) ==> skipped(b, pos, 1) == Ok::<int, &'static str>(
            end,
        ),
        number_at(b, pos) matches Ok((_, end)) ==> skipped(b, pos, 1) == Ok::<int, &'static str>(
            end,
        ),
        cookie_at(b, pos) matches Ok((_, end)) ==> skipped(b, pos, 1) == Ok::<int, &'static str>(
            end,
        ),
{
    if tag_at(b, pos) is Ok {
        let (tag, start) = tag_at(b, pos)->Ok_0;
        let count = if tag.kind == OS_TYPE_INT64 {
            8
        } else {
            tag.size as int
        };
        if bytes_at(b, start, count) is Ok {
            assert(skipped(b, bytes_at(b, start, count)->Ok_0, 0) == Ok::<int, &'static str>(
                bytes_at(b, start, count)->Ok_0,
            ));
        }
    }
}

proof fn lemma_layout(b: Seq<u8>, pos: int, pairs: int, active: Option<u32>) -> (last: int)
    requires
        0 <= pos,
        0 <= pairs,
        b.len() <= usize::MAX,
        layout_at(b, pos, pairs, active) is Ok,
    ensures
        -1 <= last < pairs,
        entry_start(b, pos, pairs) == Ok::<int, &'static str>(
            layout_at(b, pos, pairs, active)->Ok_0.1,
        ),
        forall|i: int|
            0 <= i < pairs ==> (#[trigger] entry_start(b, pos, i) matches Ok(at) && string_at(b, at)
                is Ok && (i > last ==> string_at(b, at)->Ok_0.0
                != "ActiveChannelCount".spec_bytes())),
        last == -1 ==> layout_at(b, pos, pairs, active)->Ok_0.0 == active,
        last >= 0 ==> {
            let at = entry_start(b, pos, last)->Ok_0;
            let (key, value) = string_at(b, at)->Ok_0;
            &&& key == "ActiveChannelCount".spec_bytes()
            &&& number_at(b, value) matches Ok((n, _)) && n == layout_at(
                b,
                pos,
                pairs,
                active,
            )->Ok_0.0
        },
    decreases pairs,
{
    if pairs == 0 {
        -1
    } else {
        let (key, value) = string_at(b, pos)->Ok_0;
        let counts = key == "ActiveChannelCount".spec_bytes();
        let (next, end) = if counts {
            number_at(b, value)->Ok_0
        } else {
            (active, skipped(b, value, 1)->Ok_0)
        };
        lemma_string_moves(b, pos);
        if counts {
            lemma_read_is_skipped(b, value);
        } else {
            lemma_skip_order(b, value, 1);
        }
        let rest = lemma_layout(b, end, pairs - 1, next);
        assert forall|i: int| 0 <= i <= pairs - 1 implies #[trigger] entry_start(b, pos, i + 1)
            == entry_start(b, end, i) by {
            lemma_entries_shift(b, pos, end, i);
        }
        assert forall|i: int| 0 <= i < pairs implies (#[trigger] entry_start(b, pos, i) matches Ok(
            at,
        ) && string_at(b, at) is Ok && (i > (if rest >= 0 {
            rest + 1
        } else if counts {
            0
        } else {
            -1
        }) ==> string_at(b, at)->Ok_0.0 != "ActiveChannelCount".spec_bytes())) by {
            if i > 0 {
                assert(entry_start(b, pos, (i - 1) + 1) == entry_start(b, end, i - 1));
            }
        }
        assert(entry_start(b, pos, (pairs - 1) + 1) == entry_start(b, end, pairs - 1));
        if rest >= 0 {
            assert(entry_start(b, pos, rest + 1) == entry_start(b, end, rest));
            rest + 1
        } else if counts {
            0
        } else {
            -1
        }
    }
}

proof fn lemma_string_moves(b: Seq<u8>, pos: int)
    requires
        0 <= pos,
        string_at(b, pos) is Ok,
    ensures
        0 <= pos < string_at(b, pos)->Ok_0.1,
{
}

proof fn lemma_entries_shift(b: Seq<u8>, pos: int, end: int, i: int)
    requires
        0 <= i,
        entry_start(b, pos, 1) == Ok::<int, &'static str>(end),
    ensures
        entry_start(b, pos, i + 1) == entry_start(b, end, i),
    decreases i,
{
    if i > 0 {
        lemma_entries_shift(b, pos, end, i - 1);
    }
}

/// Law: the channel count of a layout is the number in its last entry under that key, and nothing
/// where it has none; what other entries hold is passed over. What is returned is the place of that
/// entry among the entries, or -1.
pub proof fn law_channel_count_is_the_last_given(b: Seq<u8>, pos: int, pairs: int) -> (last: int)
    requires
        0 <= pos,
        0 <= pairs,
        b.len() <= usize::MAX,
        layout_at(b, pos, pairs, None) is Ok,
    ensures
        -1 <= last < pairs,
        entry_start(b, pos, pairs) == Ok::<int, &'static str>(
            layout_at(b, pos, pairs, None)->Ok_0.1,
        ),
        forall|i: int|
            last < i < pairs ==> (#[trigger] entry_start(b, pos, i) matches Ok(at) && (string_at(
                b,
                at,
            ) matches Ok((key, _)) && key != "ActiveChannelCount".spec_bytes())),
        last == -1 ==> layout_at(b, pos, pairs, None)->Ok_0.0 is None,
        last >= 0 ==> (entry_start(b, pos, last) matches Ok(at) && (string_at(b, at) matches Ok(
            (key, value),
        ) && key == "ActiveChannelCount".spec_bytes() && (number_at(b, value) matches Ok((n, _))
            && n == layout_at(b, pos, pairs, None)->Ok_0.0))),
{
    lemma_layout(b, pos, pairs, None)
}

/// What is known of mode `i` of a list of modes, and where the mode ends.
pub open spec fn nth_element(b: Seq<u8>, pos: int, i: int, channels: u32) -> Result<
    (ElementView, int),
    &'static str,
>
    decreases i,
{
    match expected_at(b, pos, OS_TYPE_DICTIONARY) {
        Err(e) => Err(e),
        Ok((pairs, start)) => match element_at(b, start, pairs, channels, nothing_known()) {
            Err(e) => Err(e),
            Ok((element, end)) => if i <= 0 {
                Ok((element, end))
            } else {
                nth_element(b, end, i - 1, channels)
            },
        },
    }
}

/// Law: the token that is chosen is that of a mode of the list with exactly the wanted rate, sample
/// size and number of channels, and no mode before it has all of these and a token. Where the list
/// can be read and has no such mode, the mode is unsupported. What is returned is the place of the
/// mode.
pub proof fn law_first_matching_mode_is_chosen(
    b: Seq<u8>,
    pos: int,
    count: int,
    rate: u32,
    bits: u32,
    channels: u32,
) -> (k: int)
    requires
        count >= 0,
    ensures
        first_match(b, pos, count, rate, bits, channels) matches Ok(cookie) ==> {
            &&& 0 <= k < count
            &&& nth_element(b, pos, k, channels) matches Ok((e, _)) && e.rate == Some(rate)
                && e.bits == Some(bits) && e.channels_match && e.cookie == Some(cookie)
            &&& forall|i: int|
                0 <= i < k ==> (#[trigger] nth_element(b, pos, i, channels) matches Ok((e, _)) && !(
                e.rate == Some(rate) && e.bits == Some(bits) && e.channels_match && e.cookie is Some))
        },
        (forall|i: int| 0 <= i < count ==> #[trigger] nth_element(b, pos, i, channels) is Ok) && (
        first_match(b, pos, count, rate, bits, channels) is Err) ==> {
            &&& first_match(b, pos, count, rate, bits, channels) == Err::<Seq<u8>, &'static str>(
                "apple-dcpext: requested DisplayPort audio mode is unsupported",
            )
            &&& forall|i: int|
                0 <= i < count ==> (#[trigger] nth_element(b, pos, i, channels) matches Ok((e, _)) ==> !(
                e.rate == Some(rate) && e.bits == Some(bits) && e.channels_match && e.cookie is Some))
        },
    decreases count,
{
    if count <= 0 {
        0
    } else {
        let first = nth_element(b, pos, 0, channels);
        if first is Ok {
            let (element, end) = first->Ok_0;
            assert(forall|i: int|
                0 < i < count ==> #[trigger] nth_element(b, pos, i, channels) == nth_element(
                    b,
                    end,
                    i - 1,
                    channels,
                ));
            if matching(element, rate, bits) is Some {
                0
            } else {
                let rest = law_first_matching_mode_is_chosen(
                    b,
                    end,
                    count - 1,
                    rate,
                    bits,
                    channels,
                );
                assert forall|i: int| 0 <= i < count - 1 implies #[trigger] nth_element(
                    b,
                    end,
                    i,
                    channels,
                ) == nth_element(b, pos, i + 1, channels) by {}
                rest + 1
            }
        } else {
            0
        }
    }
}

/// Law: an entry that is added behind the others of a mode sets what its key stands for and leaves the
/// rest: the rate, the sample size, whether a channel layout matches, or the token. Under any other
/// key it changes nothing.
pub proof fn law_added_entry_sets_what_its_key_names(
    b: Seq<u8>,
    pos: int,
    pairs: int,
    channels: u32,
    so_far: ElementView,
)
    requires
        0 <= pairs,
        element_at(b, pos, pairs, channels, so_far) is Ok,
        element_at(b, pos, pairs + 1, channels, so_far) is Ok,
    ensures
        ({
            let (e, at) = element_at(b, pos, pairs, channels, so_far)->Ok_0;
            let (after, end) = element_at(b, pos, pairs + 1, channels, so_far)->Ok_0;
            let (key, value) = string_at(b, at)->Ok_0;
            let rated = key == "StreamSampleRate".spec_bytes();
            let sized = !rated && key == "SampleSize".spec_bytes();
            let laid = !rated && !sized && key == "AudioChannelLayoutElements".spec_bytes();
            let told = !rated && !sized && !laid && key == "ElementData".spec_bytes();
            &&& string_at(b, at) is Ok
            &&& rated ==> (number_at(b, value) matches Ok((n, stop)) && after.rate == n && end == stop)
            &&& !rated ==> after.rate == e.rate
            &&& sized ==> (number_at(b, value) matches Ok((n, stop)) && after.bits == n && end == stop)
            &&& !sized ==> after.bits == e.bits
            &&& laid ==> (expected_at(b, value, 2) matches Ok((count, start)) && (layouts_at(
                b,
                start,
                count,
                channels,
                false,
            ) matches Ok((found, stop)) && after.channels_match == found && end == stop))
            &&& !laid ==> after.channels_match == e.channels_match
            &&& told ==> (cookie_at(b, value) matches Ok((cookie, stop)) && after.cookie == Some(
                cookie,
            ) && end == stop)
            &&& !told ==> after.cookie == e.cookie
            &&& !rated && !sized && !laid && !told ==> skipped(b, value, 1) == Ok::<
                int,
                &'static str,
            >(end)
        }),
    decreases pairs,
{
    if pairs > 0 {
        let (key, next) = string_at(b, pos)->Ok_0;
        if key == "StreamSampleRate".spec_bytes() {
            let (n, end) = number_at(b, next)->Ok_0;
            law_added_entry_sets_what_its_key_names(
                b,
                end,
                pairs - 1,
                channels,
                ElementView { rate: n, ..so_far },
            );
        } else if key == "SampleSize".spec_bytes() {
            let (n, end) = number_at(b, next)->Ok_0;
            law_added_entry_sets_what_its_key_names(
                b,
                end,
                pairs - 1,
                channels,
                ElementView { bits: n, ..so_far },
            );
        } else if key == "AudioChannelLayoutElements".spec_bytes() {
            let (count, start) = expected_at(b, next, OS_TYPE_ARRAY)->Ok_0;
            let (m, end) = layouts_at(b, start, count, channels, false)->Ok_0;
            law_added_entry_sets_what_its_key_names(
                b,
                end,
                pairs - 1,
                channels,
                ElementView { channels_match: m, ..so_far },
            );
        } else if key == "ElementData".spec_bytes() {
            let (c, end) = cookie_at(b, next)->Ok_0;
            law_added_entry_sets_what_its_key_names(
                b,
                end,
                pairs - 1,
                channels,
                ElementView { cookie: Some(c), ..so_far },
            );
        } else {
            let end = skipped(b, next, 1)->Ok_0;
            law_added_entry_sets_what_its_key_names(b, end, pairs - 1, channels, so_far);
        }
    } else {
        reveal_with_fuel(element_at, 2);
    }
}

/// Law: a token is chosen only from a list that starts with the serialization's magic number, for 1 to
/// 16 channels, and then it is the token of the first matching mode of the array behind it.
pub proof fn law_selection_reads_the_whole_list(b: Seq<u8>, rate: u32, bits: u32, channels: u32)
    ensures
        channels == 0 || channels > 16 ==> selected(b, rate, bits, channels) is Err,
        selected(b, rate, bits, channels) is Ok ==> {
            &&& 1 <= channels <= 16
            &&& b.len() >= 4
            &&& le32(b, 0) == 0xd3
            &&& expected_at(b, 4, 2) matches Ok((count, start)) && selected(b, rate, bits, channels)
                == first_match(b, start, count, rate, bits, channels)
        },
        1 <= channels <= 16 && b.len() >= 4 && le32(b, 0) == 0xd3 ==> match expected_at(b, 4, 2) {
            Ok((count, start)) => selected(b, rate, bits, channels) == first_match(
                b,
                start,
                count,
                rate,
                bits,
                channels,
            ),
            Err(e) => selected(b, rate, bits, channels) == Err::<Seq<u8>, &'static str>(e),
        },
{
}

} // verus!
