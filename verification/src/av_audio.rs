//! DisplayPort audio control carried by DCP's AV EPIC endpoint.

use vstd::prelude::*;
use crate::av_parser::{select_cookie, selected, DcpAvAudioCookie};
use crate::bytes::{copy_range, get_le64, le64, le64_bytes, put_le64, zeroed};

verus! {

pub const DCP_AV_EP: u8 = 0x29;
pub const DCP_AV_SERVICE_TIMEOUT_US: u64 = 5_000_000;

/// An endpoint has one 0x4000-byte command buffer. A standard service call takes 0x40 bytes of
/// it, and the header of an object reply another 0x30; this is left for the object itself.
pub const AV_ELEMENTS_MAX_SIZE: usize = 0x3f90;
pub const AV_OSOBJECT_HEADER_SIZE: usize = 48;
pub const AV_LINK_CALL_SIZE: usize = 64;

/// The name of the audio service.
pub fn service_name() -> (r: &'static str)
    ensures
        r@ == "dcpav-audio-interface-epic"@,
{
    "dcpav-audio-interface-epic"
}

/// The name under which older firmware announces the audio service.
pub fn fallback_service_name() -> (r: &'static str)
    ensures
        r@ == "DCPAVAudioInterface"@,
{
    "DCPAVAudioInterface"
}

#[derive(Clone, Copy, Debug, PartialEq, Eq, Structural)]
pub struct DcpAvAudioCommands {
    pub open: u32,
    pub close: u32,
    pub prepare: u32,
    pub start_link: u32,
    pub stop_link: u32,
    pub unprepare: u32,
    pub get_elements: u32,
}

/// The command numbers of a firmware.
pub open spec fn commands_of(firmware_13_3_or_newer: bool) -> DcpAvAudioCommands {
    if firmware_13_3_or_newer {
        DcpAvAudioCommands {
            open: 4,
            close: 5,
            prepare: 6,
            start_link: 7,
            stop_link: 10,
            unprepare: 11,
            get_elements: 16,
        }
    } else {
        DcpAvAudioCommands {
            open: 6,
            close: 7,
            prepare: 8,
            start_link: 9,
            stop_link: 12,
            unprepare: 13,
            get_elements: 18,
        }
    }
}

/// The command numbers of a firmware.
pub fn audio_commands(firmware_13_3_or_newer: bool) -> (r: DcpAvAudioCommands)
    ensures
        r == commands_of(firmware_13_3_or_newer),
{
    if firmware_13_3_or_newer {
        DcpAvAudioCommands {
            open: 4,
            close: 5,
            prepare: 6,
            start_link: 7,
            stop_link: 10,
            unprepare: 11,
            get_elements: 16,
        }
    } else {
        DcpAvAudioCommands {
            open: 6,
            close: 7,
            prepare: 8,
            start_link: 9,
            stop_link: 12,
            unprepare: 13,
            get_elements: 18,
        }
    }
}

/// A service call: both buffers have a size of their own, whatever the payload is.
#[derive(Debug)]
pub struct AvCall {
    pub channel: u32,
    pub group: u16,
    pub command: u32,
    pub payload: Vec<u8>,
    pub input_size: usize,
    pub output_size: usize,
}

#[verifier::ext_equal]
pub struct AvCallView {
    pub channel: u32,
    pub group: u16,
    pub command: u32,
    pub payload: Seq<u8>,
    pub size: usize,
}

impl AvCall {
    /// Calls use the same size both ways.
    pub open spec fn is(&self, v: AvCallView) -> bool {
        &&& self.channel == v.channel
        &&& self.group == v.group
        &&& self.command == v.command
        &&& self.payload@ == v.payload
        &&& self.input_size == v.size
        &&& self.output_size == v.size
    }
}

/// A call without payload.
pub open spec fn bare_call(channel: u32, command: u32, size: usize) -> AvCallView {
    AvCallView { channel, group: 0, command, payload: Seq::empty(), size }
}

fn bare(channel: u32, command: u32, size: usize) -> (r: AvCall)
    ensures
        r.is(bare_call(channel, command, size)),
{
    AvCall {
        channel,
        group: 0,
        command,
        payload: Vec::new(),
        input_size: size,
        output_size: size,
    }
}

/// What to do next while the audio service has not been announced.
#[derive(Clone, Copy, Debug, PartialEq, Eq)]
pub enum ServiceWait {
    Found { channel: u32 },
    Failed { error: &'static str },
    PollAgain,
}

/// Looks at what has been announced so far: under the full name, by its suffix, or under the old
/// name, in this order.
pub fn wait_for_audio_service(
    exact: Option<u32>,
    by_suffix: Option<u32>,
    fallback: Option<u32>,
    now_us: u64,
    start_us: u64,
) -> (r: ServiceWait)
    ensures
        r == match (exact, by_suffix, fallback) {
            (Some(channel), _, _) => ServiceWait::Found { channel },
            (None, Some(channel), _) => ServiceWait::Found { channel },
            (None, None, Some(channel)) => ServiceWait::Found { channel },
            (None, None, None) => if now_us - start_us >= DCP_AV_SERVICE_TIMEOUT_US {
                ServiceWait::Failed { error: "apple-dcpext: DCP AV audio service not announced" }
            } else {
                ServiceWait::PollAgain
            },
        },
{
    let found: Option<u32> = match exact {
        Some(channel) => Some(channel),
        None => match by_suffix {
            Some(channel) => Some(channel),
            None => fallback,
        },
    };
    if let Some(channel) = found {
        return ServiceWait::Found { channel };
    }
    if now_us >= start_us && now_us - start_us >= DCP_AV_SERVICE_TIMEOUT_US {
        return ServiceWait::Failed { error: "apple-dcpext: DCP AV audio service not announced" };
    }
    ServiceWait::PollAgain
}

/// The header of a request for an object of at most `max_size` bytes.
pub open spec fn object_header(max_size: u64) -> Seq<u8> {
    le64_bytes(max_size) + Seq::new(40, |i: int| 0u8)
}

/// The request for an object.
pub fn osobject_request(channel: u32, group: u16, command: u32, output_max_size: usize) -> (r:
    Result<AvCall, &'static str>)
    ensures
        match r {
            Ok(call) => {
                &&& AV_OSOBJECT_HEADER_SIZE + output_max_size <= usize::MAX
                &&& call.is(
                    AvCallView {
                        channel,
                        group,
                        command,
                        payload: object_header(output_max_size as u64),
                        size: (AV_OSOBJECT_HEADER_SIZE + output_max_size) as usize,
                    },
                )
            },
            Err(e) => {
                &&& AV_OSOBJECT_HEADER_SIZE + output_max_size > usize::MAX
                &&& e == "apple-dcpext: AV OSObject request overflow"
            },
        },
{
    let transfer_size: usize = AV_OSOBJECT_HEADER_SIZE.checked_add(output_max_size).ok_or(
        "apple-dcpext: AV OSObject request overflow",
    )?;
    let mut header = zeroed(AV_OSOBJECT_HEADER_SIZE);
    put_le64(&mut header, 0, output_max_size as u64);
    assert(header@ =~= object_header(output_max_size as u64));
    Ok(
        AvCall {
            channel,
            group,
            command,
            payload: header,
            input_size: transfer_size,
            output_size: transfer_size,
        },
    )
}

/// The object in a reply. Its size stands in the header, at offset 32.
pub open spec fn object_in(reply: Seq<u8>, max_size: usize) -> Result<Seq<u8>, &'static str> {
    if reply.len() < AV_OSOBJECT_HEADER_SIZE {
        Err("apple-dcpext: short AV OSObject reply")
    } else {
        let used = le64(reply, 32) as usize;
        if used < 4 || used > max_size {
            Err("apple-dcpext: invalid AV OSObject used size")
        } else if AV_OSOBJECT_HEADER_SIZE + used > usize::MAX {
            Err("apple-dcpext: AV OSObject reply overflow")
        } else if AV_OSOBJECT_HEADER_SIZE + used > reply.len() {
            Err("apple-dcpext: truncated AV OSObject reply")
        } else {
            Ok(
                reply.subrange(
                    AV_OSOBJECT_HEADER_SIZE as int,
                    AV_OSOBJECT_HEADER_SIZE + used,
                ),
            )
        }
    }
}

/// The object in a reply to [`osobject_request`].
pub fn get_osobject(reply: &[u8], output_max_size: usize) -> (r: Result<Vec<u8>, &'static str>)
    ensures
        match object_in(reply@, output_max_size) {
            Ok(object) => r is Ok && r->Ok_0@ == object,
            Err(e) => r is Err && r->Err_0 == e,
        },
{
    if reply.len() < AV_OSOBJECT_HEADER_SIZE {
        return Err("apple-dcpext: short AV OSObject reply");
    }
    let used_size: usize = get_le64(reply, 32) as usize;
    if used_size < 4 || used_size > output_max_size {
        return Err("apple-dcpext: invalid AV OSObject used size");
    }
    let end: usize = AV_OSOBJECT_HEADER_SIZE.checked_add(used_size).ok_or(
        "apple-dcpext: AV OSObject reply overflow",
    )?;
    if end > reply.len() {
        return Err("apple-dcpext: truncated AV OSObject reply");
    }
    Ok(copy_range(reply, AV_OSOBJECT_HEADER_SIZE, end))
}

fn token(cookie: &DcpAvAudioCookie) -> (r: Vec<u8>)
    ensures
        r@ == cookie@,
{
    let mut bytes: Vec<u8> = Vec::new();
    let mut i: usize = 0;
    while i < 24
        invariant
            i <= 24,
            cookie@.len() == 24,
            bytes@ == cookie@.take(i as int),
        decreases 24 - i,
    {
        bytes.push(cookie[i]);
        i = i + 1;
        assert(bytes@ =~= cookie@.take(i as int));
    }
    assert(bytes@ =~= cookie@);
    bytes
}

/// A change of the audio link that a call brings about.
#[derive(Clone, Copy, Debug, PartialEq, Eq, Structural)]
pub enum LinkChange {
    Prepare,
    Start,
    Stop,
    Unprepare,
}

/// The audio service of a sink.
#[derive(Debug)]
pub struct DcpAvAudio {
    pub channel: u32,
    pub commands: DcpAvAudioCommands,
    pub elements: Vec<u8>,
    pub opened: bool,
    pub prepared: bool,
    pub started: bool,
}

/// The call that publishes the connection to the audio service.
pub fn open_call(channel: u32, commands: DcpAvAudioCommands) -> (r: AvCall)
    ensures
        r.is(bare_call(channel, commands.open, 32)),
{
    bare(channel, commands.open, 32)
}

/// The call that gives the audio service up.
pub fn close_call(channel: u32, commands: DcpAvAudioCommands) -> (r: AvCall)
    ensures
        r.is(bare_call(channel, commands.close, 16)),
{
    bare(channel, commands.close, 16)
}

/// The sample size that a sink is used with: 48 kHz stereo, 16 bits where it can, else 32.
pub open spec fn preferred_bits(elements: Seq<u8>) -> Option<u32> {
    if selected(elements, 48_000, 16, 2) is Ok {
        Some(16)
    } else if selected(elements, 48_000, 32, 2) is Ok {
        Some(32)
    } else {
        None
    }
}

impl DcpAvAudio {
    /// A link is prepared before it runs.
    pub open spec fn wf(&self) -> bool {
        self.started ==> self.prepared
    }

    /// Looks at the modes that an opened service offers; `elements` is what became of asking for
    /// them. A service that is of no use is to be closed again: that call comes with the error.
    pub fn start(
        channel: u32,
        firmware_13_3_or_newer: bool,
        elements: Result<Vec<u8>, &'static str>,
    ) -> (r: Result<(Self, u32), (&'static str, AvCall)>)
        ensures
            match elements {
                Err(e) => {
                    &&& r is Err
                    &&& r->Err_0.0 == e
                    &&& r->Err_0.1.is(
                        bare_call(channel, commands_of(firmware_13_3_or_newer).close, 16),
                    )
                },
                Ok(elements) => match preferred_bits(elements@) {
                    None => {
                        &&& r is Err
                        &&& r->Err_0.0
                            == "apple-dcpext: sink has no 48 kHz stereo S16/S32 audio mode"
                        &&& r->Err_0.1.is(
                            bare_call(channel, commands_of(firmware_13_3_or_newer).close, 16),
                        )
                    },
                    Some(bits) => {
                        &&& r is Ok
                        &&& r->Ok_0.1 == bits
                        &&& r->Ok_0.0.wf()
                        &&& r->Ok_0.0.channel == channel
                        &&& r->Ok_0.0.commands == commands_of(firmware_13_3_or_newer)
                        &&& r->Ok_0.0.elements@ == elements@
                        &&& r->Ok_0.0.opened && !r->Ok_0.0.prepared && !r->Ok_0.0.started
                    },
                },
            },
    {
        let commands = audio_commands(firmware_13_3_or_newer);
        let elements = match elements {
            Ok(elements) => elements,
            Err(error) => {
                return Err((error, close_call(channel, commands)));
            },
        };
        let bits: u32 = if select_cookie(elements.as_slice(), 48_000, 16, 2).is_ok() {
            16
        } else if select_cookie(elements.as_slice(), 48_000, 32, 2).is_ok() {
            32
        } else {
            return Err(
                (
                    "apple-dcpext: sink has no 48 kHz stereo S16/S32 audio mode",
                    close_call(channel, commands),
                ),
            );
        };
        Ok(
            (
                DcpAvAudio {
                    channel,
                    commands,
                    elements,
                    opened: true,
                    prepared: false,
                    started: false,
                },
                bits,
            ),
        )
    }

    /// The token of a mode.
    pub fn cookie(&self, rate_hz: u32, sample_bits: u32, channels: u32) -> (r: Result<
        DcpAvAudioCookie,
        &'static str,
    >)
        ensures
            if !self.opened {
                r is Err && r->Err_0 == "apple-dcpext: DisplayPort audio service is closed"
            } else {
                match selected(self.elements@, rate_hz, sample_bits, channels) {
                    Ok(cookie) => r is Ok && r->Ok_0@ == cookie,
                    Err(e) => r is Err && r->Err_0 == e,
                }
            },
    {
        if !self.opened {
            return Err("apple-dcpext: DisplayPort audio service is closed");
        }
        select_cookie(self.elements.as_slice(), rate_hz, sample_bits, channels)
    }

    /// Whether the sink has a mode.
    pub fn supports(&self, rate_hz: u32, sample_bits: u32, channels: u32) -> (r: bool)
        ensures
            r == (self.opened && selected(
                self.elements@,
                rate_hz,
                sample_bits,
                channels,
            ) is Ok),
    {
        self.cookie(rate_hz, sample_bits, channels).is_ok()
    }

    fn link_call(&self, command: u32, payload: Vec<u8>) -> (r: AvCall)
        ensures
            r.is(
                AvCallView {
                    channel: self.channel,
                    group: 0,
                    command,
                    payload: payload@,
                    size: AV_LINK_CALL_SIZE,
                },
            ),
    {
        AvCall {
            channel: self.channel,
            group: 0,
            command,
            payload,
            input_size: AV_LINK_CALL_SIZE,
            output_size: AV_LINK_CALL_SIZE,
        }
    }

    /// The call that prepares the link for a mode.
    pub fn prepare(&self, cookie: &DcpAvAudioCookie) -> (r: Result<AvCall, &'static str>)
        ensures
            match r {
                Ok(call) => !self.started && call.is(
                    AvCallView {
                        channel: self.channel,
                        group: 0,
                        command: self.commands.prepare,
                        payload: cookie@,
                        size: AV_LINK_CALL_SIZE,
                    },
                ),
                Err(e) => self.started && e
                    == "apple-dcpext: cannot prepare a running audio link",
            },
    {
        if self.started {
            return Err("apple-dcpext: cannot prepare a running audio link");
        }
        Ok(self.link_call(self.commands.prepare, token(cookie)))
    }

    /// The call that starts the link, or none where it runs.
    pub fn start_link(&self, cookie: &DcpAvAudioCookie) -> (r: Result<
        Option<AvCall>,
        &'static str,
    >)
        ensures
            match r {
                Err(e) => !self.prepared && e == "apple-dcpext: audio link has not been prepared",
                Ok(None) => self.prepared && self.started,
                Ok(Some(call)) => self.prepared && !self.started && call.is(
                    AvCallView {
                        channel: self.channel,
                        group: 0,
                        command: self.commands.start_link,
                        payload: cookie@,
                        size: AV_LINK_CALL_SIZE,
                    },
                ),
            },
    {
        if !self.prepared {
            return Err("apple-dcpext: audio link has not been prepared");
        }
        if self.started {
            return Ok(None);
        }
        Ok(Some(self.link_call(self.commands.start_link, token(cookie))))
    }

    /// The call that stops the link, or none where it does not run.
    pub fn stop_link(&self) -> (r: Option<AvCall>)
        ensures
            match r {
                None => !self.started,
                Some(call) => self.started && call.is(
                    bare_call(self.channel, self.commands.stop_link, AV_LINK_CALL_SIZE),
                ),
            },
    {
        if !self.started {
            return None;
        }
        Some(bare(self.channel, self.commands.stop_link, AV_LINK_CALL_SIZE))
    }

    /// The call that undoes the preparation of the link, or none where there is nothing to undo.
    pub fn unprepare(&self) -> (r: Result<Option<AvCall>, &'static str>)
        ensures
            match r {
                Err(e) => self.started && e == "apple-dcpext: stop audio before unpreparing it",
                Ok(None) => !self.started && !self.prepared,
                Ok(Some(call)) => !self.started && self.prepared && call.is(
                    bare_call(self.channel, self.commands.unprepare, AV_LINK_CALL_SIZE),
                ),
            },
    {
        if self.started {
            return Err("apple-dcpext: stop audio before unpreparing it");
        }
        if !self.prepared {
            return Ok(None);
        }
        Ok(Some(bare(self.channel, self.commands.unprepare, AV_LINK_CALL_SIZE)))
    }

    /// Records what became of a call. A call that failed changes nothing.
    pub fn completed(&mut self, change: LinkChange, result: Result<(), &'static str>) -> (r: Result<
        (),
        &'static str,
    >)
        requires
            old(self).wf(),
            change == LinkChange::Start ==> old(self).prepared,
            change == LinkChange::Unprepare ==> !old(self).started,
        ensures
            final(self).wf(),
            r == result,
            *final(self) == match (result, change) {
                (Err(_), _) => *old(self),
                (Ok(()), LinkChange::Prepare) => DcpAvAudio { prepared: true, ..*old(self) },
                (Ok(()), LinkChange::Start) => DcpAvAudio { started: true, ..*old(self) },
                (Ok(()), LinkChange::Stop) => DcpAvAudio { started: false, ..*old(self) },
                (Ok(()), LinkChange::Unprepare) => DcpAvAudio { prepared: false, ..*old(self) },
            },
    {
        if result.is_ok() {
            match change {
                LinkChange::Prepare => {
                    self.prepared = true;
                },
                LinkChange::Start => {
                    self.started = true;
                },
                LinkChange::Stop => {
                    self.started = false;
                },
                LinkChange::Unprepare => {
                    self.prepared = false;
                },
            }
        }
        result
    }

    /// Gives the service up: whatever runs is stopped, undone and closed, in this order. A call
    /// that fails is passed over.
    pub fn shutdown(&mut self) -> (r: Vec<AvCall>)
        ensures
            *final(self) == (DcpAvAudio {
                opened: false,
                prepared: false,
                started: false,
                ..*old(self)
            }),
            matches_calls(r@, shutdown_calls(*old(self))),
    {
        let mut calls: Vec<AvCall> = Vec::new();
        if self.started {
            calls.push(bare(self.channel, self.commands.stop_link, AV_LINK_CALL_SIZE));
            self.started = false;
        }
        if self.prepared {
            calls.push(bare(self.channel, self.commands.unprepare, AV_LINK_CALL_SIZE));
            self.prepared = false;
        }
        if self.opened {
            calls.push(bare(self.channel, self.commands.close, 16));
            self.opened = false;
        }
        calls
    }
}

/// The calls that give a service up.
pub open spec fn shutdown_calls(audio: DcpAvAudio) -> Seq<AvCallView> {
    (if audio.started {
        seq![bare_call(audio.channel, audio.commands.stop_link, AV_LINK_CALL_SIZE)]
    } else {
        Seq::empty()
    }) + (if audio.prepared {
        seq![bare_call(audio.channel, audio.commands.unprepare, AV_LINK_CALL_SIZE)]
    } else {
        Seq::empty()
    }) + (if audio.opened {
        seq![bare_call(audio.channel, audio.commands.close, 16)]
    } else {
        Seq::empty()
    })
}

pub open spec fn matches_calls(calls: Seq<AvCall>, views: Seq<AvCallView>) -> bool {
    &&& calls.len() == views.len()
    &&& forall|i: int| 0 <= i < calls.len() ==> (#[trigger] calls[i]).is(views[i])
}

/// Law: a service that was given up has nothing left to give up.
pub proof fn law_shutdown_is_final(audio: DcpAvAudio)
    ensures
        shutdown_calls(
            DcpAvAudio { opened: false, prepared: false, started: false, ..audio },
        ) == Seq::<AvCallView>::empty(),
{
}

/// Law: an object that was put behind a header of its size is read back whole.
pub proof fn law_object_round_trip(head: Seq<u8>, tail: Seq<u8>, object: Seq<u8>, max_size: usize)
    requires
        head.len() == 32,
        tail.len() == 8,
        4 <= object.len() <= max_size,
        AV_OSOBJECT_HEADER_SIZE + object.len() <= usize::MAX,
    ensures
        object_in(head + le64_bytes(object.len() as u64) + tail + object, max_size) == Ok::<
            Seq<u8>,
            &'static str,
        >(object),
{
    let size = object.len() as u64;
    let reply = head + le64_bytes(size) + tail + object;
    assert(le64_bytes(size).len() == 8);
    assert forall|i: int| 0 <= i < 8 implies reply[32 + i] == le64_bytes(size)[i] by {}
    crate::bytes::law_le64_round_trip(reply, 32, size);
    assert(crate::bytes::overlay(reply, 32, le64_bytes(size)) =~= reply);
    assert(reply.subrange(48, 48 + object.len() as int) =~= object);
}

/// Law: the commands of newer firmware are those of older firmware, two numbers lower; opening comes
/// first, and closing, preparing and starting the link follow it one by one.
pub proof fn law_commands_moved_by_two()
    ensures
        ({
            let (new, old) = (commands_of(true), commands_of(false));
            &&& new.open == 4
            &&& new.close == new.open + 1
            &&& new.prepare == new.open + 2
            &&& new.start_link == new.open + 3
            &&& new.stop_link == new.open + 6
            &&& new.unprepare == new.open + 7
            &&& new.get_elements == new.open + 12
            &&& old.open == new.open + 2
            &&& old.close == new.close + 2
            &&& old.prepare == new.prepare + 2
            &&& old.start_link == new.start_link + 2
            &&& old.stop_link == new.stop_link + 2
            &&& old.unprepare == new.unprepare + 2
            &&& old.get_elements == new.get_elements + 2
        }),
{
}

/// Law: a service is given up in the order opposite to that in which it was taken up, and only as far
/// as it was: the link is stopped, then unprepared, then the service is closed.
pub proof fn law_shutdown_goes_backwards(audio: DcpAvAudio)
    ensures
        ({
            let calls = shutdown_calls(audio);
            let stopped = if audio.started {
                1int
            } else {
                0int
            };
            let unprepared = stopped + if audio.prepared {
                1int
            } else {
                0int
            };
            &&& calls.len() == unprepared + if audio.opened {
                1int
            } else {
                0int
            }
            &&& audio.started ==> calls[0].command == audio.commands.stop_link
            &&& audio.prepared ==> calls[stopped].command == audio.commands.unprepare
            &&& audio.opened ==> calls[unprepared].command == audio.commands.close
            &&& forall|i: int| 0 <= i < calls.len() ==> (#[trigger] calls[i]).channel == audio.channel
                && calls[i].group == 0 && calls[i].payload.len() == 0
        }),
{
}

/// Law: a sink is used with 16 bits where it offers 48 kHz stereo with 16 bits; else with 32 bits where
/// it offers that; else not at all.
pub proof fn law_sixteen_bits_are_preferred(elements: Seq<u8>)
    ensures
        selected(elements, 48_000, 16, 2) is Ok ==> preferred_bits(elements) == Some(16u32),
        selected(elements, 48_000, 16, 2) is Err && selected(elements, 48_000, 32, 2) is Ok
            ==> preferred_bits(elements) == Some(32u32),
        preferred_bits(elements) is None <==> selected(elements, 48_000, 16, 2) is Err && selected(
            elements,
            48_000,
            32,
            2,
        ) is Err,
{
}

} // verus!
