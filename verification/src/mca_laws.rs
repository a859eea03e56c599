//! What holds of the playback paths of the MCA.

use vstd::prelude::*;
use crate::device::Resolved;
use crate::dma::{bit32, DmaBusWidth, DmaDirection};
use crate::mca::{
    adapter_word, bclk_for, clocked_ops, clocks_off_ops, clocks_on_ops, clusters_in,
    codecs_heard_ops, codecs_muted_ops, codecs_off_ops, codecs_on_ops, codecs_unpowered_ops,
    dma_called, dmas_from, domain_in, domain_of, entry_ops, has_cluster, period_refused,
    playback_dma_of, port_off_ops, port_ops, ports_of, ports_off_ops, ports_on_ops, release_ops,
    sample_pad, serdes_off, serdes_on, serdes_ops, slots_for, stop_ops, stream_for, stream_ops,
    syncgen_ops, tx_mask_for, AppleMca, AppleMcaDma, AppleMcaOutput, AppleMcaPlaybackCodec,
    AppleMcaStream, DmaView,
};
use crate::mca_path::PathOp;
use crate::pcm::{PcmBuffer, PcmFormat, PcmParams, PcmPeriod};
use crate::sequence::Step;

verus! {

/// Law: a block of registers holds those clusters whose registers all lie in it.
pub proof fn law_clusters_lie_in_the_block(size: usize, cluster: int)
    requires
        0 <= cluster,
    ensures
        cluster < clusters_in(size) <==> 0x4000 * (cluster + 1) <= size,
{
}

/// The lowest bits of a word.
proof fn lemma_low_ones(n: u32, j: u32)
    by (bit_vector)
    requires
        n < 32,
        j < 32,
    ensures
        1u32 << n >= 1,
        ((((1u32 << n) - 1) as u32) & (1u32 << j) != 0) == (j < n),
        0xffff_ffffu32 & (1u32 << j) != 0,
{
}

/// Law: a frame has a slot for each channel, and two at the least; exactly its slots, from the lowest
/// on, are driven.
pub proof fn law_frame_has_a_slot_for_each_channel(params: PcmParams, j: int)
    requires
        0 <= j < 32,
    ensures
        slots_for(params) >= params.channels,
        slots_for(params) >= 2,
        slots_for(params) == params.channels || slots_for(params) == 2,
        bit32(tx_mask_for(params), j) <==> j < slots_for(params),
{
    let slots = slots_for(params) as u32;
    if slots < 32 {
        lemma_low_ones(slots, j as u32);
    } else {
        lemma_low_ones(0, j as u32);
    }
}

/// Law: a sample and the padding below it fill a slot of 32 bits, and the bit clock runs through two
/// such slots for each frame.
pub proof fn law_samples_fill_their_slots(params: PcmParams)
    ensures
        params.format == PcmFormat::S16Le ==> sample_pad(params) == Some(16u32),
        params.format == PcmFormat::S32Le ==> sample_pad(params) == Some(0u32),
        sample_pad(params) is Some <==> params.format == PcmFormat::S16Le || params.format
            == PcmFormat::S32Le,
        bclk_for(params) == params.rate * (2 * 32),
{
}

/// Law: the DMA channel that feeds a cluster is the first of the list that bears the cluster's name.
pub proof fn law_cluster_is_fed_by_its_channel(mca: AppleMca, cluster: usize, i: int)
    requires
        0 <= i < mca.dmas@.len() <= usize::MAX,
        cluster < 6,
    ensures
        ({
            let name = if cluster == 0 {
                "tx0a"@
            } else if cluster == 1 {
                "tx1a"@
            } else if cluster == 2 {
                "tx2a"@
            } else if cluster == 3 {
                "tx3a"@
            } else if cluster == 4 {
                "tx4a"@
            } else {
                "tx5a"@
            };
            &&& playback_dma_of(mca, cluster) matches Ok(k) ==> k < mca.dmas@.len()
                && mca.dmas@[k as int].name@ == name && (mca.dmas@[i].name@ == name ==> k <= i)
            &&& mca.dmas@[i].name@ == name ==> playback_dma_of(mca, cluster) is Ok
        }),
{
    assert forall|name: Seq<char>| true implies match #[trigger] dma_called(mca.dmas@, name, 0) {
        Some(k) => 0 <= k < mca.dmas@.len() && mca.dmas@[k].name@ == name && (mca.dmas@[i].name@
            == name ==> k <= i),
        None => mca.dmas@[i].name@ != name,
    } by {
        lemma_called(mca.dmas@, name, 0, i);
    }
}

proof fn lemma_called(dmas: Seq<AppleMcaDma>, name: Seq<char>, from: int, i: int)
    requires
        0 <= from <= i < dmas.len(),
    ensures
        match dma_called(dmas, name, from) {
            Some(k) => from <= k < dmas.len() && dmas[k].name@ == name && (dmas[i].name@ == name ==> k
                <= i),
            None => dmas[i].name@ != name,
        },
    decreases dmas.len() - from,
{
    if from < i {
        lemma_called(dmas, name, from + 1, i);
    } else if from + 1 < dmas.len() {
        lemma_called(dmas, name, from + 1, from + 1);
    } else {
        reveal_with_fuel(dma_called, 2);
    }
}

/// Law: a port takes the data of the cluster that feeds it and then the clocks of that cluster, and is
/// let through for each of them; cutting it off takes back the data and then the clocks. Only the
/// registers of the port are touched.
pub proof fn law_ports_follow_their_cluster(port: usize, fe_cluster: usize)
    requires
        port < 16,
        fe_cluster < 16,
    ensures
        ({
            let on = port_ops(port, fe_cluster);
            let off = port_off_ops(port);
            let enables = (0x4000 * port + 0x600) as usize;
            let clock = (0x4000 * port + 0x604) as usize;
            let data = (0x4000 * port + 0x608) as usize;
            let step = |s: Step| PathOp::Register { step: s };
            &&& on.len() == 4
            &&& on[0] == step(
                Step::Write { win: 0, offset: data, value: 1u32 << ((2 * fe_cluster) as u32) },
            )
            &&& on[1] == step(Step::Update { win: 0, offset: enables, clear: 8, set: 8 })
            &&& on[2] == step(
                Step::Write { win: 0, offset: clock, value: ((fe_cluster + 1) as u32) << 8u32 },
            )
            &&& on[3] == step(Step::Update { win: 0, offset: enables, clear: 6, set: 6 })
            &&& off.len() == 4
            &&& off[0] == step(Step::Update { win: 0, offset: enables, clear: 8, set: 0 })
            &&& off[1] == step(Step::Write { win: 0, offset: data, value: 0 })
            &&& off[2] == step(Step::Update { win: 0, offset: enables, clear: 6, set: 0 })
            &&& off[3] == step(Step::Write { win: 0, offset: clock, value: 0 })
        }),
{
}

/// Law: codecs are dealt with in the order of their routes, each with its own slots. One is configured,
/// powered and muted on the way up; it is powered before it is heard, and muted before its power is
/// taken away.
pub proof fn law_codecs_are_dealt_with_in_order(
    routes: Seq<AppleMcaPlaybackCodec>,
    params: PcmParams,
    from: int,
    k: int,
)
    requires
        0 <= from <= k < routes.len(),
    ensures
        ({
            let codec = routes[k].codec;
            let n = routes.len() - from;
            let at = k - from;
            let on = codecs_on_ops(routes, params, from);
            let heard = codecs_heard_ops(routes, from);
            let off = codecs_off_ops(routes, from);
            let muted = codecs_muted_ops(routes, from);
            let unpowered = codecs_unpowered_ops(routes, from);
            &&& on.len() == 3 * n
            &&& on[3 * at] == (PathOp::ConfigureCodec {
                codec,
                params,
                tx_mask: routes[k].tx_mask,
                slots: slots_for(params),
                slot_width: 32,
            })
            &&& on[3 * at + 1] == (PathOp::PowerCodec { codec, on: true })
            &&& on[3 * at + 2] == (PathOp::MuteCodec { codec, muted: true })
            &&& heard.len() == 2 * n
            &&& heard[2 * at] == (PathOp::PowerCodec { codec, on: true })
            &&& heard[2 * at + 1] == (PathOp::MuteCodec { codec, muted: false })
            &&& off.len() == 2 * n
            &&& off[2 * at] == (PathOp::MuteCodec { codec, muted: true })
            &&& off[2 * at + 1] == (PathOp::PowerCodec { codec, on: false })
            &&& muted.len() == n
            &&& muted[at] == (PathOp::MuteCodec { codec, muted: true })
            &&& unpowered.len() == n
            &&& unpowered[at] == (PathOp::PowerCodec { codec, on: false })
        }),
    decreases routes.len() - from,
{
    if from < k {
        law_codecs_are_dealt_with_in_order(routes, params, from + 1, k);
        let on = codecs_on_ops(routes, params, from + 1);
        let heard = codecs_heard_ops(routes, from + 1);
        let off = codecs_off_ops(routes, from + 1);
        let muted = codecs_muted_ops(routes, from + 1);
        let unpowered = codecs_unpowered_ops(routes, from + 1);
        let at = k - from - 1;
        assert(codecs_on_ops(routes, params, from)[3 * at + 3] == on[3 * at]);
        assert(codecs_on_ops(routes, params, from)[3 * at + 4] == on[3 * at + 1]);
        assert(codecs_on_ops(routes, params, from)[3 * at + 5] == on[3 * at + 2]);
        assert(codecs_heard_ops(routes, from)[2 * at + 2] == heard[2 * at]);
        assert(codecs_heard_ops(routes, from)[2 * at + 3] == heard[2 * at + 1]);
        assert(codecs_off_ops(routes, from)[2 * at + 2] == off[2 * at]);
        assert(codecs_off_ops(routes, from)[2 * at + 3] == off[2 * at + 1]);
        assert(codecs_muted_ops(routes, from)[at + 1] == muted[at]);
        assert(codecs_unpowered_ops(routes, from)[at + 1] == unpowered[at]);
    } else if from + 1 < routes.len() {
        law_codecs_are_dealt_with_in_order(routes, params, from + 1, from + 1);
    } else {
        reveal_with_fuel(codecs_on_ops, 2);
        reveal_with_fuel(codecs_heard_ops, 2);
        reveal_with_fuel(codecs_off_ops, 2);
        reveal_with_fuel(codecs_muted_ops, 2);
        reveal_with_fuel(codecs_unpowered_ops, 2);
    }
}

/// Law: a path is stopped from its end: every codec is muted, then DMA stops where there is a stream,
/// and only then the serialiser.
pub proof fn law_paths_stop_from_their_end(out: AppleMcaOutput, i: int)
    requires
        0 <= i < out.codec_routes@.len(),
    ensures
        ({
            let ops = stop_ops(out);
            let n = out.codec_routes@.len() as int;
            &&& ops[i] == (PathOp::MuteCodec { codec: out.codec_routes@[i].codec, muted: true })
            &&& out.stream is Some ==> ops.len() == n + 2 && ops[n] is StopDma
            &&& out.stream is None ==> ops.len() == n + 1
            &&& ops.last() == serdes_off(out.fe_cluster)
        }),
{
    law_codecs_are_dealt_with_in_order(
        out.codec_routes@,
        PcmParams {
            rate: 0,
            channels: 0,
            format: PcmFormat::S16Le,
            period_frames: 0,
            buffer_frames: 0,
            buffer_bytes: None,
            period_bytes: None,
        },
        0,
        i,
    );
}

/// Law: a stream plays from its buffer, in its periods: it is accepted exactly where both have a size,
/// where the ring holds a period, and where the buffer has room for the ring.
pub proof fn law_stream_fits_its_buffer(params: PcmParams, buffer: PcmBuffer)
    requires
        params.period_frames > 0,
    ensures
        stream_for(params, buffer) is Ok <==> params.buffer_bytes is Some && params.period_bytes is Some
            && params.buffer_frames >= params.period_frames && params.buffer_bytes->Some_0
            <= buffer.buffer_bytes,
        stream_for(params, buffer) matches Ok(stream) ==> {
            &&& stream.params == params
            &&& stream.buffer_paddr == buffer.paddr
            &&& params.buffer_bytes == Some(stream.buffer_bytes)
            &&& params.period_bytes == Some(stream.period_bytes)
            &&& stream.period_count * params.period_frames <= params.buffer_frames
            &&& params.buffer_frames < (stream.period_count + 1) * params.period_frames
            &&& stream.in_flight_periods == 0
            &&& !stream.running
        },
{
    let (b, p) = (params.buffer_frames as int, params.period_frames as int);
    vstd::arithmetic::div_mod::lemma_fundamental_div_mod(b, p);
    vstd::arithmetic::div_mod::lemma_div_is_ordered_by_denominator(b, 1, p);
    vstd::arithmetic::mul::lemma_mul_is_commutative(p, b / p);
    vstd::arithmetic::mul::lemma_mul_is_distributive_add_other_way(p, b / p, 1);
}

/// Law: a period is queued exactly where it has the size of the stream's periods, the ring has room
/// and the period lies in the buffer.
pub proof fn law_periods_lie_in_the_ring(stream: AppleMcaStream, period: PcmPeriod)
    ensures
        period_refused(stream, period) is None <==> period.byte_len == stream.period_bytes
            && stream.in_flight_periods < stream.period_count && period.byte_offset + period.byte_len
            <= stream.buffer_bytes,
{
}

/// Law: DMA goes round the stream's buffer in its periods, from memory to the device, with accesses as
/// wide as a sample, and as many to a burst as there are channels, up to four.
pub proof fn law_dma_goes_round_the_buffer(params: PcmParams, buffer: PcmBuffer)
    requires
        stream_for(params, buffer) is Ok,
        params.format == PcmFormat::S16Le || params.format == PcmFormat::S32Le,
    ensures
        stream_ops(params, buffer).len() == 2,
        stream_ops(params, buffer)[1] is InstallCallback,
        stream_ops(params, buffer)[0] matches PathOp::PrepareDma { config } && {
            &&& config.buffer_addr == buffer.paddr
            &&& params.buffer_bytes == Some(config.buffer_len)
            &&& params.period_bytes == Some(config.period_len)
            &&& config.direction == DmaDirection::MemToDev
            &&& config.peripheral matches Some(p) && {
                &&& p.width == if params.format == PcmFormat::S16Le {
                    DmaBusWidth::Width2
                } else {
                    DmaBusWidth::Width4
                }
                &&& 1 <= params.channels <= 4 ==> p.burst_len == params.channels
                &&& params.channels > 4 ==> p.burst_len == 4
                &&& params.channels == 0 ==> p.burst_len == 1
            }
        },
{
}

/// Law: the two halves of a frame have 32 bit clocks each, the master clock is not divided, and the
/// clock runs at the bit clock of the stream.
pub proof fn law_frames_are_timed(cluster: usize, params: PcmParams)
    requires
        cluster < 16,
    ensures
        ({
            let ops = syncgen_ops(cluster, params);
            let base = 0x4000 * cluster;
            let write = |offset: int, value: u32|
                PathOp::Register { step: Step::Write { win: 0, offset: offset as usize, value } };
            &&& ops.len() == 4
            &&& ops[0] == write(base + 0x108, 31)
            &&& ops[1] == write(base + 0x10c, 31)
            &&& ops[2] == write(base + 0x004, 0x100)
            &&& 64 * params.rate <= u64::MAX ==> ops[3] == (PathOp::SetRate {
                cluster,
                hz: (64 * params.rate) as u64,
            })
        }),
{
}

/// Law: a cluster is clocked, and powered where it has a domain, before its clocks are let through; the
/// serialiser is enabled out of reset, and stopped by its enable bit alone.
pub proof fn law_clusters_are_clocked_first(domain: Option<u32>, cluster: usize)
    requires
        cluster < 16,
    ensures
        ({
            let ops = clocks_on_ops(domain, cluster);
            let base = 0x4000 * cluster;
            let n = ops.len() as int;
            let update = |offset: int, clear: u32, set: u32|
                PathOp::Register {
                    step: Step::Update { win: 0, offset: offset as usize, clear, set },
                };
            &&& ops[0] == (PathOp::EnableClock { cluster })
            &&& domain is None ==> n == 4
            &&& domain matches Some(d) ==> n == 5 && ops[1] == (PathOp::EnablePower { domain: d })
            &&& ops[n - 3] == (PathOp::Register {
                step: Step::Write {
                    win: 0,
                    offset: (base + 0x104) as usize,
                    value: (cluster + 1) as u32,
                },
            })
            &&& ops[n - 2] == update(base + 0x100, 1, 1)
            &&& ops[n - 1] == update(base, 1, 1)
            &&& serdes_on(cluster) == update(base + 0x300, 3, 1)
            &&& serdes_off(cluster) == update(base + 0x300, 1, 0)
        }),
{
}

/// Law: the serialiser drives the slots of the mask and sends samples in as many of them as there are
/// channels; the masks that it is given name the slots to leave out.
pub proof fn law_serialiser_leaves_out_other_slots(cluster: usize, params: PcmParams, slot_mask: u32)
    requires
        cluster < 16,
    ensures
        ({
            let ops = serdes_ops(cluster, params, slot_mask);
            let base = 0x4000 * cluster;
            let write = |offset: int, value: u32|
                PathOp::Register { step: Step::Write { win: 0, offset: offset as usize, value } };
            &&& ops.len() == 6
            &&& ops[0] == (PathOp::Register {
                step: Step::Update {
                    win: 0,
                    offset: (base + 0x304) as usize,
                    clear: 0x7_71ff,
                    set: ((((slots_for(params) - 1) as u32) & 0xf) | 0x100 | (((cluster + 1) as u32)
                        << 16) | 0x7000) & 0x7_71ff,
                },
            })
            &&& ops[1] == write(base + 0x308, 1)
            &&& ops[2] == write(base + 0x30c, u32::MAX)
            &&& ops[3] == write(base + 0x310, !crate::mca::cropped(slot_mask, params.channels as int))
            &&& ops[4] == write(base + 0x314, u32::MAX)
            &&& ops[5] == write(base + 0x318, !slot_mask)
        }),
{
}

/// Law: ports are connected one after the other, each to the cluster that feeds the path; the first that
/// does not exist ends this. On the way down every port that exists is cut off.
pub proof fn law_ports_come_in_order(
    mca: AppleMca,
    ports: Seq<usize>,
    fe_cluster: usize,
    from: int,
    k: int,
)
    requires
        0 <= from <= k < ports.len(),
        forall|j: int| from <= j <= k ==> has_cluster(mca, #[trigger] ports[j]),
    ensures
        ports_on_ops(mca, ports, fe_cluster, from).len() >= 4 * (k - from + 1),
        ports_on_ops(mca, ports, fe_cluster, from).subrange(4 * (k - from), 4 * (k - from + 1))
            == port_ops(ports[k], fe_cluster),
        ports_off_ops(mca, ports, from).len() >= 4 * (k - from + 1),
        ports_off_ops(mca, ports, from).subrange(4 * (k - from), 4 * (k - from + 1)) == port_off_ops(
            ports[k],
        ),
        k + 1 < ports.len() && !has_cluster(mca, ports[k + 1]) ==> ports_on_ops(
            mca,
            ports,
            fe_cluster,
            from,
        ).last() is Fail,
    decreases k - from,
{
    let on = ports_on_ops(mca, ports, fe_cluster, from);
    let on_rest = ports_on_ops(mca, ports, fe_cluster, from + 1);
    let off = ports_off_ops(mca, ports, from);
    let off_rest = ports_off_ops(mca, ports, from + 1);
    assert(has_cluster(mca, ports[from]));
    assert(port_ops(ports[from], fe_cluster).len() == 4);
    assert(port_off_ops(ports[from]).len() == 4);
    if from < k {
        law_ports_come_in_order(mca, ports, fe_cluster, from + 1, k);
        let at = 4 * (k - from - 1);
        assert(on.subrange(at + 4, at + 8) =~= on_rest.subrange(at, at + 4));
        assert(off.subrange(at + 4, at + 8) =~= off_rest.subrange(at, at + 4));
    } else {
        assert(on.subrange(0, 4) =~= port_ops(ports[k], fe_cluster));
        assert(off.subrange(0, 4) =~= port_off_ops(ports[k]));
    }
}

/// Law: a path begins with its DMA channel and then its ports; the DMA adapter's own register is written
/// between the serialiser and the clocks.
pub proof fn law_paths_begin_with_dma(mca: AppleMca, out: AppleMcaOutput, params: PcmParams)
    requires
        params.buffer_bytes is Some,
        params.period_bytes is Some,
    ensures
        match playback_dma_of(mca, out.fe_cluster) {
            Ok(entry) => entry_ops(mca, out, params) == seq![PathOp::RequestDma { entry }]
                + ports_on_ops(mca, ports_of(out), out.fe_cluster, 0),
            Err(error) => entry_ops(mca, out, params) == seq![PathOp::Fail { error }],
        },
{
}

/// Law: a bit clock above 24.576 MHz is refused; otherwise the frame is timed, the cluster clocked, the
/// codecs brought up and the stream prepared, in this order.
pub proof fn law_paths_are_clocked_before_they_stream(
    mca: AppleMca,
    out: AppleMcaOutput,
    params: PcmParams,
    buffer: PcmBuffer,
)
    ensures
        64 * params.rate > 24_576_000 ==> clocked_ops(mca, out, params, buffer).len() == 1
            && clocked_ops(mca, out, params, buffer)[0] is Fail,
        64 * params.rate <= 24_576_000 ==> clocked_ops(mca, out, params, buffer) == syncgen_ops(
            out.fe_cluster,
            params,
        ) + clocks_on_ops(
            domain_of(mca.cluster_power_domains@, out.fe_cluster),
            out.fe_cluster,
        ) + codecs_on_ops(out.codec_routes@, params, 0) + stream_ops(params, buffer),
{
}

/// Law: a path is taken down in the order stream, ports, callback, codecs, clocks.
pub proof fn law_paths_are_released_in_order(mca: AppleMca, out: AppleMcaOutput)
    ensures
        ({
            let ops = release_ops(mca, out);
            let stop = stop_ops(out);
            let off = ports_off_ops(mca, ports_of(out), 0);
            let idle = codecs_unpowered_ops(out.codec_routes@, 0);
            let (a, b) = (stop.len() as int, (stop.len() + off.len()) as int);
            let c = b + 1 + idle.len() as int;
            &&& ops.subrange(0, a) == stop
            &&& ops.subrange(a, b) == off
            &&& ops[b] is RemoveCallback
            &&& ops.subrange(b + 1, c) == idle
            &&& ops.subrange(c, ops.len() as int) == clocks_off_ops(
                domain_of(mca.cluster_power_domains@, out.fe_cluster),
                out.fe_cluster,
            )
        }),
{
    let ops = release_ops(mca, out);
    let stop = stop_ops(out);
    let off = ports_off_ops(mca, ports_of(out), 0);
    let idle = codecs_unpowered_ops(out.codec_routes@, 0);
    let (a, b) = (stop.len() as int, (stop.len() + off.len()) as int);
    let c = b + 1 + idle.len() as int;
    assert(ops.subrange(0, a) =~= stop);
    assert(ops.subrange(a, b) =~= off);
    assert(ops.subrange(b + 1, c) =~= idle);
    assert(ops.subrange(c, ops.len() as int) =~= clocks_off_ops(
        domain_of(mca.cluster_power_domains@, out.fe_cluster),
        out.fe_cluster,
    ));
}

/// Law: the first of the power domains is the device's own; the one behind it is that of the first
/// cluster, and so on. A cluster without one, or with a zero, has none.
pub proof fn law_domains_belong_to_clusters(first: u32, cells: Seq<u32>, cluster: int)
    requires
        0 <= cluster,
    ensures
        domain_in(seq![first] + cells, cluster) == if cluster < cells.len() && cells[cluster] != 0 {
            Some(cells[cluster])
        } else {
            None
        },
{
}

/// Law: DMA channels are read one after the other: each takes its name from the list of names, its
/// controller from the next cell, and as many cells behind that as the controller wants. What was read
/// stays in front, in order.
pub proof fn law_dma_specifiers_follow_each_other(
    names: Seq<String>,
    cells: Seq<u32>,
    controllers: Seq<(u32, usize)>,
    k: int,
    at: int,
    done: Seq<DmaView>,
)
    requires
        0 <= k <= names.len(),
        0 <= at,
        dmas_from(names, cells, controllers, k, at, done) is Ready,
    ensures
        ({
            let all = dmas_from(names, cells, controllers, k, at, done)->Ready_0;
            let d = all[done.len() as int];
            &&& all.len() == done.len() + (names.len() - k)
            &&& forall|j: int| 0 <= j < done.len() ==> all[j] == done[j]
            &&& k < names.len() ==> {
                &&& d.name == names[k]@
                &&& d.controller_phandle == cells[at]
                &&& at + 1 + d.cells.len() <= cells.len()
                &&& forall|j: int| 0 <= j < d.cells.len() ==> d.cells[j] == cells[at + 1 + j]
                &&& crate::mca::cells_of(controllers, cells[at], 0) == Some(d.cells.len() as usize)
                &&& dmas_from(
                    names,
                    cells,
                    controllers,
                    k + 1,
                    at + 1 + d.cells.len(),
                    done.push(d),
                ) == Resolved::Ready(all)
            }
        }),
    decreases names.len() - k,
{
    if k < names.len() {
        let count = crate::mca::cells_of(controllers, cells[at], 0)->Some_0;
        let d = DmaView {
            name: names[k]@,
            controller_phandle: cells[at],
            cells: cells.subrange(at + 1, at + 1 + count),
        };
        law_dma_specifiers_follow_each_other(
            names,
            cells,
            controllers,
            k + 1,
            at + 1 + count,
            done.push(d),
        );
        let all = dmas_from(names, cells, controllers, k, at, done)->Ready_0;
        assert(done.push(d)[done.len() as int] == d);
        assert(all[done.len() as int] == d);
        assert forall|j: int| 0 <= j < done.len() implies all[j] == done[j] by {
            assert(done.push(d)[j] == done[j]);
        }
    }
}

/// Law: a controller wants as many cells as the first entry for its handle says.
pub proof fn law_cells_by_the_first_entry(
    providers: Seq<(u32, usize)>,
    phandle: u32,
    from: int,
    i: int,
) -> (k: int)
    requires
        0 <= from <= i < providers.len(),
    ensures
        match crate::mca::cells_of(providers, phandle, from) {
            Some(count) => {
                &&& from <= k < providers.len()
                &&& providers[k] == (phandle, count)
                &&& providers[i].0 == phandle ==> k <= i
            },
            None => providers[i].0 != phandle,
        },
    decreases providers.len() - from,
{
    if providers[from].0 == phandle {
        from
    } else if from < i {
        law_cells_by_the_first_entry(providers, phandle, from + 1, i)
    } else if from + 1 < providers.len() {
        law_cells_by_the_first_entry(providers, phandle, from + 1, from + 1)
    } else {
        reveal_with_fuel(crate::mca::cells_of, 2);
        0
    }
}

/// Law: clocks are taken away in the reverse of the order in which they were let through.
pub proof fn law_clocks_are_taken_away_backwards(
    domain: Option<u32>,
    domains: Seq<Option<u32>>,
    cluster: usize,
)
    requires
        cluster < 16,
    ensures
        ({
            let ops = clocks_off_ops(domain, cluster);
            let base = 0x4000 * cluster;
            let update = |offset: int, clear: u32, set: u32|
                PathOp::Register {
                    step: Step::Update { win: 0, offset: offset as usize, clear, set },
                };
            &&& ops[0] == update(base + 0x100, 1, 0)
            &&& ops[1] == update(base, 1, 0)
            &&& domain is None ==> ops.len() == 3
            &&& domain matches Some(d) ==> ops.len() == 4 && ops[2] == (PathOp::DisablePower {
                domain: d,
            })
            &&& ops.last() == (PathOp::DisableClock { cluster })
        }),
        cluster < domains.len() ==> domain_of(domains, cluster) == domains[cluster as int],
        cluster >= domains.len() ==> domain_of(domains, cluster) is None,
{
}

/// Law: the adapter is told how many samples a burst has, one to four, and of the padding, for either
/// direction.
pub proof fn law_adapter_is_told_the_burst(params: PcmParams, pad: u32)
    ensures
        ({
            let burst: u32 = if params.channels == 0 {
                1
            } else if params.channels <= 4 {
                params.channels as u32
            } else {
                4
            };
            adapter_word(params, pad) == (burst << 20u32) | 0x4040 | pad | (pad << 8u32)
        }),
{
}

} // verus!
