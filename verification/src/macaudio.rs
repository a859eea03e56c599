//! Machine driver of Apple computers: it joins the codecs of the sound card's links to the audio
//! controllers that feed them.

use vstd::prelude::*;
use crate::arith::holds;
use crate::bytes::{be_cells, read_be_u32_cells};
use crate::device::{
    begins_with, child_nodes, children, find_child, find_text, find_node, find_value,
    has_prefix, named_among, same_str, text_of, node_at, value_of, Resolved, TreeNode,
};
use crate::mca::{
    cells_of, copy_cells, find_cells, AppleMcaPlaybackCodec, OutputKind,
    APPLE_MCA_PLAYBACK_CLUSTER, APPLE_MCA_SOUND_DAI_CELLS,
};

verus! {

/// A DAI of a link: its provider and the specifier for it.
#[derive(Debug)]
pub struct SoundDaiRef {
    pub phandle: u32,
    pub spec_cells: Vec<u32>,
}

/// A DAI as a value.
pub ghost struct SoundDaiView {
    pub phandle: u32,
    pub spec_cells: Seq<u32>,
}

impl View for SoundDaiRef {
    type V = SoundDaiView;

    open spec fn view(&self) -> SoundDaiView {
        SoundDaiView { phandle: self.phandle, spec_cells: self.spec_cells@ }
    }
}

/// What is to be done for a link.
#[derive(Debug)]
pub enum CardOp {
    /// Attach a codec to the provider of a DAI. A failure ends the probe.
    Attach { dai: SoundDaiRef, codec: u32, tx_mask: u32 },
    /// Register an output of its own on a port of a controller, unless that has been done.
    Output {
        kind: OutputKind,
        phandle: u32,
        fe_cluster: usize,
        port: usize,
        codec_routes: Vec<AppleMcaPlaybackCodec>,
    },
}

/// What is to be done for a link, as a value.
pub ghost enum CardStep {
    Attach { dai: SoundDaiView, codec: u32, tx_mask: u32 },
    Output {
        kind: OutputKind,
        phandle: u32,
        fe_cluster: usize,
        port: usize,
        codec_routes: Seq<AppleMcaPlaybackCodec>,
    },
}

impl View for CardOp {
    type V = CardStep;

    open spec fn view(&self) -> CardStep {
        match *self {
            CardOp::Attach { dai, codec, tx_mask } => CardStep::Attach {
                dai: dai@,
                codec,
                tx_mask,
            },
            CardOp::Output { kind, phandle, fe_cluster, port, codec_routes } => CardStep::Output {
                kind,
                phandle,
                fe_cluster,
                port,
                codec_routes: codec_routes@,
            },
        }
    }
}

/// Codecs that listen to both slots.
pub open spec fn stereo_routes(codecs: Seq<u32>) -> Seq<AppleMcaPlaybackCodec> {
    codecs.map_values(|codec: u32| AppleMcaPlaybackCodec { codec, tx_mask: 0x3 })
}

/// Routes on which codecs listen to both slots.
pub fn route_in_stereo(codecs: &Vec<u32>) -> (r: Vec<AppleMcaPlaybackCodec>)
    ensures
        r@ == stereo_routes(codecs@),
{
    let mut routes: Vec<AppleMcaPlaybackCodec> = Vec::new();
    let mut i: usize = 0;
    while i < codecs.len()
        invariant
            i <= codecs@.len(),
            routes@ == stereo_routes(codecs@.take(i as int)),
        decreases codecs@.len() - i,
    {
        routes.push(AppleMcaPlaybackCodec { codec: codecs[i], tx_mask: 0x3 });
        i = i + 1;
        assert(routes@ =~= stereo_routes(codecs@.take(i as int)));
    }
    assert(codecs@.take(i as int) =~= codecs@);
    routes
}

/// The DAIs from cell `at` on, behind those in `done`.
pub open spec fn cpu_dais_from(
    cells: Seq<u32>,
    providers: Seq<(u32, usize)>,
    at: int,
    done: Seq<SoundDaiView>,
) -> Resolved<Seq<SoundDaiView>>
    decreases cells.len() - at,
{
    if at < 0 || at >= cells.len() {
        if done.len() == 0 {
            Resolved::Fault("apple-macaudio: empty CPU sound-dai")
        } else {
            Resolved::Ready(done)
        }
    } else {
        match cells_of(providers, cells[at], 0) {
            None => Resolved::Defer,
            Some(count) => if at + 1 + count > cells.len() {
                Resolved::Fault("apple-macaudio: truncated CPU sound-dai specifier")
            } else {
                cpu_dais_from(
                    cells,
                    providers,
                    at + 1 + count,
                    done.push(
                        SoundDaiView {
                            phandle: cells[at],
                            spec_cells: cells.subrange(at + 1, at + 1 + count),
                        },
                    ),
                )
            },
        }
    }
}

/// The DAIs that a CPU endpoint lists.
pub open spec fn cpu_dais_in(value: Seq<u8>, providers: Seq<(u32, usize)>) -> Resolved<
    Seq<SoundDaiView>,
> {
    if value.len() % 4 != 0 {
        Resolved::Fault("apple-macaudio: malformed CPU sound-dai")
    } else {
        cpu_dais_from(be_cells(value), providers, 0, Seq::empty())
    }
}

/// Reads the DAIs that a CPU endpoint lists. `providers` lists the providers that are ready, and how
/// many cells each takes.
pub fn parse_cpu_sound_dais(value: &[u8], providers: &Vec<(u32, usize)>) -> (r: Resolved<
    Vec<SoundDaiRef>,
>)
    ensures
        match r {
            Resolved::Ready(dais) => cpu_dais_in(value@, providers@) == Resolved::Ready(
                dais@.map_values(|d: SoundDaiRef| d@),
            ),
            Resolved::Defer => cpu_dais_in(value@, providers@) is Defer,
            Resolved::Fault(error) => cpu_dais_in(value@, providers@) == Resolved::<
                Seq<SoundDaiView>,
            >::Fault(error),
        },
{
    if value.len() % 4 != 0 {
        return Resolved::Fault("apple-macaudio: malformed CPU sound-dai");
    }
    let cells = read_be_u32_cells(value);
    let mut dais: Vec<SoundDaiRef> = Vec::new();
    let mut at: usize = 0;
    assert(dais@.map_values(|d: SoundDaiRef| d@) =~= Seq::empty());
    while at < cells.len()
        invariant
            at <= cells@.len(),
            cpu_dais_in(value@, providers@) == cpu_dais_from(
                cells@,
                providers@,
                at as int,
                dais@.map_values(|d: SoundDaiRef| d@),
            ),
        decreases cells@.len() - at,
    {
        let phandle: u32 = cells[at];
        let count: usize = match find_cells(providers, phandle) {
            Some(count) => count,
            None => return Resolved::Defer,
        };
        if count > cells.len() - at - 1 {
            return Resolved::Fault("apple-macaudio: truncated CPU sound-dai specifier");
        }
        let ghost before = dais@.map_values(|d: SoundDaiRef| d@);
        dais.push(SoundDaiRef { phandle, spec_cells: copy_cells(&cells, at + 1, count) });
        assert(dais@.map_values(|d: SoundDaiRef| d@) =~= before.push(
            SoundDaiView {
                phandle: cells@[at as int],
                spec_cells: cells@.subrange(at + 1, at + 1 + count),
            },
        ));
        at = at + 1 + count;
    }
    assert(dais@.map_values(|d: SoundDaiRef| d@).len() == dais@.len());
    if dais.len() == 0 {
        return Resolved::Fault("apple-macaudio: empty CPU sound-dai");
    }
    Resolved::Ready(dais)
}

/// The codecs that a codec endpoint lists. All of them must be ready.
pub open spec fn codec_dais_in(value: Seq<u8>, ready: Seq<u32>) -> Resolved<Seq<u32>> {
    let cells = be_cells(value);
    if value.len() % 4 != 0 {
        Resolved::Fault("apple-macaudio: malformed codec sound-dai")
    } else if exists|i: int| 0 <= i < cells.len() && !ready.contains(#[trigger] cells[i]) {
        Resolved::Defer
    } else if cells.len() == 0 {
        Resolved::Fault("apple-macaudio: empty codec sound-dai")
    } else {
        Resolved::Ready(cells)
    }
}

/// Reads the codecs that a codec endpoint lists.
pub fn parse_codec_sound_dais(value: &[u8], ready: &Vec<u32>) -> (r: Resolved<Vec<u32>>)
    ensures
        match r {
            Resolved::Ready(codecs) => codec_dais_in(value@, ready@) == Resolved::Ready(codecs@),
            Resolved::Defer => codec_dais_in(value@, ready@) is Defer,
            Resolved::Fault(error) => codec_dais_in(value@, ready@) == Resolved::<
                Seq<u32>,
            >::Fault(error),
        },
{
    if value.len() % 4 != 0 {
        return Resolved::Fault("apple-macaudio: malformed codec sound-dai");
    }
    let cells = read_be_u32_cells(value);
    let mut i: usize = 0;
    while i < cells.len()
        invariant
            i <= cells@.len(),
            cells@ == be_cells(value@),
            value@.len() % 4 == 0,
            forall|k: int| 0 <= k < i ==> ready@.contains(#[trigger] cells@[k]),
        decreases cells@.len() - i,
    {
        if !holds(ready, cells[i]) {
            assert(!ready@.contains(be_cells(value@)[i as int]));
            return Resolved::Defer;
        }
        i = i + 1;
    }
    if cells.len() == 0 {
        return Resolved::Fault("apple-macaudio: empty codec sound-dai");
    }
    Resolved::Ready(cells)
}

/// The endpoint of a link with this name.
pub open spec fn endpoint(tree: Seq<TreeNode>, link: int, name: Seq<char>) -> Option<int> {
    named_among(tree, children(tree, link), name, 0)
}

/// A link is named by its `link-name`, or by its node.
pub open spec fn link_name(node: TreeNode) -> Seq<char> {
    match text_of(node.properties@, "link-name"@) {
        Some(name) => name,
        None => node.name@,
    }
}

#[derive(Clone, Copy, Debug, PartialEq, Eq, Structural)]
pub enum LinkKind {
    Speakers,
    Headphones,
}

/// What is played by a link, where something is.
pub open spec fn link_kind(node: TreeNode) -> Option<LinkKind> {
    if !begins_with(node.name@, "dai-link"@) {
        None
    } else if link_name(node) == "Headphone Jack"@ {
        Some(LinkKind::Headphones)
    } else if begins_with(link_name(node), "Speaker"@) {
        Some(LinkKind::Speakers)
    } else {
        None
    }
}

fn read_link_kind(node: &TreeNode) -> (r: Option<LinkKind>)
    ensures
        r == link_kind(*node),
{
    if !has_prefix(node.name.as_str(), "dai-link") {
        return None;
    }
    let name = match find_text(node.properties.as_slice(), "link-name") {
        Some(name) => name,
        None => node.name.as_str().to_owned(),
    };
    if same_str(name.as_str(), "Headphone Jack") {
        Some(LinkKind::Headphones)
    } else if has_prefix(name.as_str(), "Speaker") {
        Some(LinkKind::Speakers)
    } else {
        None
    }
}

/// The DAIs and the codecs of a link.
pub open spec fn link_ends(
    tree: Seq<TreeNode>,
    link: int,
    providers: Seq<(u32, usize)>,
    ready: Seq<u32>,
) -> Resolved<(Seq<SoundDaiView>, Seq<u32>)> {
    match (endpoint(tree, link, "cpu"@), endpoint(tree, link, "codec"@)) {
        (None, _) => Resolved::Fault("apple-macaudio: missing playback CPU endpoint"),
        (Some(_), None) => Resolved::Fault("apple-macaudio: missing playback codec endpoint"),
        (Some(cpu), Some(codec)) => match value_of(tree[cpu].properties@, "sound-dai"@) {
            None => Resolved::Fault("apple-macaudio: missing playback CPU sound-dai"),
            Some(value) => match cpu_dais_in(value, providers) {
                Resolved::Defer => Resolved::Defer,
                Resolved::Fault(error) => Resolved::Fault(error),
                Resolved::Ready(dais) => match value_of(
                    tree[codec].properties@,
                    "sound-dai"@,
                ) {
                    None => Resolved::Fault("apple-macaudio: missing playback codec sound-dai"),
                    Some(value) => match codec_dais_in(value, ready) {
                        Resolved::Defer => Resolved::Defer,
                        Resolved::Fault(error) => Resolved::Fault(error),
                        Resolved::Ready(codecs) => Resolved::Ready((dais, codecs)),
                    },
                },
            },
        },
    }
}

fn read_link_ends(
    tree: &[TreeNode],
    link: usize,
    providers: &Vec<(u32, usize)>,
    ready: &Vec<u32>,
) -> (r: Resolved<(Vec<SoundDaiRef>, Vec<u32>)>)
    requires
        link < tree@.len(),
    ensures
        match r {
            Resolved::Ready(ends) => link_ends(tree@, link as int, providers@, ready@)
                == Resolved::Ready((ends.0@.map_values(|d: SoundDaiRef| d@), ends.1@)),
            Resolved::Defer => link_ends(tree@, link as int, providers@, ready@) is Defer,
            Resolved::Fault(error) => link_ends(tree@, link as int, providers@, ready@)
                == Resolved::<(Seq<SoundDaiView>, Seq<u32>)>::Fault(error),
        },
{
    let cpu: usize = match find_child(tree, link, "cpu") {
        Some(cpu) => cpu,
        None => return Resolved::Fault("apple-macaudio: missing playback CPU endpoint"),
    };
    let codec: usize = match find_child(tree, link, "codec") {
        Some(codec) => codec,
        None => return Resolved::Fault("apple-macaudio: missing playback codec endpoint"),
    };
    let dais = match find_value(tree[cpu].properties.as_slice(), "sound-dai") {
        None => return Resolved::Fault("apple-macaudio: missing playback CPU sound-dai"),
        Some(value) => match parse_cpu_sound_dais(value, providers) {
            Resolved::Ready(dais) => dais,
            Resolved::Defer => return Resolved::Defer,
            Resolved::Fault(error) => return Resolved::Fault(error),
        },
    };
    let codecs = match find_value(tree[codec].properties.as_slice(), "sound-dai") {
        None => return Resolved::Fault("apple-macaudio: missing playback codec sound-dai"),
        Some(value) => match parse_codec_sound_dais(value, ready) {
            Resolved::Ready(codecs) => codecs,
            Resolved::Defer => return Resolved::Defer,
            Resolved::Fault(error) => return Resolved::Fault(error),
        },
    };
    Resolved::Ready((dais, codecs))
}

/// The slots of a CPU DAI: where a link has two, each has one slot.
pub open spec fn dai_mask(dais: int, index: int) -> u32 {
    if dais != 2 {
        0x3
    } else if index == 0 {
        0x1
    } else {
        0x2
    }
}

/// The codecs of a link are shared out evenly among its DAIs, in order.
pub open spec fn speaker_steps(dais: Seq<SoundDaiView>, codecs: Seq<u32>) -> Seq<CardStep> {
    let share = codecs.len() as int / dais.len() as int;
    Seq::new(
        codecs.len(),
        |t: int|
            CardStep::Attach {
                dai: dais[t / share],
                codec: codecs[t],
                tx_mask: dai_mask(dais.len() as int, t / share),
            },
    )
}

/// What is to be done for a link.
pub open spec fn link_steps(
    tree: Seq<TreeNode>,
    link: int,
    kind: LinkKind,
    providers: Seq<(u32, usize)>,
    ready: Seq<u32>,
    controllers: Seq<u32>,
) -> Resolved<Seq<CardStep>> {
    match link_ends(tree, link, providers, ready) {
        Resolved::Defer => Resolved::Defer,
        Resolved::Fault(error) => Resolved::Fault(error),
        Resolved::Ready((dais, codecs)) => match kind {
            LinkKind::Headphones => if dais.len() != 1 {
                Resolved::Fault("apple-macaudio: Headphone Jack must have one CPU DAI")
            } else if dais[0].spec_cells.len() != APPLE_MCA_SOUND_DAI_CELLS {
                Resolved::Fault("apple-macaudio: invalid Headphone Jack CPU DAI spec")
            } else if !controllers.contains(dais[0].phandle) {
                Resolved::Defer
            } else {
                Resolved::Ready(
                    seq![
                        CardStep::Output {
                            kind: OutputKind::Headphones,
                            phandle: dais[0].phandle,
                            fe_cluster: APPLE_MCA_PLAYBACK_CLUSTER,
                            port: dais[0].spec_cells[0] as usize,
                            codec_routes: stereo_routes(codecs),
                        },
                    ],
                )
            },
            LinkKind::Speakers => if codecs.len() as int % dais.len() as int != 0 {
                Resolved::Fault("apple-macaudio: Speaker CPU/CODEC count mismatch")
            } else {
                Resolved::Ready(speaker_steps(dais, codecs))
            },
        },
    }
}

proof fn lemma_dais_are_some(
    cells: Seq<u32>,
    providers: Seq<(u32, usize)>,
    at: int,
    done: Seq<SoundDaiView>,
)
    ensures
        cpu_dais_from(cells, providers, at, done) matches Resolved::Ready(dais) ==> dais.len() > 0,
    decreases cells.len() - at,
{
    if 0 <= at < cells.len() {
        if let Some(count) = cells_of(providers, cells[at], 0) {
            if at + 1 + count <= cells.len() {
                lemma_dais_are_some(
                    cells,
                    providers,
                    at + 1 + count,
                    done.push(
                        SoundDaiView {
                            phandle: cells[at],
                            spec_cells: cells.subrange(at + 1, at + 1 + count),
                        },
                    ),
                );
            }
        }
    }
}

/// Every link that is read has a DAI and a codec.
proof fn lemma_link_ends(
    tree: Seq<TreeNode>,
    link: int,
    providers: Seq<(u32, usize)>,
    ready: Seq<u32>,
)
    ensures
        link_ends(tree, link, providers, ready) matches Resolved::Ready(ends) ==> ends.0.len() > 0
            && ends.1.len() > 0,
{
    if let Some(cpu) = endpoint(tree, link, "cpu"@) {
        if let Some(value) = value_of(tree[cpu].properties@, "sound-dai"@) {
            lemma_dais_are_some(be_cells(value), providers, 0, Seq::empty());
        }
    }
}

fn attach_speakers(dais: &Vec<SoundDaiRef>, codecs: &Vec<u32>) -> (r: Vec<CardOp>)
    requires
        dais@.len() > 0,
        codecs@.len() > 0,
        codecs@.len() as int % dais@.len() as int == 0,
    ensures
        r@.map_values(|op: CardOp| op@) == speaker_steps(
            dais@.map_values(|d: SoundDaiRef| d@),
            codecs@,
        ),
{
    let share: usize = codecs.len() / dais.len();
    let ghost views = dais@.map_values(|d: SoundDaiRef| d@);
    let ghost steps = speaker_steps(views, codecs@);
    let ghost (n, m) = (dais@.len() as int, codecs@.len() as int);
    assert(share > 0 && share * n == m) by (nonlinear_arith)
        requires
            n > 0,
            m > 0,
            m % n == 0,
            share == m / n,
    ;
    let mut ops: Vec<CardOp> = Vec::new();
    let mut t: usize = 0;
    while t < codecs.len()
        invariant
            t <= codecs@.len(),
            n == dais@.len(),
            m == codecs@.len(),
            share > 0,
            share == codecs@.len() as int / dais@.len() as int,
            share * n == m,
            views == dais@.map_values(|d: SoundDaiRef| d@),
            steps == speaker_steps(views, codecs@),
            ops@.map_values(|op: CardOp| op@) == steps.take(t as int),
        decreases codecs@.len() - t,
    {
        let index: usize = t / share;
        assert(index < n) by (nonlinear_arith)
            requires
                index == t as int / share as int,
                t < m,
                share > 0,
                share * n == m,
        ;
        let tx_mask: u32 = if dais.len() != 2 {
            0x3
        } else if index == 0 {
            0x1
        } else {
            0x2
        };
        let cells = &dais[index].spec_cells;
        let dai = SoundDaiRef {
            phandle: dais[index].phandle,
            spec_cells: copy_cells(cells, 0, cells.len()),
        };
        assert(dai@.spec_cells =~= views[index as int].spec_cells);
        let ghost before = ops@;
        ops.push(CardOp::Attach { dai, codec: codecs[t], tx_mask });
        assert(ops@.map_values(|op: CardOp| op@) =~= before.map_values(|op: CardOp| op@).push(
            steps[t as int],
        ));
        assert(steps.take(t as int).push(steps[t as int]) =~= steps.take(t + 1));
        t = t + 1;
    }
    assert(steps.take(t as int) =~= steps);
    ops
}

fn plan_link(
    tree: &[TreeNode],
    link: usize,
    kind: LinkKind,
    providers: &Vec<(u32, usize)>,
    ready: &Vec<u32>,
    controllers: &Vec<u32>,
) -> (r: Resolved<Vec<CardOp>>)
    requires
        link < tree@.len(),
    ensures
        ({
            let steps = link_steps(tree@, link as int, kind, providers@, ready@, controllers@);
            match r {
                Resolved::Ready(ops) => steps == Resolved::Ready(
                    ops@.map_values(|op: CardOp| op@),
                ),
                Resolved::Defer => steps is Defer,
                Resolved::Fault(error) => steps == Resolved::<Seq<CardStep>>::Fault(error),
            }
        }),
{
    let (dais, codecs) = match read_link_ends(tree, link, providers, ready) {
        Resolved::Ready(ends) => ends,
        Resolved::Defer => return Resolved::Defer,
        Resolved::Fault(error) => return Resolved::Fault(error),
    };
    proof {
        lemma_link_ends(tree@, link as int, providers@, ready@);
        assert(dais@.map_values(|d: SoundDaiRef| d@).len() == dais@.len());
    }
    match kind {
        LinkKind::Headphones => {
            if dais.len() != 1 {
                return Resolved::Fault("apple-macaudio: Headphone Jack must have one CPU DAI");
            }
            assert(dais@.map_values(|d: SoundDaiRef| d@)[0] == dais@[0]@);
            if dais[0].spec_cells.len() != APPLE_MCA_SOUND_DAI_CELLS {
                return Resolved::Fault("apple-macaudio: invalid Headphone Jack CPU DAI spec");
            }
            if !holds(controllers, dais[0].phandle) {
                return Resolved::Defer;
            }
            let ops = vec![
                CardOp::Output {
                    kind: OutputKind::Headphones,
                    phandle: dais[0].phandle,
                    fe_cluster: APPLE_MCA_PLAYBACK_CLUSTER,
                    port: dais[0].spec_cells[0] as usize,
                    codec_routes: route_in_stereo(&codecs),
                },
            ];
            assert(ops@.map_values(|op: CardOp| op@) =~= seq![ops@[0]@]);
            Resolved::Ready(ops)
        },
        LinkKind::Speakers => {
            if codecs.len() % dais.len() != 0 {
                return Resolved::Fault("apple-macaudio: Speaker CPU/CODEC count mismatch");
            }
            Resolved::Ready(attach_speakers(&dais, &codecs))
        },
    }
}

/// What is to be done for the links from `k` on, behind `done`, and what comes of the probe. `seen`
/// tells whether there was a playback link before.
pub open spec fn card_from(
    tree: Seq<TreeNode>,
    links: Seq<int>,
    providers: Seq<(u32, usize)>,
    ready: Seq<u32>,
    controllers: Seq<u32>,
    k: int,
    seen: bool,
    done: Seq<CardStep>,
) -> (Seq<CardStep>, Resolved<()>)
    decreases links.len() - k,
{
    if k < 0 || k >= links.len() {
        (
            done,
            if !seen {
                Resolved::Fault("apple-macaudio: no playback link found")
            } else if done.len() == 0 {
                Resolved::Fault("apple-macaudio: no playback link attached")
            } else {
                Resolved::Ready(())
            },
        )
    } else {
        match link_kind(tree[links[k]]) {
            None => card_from(tree, links, providers, ready, controllers, k + 1, seen, done),
            Some(kind) => match link_steps(
                tree,
                links[k],
                kind,
                providers,
                ready,
                controllers,
            ) {
                Resolved::Defer => (done, Resolved::Defer),
                Resolved::Fault(error) => (done, Resolved::Fault(error)),
                Resolved::Ready(steps) => card_from(
                    tree,
                    links,
                    providers,
                    ready,
                    controllers,
                    k + 1,
                    true,
                    done + steps,
                ),
            },
        }
    }
}

/// What is to be done for the sound card, and what comes of the probe.
pub open spec fn card_of(
    tree: Option<Seq<TreeNode>>,
    providers: Seq<(u32, usize)>,
    ready: Seq<u32>,
    controllers: Seq<u32>,
) -> (Seq<CardStep>, Resolved<()>) {
    match tree {
        None => (Seq::empty(), Resolved::Fault("apple-macaudio: FDT is not available")),
        Some(tree) => match node_at(tree, "/sound"@) {
            None => (Seq::empty(), Resolved::Fault("apple-macaudio: missing /sound node")),
            Some(sound) => card_from(
                tree,
                children(tree, sound),
                providers,
                ready,
                controllers,
                0,
                false,
                Seq::empty(),
            ),
        },
    }
}

/// Probes the sound card. `providers` lists the DAI providers that are ready and how many cells each
/// takes, `ready` the codecs that are ready, and `controllers` the audio controllers. The operations
/// are those of the links in front of the one, if any, that ended the probe.
pub fn probe(
    tree: Option<&[TreeNode]>,
    providers: &Vec<(u32, usize)>,
    ready: &Vec<u32>,
    controllers: &Vec<u32>,
) -> (r: (Vec<CardOp>, Resolved<()>))
    ensures
        (r.0@.map_values(|op: CardOp| op@), r.1) == card_of(
            match tree {
                Some(tree) => Some(tree@),
                None => None,
            },
            providers@,
            ready@,
            controllers@,
        ),
{
    let mut ops: Vec<CardOp> = Vec::new();
    assert(ops@.map_values(|op: CardOp| op@) =~= Seq::empty());
    let fdt = match tree {
        Some(fdt) => fdt,
        None => return (ops, Resolved::Fault("apple-macaudio: FDT is not available")),
    };
    let sound: usize = match find_node(fdt, "/sound") {
        Some(sound) => sound,
        None => return (ops, Resolved::Fault("apple-macaudio: missing /sound node")),
    };
    let nodes = child_nodes(fdt, sound);
    let ghost links = children(fdt@, sound as int);
    let ghost card = card_from(
        fdt@,
        links,
        providers@,
        ready@,
        controllers@,
        0,
        false,
        Seq::empty(),
    );
    assert(nodes@.map_values(|i: usize| i as int).len() == nodes@.len());
    let mut seen = false;
    let mut k: usize = 0;
    while k < nodes.len()
        invariant
            k <= nodes@.len(),
            tree == Some(fdt),
            nodes@.len() == links.len(),
            nodes@.map_values(|i: usize| i as int) == links,
            forall|k: int| 0 <= k < nodes@.len() ==> #[trigger] nodes@[k] < fdt@.len(),
            card == card_of(Some(fdt@), providers@, ready@, controllers@),
            card == card_from(
                fdt@,
                links,
                providers@,
                ready@,
                controllers@,
                k as int,
                seen,
                ops@.map_values(|op: CardOp| op@),
            ),
        decreases nodes@.len() - k,
    {
        let link: usize = nodes[k];
        assert(nodes@.map_values(|i: usize| i as int)[k as int] == link as int);
        if let Some(kind) = read_link_kind(&fdt[link]) {
            seen = true;
            match plan_link(fdt, link, kind, providers, ready, controllers) {
                Resolved::Defer => return (ops, Resolved::Defer),
                Resolved::Fault(error) => return (ops, Resolved::Fault(error)),
                Resolved::Ready(more) => {
                    let mut more = more;
                    let ghost before = ops@;
                    let ghost added = more@;
                    ops.append(&mut more);
                    assert(ops@.map_values(|op: CardOp| op@) =~= before.map_values(
                        |op: CardOp| op@,
                    ) + added.map_values(|op: CardOp| op@));
                },
            }
        }
        k = k + 1;
    }
    assert(ops@.map_values(|op: CardOp| op@).len() == ops@.len());
    if !seen {
        return (ops, Resolved::Fault("apple-macaudio: no playback link found"));
    }
    if ops.len() == 0 {
        return (ops, Resolved::Fault("apple-macaudio: no playback link attached"));
    }
    (ops, Resolved::Ready(()))
}

/// Law: in a link of speakers every codec is attached exactly once and in order, each of its DAIs gets
/// the same number of codecs, and DAIs that share a link of two drive different slots.
pub proof fn law_speakers_are_shared_out(
    dais: Seq<SoundDaiView>,
    codecs: Seq<u32>,
    index: int,
    j: int,
)
    requires
        0 <= index < dais.len(),
        codecs.len() > 0,
        codecs.len() as int % dais.len() as int == 0,
        0 <= j < codecs.len() as int / dais.len() as int,
    ensures
        speaker_steps(dais, codecs).len() == codecs.len(),
        ({
            let share = codecs.len() as int / dais.len() as int;
            let t = index * share + j;
            &&& 0 <= t < codecs.len()
            &&& speaker_steps(dais, codecs)[t] == (CardStep::Attach {
                dai: dais[index],
                codec: codecs[t],
                tx_mask: dai_mask(dais.len() as int, index),
            })
        }),
        dai_mask(2, 0) != dai_mask(2, 1),
{
    let n = dais.len() as int;
    let m = codecs.len() as int;
    let share = m / n;
    let t = index * share + j;
    assert(0 <= t < m && t / share == index) by (nonlinear_arith)
        requires
            n > 0,
            m % n == 0,
            share == m / n,
            0 <= index < n,
            0 <= j < share,
            t == index * share + j,
    ;
}

/// Law: a link plays headphones where it bears their name, and speakers where its name begins with
/// theirs; a link without a name goes by that of its node. Nodes that are no links are passed over.
pub proof fn law_links_by_their_names(node: TreeNode)
    ensures
        ({
            let name = match text_of(node.properties@, "link-name"@) {
                Some(name) => name,
                None => node.name@,
            };
            let is_link = begins_with(node.name@, "dai-link"@);
            &&& link_kind(node) == Some(LinkKind::Headphones) <==> is_link && name
                == "Headphone Jack"@
            &&& link_kind(node) == Some(LinkKind::Speakers) <==> is_link && name
                != "Headphone Jack"@ && begins_with(name, "Speaker"@)
        }),
{
}

/// Law: the DAIs of a processor are read one after the other, each with as many cells as its provider
/// wants; what was read stays in front, and something has been read at the end.
pub proof fn law_dais_follow_each_other(
    cells: Seq<u32>,
    providers: Seq<(u32, usize)>,
    at: int,
    done: Seq<SoundDaiView>,
)
    requires
        0 <= at,
        cpu_dais_from(cells, providers, at, done) is Ready,
    ensures
        ({
            let all = cpu_dais_from(cells, providers, at, done)->Ready_0;
            let d = all[done.len() as int];
            &&& all.len() >= done.len()
            &&& all.len() > 0
            &&& forall|j: int| 0 <= j < done.len() ==> all[j] == done[j]
            &&& at < cells.len() ==> {
                &&& all.len() > done.len()
                &&& d.phandle == cells[at]
                &&& cells_of(providers, cells[at], 0) == Some(d.spec_cells.len() as usize)
                &&& at + 1 + d.spec_cells.len() <= cells.len()
                &&& forall|j: int|
                    0 <= j < d.spec_cells.len() ==> d.spec_cells[j] == cells[at + 1 + j]
                &&& cpu_dais_from(
                    cells,
                    providers,
                    at + 1 + d.spec_cells.len(),
                    done.push(d),
                ) == Resolved::Ready(all)
            }
            &&& at >= cells.len() ==> all == done
        }),
    decreases cells.len() - at,
{
    if at < cells.len() {
        let count = cells_of(providers, cells[at], 0)->Some_0;
        let d = SoundDaiView {
            phandle: cells[at],
            spec_cells: cells.subrange(at + 1, at + 1 + count),
        };
        let more = done.push(d);
        law_dais_follow_each_other(cells, providers, at + 1 + count, more);
        let all = cpu_dais_from(cells, providers, at, done)->Ready_0;
        assert(more[done.len() as int] == d);
        assert(all[done.len() as int] == d);
        assert forall|j: int| 0 <= j < done.len() implies all[j] == done[j] by {
            assert(more[j] == done[j]);
        }
    }
}

/// Law: codecs are taken as they are listed, once all of them are there.
pub proof fn law_codecs_are_taken_together(value: Seq<u8>, ready: Seq<u32>, i: int)
    requires
        0 <= i < be_cells(value).len(),
    ensures
        codec_dais_in(value, ready) matches Resolved::Ready(codecs) ==> codecs == be_cells(value)
            && ready.contains(codecs[i]),
        value.len() % 4 == 0 && !ready.contains(be_cells(value)[i]) ==> codec_dais_in(value, ready)
            is Defer,
        value.len() % 4 != 0 ==> codec_dais_in(value, ready) is Fault,
{
}

/// Law: headphones have one DAI with one cell, which is their port; each of their codecs gets both of
/// the first two slots.
pub proof fn law_headphones_are_one_output(
    tree: Seq<TreeNode>,
    link: int,
    providers: Seq<(u32, usize)>,
    ready: Seq<u32>,
    controllers: Seq<u32>,
    i: int,
)
    requires
        link_steps(tree, link, LinkKind::Headphones, providers, ready, controllers) is Ready,
    ensures
        ({
            let steps = link_steps(
                tree,
                link,
                LinkKind::Headphones,
                providers,
                ready,
                controllers,
            )->Ready_0;
            let (dais, codecs) = link_ends(tree, link, providers, ready)->Ready_0;
            &&& link_ends(tree, link, providers, ready) is Ready
            &&& dais.len() == 1 && dais[0].spec_cells.len() == 1
            &&& controllers.contains(dais[0].phandle)
            &&& steps.len() == 1
            &&& steps[0] matches CardStep::Output { kind, phandle, fe_cluster, port, codec_routes } && {
                &&& kind == OutputKind::Headphones
                &&& phandle == dais[0].phandle
                &&& fe_cluster == 0
                &&& port == dais[0].spec_cells[0] as usize
                &&& codec_routes.len() == codecs.len()
                &&& 0 <= i < codecs.len() ==> codec_routes[i].codec == codecs[i]
                    && codec_routes[i].tx_mask == 3
            }
        }),
{
}

/// Law: a card is made of all of its links: no step of a link is left out, and a card without a link
/// is refused.
pub proof fn law_no_link_is_left_out(
    tree: Seq<TreeNode>,
    links: Seq<int>,
    providers: Seq<(u32, usize)>,
    ready: Seq<u32>,
    controllers: Seq<u32>,
    from: int,
    seen: bool,
    done: Seq<CardStep>,
    k: int,
    i: int,
)
    requires
        0 <= from <= k < links.len(),
        card_from(tree, links, providers, ready, controllers, from, seen, done).1 is Ready,
        link_kind(tree[links[k]]) is Some,
    ensures
        ({
            let steps = card_from(
                tree,
                links,
                providers,
                ready,
                controllers,
                from,
                seen,
                done,
            ).0;
            let own = link_steps(
                tree,
                links[k],
                link_kind(tree[links[k]])->Some_0,
                providers,
                ready,
                controllers,
            );
            &&& own is Ready
            &&& 0 <= i < own->Ready_0.len() ==> steps.contains(own->Ready_0[i])
        }),
    decreases links.len() - from,
{
    match link_kind(tree[links[from]]) {
        None => {
            law_no_link_is_left_out(
                tree,
                links,
                providers,
                ready,
                controllers,
                from + 1,
                seen,
                done,
                k,
                i,
            );
        },
        Some(kind) => {
            let own = link_steps(tree, links[from], kind, providers, ready, controllers)->Ready_0;
            let more = done + own;
            if from < k {
                law_no_link_is_left_out(
                    tree,
                    links,
                    providers,
                    ready,
                    controllers,
                    from + 1,
                    true,
                    more,
                    k,
                    i,
                );
            } else {
                lemma_card_keeps(
                    tree,
                    links,
                    providers,
                    ready,
                    controllers,
                    from + 1,
                    true,
                    more,
                );
                let steps = card_from(
                    tree,
                    links,
                    providers,
                    ready,
                    controllers,
                    from,
                    seen,
                    done,
                ).0;
                if 0 <= i < own.len() {
                    assert(more[done.len() + i] == own[i]);
                    assert(steps[done.len() + i] == own[i]);
                }
            }
        },
    }
}

proof fn lemma_card_keeps(
    tree: Seq<TreeNode>,
    links: Seq<int>,
    providers: Seq<(u32, usize)>,
    ready: Seq<u32>,
    controllers: Seq<u32>,
    from: int,
    seen: bool,
    done: Seq<CardStep>,
)
    ensures
        ({
            let steps = card_from(
                tree,
                links,
                providers,
                ready,
                controllers,
                from,
                seen,
                done,
            ).0;
            &&& steps.len() >= done.len()
            &&& forall|j: int| 0 <= j < done.len() ==> steps[j] == done[j]
        }),
    decreases links.len() - from,
{
    if 0 <= from < links.len() {
        match link_kind(tree[links[from]]) {
            None => {
                lemma_card_keeps(
                    tree,
                    links,
                    providers,
                    ready,
                    controllers,
                    from + 1,
                    seen,
                    done,
                );
            },
            Some(kind) => {
                if let Resolved::Ready(own) = link_steps(
                    tree,
                    links[from],
                    kind,
                    providers,
                    ready,
                    controllers,
                ) {
                    let more = done + own;
                    lemma_card_keeps(
                        tree,
                        links,
                        providers,
                        ready,
                        controllers,
                        from + 1,
                        true,
                        more,
                    );
                    let steps = card_from(
                        tree,
                        links,
                        providers,
                        ready,
                        controllers,
                        from,
                        seen,
                        done,
                    ).0;
                    assert forall|j: int| 0 <= j < done.len() implies steps[j] == done[j] by {
                        assert(more[j] == done[j]);
                    }
                }
            },
        }
    }
}

} // verus!
