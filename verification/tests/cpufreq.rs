use apple_drivers::cpufreq::{
    backend_name, boot_target_for_domain, cpu_frequency_info, domain_policy, find_domain,
    force_link, load_domain_opps, opp_table_phandle_for_domain, pstate_command, scan_fdt,
    wait_command_ready, AppleCpuFreqDomain, CommandWait, CpuFrequencyOpp, Mapping, PstateEncoding,
    T8103_ECPU_DVFS_PADDR, T8103_PCPU_DVFS_PADDR,
};
use apple_drivers::device::{find_node, find_text, Property, RegRegion, TreeNode};

fn words(cells: &[u32]) -> Vec<u8> {
    let mut bytes = Vec::new();
    for cell in cells {
        bytes.extend_from_slice(&cell.to_be_bytes());
    }
    bytes
}

fn property(name: &str, value: Vec<u8>) -> Property {
    Property { name: String::from(name), value, number: None }
}

fn node(name: &str, depth: usize, properties: Vec<Property>) -> TreeNode {
    TreeNode {
        name: String::from(name),
        depth,
        compatible: Vec::new(),
        properties,
        regs: Vec::new(),
    }
}

fn machine() -> Vec<TreeNode> {
    let mut cluster = node(
        "performance-controller@210e20000",
        2,
        vec![
            property("compatible", b"apple,t8103-cluster-cpufreq\0apple,cluster-cpufreq\0".to_vec()),
            property("phandle", words(&[9])),
        ],
    );
    cluster.regs.push(RegRegion { address: 0x2_10e2_0000, size: None });
    vec![
        node("", 0, Vec::new()),
        node("cpus", 1, Vec::new()),
        node("cpu@0", 2, vec![property("performance-domains", words(&[8]))]),
        node(
            "cpu@1",
            2,
            vec![
                property("performance-domains", words(&[9])),
                property("operating-points-v2", words(&[30])),
            ],
        ),
        node("opp-table-0", 1, vec![property("linux,phandle", words(&[30]))]),
        node(
            "opp01",
            2,
            vec![
                property("opp-hz", words(&[0, 600_000_001])),
                property("opp-level", words(&[1])),
            ],
        ),
        node("opp02", 2, vec![property("opp-level", words(&[2]))]),
        node(
            "opp05",
            2,
            vec![
                property("opp-hz", words(&[0, 2_064_000_000])),
                property("opp-level", words(&[5])),
            ],
        ),
        node("soc", 1, Vec::new()),
        cluster,
    ]
}

#[test]
fn boot_opp_matches_m1n1_t8103_defaults() {
    let mut domain = AppleCpuFreqDomain::empty();
    domain.valid = true;
    domain.encoding = PstateEncoding::T8103;
    domain.opps = vec![
        CpuFrequencyOpp { pstate: 5, freq_khz: 2_064_000 },
        CpuFrequencyOpp { pstate: 7, freq_khz: 1_956_000 },
        CpuFrequencyOpp { pstate: 12, freq_khz: 2_988_000 },
        CpuFrequencyOpp { pstate: 15, freq_khz: 3_204_000 },
    ];

    domain.paddr = T8103_ECPU_DVFS_PADDR as usize;
    assert_eq!(
        domain.boot_opp(),
        Some(CpuFrequencyOpp { pstate: 5, freq_khz: 2_064_000 })
    );

    domain.paddr = T8103_PCPU_DVFS_PADDR as usize;
    assert_eq!(
        domain.boot_opp(),
        Some(CpuFrequencyOpp { pstate: 7, freq_khz: 1_956_000 })
    );
}

#[test]
fn clusters_are_found_with_their_operating_points() {
    force_link();
    assert_eq!(backend_name(), "apple-soc-cpufreq");
    let tree = machine();
    assert_eq!(opp_table_phandle_for_domain(&tree, 9), Some(30));
    assert_eq!(opp_table_phandle_for_domain(&tree, 8), None);
    let domains = scan_fdt(&tree, 32);
    assert_eq!(domains.len(), 1);
    let domain = &domains[0];
    assert_eq!((domain.phandle, domain.paddr, domain.size), (9, 0x2_10e2_0000, 0x1000));
    assert_eq!(domain.encoding, PstateEncoding::T8103);
    assert_eq!(
        domain.opps,
        vec![
            CpuFrequencyOpp { pstate: 1, freq_khz: 600_001 },
            CpuFrequencyOpp { pstate: 5, freq_khz: 2_064_000 },
        ]
    );
    assert_eq!(load_domain_opps(&tree, 9, 1).len(), 1);
    assert_eq!(
        boot_target_for_domain(&domains, 0),
        Some((9, CpuFrequencyOpp { pstate: 5, freq_khz: 2_064_000 }))
    );
    assert_eq!(boot_target_for_domain(&domains, 1), None);
    assert_eq!(domain_policy(domain), Some((9, 400_000)));
    assert_eq!(domain_policy(&AppleCpuFreqDomain::empty()), None);
    assert_eq!(find_domain(&domains, 9), Ok(0));
    assert_eq!(find_domain(&domains, 10), Err("apple-cpufreq: domain not found"));
}

#[test]
fn status_names_both_states() {
    let domain = scan_fdt(&machine(), 32).remove(0);
    let info = cpu_frequency_info(&domain, 0x51);
    assert_eq!(info.performance_domain, 9);
    assert_eq!((info.current_pstate, info.target_pstate), (Some(5), Some(1)));
    assert_eq!((info.current_freq_khz, info.target_freq_khz), (Some(2_064_000), Some(600_001)));
    assert_eq!(info.max_freq_khz, Some(2_064_000));
    assert_eq!(PstateEncoding::S5l8960x.current_pstate(0x2a), Some(5));
    assert_eq!(PstateEncoding::T8112.target_pstate(0x3f), Some(0x1f));
    assert_eq!(PstateEncoding::Unknown.current_pstate(0x2a), None);
}

#[test]
fn a_command_holds_the_state() {
    assert_eq!(pstate_command(PstateEncoding::T8103, 0x1_0000_f0ff, 5), 0x1_0200_50e5);
    assert_eq!(pstate_command(PstateEncoding::T8103, 0, 99), 0x0200_f00f);
    assert_eq!(pstate_command(PstateEncoding::S5l8960x, 0, 3), 0x02c0_0000);
    assert_eq!(pstate_command(PstateEncoding::T8112, 0x1f, 20), 0x0200_0014);
}

#[test]
fn a_busy_command_register_times_out() {
    let busy = 0x8000_0000;
    assert_eq!(wait_command_ready(0, 1_000, 0), CommandWait::Ready);
    assert_eq!(wait_command_ready(busy, 399, 0), CommandWait::PollAgain { after_us: 2 });
    assert_eq!(
        wait_command_ready(busy, 400, 0),
        CommandWait::Failed { error: "apple-cpufreq: DVFS command busy timeout" }
    );
}

#[test]
fn a_failed_mapping_is_not_tried_again() {
    let mut domain = AppleCpuFreqDomain::empty();
    domain.paddr = 0x1000;
    assert_eq!(domain.ensure_mapped(), Mapping::Wanted { paddr: 0x1000, size: 0x1000 });
    domain.mapped(None);
    assert_eq!(domain.ensure_mapped(), Mapping::Failed);
    domain.mapped(Some(0x8000));
    assert_eq!(domain.ensure_mapped(), Mapping::Ready { vaddr: 0x8000 });
}

#[test]
fn text_loses_its_zeros() {
    let props = vec![
        property("label", b"Speaker\0\0".to_vec()),
        property("broken", vec![0xff, 0xfe]),
        property("inner", b"a\0b\0".to_vec()),
    ];
    assert_eq!(find_text(&props, "label"), Some(String::from("Speaker")));
    assert_eq!(find_text(&props, "inner"), Some(String::from("a\0b")));
    assert_eq!(find_text(&props, "broken"), None);
    assert_eq!(find_text(&props, "missing"), None);
}

#[test]
fn a_path_leads_to_its_first_node() {
    let tree = vec![
        node("", 0, Vec::new()),
        node("soc@1", 1, Vec::new()),
        node("uart@10", 2, Vec::new()),
        node("soc@2", 1, Vec::new()),
        node("uart@20", 2, Vec::new()),
        node("spi@30", 2, Vec::new()),
    ];
    assert_eq!(find_node(&tree, "/"), Some(0));
    assert_eq!(find_node(&tree, "/soc"), Some(1));
    assert_eq!(find_node(&tree, "/soc/"), Some(1));
    assert_eq!(find_node(&tree, "/soc@2"), Some(3));
    assert_eq!(find_node(&tree, "/soc/uart"), Some(2));
    assert_eq!(find_node(&tree, "/soc/spi"), Some(5));
    assert_eq!(find_node(&tree, "/soc/uart@20"), Some(4));
    assert_eq!(find_node(&tree, "/soc@1/spi"), None);
    assert_eq!(find_node(&tree, "soc"), None);
    assert_eq!(find_node(&[], "/"), None);
}

#[test]
fn a_path_may_be_an_alias() {
    let aliases = vec![
        property("serial0", b"/soc/uart@10\0".to_vec()),
        property("console", b"serial0\0".to_vec()),
        property("/cpus", b"/soc\0".to_vec()),
        property("one", b"two\0".to_vec()),
        property("two", b"one\0".to_vec()),
        property("garbled", vec![0xff, 0xfe]),
    ];
    let tree = vec![
        node("", 0, Vec::new()),
        node("aliases", 1, aliases),
        node("soc", 1, Vec::new()),
        node("uart@10", 2, Vec::new()),
    ];
    assert_eq!(find_node(&tree, "serial0"), Some(3));
    assert_eq!(find_node(&tree, "console"), Some(3));
    assert_eq!(find_node(&tree, "/cpus"), Some(2));
    assert_eq!(find_node(&tree, "one"), None);
    assert_eq!(find_node(&tree, "garbled"), None);
    assert_eq!(find_node(&tree[..1], "serial0"), None);
}
