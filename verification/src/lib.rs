//! Drivers for the devices of Apple silicon machines.
//!
//! The library decides; it never touches a device. A driver turns a request
//! into register [`sequence::Step`]s, mailbox words or memory images, and takes
//! back what the device answered.

pub mod admac;
pub mod admac_laws;
pub mod arith;
pub mod atcphy;
pub mod atcphy_lanes;
pub mod atcphy_programs;
pub mod av_audio;
pub mod av_parser;
pub mod bytes;
pub mod codec;
pub mod codec_laws;
pub mod cpufreq;
pub mod cs42l83;
pub mod dart;
pub mod dart_laws;
pub mod dart_table;
pub mod dcp;
pub mod dcp_fault;
pub mod dcp_iboot;
pub mod dcp_laws;
pub mod dcp_mapper;
pub mod dcp_node;
pub mod dcp_node_laws;
pub mod dcp_probe;
pub mod dcp_probe_laws;
pub mod dcpext;
pub mod dcpext_probe;
pub mod device;
pub mod device_laws;
pub mod dma;
pub mod dpaudio;
pub mod dpxbar;
pub mod efuse;
pub mod i2c;
pub mod iomfb;
pub mod iomfb_callback;
pub mod iomfb_laws;
pub mod iomfb_wire;
pub mod macaudio;
pub mod mca;
pub mod mca_laws;
pub mod mca_path;
pub mod nco;
pub mod nco_laws;
pub mod pcie;
pub mod pcie_probe;
pub mod pcm;
pub mod pinctrl;
pub mod sequence;
pub mod sequence_laws;
pub mod sio;
pub mod sio_laws;
pub mod sio_ring;
pub mod sio_state;
pub mod tas5770l;
pub mod wire;
