//! Parsed video endpoint descriptions: the bus configuration read out of
//! an endpoint node of the property graph, narrowed to the media-bus type
//! the caller asked for.

use vstd::prelude::*;

verus! {

/// How many data lanes a serial bus description can carry.
pub const CSI2_MAX_DATA_LANES: usize = 8;

/// The media-bus type an endpoint is parsed against.
#[derive(Clone, Copy, PartialEq, Eq, Structural)]
pub enum BusType {
    Unknown,
    Parallel,
    Bt656,
    Csi1,
    Ccp2,
    Csi2Dphy,
    Csi2Cphy,
    Dpi,
    Invalid,
}

/// One parsed bus configuration, one variant per bus family. Bus types
/// whose configuration this layer does not carry parse to `Other`.
#[derive(Clone, Copy, Debug)]
pub enum Bus {
    Other,
    Parallel {
        flags: u32,
        bus_width: u8,
        data_shift: u8,
    },
    Csi1 {
        clock_inv: bool,
        strobe: bool,
        lane_polarity: [bool; 2],
        data_lane: u8,
        clock_lane: u8,
    },
    Ccp2 {
        clock_inv: bool,
        strobe: bool,
        lane_polarity: [bool; 2],
        data_lane: u8,
        clock_lane: u8,
    },
    Csi2Dphy {
        flags: u32,
        data_lanes: [u8; CSI2_MAX_DATA_LANES],
        clock_lane: u8,
        num_data_lines: u8,
        lane_polarities: [bool; 9],
    },
    Csi2Cphy {
        flags: u32,
        data_lanes: [u8; CSI2_MAX_DATA_LANES],
        clock_lane: u8,
        num_data_lines: u8,
        lane_polarities: [bool; 9],
    },
    Invalid,
}

/// The raw endpoint record as the parser fills it: every bus family's
/// fields side by side, plus the advertised link frequencies. Which
/// family's fields are meaningful is decided only when the record is
/// narrowed by a [`BusType`]. The serial one-lane fields (`csi1_*`) keep
/// their flags as raw words; narrowing turns them into booleans.
pub struct EndpointData {
    pub parallel_flags: u32,
    pub parallel_bus_width: u8,
    pub parallel_data_shift: u8,
    pub csi1_clock_inv: u8,
    pub csi1_strobe: u8,
    pub csi1_lane_polarity: [bool; 2],
    pub csi1_data_lane: u8,
    pub csi1_clock_lane: u8,
    pub csi2_flags: u32,
    pub csi2_data_lanes: [u8; CSI2_MAX_DATA_LANES],
    pub csi2_clock_lane: u8,
    pub csi2_num_data_lanes: u8,
    pub csi2_lane_polarities: [bool; 9],
    pub link_frequencies: Vec<u64>,
}

/// The bus configuration a raw record narrows to under a bus type: the
/// parallel fields for the parallel bus, the one-lane serial fields for
/// the one-lane serial buses, the multi-lane serial fields for the
/// multi-lane serial buses, `Other` for families whose configuration is
/// not carried, and `Invalid` for the invalid type.
pub open spec fn bus_of(bus_type: BusType, e: EndpointData) -> Bus {
    match bus_type {
        BusType::Unknown => Bus::Other,
        BusType::Bt656 => Bus::Other,
        BusType::Dpi => Bus::Other,
        BusType::Invalid => Bus::Invalid,
        BusType::Parallel => Bus::Parallel {
            flags: e.parallel_flags,
            bus_width: e.parallel_bus_width,
            data_shift: e.parallel_data_shift,
        },
        BusType::Csi1 => Bus::Csi1 {
            clock_inv: e.csi1_clock_inv != 0,
            strobe: e.csi1_strobe != 0,
            lane_polarity: e.csi1_lane_polarity,
            data_lane: e.csi1_data_lane,
            clock_lane: e.csi1_clock_lane,
        },
        BusType::Ccp2 => Bus::Ccp2 {
            clock_inv: e.csi1_clock_inv != 0,
            strobe: e.csi1_strobe != 0,
            lane_polarity: e.csi1_lane_polarity,
            data_lane: e.csi1_data_lane,
            clock_lane: e.csi1_clock_lane,
        },
        BusType::Csi2Dphy => Bus::Csi2Dphy {
            flags: e.csi2_flags,
            data_lanes: e.csi2_data_lanes,
            clock_lane: e.csi2_clock_lane,
            num_data_lines: e.csi2_num_data_lanes,
            lane_polarities: e.csi2_lane_polarities,
        },
        BusType::Csi2Cphy => Bus::Csi2Cphy {
            flags: e.csi2_flags,
            data_lanes: e.csi2_data_lanes,
            clock_lane: e.csi2_clock_lane,
            num_data_lines: e.csi2_num_data_lanes,
            lane_polarities: e.csi2_lane_polarities,
        },
    }
}

/// An endpoint of the property graph as a consumer sees it once parsed:
/// the bus configuration narrowed to the requested type, and the link
/// frequencies the endpoint advertises.
pub struct FwnodeEndpoint {
    pub bus: Bus,
    pub link_frequencies: Vec<u64>,
}

impl FwnodeEndpoint {
    /// Narrows a raw record to the configuration of one bus family.
    fn get_bus(bus_type: BusType, endpoint: &EndpointData) -> (r: Bus)
        ensures
            r == bus_of(bus_type, *endpoint),
    {
        match bus_type {
            BusType::Unknown => Bus::Other,
            BusType::Parallel => Bus::Parallel {
                flags: endpoint.parallel_flags,
                bus_width: endpoint.parallel_bus_width,
                data_shift: endpoint.parallel_data_shift,
            },
            BusType::Bt656 => Bus::Other,
            BusType::Csi1 => Bus::Csi1 {
                clock_inv: endpoint.csi1_clock_inv != 0,
                strobe: endpoint.csi1_strobe != 0,
                lane_polarity: endpoint.csi1_lane_polarity,
                data_lane: endpoint.csi1_data_lane,
                clock_lane: endpoint.csi1_clock_lane,
            },
            BusType::Ccp2 => Bus::Ccp2 {
                clock_inv: endpoint.csi1_clock_inv != 0,
                strobe: endpoint.csi1_strobe != 0,
                lane_polarity: endpoint.csi1_lane_polarity,
                data_lane: endpoint.csi1_data_lane,
                clock_lane: endpoint.csi1_clock_lane,
            },
            BusType::Csi2Dphy => Bus::Csi2Dphy {
                flags: endpoint.csi2_flags,
                data_lanes: endpoint.csi2_data_lanes,
                clock_lane: endpoint.csi2_clock_lane,
                num_data_lines: endpoint.csi2_num_data_lanes,
                lane_polarities: endpoint.csi2_lane_polarities,
            },
            BusType::Csi2Cphy => Bus::Csi2Cphy {
                flags: endpoint.csi2_flags,
                data_lanes: endpoint.csi2_data_lanes,
                clock_lane: endpoint.csi2_clock_lane,
                num_data_lines: endpoint.csi2_num_data_lanes,
                lane_polarities: endpoint.csi2_lane_polarities,
            },
            BusType::Dpi => Bus::Other,
            BusType::Invalid => Bus::Invalid,
        }
    }

    /// Builds the consumer view of an endpoint from the raw parsed
    /// record, narrowed to the requested bus type. The advertised link
    /// frequencies are carried over unchanged, in order.
    pub fn from(raw: EndpointData, bus_type: BusType) -> (r: FwnodeEndpoint)
        ensures
            r.bus == bus_of(bus_type, raw),
            r.link_frequencies@ == raw.link_frequencies@,
    {
        let bus = Self::get_bus(bus_type, &raw);
        FwnodeEndpoint { bus, link_frequencies: raw.link_frequencies }
    }
}

} // verus!
