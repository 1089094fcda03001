use fwgraph::v4l2::{
    AudioSubDevOps, CoreSubDevOps, DataWrapper, IrSubDevOps, PadSubDevOps, SensorSubDevOps,
    SubDev, SubDevOps, TunerSubDevOps, VbiSubDevOps, VideoSubDevOps,
};
use fwgraph::v4l2_fwnode::{Bus, BusType, EndpointData, FwnodeEndpoint, CSI2_MAX_DATA_LANES};

struct DemoDriver;

impl DataWrapper for DemoDriver {
    type Data = u32;
}
impl CoreSubDevOps for DemoDriver {
    fn log_status(data: &u32) -> Result<(), i32> {
        if *data == 0 {
            Err(-1)
        } else {
            Ok(())
        }
    }
}
impl TunerSubDevOps for DemoDriver {}
impl AudioSubDevOps for DemoDriver {}
impl VideoSubDevOps for DemoDriver {}
impl VbiSubDevOps for DemoDriver {}
impl IrSubDevOps for DemoDriver {}
impl SensorSubDevOps for DemoDriver {}
impl PadSubDevOps for DemoDriver {}
impl SubDevOps for DemoDriver {}

#[test]
fn subdev_carries_driver_data() {
    let sd: SubDev<DemoDriver> = SubDev::new(42);
    assert_eq!(*sd.data(), 42);
    assert_eq!(DemoDriver::log_status(sd.data()), Ok(()));
    let sd_zero: SubDev<DemoDriver> = SubDev::new(0);
    assert_eq!(DemoDriver::log_status(sd_zero.data()), Err(-1));
}

fn sample_endpoint() -> EndpointData {
    EndpointData {
        parallel_flags: 0x30,
        parallel_bus_width: 12,
        parallel_data_shift: 2,
        csi1_clock_inv: 1,
        csi1_strobe: 0,
        csi1_lane_polarity: [true, false],
        csi1_data_lane: 1,
        csi1_clock_lane: 0,
        csi2_flags: 0x4,
        csi2_data_lanes: [1, 2, 3, 4, 0, 0, 0, 0],
        csi2_clock_lane: 7,
        csi2_num_data_lanes: 4,
        csi2_lane_polarities: [false, true, false, true, false, false, false, false, false],
        link_frequencies: vec![297_000_000, 594_000_000],
    }
}

#[test]
fn parallel_endpoint_narrows_to_parallel_fields() {
    let ep = FwnodeEndpoint::from(sample_endpoint(), BusType::Parallel);
    match ep.bus {
        Bus::Parallel { flags, bus_width, data_shift } => {
            assert_eq!(flags, 0x30);
            assert_eq!(bus_width, 12);
            assert_eq!(data_shift, 2);
        }
        _ => panic!("expected a parallel bus"),
    }
    assert_eq!(ep.link_frequencies, vec![297_000_000, 594_000_000]);
}

#[test]
fn csi1_endpoint_turns_raw_flags_into_booleans() {
    let ep = FwnodeEndpoint::from(sample_endpoint(), BusType::Csi1);
    match ep.bus {
        Bus::Csi1 { clock_inv, strobe, lane_polarity, data_lane, clock_lane } => {
            assert!(clock_inv);
            assert!(!strobe);
            assert_eq!(lane_polarity, [true, false]);
            assert_eq!(data_lane, 1);
            assert_eq!(clock_lane, 0);
        }
        _ => panic!("expected a one-lane serial bus"),
    }
}

#[test]
fn ccp2_endpoint_uses_the_one_lane_serial_fields() {
    let mut raw = sample_endpoint();
    raw.csi1_clock_inv = 0;
    raw.csi1_strobe = 3;
    let ep = FwnodeEndpoint::from(raw, BusType::Ccp2);
    match ep.bus {
        Bus::Ccp2 { clock_inv, strobe, .. } => {
            assert!(!clock_inv);
            assert!(strobe);
        }
        _ => panic!("expected a one-lane serial bus"),
    }
}

#[test]
fn csi2_dphy_endpoint_narrows_to_multi_lane_fields() {
    let ep = FwnodeEndpoint::from(sample_endpoint(), BusType::Csi2Dphy);
    match ep.bus {
        Bus::Csi2Dphy { flags, data_lanes, clock_lane, num_data_lines, lane_polarities } => {
            assert_eq!(flags, 0x4);
            assert_eq!(data_lanes.len(), CSI2_MAX_DATA_LANES);
            assert_eq!(data_lanes, [1, 2, 3, 4, 0, 0, 0, 0]);
            assert_eq!(clock_lane, 7);
            assert_eq!(num_data_lines, 4);
            assert_eq!(
                lane_polarities,
                [false, true, false, true, false, false, false, false, false]
            );
        }
        _ => panic!("expected a multi-lane serial bus"),
    }
}

#[test]
fn csi2_cphy_endpoint_narrows_to_multi_lane_fields() {
    let ep = FwnodeEndpoint::from(sample_endpoint(), BusType::Csi2Cphy);
    assert!(matches!(ep.bus, Bus::Csi2Cphy { .. }));
}

#[test]
fn uncarried_bus_types_narrow_to_other() {
    assert!(matches!(
        FwnodeEndpoint::from(sample_endpoint(), BusType::Unknown).bus,
        Bus::Other
    ));
    assert!(matches!(
        FwnodeEndpoint::from(sample_endpoint(), BusType::Bt656).bus,
        Bus::Other
    ));
    assert!(matches!(
        FwnodeEndpoint::from(sample_endpoint(), BusType::Dpi).bus,
        Bus::Other
    ));
}

#[test]
fn invalid_bus_type_narrows_to_invalid() {
    assert!(matches!(
        FwnodeEndpoint::from(sample_endpoint(), BusType::Invalid).bus,
        Bus::Invalid
    ));
}
