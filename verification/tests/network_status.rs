use portal_shortcuts::network::{Connectivity, NetworkStatus};

#[test]
fn connectivity_decodes_documented_codes() {
    assert_eq!(Connectivity::from_u32(1), Connectivity::Local);
    assert_eq!(Connectivity::from_u32(2), Connectivity::Limited);
    assert_eq!(Connectivity::from_u32(3), Connectivity::CaptivePortal);
    assert_eq!(Connectivity::from_u32(4), Connectivity::FullNetwork);
}

#[test]
fn connectivity_decodes_everything_else_as_unknown() {
    assert_eq!(Connectivity::from_u32(0), Connectivity::Unknown);
    assert_eq!(Connectivity::from_u32(5), Connectivity::Unknown);
    assert_eq!(Connectivity::from_u32(u32::MAX), Connectivity::Unknown);
}

#[test]
fn network_status_reports_its_connectivity_level() {
    let status = NetworkStatus { available: true, metered: false, connectivity: 4 };
    assert!(status.available);
    assert!(!status.metered);
    assert_eq!(status.connectivity_level(), Connectivity::FullNetwork);
}
