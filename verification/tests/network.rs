use supervisor::network::{host_role, HostRole, Probe, Prober};

#[test]
fn hosts_of_small_networks() {
    let (prober, hosts) = Prober::new(0x0a00_0000, 30);
    assert_eq!(hosts, vec![0x0a00_0001, 0x0a00_0002]);
    assert_eq!(prober.addresses, vec![(0x0a00_0001, false), (0x0a00_0002, false)]);
    let (_, hosts) = Prober::new(0x0a00_0000, 31);
    assert_eq!(hosts, vec![0x0a00_0000, 0x0a00_0001]);
    let (_, hosts) = Prober::new(0xc0a8_0105, 32);
    assert_eq!(hosts, vec![0xc0a8_0105]);
}

#[test]
fn probing_alternates_until_found() {
    let (mut prober, _) = Prober::new(0x0a00_0000, 30);
    assert_eq!(prober.probed(0x0a00_0001, Probe::Xbee, false), Some(Probe::Fernbedienung));
    assert_eq!(prober.probed(0x0a00_0001, Probe::Fernbedienung, false), Some(Probe::Xbee));
    assert_eq!(prober.returned(0x0a00_0001), None);
    assert_eq!(prober.probed(0x0a00_0001, Probe::Xbee, true), None);
    assert_eq!(prober.addresses[0], (0x0a00_0001, true));
    assert_eq!(prober.returned(0x0a00_0001), Some(Probe::Xbee));
    assert_eq!(prober.addresses[0], (0x0a00_0001, false));
}

#[test]
fn host_names() {
    assert_eq!(host_role(&"raspberrypi0-wifi".to_string()), Some(HostRole::PiPuck));
    assert_eq!(host_role(&"ToshibaLaptop".to_string()), Some(HostRole::PiPuck));
    assert_eq!(host_role(&"up-core".to_string()), Some(HostRole::Drone));
    assert_eq!(host_role(&"duovero".to_string()), None);
}
