use supervisor::config::{read_config, ConfigError};

const CONFIG: &str = r#"<?xml version="1.0" ?>
<configuration>
    <supervisor>
        <router socket="0.0.0.0:4950" />
        <webui socket="127.0.0.1:3030" />
    </supervisor>
    <robots network="192.168.1.0/24">
        <drone id="drone1" xbee_addr="00:13:a2:41:5c:ab" upcore_addr="00-11-22-33-44-55" optitrack_id="1" />
        <pipuck id="pipuck1" rpi_addr="b8:27:eb:00:00:01" optitrack_id="2" apriltag_id="20" />
        <pipuck id="pipuck2" rpi_addr="b8:27:eb:00:00:02" />
    </robots>
</configuration>"#;

#[test]
fn documented_configuration() {
    let config = read_config(CONFIG).unwrap();
    assert_eq!(config.router_socket.as_deref(), Some("0.0.0.0:4950"));
    assert_eq!(config.webui_socket.as_deref(), Some("127.0.0.1:3030"));
    assert_eq!(config.robot_network.as_deref(), Some("192.168.1.0/24"));
    assert_eq!(config.drones.len(), 1);
    assert_eq!(config.drones[0].id, "drone1");
    assert_eq!(config.drones[0].xbee_macaddr, [0x00, 0x13, 0xa2, 0x41, 0x5c, 0xab]);
    assert_eq!(config.drones[0].upcore_macaddr, [0x00, 0x11, 0x22, 0x33, 0x44, 0x55]);
    assert_eq!(config.drones[0].optitrack_id, Some(1));
    assert_eq!(config.pipucks.len(), 2);
    assert_eq!(config.pipucks[0].apriltag_id, Some(20));
    assert_eq!(config.pipucks[1].optitrack_id, None);
    assert_eq!(config.pipucks[1].apriltag_id, None);
}

#[test]
fn configuration_errors() {
    assert!(matches!(read_config("<not closed"), Err(ConfigError::Parse(_))));
    assert!(matches!(read_config("<configuration/>"), Err(ConfigError::MissingSupervisor)));
    let bad_drone = r#"<c><supervisor/><drone id="d" xbee_addr="zz" upcore_addr="00:11:22:33:44:55"/></c>"#;
    assert!(matches!(read_config(bad_drone), Err(ConfigError::InvalidDrone(0))));
    let bad_tag = r#"<c><supervisor/><pipuck id="p" rpi_addr="00:11:22:33:44:55" apriltag_id="300"/></c>"#;
    assert!(matches!(read_config(bad_tag), Err(ConfigError::InvalidPiPuck(0))));
    let minimal = read_config("<c><supervisor/></c>").unwrap();
    assert!(minimal.router_socket.is_none() && minimal.drones.is_empty());
}
