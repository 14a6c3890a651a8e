use microps::error::NetError;
use microps::net::DeviceDriver;
use microps::net::DeviceState;
use microps::net::NetDevice;

fn plain_device(name: &str, mtu: u16) -> NetDevice {
    NetDevice {
        name: name.to_string(),
        mtu,
        ..Default::default()
    }
}

#[test]
fn open_twice_reports_already_open() {
    let mut dev = plain_device("a", 100);
    assert!(matches!(dev.net_device_open(), Ok(())));
    assert_eq!(dev.state, DeviceState::Up);
    assert!(matches!(dev.net_device_open(), Err(NetError::AlreadyOpen)));
    assert_eq!(dev.state, DeviceState::Up);
    assert_eq!(dev.name, "a");
    assert_eq!(dev.mtu, 100);
}

#[test]
fn close_before_open_reports_not_open() {
    let mut dev = plain_device("a", 100);
    assert_eq!(dev.state, DeviceState::Down);
    assert!(matches!(dev.net_device_close(), Err(NetError::NotOpen)));
    assert_eq!(dev.state, DeviceState::Down);
}

#[test]
fn open_then_close_round_trip() {
    let mut dev = plain_device("a", 100);
    assert!(matches!(dev.net_device_open(), Ok(())));
    assert!(matches!(dev.net_device_close(), Ok(())));
    assert_eq!(dev.state, DeviceState::Down);
    assert!(matches!(dev.net_device_close(), Err(NetError::NotOpen)));
}

#[test]
fn output_over_mtu_reports_payload_too_large() {
    let mut dev = plain_device("a", 4);
    assert!(matches!(dev.net_device_open(), Ok(())));
    let r = dev.net_device_output(0x0800, &[1, 2, 3, 4, 5]);
    assert!(matches!(r, Err(NetError::PayloadTooLarge)));
}

#[test]
fn output_at_mtu_is_accepted() {
    let mut dev = plain_device("a", 4);
    assert!(matches!(dev.net_device_open(), Ok(())));
    let r = dev.net_device_output(0x0800, &[1, 2, 3, 4]);
    assert!(matches!(r, Ok(None)));
}

#[test]
fn output_while_down_reports_not_open() {
    let dev = plain_device("a", 4);
    let r = dev.net_device_output(0x0800, &[1]);
    assert!(matches!(r, Err(NetError::NotOpen)));
}

#[test]
fn dummy_driver_output_requests_its_line() {
    let mut dev = NetDevice {
        name: "dummy".to_string(),
        mtu: 1500,
        driver: DeviceDriver::Dummy,
        ..Default::default()
    };
    assert!(matches!(dev.net_device_open(), Ok(())));
    let r = dev.net_device_output(0x0800, &[1, 2, 3]);
    assert_eq!(r, Ok(Some(microps::dummy::DUMMY_IRQ)));
}

#[test]
fn default_device_is_blank_and_down() {
    let dev = NetDevice::default();
    assert_eq!(dev.index, 0);
    assert_eq!(dev.name, "");
    assert_eq!(dev.device_type, 0);
    assert_eq!(dev.mtu, 0);
    assert_eq!(dev.state, DeviceState::Down);
    assert_eq!(dev.hlen, 0);
    assert_eq!(dev.alen, 0);
    assert_eq!(dev.addr, [0u8; 16]);
    assert_eq!(dev.peer, [0u8; 16]);
    assert_eq!(dev.broadcast, [0u8; 16]);
    assert_eq!(dev.driver, DeviceDriver::Null);
}
