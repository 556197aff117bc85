use arexx_tap::usb::{
    find_endpoints, AltSettingDesc, ConfigDesc, Direction, EndpointDesc, Endpoints, InterfaceDesc,
    TransferType, UsbDevice,
};

fn ep(address: u8, direction: Direction, transfer_type: TransferType) -> EndpointDesc {
    EndpointDesc { address, direction, transfer_type }
}

fn alt(iface: u8, setting: u8, endpoints: Vec<EndpointDesc>) -> AltSettingDesc {
    AltSettingDesc { interface_number: iface, setting_number: setting, endpoints }
}

fn endpoints(n: u8) -> Endpoints {
    Endpoints { config: n, iface: 0, setting: 0, read_addr: 0x81, write_addr: 0x01 }
}

#[test]
fn session_generations() {
    let mut s: UsbDevice<u32> = UsbDevice::new();
    assert_eq!(s.connect_count(), 0);
    assert!(s.snapshot().1.is_none());
    assert!(s.device_arrived(endpoints(1), 10).is_none());
    let (g, att) = s.snapshot();
    assert_eq!(g, 1);
    assert_eq!(att, Some((&10, endpoints(1))));
    let left = s.device_left().unwrap();
    assert_eq!(left.handle, 10);
    assert_eq!(left.endpoints, endpoints(1));
    assert_eq!(s.snapshot(), (1, None));
    assert!(s.device_left().is_none());
    assert!(s.device_arrived(endpoints(2), 20).is_none());
    assert_eq!(s.snapshot(), (2, Some((&20, endpoints(2)))));
    let prev = s.device_arrived(endpoints(3), 30).unwrap();
    assert_eq!(prev.handle, 20);
    assert_eq!(s.connect_count(), 3);
}

#[test]
fn finds_first_bulk_pair() {
    let configs = vec![
        None,
        Some(ConfigDesc { number: 1, interfaces: vec![InterfaceDesc { alt_settings: vec![] }] }),
        Some(ConfigDesc {
            number: 2,
            interfaces: vec![InterfaceDesc {
                alt_settings: vec![alt(3, 1, vec![
                    ep(0x83, Direction::In, TransferType::Interrupt),
                    ep(0x02, Direction::Out, TransferType::Bulk),
                    ep(0x81, Direction::In, TransferType::Bulk),
                    ep(0x04, Direction::Out, TransferType::Bulk),
                ])],
            }],
        }),
    ];
    assert_eq!(
        find_endpoints(&configs, TransferType::Bulk),
        Some(Endpoints { config: 2, iface: 3, setting: 1, read_addr: 0x81, write_addr: 0x02 })
    );
}

#[test]
fn partial_match_fails_fast() {
    let configs = vec![
        Some(ConfigDesc {
            number: 1,
            interfaces: vec![InterfaceDesc {
                alt_settings: vec![alt(0, 0, vec![ep(0x81, Direction::In, TransferType::Bulk)])],
            }],
        }),
        Some(ConfigDesc {
            number: 2,
            interfaces: vec![InterfaceDesc {
                alt_settings: vec![alt(0, 0, vec![
                    ep(0x81, Direction::In, TransferType::Bulk),
                    ep(0x01, Direction::Out, TransferType::Bulk),
                ])],
            }],
        }),
    ];
    assert_eq!(find_endpoints(&configs, TransferType::Bulk), None);
}

#[test]
fn no_configurations_finds_nothing() {
    assert_eq!(find_endpoints(&vec![], TransferType::Bulk), None);
    assert_eq!(find_endpoints(&vec![None, None], TransferType::Bulk), None);
}
