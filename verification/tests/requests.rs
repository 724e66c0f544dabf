use bbqueue::BBBuffer;
use modbus_rs::{CoilState, Error, Modbus, Request, RequestFrame, RING_SIZE};
use std::task::Waker;

#[test]
fn fn1_crc_correct() {
    let bb = BBBuffer::<RING_SIZE>::new();
    let mut modbus = Modbus::new(&bb).unwrap();

    let data = [0x11, 0x01, 0x00, 0x13, 0x00, 0x25, 0x0E, 0x84];
    let address: u16 = 0x0013;
    let count: u16 = 0x0025;

    assert_eq!(modbus.on_data_received(&data), Ok(()));
    assert_eq!(
        modbus.next(Waker::noop()),
        Some(Ok(RequestFrame {
            slave_id: 0x11,
            request: Request::ReadCoil { address, count }
        }))
    );
}

#[test]
fn fn1_crc_fail() {
    let bb = BBBuffer::<RING_SIZE>::new();
    let mut modbus = Modbus::new(&bb).unwrap();

    let data = [0x11, 0x01, 0x00, 0x13, 0x00, 0x25, 0x0E, 0x85];

    assert_eq!(modbus.on_data_received(&data), Ok(()));
    assert_eq!(modbus.next(Waker::noop()), Some(Err(Error::Crc)));
}

#[test]
fn fn1_data_in_2_steps() {
    let bb = BBBuffer::<RING_SIZE>::new();
    let mut modbus = Modbus::new(&bb).unwrap();

    let data = [0x11, 0x01, 0x00, 0x13];
    let address: u16 = 0x0013;
    let count: u16 = 0x0025;

    assert_eq!(modbus.on_data_received(&data), Ok(()));
    let data = [0x00, 0x25, 0x0E, 0x84];
    assert_eq!(modbus.on_data_received(&data), Ok(()));
    assert_eq!(
        modbus.next(Waker::noop()),
        Some(Ok(RequestFrame {
            slave_id: 0x11,
            request: Request::ReadCoil { address, count }
        }))
    );
}

#[test]
fn fn1_2_futures_data_in_2_steps() {
    let bb = BBBuffer::<RING_SIZE>::new();
    let mut modbus = Modbus::new(&bb).unwrap();

    let address: u16 = 0x0013;
    let count: u16 = 0x0025;

    let data = [0x11, 0x01, 0x00, 0x13];
    assert_eq!(modbus.on_data_received(&data), Ok(()));
    let data = [0x00, 0x25, 0x0E, 0x84];
    assert_eq!(modbus.on_data_received(&data), Ok(()));

    let data = [0x11, 0x01, 0x00, 0x13];
    assert_eq!(modbus.on_data_received(&data), Ok(()));
    let data = [0x00, 0x25, 0x0E, 0x84];
    assert_eq!(modbus.on_data_received(&data), Ok(()));

    assert_eq!(
        modbus.next(Waker::noop()),
        Some(Ok(RequestFrame {
            slave_id: 0x11,
            request: Request::ReadCoil { address, count }
        }))
    );
    assert_eq!(
        modbus.next(Waker::noop()),
        Some(Ok(RequestFrame {
            slave_id: 0x11,
            request: Request::ReadCoil { address, count }
        }))
    );
}

#[test]
fn fn2() {
    let bb = BBBuffer::<RING_SIZE>::new();
    let mut modbus = Modbus::new(&bb).unwrap();

    let data = [0x11, 0x02, 0x00, 0xC4, 0x00, 0x16, 0xBA, 0xA9];
    let address = 0x00C4;
    let count = 0x0016;

    assert_eq!(modbus.on_data_received(&data), Ok(()));
    assert_eq!(
        modbus.next(Waker::noop()),
        Some(Ok(RequestFrame {
            slave_id: 0x11,
            request: Request::ReadInput { address, count }
        }))
    );
}

#[test]
fn fn3() {
    let bb = BBBuffer::<RING_SIZE>::new();
    let mut modbus = Modbus::new(&bb).unwrap();

    let data = [0x11, 0x03, 0x00, 0x6B, 0x00, 0x03, 0x76, 0x87];

    let address = 0x006B;
    let count = 0x0003;

    assert_eq!(modbus.on_data_received(&data), Ok(()));
    assert_eq!(
        modbus.next(Waker::noop()),
        Some(Ok(RequestFrame {
            slave_id: 0x11,
            request: Request::ReadOutputRegisters { address, count }
        }))
    );
}

#[test]
fn fn4() {
    let bb = BBBuffer::<RING_SIZE>::new();
    let mut modbus = Modbus::new(&bb).unwrap();

    let data = [0x11, 0x04, 0x00, 0x08, 0x00, 0x01, 0xB2, 0x98];

    let address = 0x0008;
    let count = 0x0001;

    assert_eq!(modbus.on_data_received(&data), Ok(()));
    assert_eq!(
        modbus.next(Waker::noop()),
        Some(Ok(RequestFrame {
            slave_id: 0x11,
            request: Request::ReadInputRegisters { address, count }
        }))
    );
}

#[test]
fn fn5_on() {
    let bb = BBBuffer::<RING_SIZE>::new();
    let mut modbus = Modbus::new(&bb).unwrap();

    let data = [0x11, 0x05, 0x00, 0xAC, 0xFF, 0x00, 0x4E, 0x8B];

    let address = 0x00AC;

    assert_eq!(modbus.on_data_received(&data), Ok(()));
    assert_eq!(
        modbus.next(Waker::noop()),
        Some(Ok(RequestFrame {
            slave_id: 0x11,
            request: Request::SetCoil {
                address,
                status: CoilState::On
            }
        }))
    );
}

#[test]
fn fn5_off() {
    let bb = BBBuffer::<RING_SIZE>::new();
    let mut modbus = Modbus::new(&bb).unwrap();

    let data = [0x11, 0x05, 0x00, 0xAC, 0x00, 0xFF, 0x4F, 0x3B];

    let address = 0x00AC;

    assert_eq!(modbus.on_data_received(&data), Ok(()));
    assert_eq!(
        modbus.next(Waker::noop()),
        Some(Ok(RequestFrame {
            slave_id: 0x11,
            request: Request::SetCoil {
                address,
                status: CoilState::Off
            }
        }))
    );
}

#[test]
fn fn6() {
    let bb = BBBuffer::<RING_SIZE>::new();
    let mut modbus = Modbus::new(&bb).unwrap();

    let data = [0x11, 0x06, 0x00, 0x01, 0x00, 0x03, 0x9A, 0x9B];

    let address = 0x0001;
    let value = 0x0003;

    assert_eq!(modbus.on_data_received(&data), Ok(()));
    assert_eq!(
        modbus.next(Waker::noop()),
        Some(Ok(RequestFrame {
            slave_id: 0x11,
            request: Request::SetRegister { address, value }
        }))
    );
}

#[test]
fn fn15() {
    let bb = BBBuffer::<RING_SIZE>::new();
    let mut modbus = Modbus::new(&bb).unwrap();
    let data = [
        0x11, 0x0F, 0x00, 0x13, 0x00, 0x0A, 0x02, 0xCD, 0x01, 0xBF, 0x0B,
    ];

    let address_set = 0x0013;
    let count_set = 0x000A;

    assert_eq!(modbus.on_data_received(&data), Ok(()));
    let frame = modbus.next(Waker::noop());

    match frame {
        Some(Ok(RequestFrame {
            slave_id: 0x11,
            request:
                Request::SetCoils {
                    address,
                    count,
                    coils,
                },
        })) => {
            assert_eq!(address_set, address);
            assert_eq!(count_set, count);

            let mut iter = coils.iter();
            let mut states = Vec::new();
            while let Some(state) = iter.next() {
                states.push(state);
            }
            assert_eq!(
                states,
                vec![
                    CoilState::On,
                    CoilState::Off,
                    CoilState::On,
                    CoilState::On,
                    CoilState::Off,
                    CoilState::Off,
                    CoilState::On,
                    CoilState::On,
                    CoilState::On,
                    CoilState::Off
                ]
            );
        }
        _ => panic!("Unexpected request result."),
    };
}

#[test]
fn fn16() {
    let bb = BBBuffer::<RING_SIZE>::new();
    let mut modbus = Modbus::new(&bb).unwrap();
    let data = [
        0x11, 0x10, 0x00, 0x01, 0x00, 0x02, 0x04, 0x00, 0x0A, 0x01, 0x02, 0xC6, 0xF0,
    ];

    assert_eq!(modbus.on_data_received(&data), Ok(()));
    match modbus.next(Waker::noop()) {
        Some(Ok(RequestFrame {
            slave_id: 0x11,
            request:
                Request::SetRegisters {
                    address: 0x0001,
                    count: 0x0002,
                    registers,
                },
        })) => {
            assert_eq!(registers.len(), 2);
            let mut iter = registers.iter();
            assert_eq!(iter.next(), Some(0x000A));
            assert_eq!(iter.next(), Some(0x0102));
            assert_eq!(iter.next(), None);
        }
        _ => panic!("Unexpected request result."),
    };
}

#[test]
fn status_other_than_on_is_off() {
    let bb = BBBuffer::<RING_SIZE>::new();
    let mut modbus = Modbus::new(&bb).unwrap();

    let data = [0x11, 0x05, 0x00, 0xAC, 0x12, 0x34, 0x02, 0x0C];

    assert_eq!(modbus.on_data_received(&data), Ok(()));
    assert_eq!(
        modbus.next(Waker::noop()),
        Some(Ok(RequestFrame {
            slave_id: 0x11,
            request: Request::SetCoil {
                address: 0x00AC,
                status: CoilState::Off
            }
        }))
    );
}

#[test]
fn slave_id_and_fields_are_read_per_frame() {
    let bb = BBBuffer::<RING_SIZE>::new();
    let mut modbus = Modbus::new(&bb).unwrap();

    let data = [0x0A, 0x01, 0x04, 0xA1, 0x00, 0x01, 0xAC, 0x63];

    assert_eq!(modbus.on_data_received(&data), Ok(()));
    assert_eq!(
        modbus.next(Waker::noop()),
        Some(Ok(RequestFrame {
            slave_id: 0x0A,
            request: Request::ReadCoil {
                address: 0x04A1,
                count: 0x0001
            }
        }))
    );
}

#[test]
fn write_multiple_with_zero_count_has_empty_view() {
    let bb = BBBuffer::<RING_SIZE>::new();
    let mut modbus = Modbus::new(&bb).unwrap();

    let data = [0x11, 0x0F, 0x00, 0x13, 0x00, 0x00, 0x00, 0x1E, 0x7A];
    assert_eq!(modbus.on_data_received(&data), Ok(()));
    match modbus.next(Waker::noop()) {
        Some(Ok(RequestFrame {
            slave_id: 0x11,
            request:
                Request::SetCoils {
                    address: 0x0013,
                    count: 0,
                    coils,
                },
        })) => {
            assert_eq!(coils.len(), 0);
            assert_eq!(coils.iter().next(), None);
        }
        _ => panic!("Unexpected request result."),
    }

    let data = [0x11, 0x10, 0x00, 0x01, 0x00, 0x00, 0x00, 0x19, 0x6D];
    assert_eq!(modbus.on_data_received(&data), Ok(()));
    match modbus.next(Waker::noop()) {
        Some(Ok(RequestFrame {
            slave_id: 0x11,
            request:
                Request::SetRegisters {
                    address: 0x0001,
                    count: 0,
                    registers,
                },
        })) => {
            assert_eq!(registers.len(), 0);
            assert_eq!(registers.iter().next(), None);
        }
        _ => panic!("Unexpected request result."),
    };
}

#[test]
fn count_beyond_the_data_bytes_is_passed_through() {
    let bb = BBBuffer::<RING_SIZE>::new();
    let mut modbus = Modbus::new(&bb).unwrap();

    // Ten coils are announced, one data byte is sent.
    let data = [0x11, 0x0F, 0x00, 0x13, 0x00, 0x0A, 0x01, 0xCD, 0x1A, 0x0F];
    assert_eq!(modbus.on_data_received(&data), Ok(()));
    match modbus.next(Waker::noop()) {
        Some(Ok(RequestFrame {
            slave_id: 0x11,
            request:
                Request::SetCoils {
                    address: 0x0013,
                    count: 10,
                    coils,
                },
        })) => {
            assert_eq!(coils.len(), 10);
            let mut iter = coils.iter();
            let mut states = Vec::new();
            while let Some(state) = iter.next() {
                states.push(state);
            }
            assert_eq!(
                states,
                vec![
                    CoilState::On,
                    CoilState::Off,
                    CoilState::On,
                    CoilState::On,
                    CoilState::Off,
                    CoilState::Off,
                    CoilState::On,
                    CoilState::On,
                    CoilState::Off,
                    CoilState::Off
                ]
            );
        }
        _ => panic!("Unexpected request result."),
    }

    // Three registers are announced, three data bytes are sent.
    let data = [
        0x11, 0x10, 0x00, 0x01, 0x00, 0x03, 0x03, 0x00, 0x0A, 0x01, 0x7E, 0x73,
    ];
    assert_eq!(modbus.on_data_received(&data), Ok(()));
    match modbus.next(Waker::noop()) {
        Some(Ok(RequestFrame {
            slave_id: 0x11,
            request:
                Request::SetRegisters {
                    address: 0x0001,
                    count: 3,
                    registers,
                },
        })) => {
            assert_eq!(registers.len(), 3);
            let mut iter = registers.iter();
            assert_eq!(iter.next(), Some(0x000A));
            assert_eq!(iter.next(), Some(0x0100));
            assert_eq!(iter.next(), Some(0x0000));
            assert_eq!(iter.next(), None);
        }
        _ => panic!("Unexpected request result."),
    };
}
