use desk_core::address::{
    address_matches, is_desk_name, parse_address, parse_octet, require_address, starts_with,
};
use desk_core::connection::{
    collect_desks, desk_from_advert, find_characteristic, is_height_notification,
    locate_characteristics, should_disconnect, Advert, MissingCharacteristic, ConnectAction, ConnectAttempt, ConnectEvent,
    ConnectStage,
};
use desk_core::motion::{
    MovePhase, MoveSession, MoveStep, coast_sample, drive_reached, hold_target_direction, is_at_rest, BusySlot, MAX_LEAD,
    TARGET_DEADBAND,
};
use desk_core::preset::{
    arrived, move_direction, plan_approach, FineTune, ARRIVE_TOLERANCE, FINE_MAX, FINE_TOLERANCE,
};
use desk_core::protocol::{
    parse_height, parse_speed, Direction, CHARACTERISTIC_MOVE, CHARACTERISTIC_REFERENCE_IN,
    CHARACTERISTIC_REFERENCE_OUT, COMMAND_DOWN, COMMAND_RELEASE, COMMAND_STOP, COMMAND_UP,
    DEAD_MAN_MS, DESK_NAME_PREFIX, POLL_MS,
};
use desk_core::readings::Readings;
use desk_core::reporter::{
    bluetooth_availability, bt_state_str, map_central_state, AdapterState, BluetoothState,
    ConnectionState, Screen, ScreenState,
};

// --- protocol ---------------------------------------------------------------

#[test]
fn direction_command_bytes() {
    assert_eq!(Direction::Up.command(), [0x47, 0x00]);
    assert_eq!(Direction::Down.command(), [0x46, 0x00]);
    assert_eq!(Direction::Up.command(), COMMAND_UP);
    assert_eq!(Direction::Down.command(), COMMAND_DOWN);
    assert_eq!(COMMAND_STOP, [0xff, 0x00]);
    assert_eq!(COMMAND_RELEASE, [0x01, 0x80]);
    assert_ne!(Direction::Up.command(), Direction::Down.command());
}

#[test]
fn characteristic_uuids() {
    assert_eq!(CHARACTERISTIC_MOVE, 0x99fa0002_338a_1024_8a49_009c0215f78a);
    assert_eq!(CHARACTERISTIC_REFERENCE_OUT, 0x99fa0021_338a_1024_8a49_009c0215f78a);
    assert_eq!(CHARACTERISTIC_REFERENCE_IN, 0x99fa0031_338a_1024_8a49_009c0215f78a);
    assert_eq!(DESK_NAME_PREFIX, "Desk");
}

#[test]
fn height_notification_decodes_little_endian() {
    // raw 953 (0x03b9), speed +16
    let data = [0xb9, 0x03, 0x10, 0x00];
    assert_eq!(parse_height(&data), Some(953));
    assert_eq!(parse_speed(&data), Some(16));
    // raw 2344 (0x0928), speed -16
    let data = [0x28, 0x09, 0xf0, 0xff];
    assert_eq!(parse_height(&data), Some(2344));
    assert_eq!(parse_speed(&data), Some(-16));
    // extremes
    assert_eq!(parse_height(&[0xff, 0xff]), Some(65535));
    assert_eq!(parse_speed(&[0, 0, 0x00, 0x80]), Some(-32768));
    assert_eq!(parse_speed(&[0, 0, 0xff, 0x7f]), Some(32767));
}

#[test]
fn short_notifications_carry_less() {
    assert_eq!(parse_height(&[]), None);
    assert_eq!(parse_height(&[0x10]), None);
    assert_eq!(parse_height(&[0x10, 0x00, 0x05]), Some(16));
    assert_eq!(parse_speed(&[0x10, 0x00, 0x05]), None);
}

// --- readings ---------------------------------------------------------------

#[test]
fn readings_follow_notifications() {
    let mut r = Readings::new();
    assert_eq!(r.current_raw(), None);
    assert_eq!(r.current_speed(), None);
    assert_eq!(r.updates(), 0);

    assert_eq!(r.on_height(&[0xb9, 0x03, 0x10, 0x00]), Some(953));
    assert_eq!(r.current_raw(), Some(953));
    assert_eq!(r.current_speed(), Some(16));
    assert_eq!(r.updates(), 1);

    // a two-byte read replaces the height but keeps the last speed
    assert_eq!(r.on_height(&[0x28, 0x09]), Some(2344));
    assert_eq!(r.current_raw(), Some(2344));
    assert_eq!(r.current_speed(), Some(16));
    assert_eq!(r.updates(), 2);

    // too short: ignored entirely
    assert_eq!(r.on_height(&[0x01]), None);
    assert_eq!(r.current_raw(), Some(2344));
    assert_eq!(r.updates(), 2);

    r.clear_height();
    assert_eq!(r.current_raw(), None);
    assert_eq!(r.current_speed(), Some(16));
    assert_eq!(r.updates(), 2);
}

// --- screen / bluetooth -----------------------------------------------------

#[test]
fn screen_derivation() {
    let mut s = ScreenState::new();
    assert_eq!(s.derive(), Screen::Scanning);
    s.bluetooth = BluetoothState::Off;
    assert_eq!(s.derive(), Screen::BluetoothOff);
    s.connection = ConnectionState::Connecting;
    assert_eq!(s.derive(), Screen::BluetoothOff);
    s.bluetooth = BluetoothState::Ready;
    assert_eq!(s.derive(), Screen::Connecting);
    s.connection = ConnectionState::Connected;
    assert_eq!(s.derive(), Screen::Connected);
    s.bluetooth = BluetoothState::Off;
    assert_eq!(s.derive(), Screen::Connected);
}

#[test]
fn screen_emitted_once_per_transition() {
    let mut s = ScreenState::new();
    assert_eq!(s.set_bluetooth(BluetoothState::Ready), Some(Screen::Scanning));
    assert_eq!(s.set_bluetooth(BluetoothState::Ready), None);
    assert_eq!(s.set_connection(ConnectionState::Connecting), Some(Screen::Connecting));
    assert_eq!(s.set_connection(ConnectionState::Connecting), None);
    assert_eq!(s.set_connection(ConnectionState::Connected), Some(Screen::Connected));
    assert_eq!(s.last_emitted, Some(Screen::Connected));
}

#[test]
fn radio_off_while_connected_goes_straight_to_bluetooth_off() {
    let mut s = ScreenState::new();
    s.set_connection(ConnectionState::Connected);
    assert_eq!(s.set_bluetooth(BluetoothState::Off), None);
    assert!(should_disconnect(BluetoothState::Off, true));
    assert_eq!(s.set_connection(ConnectionState::Disconnected), Some(Screen::BluetoothOff));
}

#[test]
fn adapter_state_mapping() {
    assert_eq!(map_central_state(AdapterState::PoweredOff), BluetoothState::Off);
    assert_eq!(map_central_state(AdapterState::PoweredOn), BluetoothState::Ready);
    assert_eq!(map_central_state(AdapterState::Unknown), BluetoothState::Ready);
    assert_eq!(bluetooth_availability(false, None), BluetoothState::Off);
    assert_eq!(bluetooth_availability(false, Some(AdapterState::PoweredOn)), BluetoothState::Off);
    assert_eq!(bluetooth_availability(true, None), BluetoothState::Ready);
    assert_eq!(bluetooth_availability(true, Some(AdapterState::PoweredOff)), BluetoothState::Off);
    assert_eq!(bluetooth_availability(true, Some(AdapterState::PoweredOn)), BluetoothState::Ready);
}

#[test]
fn bluetooth_state_strings() {
    assert_eq!(bt_state_str(BluetoothState::Ready), "ready");
    assert_eq!(bt_state_str(BluetoothState::Off), "off");
}

#[test]
fn disconnect_only_when_radio_off_and_connected() {
    assert!(should_disconnect(BluetoothState::Off, true));
    assert!(!should_disconnect(BluetoothState::Off, false));
    assert!(!should_disconnect(BluetoothState::Ready, true));
    assert!(!should_disconnect(BluetoothState::Ready, false));
}

// --- addresses --------------------------------------------------------------

#[test]
fn parse_address_big_endian() {
    assert_eq!(parse_address("DF:EA:BA:E8:8E:44").unwrap(), 0xDFEA_BAE8_8E44);
    assert_eq!(parse_address("df:ea:ba:e8:8e:44").unwrap(), 0xDFEA_BAE8_8E44);
    assert_eq!(parse_address("00:00:00:00:00:01").unwrap(), 1);
    assert_eq!(parse_address("ff:ff:ff:ff:ff:ff").unwrap(), 0xFFFF_FFFF_FFFF);
    // single digits, leading zeros and a leading '+' are what from_str_radix takes
    assert_eq!(parse_address("1:2:3:4:5:6").unwrap(), 0x0102_0304_0506);
    assert_eq!(parse_address("001:2:3:4:5:+6").unwrap(), 0x0102_0304_0506);
}

#[test]
fn parse_address_rejects_malformed() {
    let bad = [
        "",
        "DF:EA:BA:E8:8E",
        "DF:EA:BA:E8:8E:44:00",
        "DF:EA:BA:E8:8E:4G",
        "DF:EA:BA:E8:8E:",
        "DF::BA:E8:8E:44",
        "100:EA:BA:E8:8E:44",
        "-1:EA:BA:E8:8E:44",
        "+:EA:BA:E8:8E:44",
        "DF-EA-BA-E8-8E-44",
        "DF:EA:BA:E8:8E:44 ",
        "DF:EA:BA:E8:8E:\u{e9}",
    ];
    for a in bad {
        let err = parse_address(a).unwrap_err();
        assert_eq!(err.address, a);
        assert_eq!(err.message(), format!("invalid Bluetooth address: {a}"));
    }
}

#[test]
fn octets_follow_from_str_radix() {
    for text in ["0", "7", "ff", "FF", "+a", "0ff", "00000000000001", "100", "", "+", "-", "g", "+-1", "1 "] {
        let expected = u8::from_str_radix(text, 16).ok();
        assert_eq!(parse_octet(&text.as_bytes().to_vec()), expected, "{text:?}");
    }
}

#[test]
fn addresses_match_ignoring_ascii_case() {
    assert!(address_matches("DF:EA:BA:E8:8E:44", "df:ea:ba:e8:8e:44"));
    assert!(address_matches("df:EA:ba:E8:8e:44", "DF:ea:BA:e8:8E:44"));
    assert!(!address_matches("DF:EA:BA:E8:8E:44", "DF:EA:BA:E8:8E:45"));
    assert!(!address_matches("DF:EA:BA:E8:8E:44", "DF:EA:BA:E8:8E:4"));
    assert!(address_matches("", ""));
}

#[test]
fn desk_names() {
    assert!(is_desk_name("Desk 6420"));
    assert!(is_desk_name("Desk"));
    assert!(!is_desk_name("desk 6420"));
    assert!(!is_desk_name("Des"));
    assert!(!is_desk_name("My Desk"));
    assert!(starts_with("abc", ""));
    assert!(!starts_with("", "a"));
}

#[test]
fn require_address_passes_given_address() {
    assert_eq!(require_address(Some("DF:EA:BA:E8:8E:44".to_string())).unwrap(), "DF:EA:BA:E8:8E:44");
    let err = require_address(None).unwrap_err();
    assert_eq!(
        err.message(),
        "no desk address \u{2014} pass --address <MAC> (run `desk-cli scan` to find it)"
    );
}

// --- busy / hold ------------------------------------------------------------

#[test]
fn busy_slot_runs_one_task_at_a_time() {
    let mut slot: BusySlot<u32> = BusySlot::new();
    assert!(!slot.is_busy());
    assert!(!slot.try_begin(false, 1));
    assert!(!slot.is_busy());
    assert!(slot.try_begin(true, 2));
    assert!(slot.is_busy());
    assert_eq!(slot.current(), Some(&2));
    assert!(!slot.try_begin(true, 3));
    assert_eq!(slot.current(), Some(&2));
    slot.finish();
    assert!(!slot.is_busy());
    assert_eq!(slot.current(), None);
    assert!(slot.try_begin(true, 4));
    assert_eq!(slot.current(), Some(&4));
}

#[test]
fn hold_to_target_direction() {
    assert_eq!(hold_target_direction(None, 1000), None);
    assert_eq!(hold_target_direction(Some(1000), 1000), None);
    assert_eq!(hold_target_direction(Some(1000), 1000 + TARGET_DEADBAND), None);
    assert_eq!(hold_target_direction(Some(1000), 1000 - TARGET_DEADBAND), None);
    assert_eq!(hold_target_direction(Some(1000), 1011), Some(Direction::Up));
    assert_eq!(hold_target_direction(Some(1000), 989), Some(Direction::Down));
}

#[test]
fn uncalibrated_cutoff_uses_deadband() {
    assert!(drive_reached(Direction::Up, 990, 1000, None));
    assert!(!drive_reached(Direction::Up, 989, 1000, None));
    assert!(drive_reached(Direction::Down, 1010, 1000, None));
    assert!(!drive_reached(Direction::Down, 1011, 1000, None));
}

#[test]
fn calibrated_cutoff_leads_by_predicted_coast() {
    assert!(drive_reached(Direction::Up, 950, 1000, Some(50)));
    assert!(!drive_reached(Direction::Up, 949, 1000, Some(50)));
    assert!(drive_reached(Direction::Down, 1050, 1000, Some(-50)));
    assert!(!drive_reached(Direction::Down, 1051, 1000, Some(-50)));
    // a wild prediction is capped at MAX_LEAD
    assert!(drive_reached(Direction::Up, 1000 - MAX_LEAD, 1000, Some(5000)));
    assert!(!drive_reached(Direction::Up, 1000 - MAX_LEAD - 1, 1000, Some(5000)));
    assert!(drive_reached(Direction::Down, 1000 + MAX_LEAD, 1000, Some(-5000)));
    assert!(!drive_reached(Direction::Down, 1000 + MAX_LEAD + 1, 1000, Some(-5000)));
}

#[test]
fn coast_samples_are_screened() {
    assert_eq!(coast_sample(Direction::Up, 1000, 30, 1040), Some(40));
    assert_eq!(coast_sample(Direction::Up, 1000, 30, 1000), Some(0));
    assert_eq!(coast_sample(Direction::Up, 1000, 2, 1040), None);
    assert_eq!(coast_sample(Direction::Up, 1000, 30, 999), None);
    assert_eq!(coast_sample(Direction::Up, 1000, 30, 1000 + MAX_LEAD), Some(MAX_LEAD));
    assert_eq!(coast_sample(Direction::Up, 1000, 30, 1001 + MAX_LEAD), None);
    assert_eq!(coast_sample(Direction::Down, 1000, -30, 960), Some(-40));
    assert_eq!(coast_sample(Direction::Down, 1000, -2, 960), None);
    assert_eq!(coast_sample(Direction::Down, 1000, -30, 1001), None);
    assert_eq!(coast_sample(Direction::Down, 1000, -30, 999 - MAX_LEAD), None);
}

#[test]
fn rest_is_zero_speed() {
    assert!(is_at_rest(Some(0)));
    assert!(!is_at_rest(Some(3)));
    assert!(!is_at_rest(None));
}

// --- preset -----------------------------------------------------------------

#[test]
fn preset_direction_and_plan() {
    assert_eq!(move_direction(None, 1000), None);
    assert_eq!(move_direction(Some(900), 1000), Some(Direction::Up));
    assert_eq!(move_direction(Some(1000), 1000), Some(Direction::Down));
    assert_eq!(move_direction(Some(1100), 1000), Some(Direction::Down));

    assert_eq!(plan_approach(None, 1000), None);
    assert_eq!(plan_approach(Some(1000 - ARRIVE_TOLERANCE), 1000), None);
    assert_eq!(plan_approach(Some(1000 + ARRIVE_TOLERANCE), 1000), None);
    assert_eq!(plan_approach(Some(1000 - ARRIVE_TOLERANCE - 1), 1000), Some(Direction::Up));
    assert_eq!(plan_approach(Some(1000 + ARRIVE_TOLERANCE + 1), 1000), Some(Direction::Down));
}

#[test]
fn preset_arrival() {
    assert!(arrived(Direction::Up, 1000, 1000 - ARRIVE_TOLERANCE));
    assert!(!arrived(Direction::Up, 1000, 999 - ARRIVE_TOLERANCE));
    assert!(arrived(Direction::Up, 1000, 1200));
    assert!(arrived(Direction::Down, 1000, 1000 + ARRIVE_TOLERANCE));
    assert!(!arrived(Direction::Down, 1000, 1001 + ARRIVE_TOLERANCE));
    assert!(arrived(Direction::Down, 1000, 800));
    assert!(arrived(Direction::Down, i32::MAX, i32::MAX));
    assert!(arrived(Direction::Up, i32::MIN, i32::MIN));
}

#[test]
fn fine_tune_pulses_toward_target() {
    let mut f = FineTune::new(1000);
    assert!(f.proceed(false, true));
    assert!(!f.proceed(true, true));
    assert!(!f.proceed(false, false));
    assert_eq!(f.round(Some(980)), Some(Direction::Up));
    assert_eq!(f.round(Some(1020)), Some(Direction::Down));
    assert_eq!(f.round(Some(1000 + FINE_TOLERANCE)), None);
    assert_eq!(f.round(None), None);
}

#[test]
fn fine_tune_is_bounded() {
    let mut f = FineTune::new(1000);
    let mut rounds = 0;
    while f.proceed(false, true) {
        assert_eq!(f.round(Some(0)), Some(Direction::Up));
        rounds += 1;
    }
    assert_eq!(rounds, FINE_MAX);
}

// --- discovery / connection -------------------------------------------------

fn advert(name: Option<&str>, address: &str, rssi: Option<i16>) -> Advert {
    Advert { local_name: name.map(|n| n.to_string()), address: address.to_string(), rssi }
}

#[test]
fn scan_keeps_desks_in_order() {
    let adverts = vec![
        advert(Some("Desk 6420"), "DF:EA:BA:E8:8E:44", Some(-60)),
        advert(None, "11:22:33:44:55:66", None),
        advert(Some("Headphones"), "AA:BB:CC:DD:EE:FF", Some(-40)),
        advert(Some("Desk 1234"), "01:02:03:04:05:06", None),
    ];
    let desks = collect_desks(&adverts);
    assert_eq!(desks.len(), 2);
    assert_eq!(desks[0].name, "Desk 6420");
    assert_eq!(desks[0].address, "DF:EA:BA:E8:8E:44");
    assert_eq!(desks[0].rssi, Some(-60));
    assert_eq!(desks[1].name, "Desk 1234");
    assert_eq!(desks[1].address, "01:02:03:04:05:06");
    assert_eq!(desks[1].rssi, None);
    assert!(collect_desks(&Vec::new()).is_empty());
}

#[test]
fn advert_to_desk() {
    let d = desk_from_advert(&advert(Some("Desk 6420"), "DF:EA:BA:E8:8E:44", Some(-70))).unwrap();
    assert_eq!(d.name, "Desk 6420");
    assert_eq!(d.rssi, Some(-70));
    assert!(desk_from_advert(&advert(Some("Lamp"), "DF:EA:BA:E8:8E:44", None)).is_none());
    assert!(desk_from_advert(&advert(None, "DF:EA:BA:E8:8E:44", None)).is_none());
}

#[test]
fn characteristics_located() {
    let uuids = vec![7, CHARACTERISTIC_REFERENCE_IN, CHARACTERISTIC_MOVE, CHARACTERISTIC_REFERENCE_OUT, CHARACTERISTIC_MOVE];
    let slots = locate_characteristics(&uuids).unwrap();
    assert_eq!(slots.move_c, 2);
    assert_eq!(slots.refout_c, 3);
    assert_eq!(slots.refin_c, 1);
    assert_eq!(find_characteristic(&uuids, 7), Some(0));
    assert_eq!(find_characteristic(&uuids, 8), None);

    assert_eq!(locate_characteristics(&vec![CHARACTERISTIC_REFERENCE_IN]).unwrap_err().uuid, CHARACTERISTIC_MOVE);
    assert_eq!(
        locate_characteristics(&vec![CHARACTERISTIC_MOVE, CHARACTERISTIC_REFERENCE_IN]).unwrap_err().uuid,
        CHARACTERISTIC_REFERENCE_OUT
    );
    assert_eq!(
        locate_characteristics(&vec![CHARACTERISTIC_REFERENCE_OUT, CHARACTERISTIC_MOVE]).unwrap_err().uuid,
        CHARACTERISTIC_REFERENCE_IN
    );
    assert!(is_height_notification(CHARACTERISTIC_REFERENCE_OUT));
    let err = locate_characteristics(&vec![CHARACTERISTIC_MOVE]).unwrap_err();
    assert_eq!(err.message(), "missing characteristic 99fa0021-338a-1024-8a49-009c0215f78a");
    let err = MissingCharacteristic { uuid: 0x0123456789abcdef_0011223344556677 };
    assert_eq!(err.message(), "missing characteristic 01234567-89ab-cdef-0011-223344556677");
    assert!(!is_height_notification(CHARACTERISTIC_MOVE));
}

#[test]
fn connect_when_already_connected() {
    let mut a = ConnectAttempt::new("DF:EA:BA:E8:8E:44", true);
    assert_eq!(a.stage(), ConnectStage::Start);
    assert!(matches!(a.step(ConnectEvent::Begun { already_connected: true }), ConnectAction::AlreadyConnected));
    assert_eq!(a.stage(), ConnectStage::Finished);
}

#[test]
fn connect_success_reports_discovered_name() {
    let mut a = ConnectAttempt::new("DF:EA:BA:E8:8E:44", true);
    assert!(matches!(a.step(ConnectEvent::Begun { already_connected: false }), ConnectAction::Discover));
    assert!(matches!(
        a.step(ConnectEvent::Found { local_name: Some("Desk 6420".to_string()) }),
        ConnectAction::Pair
    ));
    assert!(matches!(a.step(ConnectEvent::Paired { ok: true }), ConnectAction::Link));
    assert!(matches!(a.step(ConnectEvent::Linked { ok: true }), ConnectAction::SetUp));
    match a.step(ConnectEvent::SetUp { ok: true }) {
        ConnectAction::Connected { name } => assert_eq!(name, "Desk 6420"),
        _ => panic!("expected success"),
    }
    assert_eq!(a.stage(), ConnectStage::Finished);
}

#[test]
fn connect_success_falls_back_to_address() {
    let mut a = ConnectAttempt::new("DF:EA:BA:E8:8E:44", false);
    a.step(ConnectEvent::Begun { already_connected: false });
    a.step(ConnectEvent::Found { local_name: None });
    a.step(ConnectEvent::Paired { ok: true });
    a.step(ConnectEvent::Linked { ok: true });
    match a.step(ConnectEvent::SetUp { ok: true }) {
        ConnectAction::Connected { name } => assert_eq!(name, "DF:EA:BA:E8:8E:44"),
        _ => panic!("expected success"),
    }
}

fn failure(action: ConnectAction) -> (bool, bool) {
    match action {
        ConnectAction::Fail { report_disconnected, drop_link } => (report_disconnected, drop_link),
        _ => panic!("expected failure"),
    }
}

#[test]
fn connect_failures_report_only_when_asked() {
    for emit in [true, false] {
        let mut a = ConnectAttempt::new("DF:EA:BA:E8:8E:44", emit);
        a.step(ConnectEvent::Begun { already_connected: false });
        assert_eq!(failure(a.step(ConnectEvent::NotFound)), (emit, false));

        let mut a = ConnectAttempt::new("DF:EA:BA:E8:8E:44", emit);
        a.step(ConnectEvent::Begun { already_connected: false });
        a.step(ConnectEvent::Found { local_name: None });
        assert_eq!(failure(a.step(ConnectEvent::Paired { ok: false })), (emit, false));

        let mut a = ConnectAttempt::new("DF:EA:BA:E8:8E:44", emit);
        a.step(ConnectEvent::Begun { already_connected: false });
        a.step(ConnectEvent::Found { local_name: None });
        a.step(ConnectEvent::Paired { ok: true });
        assert_eq!(failure(a.step(ConnectEvent::Linked { ok: false })), (emit, false));

        let mut a = ConnectAttempt::new("DF:EA:BA:E8:8E:44", emit);
        a.step(ConnectEvent::Begun { already_connected: false });
        a.step(ConnectEvent::Found { local_name: None });
        a.step(ConnectEvent::Paired { ok: true });
        a.step(ConnectEvent::Linked { ok: true });
        assert_eq!(failure(a.step(ConnectEvent::SetUp { ok: false })), (emit, true));
        assert_eq!(a.stage(), ConnectStage::Finished);
    }
}

// --- address round trip / move sessions -------------------------------------

#[test]
fn formatted_addresses_parse_back() {
    for v in [0u64, 1, 0xDFEA_BAE8_8E44, 0xFFFF_FFFF_FFFF, 0x0102_0304_0506, 0x8000_0000_0000] {
        let b = v.to_be_bytes();
        let lower = format!("{:02x}:{:02x}:{:02x}:{:02x}:{:02x}:{:02x}", b[2], b[3], b[4], b[5], b[6], b[7]);
        let upper = lower.to_ascii_uppercase();
        assert_eq!(parse_address(&lower).unwrap(), v);
        assert_eq!(parse_address(&upper).unwrap(), v);
    }
    for a in ["dF:eA:bA:e8:8E:44", "zz:00:00:00:00:00", "1:2:3"] {
        assert_eq!(
            parse_address(&a.to_ascii_lowercase()).ok(),
            parse_address(&a.to_ascii_uppercase()).ok()
        );
    }
}

#[test]
fn move_session_drives_then_stops_then_releases() {
    let mut m = MoveSession::new(Direction::Down);
    for _ in 0..3 {
        match m.step(true, true) {
            MoveStep::Drive { bytes, wait_ms } => {
                assert_eq!(bytes, COMMAND_DOWN);
                assert_eq!(wait_ms, POLL_MS);
                assert!(wait_ms < DEAD_MAN_MS);
            }
            _ => panic!("expected a drive write"),
        }
        assert_eq!(m.phase(), MovePhase::Driving);
    }
    assert!(matches!(m.step(false, true), MoveStep::Stop));
    assert_eq!(m.phase(), MovePhase::Releasing);
    assert!(matches!(m.step(true, true), MoveStep::Release));
    assert_eq!(m.phase(), MovePhase::Finished);
    assert!(matches!(m.step(true, true), MoveStep::Finished));
    assert!(matches!(m.step(false, false), MoveStep::Finished));
}

#[test]
fn move_session_without_desk_writes_nothing_more() {
    let mut m = MoveSession::new(Direction::Up);
    assert!(matches!(m.step(true, true), MoveStep::Drive { .. }));
    assert!(matches!(m.step(false, false), MoveStep::Finished));
    assert_eq!(m.phase(), MovePhase::Finished);
}
