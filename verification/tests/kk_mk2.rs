use lightguide::drivers::kk_mk2::palette;
use lightguide::drivers::kk_mk2::{
    find_kk_mk2_path, init_report, is_kk_mk2, DeviceEntry, KeyFrame, OpenAction, OpenSearch,
    LIGHT_PAYLOAD_LEN, MK2_PIDS, REPORT_ID_LIGHT, VID,
};

#[test]
fn init_handshake_bytes() {
    assert_eq!(init_report(), vec![0xa0, 0x00, 0x00]);
}

#[test]
fn new_frame_is_dark() {
    let frame = KeyFrame::new();
    assert_eq!(frame.len(), 249);
    let report = frame.light_report();
    assert_eq!(report.len(), 250);
    assert_eq!(report[0], 0x81);
    assert!(report[1..].iter().all(|&b| b == palette::OFF));
}

#[test]
fn set_all_fills_every_key() {
    let mut frame = KeyFrame::new();
    frame.set_all(0x19);
    let report = frame.light_report();
    let mut expected = vec![REPORT_ID_LIGHT];
    expected.extend(std::iter::repeat(0x19u8).take(LIGHT_PAYLOAD_LEN));
    assert_eq!(report, expected);
    frame.set_off();
    assert!(frame.light_report()[1..].iter().all(|&b| b == 0));
}

#[test]
fn set_one_touches_only_its_key() {
    let mut frame = KeyFrame::new();
    frame.set_all(palette::BLUE);
    frame.set_one(24, palette::GREEN);
    assert_eq!(frame.color_of(24), Some(palette::GREEN));
    assert_eq!(frame.color_of(23), Some(palette::BLUE));
    assert_eq!(frame.color_of(25), Some(palette::BLUE));
    let report = frame.light_report();
    assert_eq!(report[25], palette::GREEN);
    assert_eq!(report[24], palette::BLUE);
}

#[test]
fn set_one_ignores_keys_beyond_the_payload() {
    let mut frame = KeyFrame::new();
    frame.set_one(248, palette::LEFT_THUMB);
    assert_eq!(frame.color_of(248), Some(palette::LEFT_THUMB));
    let before = frame.light_report();
    frame.set_one(249, palette::RIGHT_THUMB);
    frame.set_one(255, palette::RIGHT_THUMB);
    assert_eq!(frame.light_report(), before);
    assert_eq!(frame.color_of(249), None);
}

#[test]
fn supported_models() {
    assert!(is_kk_mk2(VID, 0x1610));
    assert!(is_kk_mk2(0x17CC, 0x1620));
    assert!(is_kk_mk2(0x17CC, 0x1630));
    assert!(!is_kk_mk2(0x17CC, 0x1340));
    assert!(!is_kk_mk2(0x1234, 0x1610));
}

fn entry(vendor_id: u16, product_id: u16, path: &[u8]) -> DeviceEntry {
    DeviceEntry { vendor_id, product_id, path: path.to_vec() }
}

#[test]
fn first_supported_device_wins() {
    let devices = vec![
        entry(0x046d, 0xc52b, b"/dev/hidraw0"),
        entry(0x17CC, 0x1620, b"/dev/hidraw3"),
        entry(0x17CC, 0x1610, b"/dev/hidraw4"),
    ];
    assert_eq!(find_kk_mk2_path(&devices), Some(b"/dev/hidraw3".to_vec()));
    assert_eq!(find_kk_mk2_path(&vec![entry(0x046d, 0xc52b, b"x")]), None);
    assert_eq!(find_kk_mk2_path(&vec![]), None);
}

#[test]
fn open_search_tries_models_in_order() {
    let mut search = OpenSearch::new();
    for (n, pid) in MK2_PIDS.iter().enumerate() {
        assert!(!search.is_finished());
        match search.next_action() {
            OpenAction::Try { vendor_id, product_id } => {
                assert_eq!(vendor_id, VID);
                assert_eq!(product_id, *pid);
            }
            _ => panic!("expected an attempt"),
        }
        search.record_attempt(Err(format!("error {n}")));
    }
    assert!(search.is_finished());
    match search.next_action() {
        OpenAction::NotFound { error } => assert_eq!(error, "error 2"),
        _ => panic!("expected failure"),
    }
}

#[test]
fn open_search_stops_at_first_success() {
    let mut search = OpenSearch::new();
    search.record_attempt(Err("busy".to_string()));
    match search.next_action() {
        OpenAction::Try { product_id, .. } => assert_eq!(product_id, 0x1620),
        _ => panic!("expected an attempt"),
    }
    search.record_attempt(Ok(()));
    assert!(search.is_finished());
    match search.next_action() {
        OpenAction::Opened { product_id } => assert_eq!(product_id, 0x1620),
        _ => panic!("expected success"),
    }
}
