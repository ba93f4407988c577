use lightguide::drivers::kk_mk2::DeviceEntry;
use lightguide::{LightguideError, LightguideRuntime};

#[test]
fn caches_the_first_keyboard() {
    let devices = vec![
        DeviceEntry { vendor_id: 0x17CC, product_id: 0x1999, path: b"/x".to_vec() },
        DeviceEntry { vendor_id: 0x17CC, product_id: 0x1610, path: b"/dev/hidraw2".to_vec() },
    ];
    let runtime = LightguideRuntime::from_devices(&devices);
    assert_eq!(runtime.kk_mk2_path(), Ok(&b"/dev/hidraw2".to_vec()));
}

#[test]
fn missing_keyboard_is_reported_on_use() {
    let runtime = LightguideRuntime::from_devices(&vec![]);
    assert_eq!(runtime.kk_mk2_path(), Err(LightguideError::NoKkMk2Cached));
    assert!(LightguideError::NoKkMk2Cached.message().starts_with("no Komplete Kontrol MK2 device cached"));
}
