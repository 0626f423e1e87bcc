use yaskbf::config::{
    peripheral_config, usb_device_config, vbus_signal, InterruptPriority, SocEvent, VbusSignal,
    DESCRIPTOR_BUFFER_LEN, USB_MAX_POWER_LIMIT_MA,
};

#[test]
fn timer_interrupt_at_level_two() {
    assert_eq!(peripheral_config().time_interrupt_priority, InterruptPriority::P2);
}

#[test]
fn usb_identity() {
    let c = usb_device_config();
    assert_eq!((c.vendor_id, c.product_id), (0x4242, 0x6942));
    assert_eq!(c.manufacturer, "svmnotn");
    assert_eq!(c.product, "yaskbf");
    assert_eq!(c.serial_number, "right-1");
    assert_eq!(c.max_power, 100);
    assert!(c.max_power <= USB_MAX_POWER_LIMIT_MA);
    assert_eq!(c.interrupt_priority, InterruptPriority::P2);
    assert!(c.vbus_usb_detected && c.vbus_power_ready);
    assert_eq!(DESCRIPTOR_BUFFER_LEN, 256);
}

#[test]
fn usb_power_events_reach_the_bus_watcher() {
    assert_eq!(vbus_signal(SocEvent::PowerUsbPowerReady), Some(VbusSignal::Ready));
    assert_eq!(vbus_signal(SocEvent::PowerUsbDetected), Some(VbusSignal::Detected(true)));
    assert_eq!(vbus_signal(SocEvent::PowerUsbRemoved), Some(VbusSignal::Detected(false)));
}

#[test]
fn other_events_are_ignored() {
    for e in [
        SocEvent::Hfclkstarted,
        SocEvent::PowerFailureWarning,
        SocEvent::RadioBlocked,
        SocEvent::RadioCanceled,
        SocEvent::RadioSignalCallbackInvalidReturn,
        SocEvent::RadioSessionIdle,
        SocEvent::RadioSessionClosed,
    ] {
        assert_eq!(vbus_signal(e), None);
    }
}

#[test]
fn signals_for_a_run_of_events_follow_the_events_in_order() {
    let events = [
        SocEvent::RadioBlocked,
        SocEvent::PowerUsbDetected,
        SocEvent::Hfclkstarted,
        SocEvent::PowerUsbPowerReady,
        SocEvent::PowerUsbRemoved,
    ];
    let signals: Vec<VbusSignal> = events.iter().filter_map(|e| vbus_signal(*e)).collect();
    assert_eq!(
        signals,
        vec![VbusSignal::Detected(true), VbusSignal::Ready, VbusSignal::Detected(false)]
    );
    let (first, second) = events.split_at(2);
    let mut joined: Vec<VbusSignal> = first.iter().filter_map(|e| vbus_signal(*e)).collect();
    joined.extend(second.iter().filter_map(|e| vbus_signal(*e)));
    assert_eq!(joined, signals);
}
