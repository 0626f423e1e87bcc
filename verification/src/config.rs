//! The fixed choices the firmware makes when it brings up the chip and the
//! USB device, and how it answers the power events of the radio stack.
use vstd::prelude::*;

verus! {

/// Interrupt priority levels of the chip, `P0` the most urgent.
#[derive(Clone, Copy, Debug, PartialEq, Eq, Structural)]
pub enum InterruptPriority {
    P0,
    P1,
    P2,
    P3,
    P4,
    P5,
    P6,
    P7,
}

/// How the chip's peripherals are brought up.
#[derive(Clone, Copy, Debug, PartialEq, Eq, Structural)]
pub struct PeripheralConfig {
    /// Priority of the timer interrupt that drives the async runtime.
    pub time_interrupt_priority: InterruptPriority,
}

/// The peripheral setup: the timer interrupt runs at level 2, which leaves
/// levels 0 and 1 to the radio stack.
pub fn peripheral_config() -> (c: PeripheralConfig)
    ensures
        c.time_interrupt_priority == InterruptPriority::P2,
{
    PeripheralConfig { time_interrupt_priority: InterruptPriority::P2 }
}

/// Size in bytes of each buffer the USB stack builds its descriptors in.
pub const DESCRIPTOR_BUFFER_LEN: usize = 256;

/// The largest current, in milliamperes, that a USB device may draw from the
/// bus.
pub const USB_MAX_POWER_LIMIT_MA: u16 = 500;

/// How the keyboard presents itself on USB.
#[derive(Clone, Copy, Debug, PartialEq, Eq)]
pub struct UsbDeviceConfig {
    pub vendor_id: u16,
    pub product_id: u16,
    pub manufacturer: &'static str,
    pub product: &'static str,
    pub serial_number: &'static str,
    /// Current drawn from the bus, in milliamperes.
    pub max_power: u16,
    /// Priority of the USB device interrupt.
    pub interrupt_priority: InterruptPriority,
    /// Whether the bus counts as plugged in when the bus watcher starts.
    pub vbus_usb_detected: bool,
    /// Whether the USB supply counts as ready when the bus watcher starts.
    pub vbus_power_ready: bool,
}

/// The USB identity and power budget of the right half.
pub fn usb_device_config() -> (c: UsbDeviceConfig)
    ensures
        c.vendor_id == 0x4242,
        c.product_id == 0x6942,
        c.manufacturer@ == "svmnotn"@,
        c.product@ == "yaskbf"@,
        c.serial_number@ == "right-1"@,
        c.max_power == 100,
        c.max_power <= USB_MAX_POWER_LIMIT_MA,
        c.interrupt_priority == InterruptPriority::P2,
        c.vbus_usb_detected,
        c.vbus_power_ready,
{
    UsbDeviceConfig {
        vendor_id: 0x4242,
        product_id: 0x6942,
        manufacturer: "svmnotn",
        product: "yaskbf",
        serial_number: "right-1",
        max_power: 100,
        interrupt_priority: InterruptPriority::P2,
        vbus_usb_detected: true,
        vbus_power_ready: true,
    }
}

/// The system-on-chip events the radio stack hands to the firmware.
#[derive(Clone, Copy, Debug, PartialEq, Eq, Structural)]
pub enum SocEvent {
    Hfclkstarted,
    PowerFailureWarning,
    RadioBlocked,
    RadioCanceled,
    RadioSignalCallbackInvalidReturn,
    RadioSessionIdle,
    RadioSessionClosed,
    PowerUsbPowerReady,
    PowerUsbDetected,
    PowerUsbRemoved,
}

/// What the USB bus watcher is told about the bus.
#[derive(Clone, Copy, Debug, PartialEq, Eq, Structural)]
pub enum VbusSignal {
    /// The USB supply is ready.
    Ready,
    /// The bus was plugged in (`true`) or removed (`false`).
    Detected(bool),
}

/// The signal for one event: the three USB power events map to their
/// signals, every other event to none.
pub open spec fn signal_for(event: SocEvent) -> Option<VbusSignal> {
    match event {
        SocEvent::PowerUsbPowerReady => Some(VbusSignal::Ready),
        SocEvent::PowerUsbDetected => Some(VbusSignal::Detected(true)),
        SocEvent::PowerUsbRemoved => Some(VbusSignal::Detected(false)),
        _ => None,
    }
}

/// The signals the bus watcher gets, in order, for a sequence of events
/// handed over one at a time.
pub open spec fn signals_for(events: Seq<SocEvent>) -> Seq<VbusSignal>
    decreases events.len(),
{
    if events.len() == 0 {
        Seq::empty()
    } else {
        signals_for(events.drop_last()) + match signal_for(events.last()) {
            Some(s) => seq![s],
            None => Seq::empty(),
        }
    }
}

/// The signals for two runs of events back to back are the signals for the
/// first run followed by those for the second.
pub proof fn lemma_signals_concat(e1: Seq<SocEvent>, e2: Seq<SocEvent>)
    ensures
        signals_for(e1 + e2) == signals_for(e1) + signals_for(e2),
    decreases e2.len(),
{
    if e2.len() == 0 {
        assert(e1 + e2 =~= e1);
        assert(signals_for(e1) + signals_for(e2) =~= signals_for(e1));
    } else {
        lemma_signals_concat(e1, e2.drop_last());
        assert((e1 + e2).drop_last() =~= e1 + e2.drop_last());
        assert((e1 + e2).last() == e2.last());
        let tail = match signal_for(e2.last()) {
            Some(s) => seq![s],
            None => Seq::<VbusSignal>::empty(),
        };
        assert(signals_for(e1) + signals_for(e2.drop_last()) + tail =~= signals_for(e1) + (
        signals_for(e2.drop_last()) + tail));
    }
}

/// Only the USB power events reach the bus watcher: a run of events with
/// none of them among it gives no signal.
pub proof fn lemma_other_events_give_no_signal(events: Seq<SocEvent>)
    requires
        forall|i: int| 0 <= i < events.len() ==> #[trigger] signal_for(events[i]) is None,
    ensures
        signals_for(events) == Seq::<VbusSignal>::empty(),
    decreases events.len(),
{
    if events.len() > 0 {
        let rest = events.drop_last();
        assert forall|i: int| 0 <= i < rest.len() implies #[trigger] signal_for(rest[i]) is None by {
            assert(rest[i] == events[i]);
        }
        lemma_other_events_give_no_signal(rest);
        assert(signal_for(events[events.len() - 1]) is None);
        assert(signals_for(events) =~= Seq::<VbusSignal>::empty());
    }
}

/// The signal the bus watcher gets for an event of the radio stack: the three
/// USB power events map to their signals, every other event to none.
pub fn vbus_signal(event: SocEvent) -> (s: Option<VbusSignal>)
    ensures
        s == signal_for(event),
        s == match event {
            SocEvent::PowerUsbPowerReady => Some(VbusSignal::Ready),
            SocEvent::PowerUsbDetected => Some(VbusSignal::Detected(true)),
            SocEvent::PowerUsbRemoved => Some(VbusSignal::Detected(false)),
            _ => None::<VbusSignal>,
        },
{
    match event {
        SocEvent::PowerUsbPowerReady => Some(VbusSignal::Ready),
        SocEvent::PowerUsbDetected => Some(VbusSignal::Detected(true)),
        SocEvent::PowerUsbRemoved => Some(VbusSignal::Detected(false)),
        _ => None,
    }
}

} // verus!
