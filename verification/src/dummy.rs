use vstd::prelude::*;

use crate::error::NetError;
use crate::intr::INTR_IRQ_BASE;
use crate::intr::INTR_IRQ_SHARED;
use crate::intr::IrqEntryList;
use crate::intr::IrqHandler;
use crate::intr::irq_conflict;
use crate::net::DeviceDriver;
use crate::net::DeviceState;
use crate::net::NetDevice;
use crate::net::NET_DEVICE_ADDR_LEN;
use crate::net::NET_DEVICE_TYPE_DUMMY;
use crate::net::transmit_raise;

verus! {

/// Name under which the dummy device registers and binds its interrupt line.
pub const DUMMY_DEV_NAME: &'static str = "dummy";

/// Interrupt line the dummy driver is bound to and raises on transmit.
pub const DUMMY_IRQ: i32 = INTR_IRQ_BASE + 1;

/// The dummy device accepts payloads up to the largest expressible MTU.
pub const DUMMY_MTU: u16 = u16::MAX;

/// Transmit hook of the dummy driver. The real hardware access is a no-op:
/// the payload is discarded and the driver asks for its interrupt line to be
/// raised, simulating a hardware completion the caller then delivers.
pub fn dummy_transmit(dev: &NetDevice, dev_type: u16, data: &[u8]) -> (line: Option<i32>)
    ensures
        line == transmit_raise(DeviceDriver::Dummy),
{
    Some(DUMMY_IRQ)
}

/// Interrupt handler of the dummy driver: acknowledges the completion for the
/// named device and succeeds unconditionally.
pub fn dummy_isr(irq: i32, dev: &str) -> (r: Result<(), NetError>)
    ensures
        r is Ok,
{
    Ok(())
}

/// Build the dummy device, down and bound to the dummy driver, and bind its
/// interrupt line through the given interrupt registry with the shared flag.
/// Fails with `ConflictError` exactly when that line is already bound to an
/// entry that does not carry the shared flag, leaving the registry unchanged.
pub fn dummy_init(irq_entries: &mut IrqEntryList) -> (r: Result<NetDevice, NetError>)
    ensures
        irq_conflict(old(irq_entries)@.entries, DUMMY_IRQ, INTR_IRQ_SHARED) ==> r
            == Err::<NetDevice, NetError>(NetError::ConflictError) && *final(irq_entries) == *old(
            irq_entries,
        ),
        !irq_conflict(old(irq_entries)@.entries, DUMMY_IRQ, INTR_IRQ_SHARED) ==> {
            &&& (r matches Ok(d) && {
                &&& d.name@ == DUMMY_DEV_NAME@
                &&& d.device_type == NET_DEVICE_TYPE_DUMMY
                &&& d.mtu == DUMMY_MTU
                &&& d.state is Down
                &&& d.driver is Dummy
                &&& d.hlen == 0
                &&& d.alen == 0
            })
            &&& final(irq_entries)@.entries.len() == old(irq_entries)@.entries.len() + 1
            &&& final(irq_entries)@.entries.drop_first() == old(irq_entries)@.entries
            &&& final(irq_entries)@.entries[0].irq == DUMMY_IRQ
            &&& final(irq_entries)@.entries[0].handler == Some(IrqHandler::DummyIsr)
            &&& final(irq_entries)@.entries[0].flags == INTR_IRQ_SHARED
            &&& final(irq_entries)@.entries[0].name@ == DUMMY_DEV_NAME@
            &&& final(irq_entries)@.entries[0].dev@ == DUMMY_DEV_NAME@
            &&& final(irq_entries)@.signals == (if old(irq_entries)@.signals.contains(DUMMY_IRQ) {
                old(irq_entries)@.signals
            } else {
                old(irq_entries)@.signals.push(DUMMY_IRQ)
            })
            &&& final(irq_entries)@.pending == old(irq_entries)@.pending
            &&& final(irq_entries)@.running == old(irq_entries)@.running
        },
{
    let dev = NetDevice {
        index: 0,
        name: DUMMY_DEV_NAME.to_owned(),
        device_type: NET_DEVICE_TYPE_DUMMY,
        mtu: DUMMY_MTU,
        state: DeviceState::Down,
        hlen: 0,
        alen: 0,
        addr: [0u8; NET_DEVICE_ADDR_LEN],
        peer: [0u8; NET_DEVICE_ADDR_LEN],
        broadcast: [0u8; NET_DEVICE_ADDR_LEN],
        driver: DeviceDriver::Dummy,
    };
    match irq_entries.intr_request_irq(
        DUMMY_IRQ,
        Some(IrqHandler::DummyIsr),
        INTR_IRQ_SHARED,
        DUMMY_DEV_NAME,
        DUMMY_DEV_NAME,
    ) {
        Ok(()) => Ok(dev),
        Err(e) => Err(e),
    }
}

} // verus!
