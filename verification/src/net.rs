use vstd::prelude::*;

use crate::dummy::dummy_transmit;
use crate::dummy::DUMMY_IRQ;
use crate::error::NetError;
use crate::intr::IrqEntry;
use crate::intr::IrqEntryList;
use crate::intr::IrqState;
use crate::intr::INTR_IRQ_SHUTDOWN;
use crate::intr::intr_raise_irq;

verus! {

/// Fixed width of the hardware-like address fields of a device.
pub const NET_DEVICE_ADDR_LEN: usize = 16;

/// Numeric type tag of the bundled dummy device.
pub const NET_DEVICE_TYPE_DUMMY: u16 = 0x0000;

/// Operational state of a device: `send` is permitted only while `Up`.
#[derive(Clone, Copy, Debug, PartialEq, Eq, Structural)]
pub enum DeviceState {
    Down,
    Up,
}

/// Closed set of driver capabilities a device can be bound to.
///
/// `Null` installs no hooks at all: open and close are no-ops and transmit
/// discards the payload. `Dummy` is the reference driver: open and close are
/// no-ops and transmit requests that its interrupt line be raised to simulate
/// a hardware completion.
#[derive(Clone, Copy, Debug, PartialEq, Eq, Structural)]
pub enum DeviceDriver {
    Null,
    Dummy,
}

/// A network device: identity, transport limits, hardware-like addresses,
/// operational state and the driver it is bound to.
pub struct NetDevice {
    pub index: u32,
    pub name: String,
    pub device_type: u16,
    pub mtu: u16,
    pub state: DeviceState,
    pub hlen: u16,
    pub alen: u16,
    pub addr: [u8; NET_DEVICE_ADDR_LEN],
    pub peer: [u8; NET_DEVICE_ADDR_LEN],
    pub broadcast: [u8; NET_DEVICE_ADDR_LEN],
    pub driver: DeviceDriver,
}

impl Default for NetDevice {
    /// A blank device: empty identity, zero limits, zeroed addresses, down,
    /// and bound to the hookless null driver.
    fn default() -> (d: NetDevice)
        ensures
            d.index == 0,
            d.name@ == Seq::<char>::empty(),
            d.device_type == 0,
            d.mtu == 0,
            d.state is Down,
            d.hlen == 0,
            d.alen == 0,
            d.driver is Null,
    {
        NetDevice {
            index: 0,
            name: String::new(),
            device_type: 0,
            mtu: 0,
            state: DeviceState::Down,
            hlen: 0,
            alen: 0,
            addr: [0u8; NET_DEVICE_ADDR_LEN],
            peer: [0u8; NET_DEVICE_ADDR_LEN],
            broadcast: [0u8; NET_DEVICE_ADDR_LEN],
            driver: DeviceDriver::Null,
        }
    }
}

/// The interrupt line a driver's transmit hook raises, if any.
pub open spec fn transmit_raise(drv: DeviceDriver) -> Option<i32> {
    match drv {
        DeviceDriver::Null => None,
        DeviceDriver::Dummy => Some(DUMMY_IRQ),
    }
}

/// The open transition of the device state machine: new device value and
/// result. Neither bundled driver installs an open hook, so the hook step
/// cannot fail and `OpenFailed` does not arise.
pub open spec fn open_transition(d: NetDevice) -> (NetDevice, Result<(), NetError>) {
    if d.state is Up {
        (d, Err(NetError::AlreadyOpen))
    } else {
        (NetDevice { state: DeviceState::Up, ..d }, Ok(()))
    }
}

/// The close transition of the device state machine: new device value and
/// result. Neither bundled driver installs a close hook, so the hook step
/// cannot fail and `CloseFailed` does not arise.
pub open spec fn close_transition(d: NetDevice) -> (NetDevice, Result<(), NetError>) {
    if d.state is Down {
        (d, Err(NetError::NotOpen))
    } else {
        (NetDevice { state: DeviceState::Down, ..d }, Ok(()))
    }
}

/// Result of sending a payload of length `len` through device `d`: either the
/// interrupt line the transmit hook asks to have raised (if any), or the error.
/// The device itself never changes on a send. Neither bundled driver's
/// transmit hook can fail, so `TransmitFailed` does not arise.
pub open spec fn output_result(d: NetDevice, len: nat) -> Result<Option<i32>, NetError> {
    if d.state is Down {
        Err(NetError::NotOpen)
    } else if len > d.mtu {
        Err(NetError::PayloadTooLarge)
    } else {
        Ok(transmit_raise(d.driver))
    }
}

impl NetDevice {
    /// Open transition: fails with `AlreadyOpen` if the device is already up,
    /// otherwise runs the driver's open hook (a no-op for both bundled
    /// drivers) and marks the device up.
    pub fn net_device_open(&mut self) -> (r: Result<(), NetError>)
        ensures
            *final(self) == open_transition(*old(self)).0,
            r == open_transition(*old(self)).1,
    {
        if self.state == DeviceState::Up {
            return Err(NetError::AlreadyOpen);
        }
        self.state = DeviceState::Up;
        Ok(())
    }

    /// Close transition: fails with `NotOpen` if the device is already down,
    /// otherwise runs the driver's close hook (a no-op for both bundled
    /// drivers) and marks the device down.
    pub fn net_device_close(&mut self) -> (r: Result<(), NetError>)
        ensures
            *final(self) == close_transition(*old(self)).0,
            r == close_transition(*old(self)).1,
    {
        if self.state == DeviceState::Down {
            return Err(NetError::NotOpen);
        }
        self.state = DeviceState::Down;
        Ok(())
    }

    /// Send transition: the device must be up and the payload must fit in the
    /// MTU; the transmit hook then runs and may ask for an interrupt line to
    /// be raised, which is returned for the caller to deliver.
    pub fn net_device_output(&self, dev_type: u16, data: &[u8]) -> (r: Result<
        Option<i32>,
        NetError,
    >)
        ensures
            r == output_result(*self, data@.len()),
    {
        if self.state == DeviceState::Down {
            return Err(NetError::NotOpen);
        }
        if data.len() > self.mtu as usize {
            return Err(NetError::PayloadTooLarge);
        }
        match self.driver {
            DeviceDriver::Null => Ok(None),
            DeviceDriver::Dummy => Ok(dummy_transmit(self, dev_type, data)),
        }
    }
}

/// Opening a device twice in a row: after the first open the device is up
/// (it comes up when it was down, and stays up when it already was), and the
/// second open reports `AlreadyOpen` and leaves the device unchanged.
pub proof fn lemma_open_twice(d: NetDevice)
    ensures
        ({
            let d1 = open_transition(d).0;
            &&& d1.state is Up
            &&& open_transition(d1).1 == Err::<(), NetError>(NetError::AlreadyOpen)
            &&& open_transition(d1).0 == d1
        }),
{
}

/// Closing a device that was never opened reports `NotOpen` and leaves the
/// device unchanged; a freshly constructed device starts `Down`.
pub proof fn lemma_close_before_open(d: NetDevice)
    requires
        d.state is Down,
    ensures
        close_transition(d).1 == Err::<(), NetError>(NetError::NotOpen),
        close_transition(d).0 == d,
{
}

/// Mathematical model of the device registry: the devices in traversal order
/// (newest first) and the state of the owned interrupt registry.
pub ghost struct NetState {
    pub devices: Seq<NetDevice>,
    pub intr: IrqState,
}

/// The device registry: the registered devices and the interrupt registry the
/// drivers bind their completion lines through.
pub struct NetDeviceList {
    pub devices: Vec<NetDevice>,
    pub irq_entry_list: IrqEntryList,
}

impl View for NetDeviceList {
    type V = NetState;

    open spec fn view(&self) -> NetState {
        NetState { devices: self.devices@, intr: self.irq_entry_list@ }
    }
}

impl NetDeviceList {
    /// Build a registry with no devices and a fresh interrupt registry.
    pub fn net_init() -> (l: NetDeviceList)
        ensures
            l@.devices == Seq::<NetDevice>::empty(),
            l@.intr.entries == Seq::<IrqEntry>::empty(),
            l@.intr.signals == seq![INTR_IRQ_SHUTDOWN],
            l@.intr.pending == Seq::<i32>::empty(),
            !l@.intr.running,
    {
        NetDeviceList { devices: Vec::new(), irq_entry_list: IrqEntryList::intr_init() }
    }

    /// Register a device. Registration always succeeds; a device whose name is
    /// already taken is not rejected but shadows the older one, because lookup
    /// visits devices newest first.
    pub fn net_device_register(&mut self, dev: NetDevice)
        ensures
            final(self)@.devices == seq![dev] + old(self)@.devices,
            final(self)@.intr == old(self)@.intr,
    {
        self.devices.insert(0, dev);
        proof {
            assert(self.devices@ =~= seq![dev] + old(self).devices@);
        }
    }

    /// Start the interrupt dispatcher, then visit every device in traversal
    /// order and apply its open transition, stopping at the first failure:
    /// devices visited earlier stay up, the failing device and those after it
    /// are left as they were.
    #[verifier::loop_isolation(false)]
    pub fn net_run(&mut self) -> (r: Result<(), NetError>)
        ensures
            final(self)@.intr == (IrqState { running: true, ..old(self)@.intr }),
            final(self)@.devices.len() == old(self)@.devices.len(),
            r is Ok <==> (forall|i: int|
                0 <= i < old(self)@.devices.len() ==> open_transition(old(self)@.devices[i]).1
                    is Ok),
            r is Ok ==> (forall|i: int|
                0 <= i < old(self)@.devices.len() ==> final(self)@.devices[i] == open_transition(
                    old(self)@.devices[i],
                ).0),
            r is Err ==> (exists|k: int|
                {
                    &&& 0 <= k < old(self)@.devices.len()
                    &&& (forall|j: int|
                        0 <= j < k ==> open_transition(old(self)@.devices[j]).1 is Ok)
                    &&& open_transition(old(self)@.devices[k]).1 == r
                    &&& (forall|j: int|
                        0 <= j < k ==> final(self)@.devices[j] == open_transition(
                            old(self)@.devices[j],
                        ).0)
                    &&& (forall|j: int|
                        k <= j < old(self)@.devices.len() ==> final(self)@.devices[j] == old(
                            self,
                        )@.devices[j])
                }),
    {
        self.irq_entry_list.intr_run();
        let n = self.devices.len();
        let mut i: usize = 0;
        while i < n
            invariant
                i <= n,
                n == self.devices@.len(),
                self.devices@.len() == old(self)@.devices.len(),
                self.irq_entry_list@ == (IrqState { running: true, ..old(self)@.intr }),
                forall|j: int| 0 <= j < i ==> open_transition(old(self)@.devices[j]).1 is Ok,
                forall|j: int|
                    0 <= j < i ==> self.devices@[j] == open_transition(old(self)@.devices[j]).0,
                forall|j: int| i <= j < n ==> self.devices@[j] == old(self)@.devices[j],
            decreases n - i,
        {
            let ghost prev = self.devices@;
            let mut d = self.devices.remove(i);
            let res = d.net_device_open();
            self.devices.insert(i, d);
            proof {
                assert(self.devices@ =~= prev.update(i as int, d));
            }
            if let Err(e) = res {
                return Err(e);
            }
            i += 1;
        }
        Ok(())
    }

    /// Visit every device in traversal order and apply its close transition,
    /// stopping at the first failure: devices visited earlier stay down, the
    /// failing device and those after it are left as they were (in particular
    /// still up, where they were up). The interrupt registry is untouched;
    /// only the shutdown notification stops the dispatcher.
    #[verifier::loop_isolation(false)]
    pub fn net_shutdown(&mut self) -> (r: Result<(), NetError>)
        ensures
            final(self)@.intr == old(self)@.intr,
            final(self)@.devices.len() == old(self)@.devices.len(),
            r is Ok <==> (forall|i: int|
                0 <= i < old(self)@.devices.len() ==> close_transition(old(self)@.devices[i]).1
                    is Ok),
            r is Ok ==> (forall|i: int|
                0 <= i < old(self)@.devices.len() ==> final(self)@.devices[i] == close_transition(
                    old(self)@.devices[i],
                ).0),
            r is Err ==> (exists|k: int|
                {
                    &&& 0 <= k < old(self)@.devices.len()
                    &&& (forall|j: int|
                        0 <= j < k ==> close_transition(old(self)@.devices[j]).1 is Ok)
                    &&& close_transition(old(self)@.devices[k]).1 == r
                    &&& (forall|j: int|
                        0 <= j < k ==> final(self)@.devices[j] == close_transition(
                            old(self)@.devices[j],
                        ).0)
                    &&& (forall|j: int|
                        k <= j < old(self)@.devices.len() ==> final(self)@.devices[j] == old(
                            self,
                        )@.devices[j])
                }),
    {
        let n = self.devices.len();
        let mut i: usize = 0;
        while i < n
            invariant
                i <= n,
                n == self.devices@.len(),
                self.devices@.len() == old(self)@.devices.len(),
                self.irq_entry_list@ == old(self)@.intr,
                forall|j: int| 0 <= j < i ==> close_transition(old(self)@.devices[j]).1 is Ok,
                forall|j: int|
                    0 <= j < i ==> self.devices@[j] == close_transition(old(self)@.devices[j]).0,
                forall|j: int| i <= j < n ==> self.devices@[j] == old(self)@.devices[j],
            decreases n - i,
        {
            let ghost prev = self.devices@;
            let mut d = self.devices.remove(i);
            let res = d.net_device_close();
            self.devices.insert(i, d);
            proof {
                assert(self.devices@ =~= prev.update(i as int, d));
            }
            if let Err(e) = res {
                return Err(e);
            }
            i += 1;
        }
        Ok(())
    }

    /// Send a payload through the first device matching `name` in traversal
    /// order. A name no device carries is rejected with `DeviceNotFound`. A
    /// successful send queues whatever interrupt line the device's transmit
    /// hook asks to have raised; the devices themselves never change.
    #[verifier::loop_isolation(false)]
    pub fn net_device_output(&mut self, name: &str, dev_type: u16, data: &[u8]) -> (r: Result<
        (),
        NetError,
    >)
        ensures
            final(self)@.devices == old(self)@.devices,
            final(self)@.intr.entries == old(self)@.intr.entries,
            final(self)@.intr.signals == old(self)@.intr.signals,
            final(self)@.intr.running == old(self)@.intr.running,
            (forall|i: int|
                0 <= i < old(self)@.devices.len() ==> old(self)@.devices[i].name@ != name@) ==> r
                == Err::<(), NetError>(NetError::DeviceNotFound) && final(self)@.intr.pending
                == old(self)@.intr.pending,
            (exists|i: int|
                0 <= i < old(self)@.devices.len() && old(self)@.devices[i].name@ == name@)
                ==> (exists|k: int|
                {
                    &&& 0 <= k < old(self)@.devices.len()
                    &&& old(self)@.devices[k].name@ == name@
                    &&& (forall|j: int| 0 <= j < k ==> old(self)@.devices[j].name@ != name@)
                    &&& match output_result(old(self)@.devices[k], data@.len()) {
                        Ok(line) => r == Ok::<(), NetError>(()) && match line {
                            Some(l) => final(self)@.intr.pending == old(self)@.intr.pending.push(
                                l,
                            ),
                            None => final(self)@.intr.pending == old(self)@.intr.pending,
                        },
                        Err(e) => r == Err::<(), NetError>(e) && final(self)@.intr.pending == old(
                            self,
                        )@.intr.pending,
                    }
                }),
    {
        let looked_up = name.to_owned();
        let n = self.devices.len();
        let mut i: usize = 0;
        while i < n
            invariant
                i <= n,
                n == self.devices@.len(),
                self.devices@ == old(self)@.devices,
                self.irq_entry_list@ == old(self)@.intr,
                forall|j: int| 0 <= j < i ==> self.devices@[j].name@ != name@,
            decreases n - i,
        {
            let d = &self.devices[i];
            if d.name == looked_up {
                let res = d.net_device_output(dev_type, data);
                match res {
                    Ok(Some(line)) => {
                        intr_raise_irq(&mut self.irq_entry_list, line);
                        return Ok(());
                    },
                    Ok(None) => {
                        return Ok(());
                    },
                    Err(e) => {
                        return Err(e);
                    },
                }
            }
            i += 1;
        }
        Err(NetError::DeviceNotFound)
    }
}

/// Sending a payload longer than the MTU through an up device always reports
/// `PayloadTooLarge`; the transmit hook is never consulted, so no interrupt
/// line is raised. (A device that is down reports `NotOpen` instead, whatever
/// the payload length.)
pub proof fn lemma_output_too_large(d: NetDevice, len: nat)
    requires
        d.state is Up,
        len > d.mtu,
    ensures
        output_result(d, len) == Err::<Option<i32>, NetError>(NetError::PayloadTooLarge),
{
}

} // verus!
