//! DTV+ addressing: assigned bus addresses and device type identifiers are
//! two namespaces that share a byte width and nothing else.
use vstd::prelude::*;

verus! {

/// The master controller's own address, and the address every device ships
/// with.
pub const MASTER: u8 = 0x00;
/// The unassigned-device address: the same byte as [`MASTER`], named twice so
/// a call site says which meaning it intends.
pub const UNASSIGNED: u8 = 0x00;
/// All devices on the port. Legal only as a destination.
pub const BROADCAST: u8 = 0xFF;
/// Lowest assignable device address.
pub const DEV_ADDR_MIN: u8 = 0x03;
/// Highest assignable device address.
pub const DEV_ADDR_MAX: u8 = 0x07;

/// A bus address the master has assigned, restricted to `0x03..=0x07`. Not
/// constructible from a [`DeviceId`].
#[derive(Copy, Clone, PartialEq, Eq, PartialOrd, Ord, Hash, Debug, Structural)]
pub struct DevAddr {
    v: u8,
}

/// Why a device address was refused.
#[derive(Copy, Clone, PartialEq, Eq, Debug, Structural)]
pub enum DtvAddrError {
    OutOfRange { requested: u8 },
}

impl DevAddr {
    pub closed spec fn spec_get(self) -> u8 {
        self.v
    }

    pub closed spec fn wf(self) -> bool {
        DEV_ADDR_MIN <= self.v <= DEV_ADDR_MAX
    }

    /// Every address the master may allocate, in scan order.
    pub fn all() -> (a: [DevAddr; 5])
        ensures
            forall|i: int| 0 <= i < 5 ==> (#[trigger] a@[i]).spec_get() == 3 + i && a@[i].wf(),
    {
        [DevAddr { v: 3 }, DevAddr { v: 4 }, DevAddr { v: 5 }, DevAddr { v: 6 }, DevAddr { v: 7 }]
    }

    /// The address the reference topology expects: the first slot.
    pub fn reference() -> (a: DevAddr)
        ensures
            a.spec_get() == 0x03,
            a.wf(),
    {
        DevAddr { v: 0x03 }
    }

    /// Rejects the master/unassigned byte, the reserved ranges and broadcast.
    pub fn new(v: u8) -> (r: Result<DevAddr, DtvAddrError>)
        ensures
            r is Ok <==> DEV_ADDR_MIN <= v <= DEV_ADDR_MAX,
            r matches Ok(a) ==> a.spec_get() == v && a.wf(),
            r matches Err(e) ==> e == (DtvAddrError::OutOfRange { requested: v }),
    {
        if v < DEV_ADDR_MIN || v > DEV_ADDR_MAX {
            return Err(DtvAddrError::OutOfRange { requested: v });
        }
        Ok(DevAddr { v })
    }

    pub fn get(self) -> (v: u8)
        ensures
            v == self.spec_get(),
    {
        self.v
    }

    /// A well-formed address is an assignable one.
    pub proof fn lemma_wf(self)
        requires
            self.wf(),
        ensures
            DEV_ADDR_MIN <= self.spec_get() <= DEV_ADDR_MAX,
    {
    }
}

/// A device type identifier, carried in the payload of `DEV_REQUEST_ADDR`.
/// Any byte is a legal identifier; unknown ones are carried verbatim.
#[derive(Copy, Clone, PartialEq, Eq, PartialOrd, Ord, Hash, Debug, Structural)]
pub struct DeviceId {
    v: u8,
}

/// The bytes of the documented device identifiers.
pub open spec fn spec_documented_ids() -> Seq<u8> {
    seq![0x00u8, 0x03, 0x05, 0x06, 0x07, 0x08, 0x09, 0x30, 0x31, 0x40, 0xF0]
}

/// The documented name of a device identifier.
pub open spec fn spec_device_name(v: u8) -> Option<&'static str> {
    match v {
        0x00 => Some("controller"),
        0x03 => Some("rain panel"),
        0x05 => Some("steam generator"),
        0x06 => Some("steam management module"),
        0x07 => Some("amplifier (alt)"),
        0x08 => Some("light bridge"),
        0x09 => Some("test fixture"),
        0x30 => Some("UI v1"),
        0x31 => Some("UI v2"),
        0x40 => Some("amplifier"),
        0xF0 => Some("bootloader"),
        _ => None,
    }
}

impl DeviceId {
    /// `0x00`, the DTV+ central controller.
    pub const CONTROLLER: u8 = 0x00;
    /// `0x03`, rain showerhead module.
    pub const RAIN_PANEL: u8 = 0x03;
    /// `0x05`, the steam generator: the one this project talks to.
    pub const STEAM_GENERATOR: u8 = 0x05;
    /// `0x06`, "Steam Management Module".
    pub const STEAM_MANAGEMENT_MODULE: u8 = 0x06;
    /// `0x07`, amplifier, alternate identifier.
    pub const AMPLIFIER_ALT: u8 = 0x07;
    /// `0x08`, chromatherapy light bridge.
    pub const LIGHT_BRIDGE: u8 = 0x08;
    /// `0x09`, factory test equipment.
    pub const TEST_FIXTURE: u8 = 0x09;
    /// `0x30`, first-generation touchscreen; numerically `GET_DEV_STATUS`.
    pub const UI_V1: u8 = 0x30;
    /// `0x31`, second-generation touchscreen; numerically `STATUS_UPDATE`.
    pub const UI_V2: u8 = 0x31;
    /// `0x40`, audio amplifier; numerically `ID_DEV`.
    pub const AMPLIFIER: u8 = 0x40;
    /// `0xF0`, a device sitting in its bootloader.
    pub const BOOTLOADER: u8 = 0xF0;

    pub closed spec fn spec_get(self) -> u8 {
        self.v
    }

    /// Every documented identifier.
    pub fn documented() -> (a: [DeviceId; 11])
        ensures
            forall|i: int| 0 <= i < 11 ==> (#[trigger] a@[i]).spec_get() == spec_documented_ids()[i],
    {
        [
            DeviceId { v: 0x00 }, DeviceId { v: 0x03 }, DeviceId { v: 0x05 }, DeviceId { v: 0x06 },
            DeviceId { v: 0x07 }, DeviceId { v: 0x08 }, DeviceId { v: 0x09 }, DeviceId { v: 0x30 },
            DeviceId { v: 0x31 }, DeviceId { v: 0x40 }, DeviceId { v: 0xF0 },
        ]
    }

    pub fn new(v: u8) -> (d: DeviceId)
        ensures
            d.spec_get() == v,
    {
        DeviceId { v }
    }

    pub fn get(self) -> (v: u8)
        ensures
            v == self.spec_get(),
    {
        self.v
    }

    /// The documented name, or `None` for an identifier no source lists.
    pub fn name(self) -> (n: Option<&'static str>)
        ensures
            n == spec_device_name(self.spec_get()),
            n is Some <==> spec_documented_ids().contains(self.spec_get()),
    {
        proof {
            if spec_device_name(self.v) is None {
                assert forall|i: int| 0 <= i < 11 implies spec_documented_ids()[i] != self.v by {}
            } else {
                let d = spec_documented_ids();
                assert(d[0] == 0x00 && d[1] == 0x03 && d[2] == 0x05 && d[3] == 0x06 && d[4] == 0x07
                    && d[5] == 0x08 && d[6] == 0x09 && d[7] == 0x30 && d[8] == 0x31 && d[9] == 0x40
                    && d[10] == 0xF0);
            }
        }
        match self.v {
            0x00 => Some("controller"),
            0x03 => Some("rain panel"),
            0x05 => Some("steam generator"),
            0x06 => Some("steam management module"),
            0x07 => Some("amplifier (alt)"),
            0x08 => Some("light bridge"),
            0x09 => Some("test fixture"),
            0x30 => Some("UI v1"),
            0x31 => Some("UI v2"),
            0x40 => Some("amplifier"),
            0xF0 => Some("bootloader"),
            _ => None,
        }
    }
}

} // verus!
