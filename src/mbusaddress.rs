use vstd::prelude::*;

use crate::bcd::{bcd_valid, bcd_value, BcdNumber};
use crate::error::Error;

verus! {

/// A manufacturer known by name.
#[derive(Clone, Copy, Debug, PartialEq, Eq)]
pub enum ManufacturerCode {
    /// Apator
    APT,
    /// Diehl
    DME,
    /// Carlo Gavazzi
    GAV,
    /// Hydrometer
    HYD,
    /// Kamstrup
    KAM,
    /// Landis+Gyr GmbH
    LUG,
    /// Sontex
    SON,
    /// Techem
    TCH,
}

impl ManufacturerCode {
    /// The 16-bit code of the manufacturer.
    pub open spec fn spec_code(self) -> u16 {
        match self {
            ManufacturerCode::APT => 0x8614,
            ManufacturerCode::DME => 0x11A5,
            ManufacturerCode::GAV => 0x1C36,
            ManufacturerCode::HYD => 0x2324,
            ManufacturerCode::KAM => 0x2C2D,
            ManufacturerCode::LUG => 0x32A7,
            ManufacturerCode::SON => 0x4DEE,
            ManufacturerCode::TCH => 0x5068,
        }
    }

    /// The 16-bit code of the manufacturer.
    pub fn code(self) -> (r: u16)
        ensures
            r == self.spec_code(),
    {
        match self {
            ManufacturerCode::APT => 0x8614,
            ManufacturerCode::DME => 0x11A5,
            ManufacturerCode::GAV => 0x1C36,
            ManufacturerCode::HYD => 0x2324,
            ManufacturerCode::KAM => 0x2C2D,
            ManufacturerCode::LUG => 0x32A7,
            ManufacturerCode::SON => 0x4DEE,
            ManufacturerCode::TCH => 0x5068,
        }
    }

    /// The manufacturer whose code is `code`, if it is known by name.
    pub fn from_code(code: u16) -> (r: Option<Self>)
        ensures
            match r {
                Some(m) => m.spec_code() == code,
                None => forall|m: ManufacturerCode| #[trigger] m.spec_code() != code,
            },
    {
        if code == 0x8614 {
            Some(ManufacturerCode::APT)
        } else if code == 0x11A5 {
            Some(ManufacturerCode::DME)
        } else if code == 0x1C36 {
            Some(ManufacturerCode::GAV)
        } else if code == 0x2324 {
            Some(ManufacturerCode::HYD)
        } else if code == 0x2C2D {
            Some(ManufacturerCode::KAM)
        } else if code == 0x32A7 {
            Some(ManufacturerCode::LUG)
        } else if code == 0x4DEE {
            Some(ManufacturerCode::SON)
        } else if code == 0x5068 {
            Some(ManufacturerCode::TCH)
        } else {
            None
        }
    }
}

/// A kind of device known by name.
#[derive(Clone, Copy, Debug, PartialEq, Eq)]
pub enum DeviceType {
    Other,
    Electricity,
    Heat,
    WarmWater,
    Water,
    Cooling,
    CoolingInlet,
    HeatInlet,
    HeatCooling,
    Unknown,
    ColdWater,
    Repeater,
}

impl DeviceType {
    /// The 8-bit code of the device type.
    pub open spec fn spec_code(self) -> u8 {
        match self {
            DeviceType::Other => 0x00,
            DeviceType::Electricity => 0x02,
            DeviceType::Heat => 0x04,
            DeviceType::WarmWater => 0x06,
            DeviceType::Water => 0x07,
            DeviceType::Cooling => 0x0A,
            DeviceType::CoolingInlet => 0x0B,
            DeviceType::HeatInlet => 0x0C,
            DeviceType::HeatCooling => 0x0D,
            DeviceType::Unknown => 0x0F,
            DeviceType::ColdWater => 0x16,
            DeviceType::Repeater => 0x32,
        }
    }

    /// The 8-bit code of the device type.
    pub fn code(self) -> (r: u8)
        ensures
            r == self.spec_code(),
    {
        match self {
            DeviceType::Other => 0x00,
            DeviceType::Electricity => 0x02,
            DeviceType::Heat => 0x04,
            DeviceType::WarmWater => 0x06,
            DeviceType::Water => 0x07,
            DeviceType::Cooling => 0x0A,
            DeviceType::CoolingInlet => 0x0B,
            DeviceType::HeatInlet => 0x0C,
            DeviceType::HeatCooling => 0x0D,
            DeviceType::Unknown => 0x0F,
            DeviceType::ColdWater => 0x16,
            DeviceType::Repeater => 0x32,
        }
    }

    /// The device type whose code is `code`, if it is known by name.
    pub fn from_code(code: u8) -> (r: Option<Self>)
        ensures
            match r {
                Some(t) => t.spec_code() == code,
                None => forall|t: DeviceType| #[trigger] t.spec_code() != code,
            },
    {
        if code == 0x00 {
            Some(DeviceType::Other)
        } else if code == 0x02 {
            Some(DeviceType::Electricity)
        } else if code == 0x04 {
            Some(DeviceType::Heat)
        } else if code == 0x06 {
            Some(DeviceType::WarmWater)
        } else if code == 0x07 {
            Some(DeviceType::Water)
        } else if code == 0x0A {
            Some(DeviceType::Cooling)
        } else if code == 0x0B {
            Some(DeviceType::CoolingInlet)
        } else if code == 0x0C {
            Some(DeviceType::HeatInlet)
        } else if code == 0x0D {
            Some(DeviceType::HeatCooling)
        } else if code == 0x0F {
            Some(DeviceType::Unknown)
        } else if code == 0x16 {
            Some(DeviceType::ColdWater)
        } else if code == 0x32 {
            Some(DeviceType::Repeater)
        } else {
            None
        }
    }
}

/// The little-endian 16-bit integer at `at` in `b`.
pub open spec fn le_u16(b: Seq<u8>, at: int) -> int {
    b[at] + 0x100 * b[at + 1]
}

/// The little-endian 32-bit integer at `at` in `b`.
pub open spec fn le_u32(b: Seq<u8>, at: int) -> int {
    b[at] + 0x100 * b[at + 1] + 0x1_0000 * b[at + 2] + 0x100_0000 * b[at + 3]
}

/// The serial number bands of the Sharky 775 heat meters.
pub open spec fn sharky_serial(serial: int) -> bool {
    (44_000_000 <= serial < 48_350_000) || (51_200_000 <= serial < 51_273_000)
}

/// Whether an identifier is laid out as some Diehl (Hydrometer) meters do:
/// version and device type right after the manufacturer, the serial number
/// last. Only Hydrometer identifiers with the listed version and type pairs
/// are read so; a version 0x20 heat meter only when its serial number lies in
/// a Sharky 775 band.
pub open spec fn diehl_layout(id: Seq<u8>) -> bool {
    let version = id[2];
    let device_type = id[3];
    let serial = le_u32(id, 4);
    &&& le_u16(id, 0) == 0x2324
    &&& {
        ||| (device_type == 0x04 || device_type == 0x0C) && version == 0x20 && bcd_valid(serial, 8)
            && sharky_serial(bcd_value(serial, 8))
        ||| device_type == 0x04 && (version == 0x2A || version == 0x2B || version == 0x2E
            || version == 0x2F)
        ||| device_type == 0x06 && version == 0x8B
        ||| device_type == 0x0C && (version == 0x2E || version == 0x2F || version == 0x53)
        ||| device_type == 0x16 && version == 0x25
    }
}

/// The packed serial number of an identifier, in the layout it has.
pub open spec fn serial_raw(id: Seq<u8>) -> int {
    if diehl_layout(id) {
        le_u32(id, 4)
    } else {
        le_u32(id, 2)
    }
}

/// Whether an identifier holds a valid BCD serial number.
pub open spec fn address_valid(id: Seq<u8>) -> bool {
    bcd_valid(serial_raw(id), 8)
}

/// Whether `a` holds the fields of identifier `id`, in the layout it has.
pub open spec fn address_from(a: MBusAddress, id: Seq<u8>) -> bool {
    &&& a.manufacturer_code == le_u16(id, 0)
    &&& a.serial_number.raw_value() == serial_raw(id)
    &&& a.version == if diehl_layout(id) {
        id[2]
    } else {
        id[6]
    }
    &&& a.device_type == if diehl_layout(id) {
        id[3]
    } else {
        id[7]
    }
}

/// The address of a meter.
#[derive(Clone, Copy, Debug, PartialEq, Eq)]
pub struct MBusAddress {
    pub manufacturer_code: u16,
    pub serial_number: BcdNumber<u32>,
    pub version: u8,
    pub device_type: u8,
}

/// The two orders in which the fields of an identifier come.
enum FieldLayout {
    /// EN 13757: manufacturer, serial number, version, device type.
    Default,
    /// Some Diehl meters: manufacturer, version, device type, serial number.
    Diehl,
}

/// The little-endian 16-bit integer at `at` in `b`.
pub(crate) fn read_le_u16(b: &[u8], at: usize) -> (r: u16)
    requires
        at + 2 <= b@.len(),
    ensures
        r == le_u16(b@, at as int),
{
    b[at] as u16 + 0x100 * b[at + 1] as u16
}

/// The little-endian 32-bit integer at `at` in `b`.
pub(crate) fn read_le_u32(b: &[u8], at: usize) -> (r: u32)
    requires
        at + 4 <= b@.len(),
    ensures
        r == le_u32(b@, at as int),
{
    b[at] as u32 + 0x100 * b[at + 1] as u32 + 0x1_0000 * b[at + 2] as u32 + 0x100_0000
        * b[at + 3] as u32
}

impl MBusAddress {
    /// An address from a named manufacturer and device type.
    pub fn new(
        manufacturer_code: ManufacturerCode,
        serial_number: u32,
        version: u8,
        device_type: DeviceType,
    ) -> (r: Self)
        requires
            serial_number <= 9999_9999,
        ensures
            r.manufacturer_code == manufacturer_code.spec_code(),
            bcd_valid(r.serial_number.raw_value() as int, 8),
            bcd_value(r.serial_number.raw_value() as int, 8) == serial_number,
            r.version == version,
            r.device_type == device_type.spec_code(),
    {
        let serial = BcdNumber::encode_u32(serial_number).unwrap();
        proof {
            crate::bcd::lemma_powers();
            crate::bcd::lemma_bcd_round_trip(serial_number as int, 8);
        }
        MBusAddress {
            manufacturer_code: manufacturer_code.code(),
            serial_number: serial,
            version,
            device_type: device_type.code(),
        }
    }

    /// The manufacturer, if it is known by name.
    pub fn manufacturer_code(&self) -> (r: Option<ManufacturerCode>)
        ensures
            match r {
                Some(m) => m.spec_code() == self.manufacturer_code,
                None => forall|m: ManufacturerCode| #[trigger] m.spec_code() != self.manufacturer_code,
            },
    {
        ManufacturerCode::from_code(self.manufacturer_code)
    }

    /// The device type, if it is known by name.
    pub fn device_type(&self) -> (r: Option<DeviceType>)
        ensures
            match r {
                Some(t) => t.spec_code() == self.device_type,
                None => forall|t: DeviceType| #[trigger] t.spec_code() != self.device_type,
            },
    {
        DeviceType::from_code(self.device_type)
    }

    /// Reads the address in an 8-byte identifier, in the layout it has.
    pub fn parse(identifier: [u8; 8]) -> (r: Result<MBusAddress, Error>)
        ensures
            r is Ok <==> address_valid(identifier@),
            r is Ok ==> address_from(r->Ok_0, identifier@),
            r is Err ==> r->Err_0 == Error::InvalidBcd,
    {
        let layout = Self::get_layout(&identifier);
        let manufacturer_code = read_le_u16(identifier.as_slice(), 0);
        match layout {
            FieldLayout::Default => {
                let serial_number = BcdNumber::new_u32(read_le_u32(identifier.as_slice(), 2))?;
                Ok(MBusAddress {
                    manufacturer_code,
                    serial_number,
                    version: identifier[6],
                    device_type: identifier[7],
                })
            },
            FieldLayout::Diehl => {
                let serial_number = BcdNumber::new_u32(read_le_u32(identifier.as_slice(), 4))?;
                Ok(MBusAddress {
                    manufacturer_code,
                    serial_number,
                    version: identifier[2],
                    device_type: identifier[3],
                })
            },
        }
    }

    /// Which layout an identifier has.
    fn get_layout(identifier: &[u8; 8]) -> (r: FieldLayout)
        ensures
            r is Diehl <==> diehl_layout(identifier@),
    {
        if read_le_u16(identifier.as_slice(), 0) == ManufacturerCode::HYD.code() {
            // Diehl puts version and device type where the standard has the
            // serial number.
            let version = identifier[2];
            let device_type = identifier[3];
            if (device_type == 0x04 || device_type == 0x0C) && version == 0x20 {
                // Sharky 775: told apart from the standard layout by its
                // serial number bands.
                if let Ok(serial_number) = BcdNumber::new_u32(read_le_u32(identifier.as_slice(), 4)) {
                    let serial_number = serial_number.decode();
                    if (serial_number >= 44000000 && serial_number < 48350000) || (serial_number
                        >= 51200000 && serial_number < 51273000) {
                        return FieldLayout::Diehl;
                    }
                }
            } else if device_type == 0x04 && (version == 0x2A || version == 0x2B || version == 0x2E
                || version == 0x2F) {
                return FieldLayout::Diehl;
            } else if device_type == 0x06 && version == 0x8B {
                return FieldLayout::Diehl;
            } else if device_type == 0x0C && (version == 0x2E || version == 0x2F || version
                == 0x53) {
                return FieldLayout::Diehl;
            } else if device_type == 0x16 && version == 0x25 {
                return FieldLayout::Diehl;
            }
        }
        FieldLayout::Default
    }
}

} // verus!
