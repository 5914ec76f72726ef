//! Type declarations for the RCT Power serial protocol.

use vstd::prelude::*;
use vstd::string::StringSliceAdditionalSpecFns;
use vstd::string::StringExecFns;

use crate::float_bits::{f32_bits_equal, f32_bits_equal_exec};

verus! {

/// Bit 6 of a raw command byte marks plant communication.
pub const PLANT_BIT: u8 = 0x40;

/// Commands that can be used with send/receive frames.
#[derive(Debug, Clone, Copy, PartialEq, Eq, Structural)]
pub enum Command {
    /// Read command (0x01)
    Read,
    /// Write command (0x02)
    Write,
    /// Long write command, for variables > 251 bytes (0x03)
    LongWrite,
    /// Response to a read or write command (0x05)
    Response,
    /// Long response, for variables > 251 bytes (0x06)
    LongResponse,
    /// Periodic reading (0x08)
    ReadPeriodically,
    /// Extension, not parseable by `ReceiveFrame` (0x3c)
    Extension,
}

/// The wire byte of each command.
pub open spec fn command_byte(c: Command) -> u8 {
    match c {
        Command::Read => 0x01,
        Command::Write => 0x02,
        Command::LongWrite => 0x03,
        Command::Response => 0x05,
        Command::LongResponse => 0x06,
        Command::ReadPeriodically => 0x08,
        Command::Extension => 0x3c,
    }
}

/// The command that a raw byte names, the plant bit ignored.
pub open spec fn command_of_byte(b: u8) -> Option<Command> {
    let base = b & !PLANT_BIT;
    if base == 0x01 {
        Some(Command::Read)
    } else if base == 0x02 {
        Some(Command::Write)
    } else if base == 0x03 {
        Some(Command::LongWrite)
    } else if base == 0x05 {
        Some(Command::Response)
    } else if base == 0x06 {
        Some(Command::LongResponse)
    } else if base == 0x08 {
        Some(Command::ReadPeriodically)
    } else if base == 0x3c {
        Some(Command::Extension)
    } else {
        None
    }
}

pub open spec fn plant_byte(b: u8) -> bool {
    b & PLANT_BIT != 0
}

pub open spec fn command_is_long(c: Command) -> bool {
    c == Command::LongWrite || c == Command::LongResponse
}

impl Command {
    /// Plant variant: bit 6 is set on plant commands.
    pub const PLANT_BIT: u8 = 0x40;

    /// Raw byte value of the command.
    pub fn byte(self) -> (b: u8)
        ensures
            b == command_byte(self),
    {
        match self {
            Command::Read => 0x01,
            Command::Write => 0x02,
            Command::LongWrite => 0x03,
            Command::Response => 0x05,
            Command::LongResponse => 0x06,
            Command::ReadPeriodically => 0x08,
            Command::Extension => 0x3c,
        }
    }

    /// Decode a raw command byte (plant bit included in the value).
    pub fn from_byte(b: u8) -> (r: Option<Command>)
        ensures
            r == command_of_byte(b),
    {
        let base = b & !PLANT_BIT;
        if base == 0x01 {
            Some(Command::Read)
        } else if base == 0x02 {
            Some(Command::Write)
        } else if base == 0x03 {
            Some(Command::LongWrite)
        } else if base == 0x05 {
            Some(Command::Response)
        } else if base == 0x06 {
            Some(Command::LongResponse)
        } else if base == 0x08 {
            Some(Command::ReadPeriodically)
        } else if base == 0x3c {
            Some(Command::Extension)
        } else {
            None
        }
    }

    /// Whether this raw command byte belongs to plant communication.
    pub fn is_plant_byte(b: u8) -> (r: bool)
        ensures
            r == plant_byte(b),
    {
        b & PLANT_BIT != 0
    }

    pub fn is_long(self) -> (r: bool)
        ensures
            r == command_is_long(self),
    {
        match self {
            Command::LongWrite | Command::LongResponse => true,
            _ => false,
        }
    }

    pub fn is_write(self) -> (r: bool)
        ensures
            r == (self == Command::Write || self == Command::LongWrite),
    {
        match self {
            Command::Write | Command::LongWrite => true,
            _ => false,
        }
    }

    pub fn is_response(self) -> (r: bool)
        ensures
            r == (self == Command::Response || self == Command::LongResponse),
    {
        match self {
            Command::Response | Command::LongResponse => true,
            _ => false,
        }
    }
}

/// Decoding the byte of a command gives the command back, with or without
/// the plant bit set, and no command byte carries the plant bit.
pub proof fn lemma_command_byte_roundtrip(c: Command)
    ensures
        command_of_byte(command_byte(c)) == Some(c),
        command_of_byte(command_byte(c) | PLANT_BIT) == Some(c),
        !plant_byte(command_byte(c)),
        plant_byte(command_byte(c) | PLANT_BIT),
{
    assert(forall|b: u8| #[trigger] (b | 0x40u8) & 0x40u8 != 0) by (bit_vector);
    assert(0x01u8 & !0x40u8 == 0x01u8 && (0x01u8 | 0x40u8) & !0x40u8 == 0x01u8 && 0x01u8 & 0x40u8 == 0)
        by (bit_vector);
    assert(0x02u8 & !0x40u8 == 0x02u8 && (0x02u8 | 0x40u8) & !0x40u8 == 0x02u8 && 0x02u8 & 0x40u8 == 0)
        by (bit_vector);
    assert(0x03u8 & !0x40u8 == 0x03u8 && (0x03u8 | 0x40u8) & !0x40u8 == 0x03u8 && 0x03u8 & 0x40u8 == 0)
        by (bit_vector);
    assert(0x05u8 & !0x40u8 == 0x05u8 && (0x05u8 | 0x40u8) & !0x40u8 == 0x05u8 && 0x05u8 & 0x40u8 == 0)
        by (bit_vector);
    assert(0x06u8 & !0x40u8 == 0x06u8 && (0x06u8 | 0x40u8) & !0x40u8 == 0x06u8 && 0x06u8 & 0x40u8 == 0)
        by (bit_vector);
    assert(0x08u8 & !0x40u8 == 0x08u8 && (0x08u8 | 0x40u8) & !0x40u8 == 0x08u8 && 0x08u8 & 0x40u8 == 0)
        by (bit_vector);
    assert(0x3cu8 & !0x40u8 == 0x3cu8 && (0x3cu8 | 0x40u8) & !0x40u8 == 0x3cu8 && 0x3cu8 & 0x40u8 == 0)
        by (bit_vector);
}

/// Grouping information for object IDs (not used by the protocol itself).
#[derive(Debug, Clone, Copy, PartialEq, Eq, PartialOrd, Ord, Hash, Structural)]
pub enum ObjectGroup {
    Rb485,
    Energy,
    GridMon,
    Temperature,
    Battery,
    CsNeg,
    HwTest,
    GSync,
    Logger,
    Wifi,
    Adc,
    Net,
    AccConv,
    DcConv,
    Nsm,
    IoBoard,
    FlashRtc,
    PowerMng,
    BufVControl,
    Db,
    SwitchOnCond,
    PRec,
    Modbus,
    BatMngStruct,
    IsoStruct,
    GridLt,
    CanBus,
    DisplayStruct,
    FlashParam,
    Fault,
    PrimSm,
    CsMap,
    LineMon,
    Others,
    BatteryPlaceholder,
    Frt,
    Partition,
}

/// The position of each group in the protocol's group table.
pub open spec fn group_index(g: ObjectGroup) -> u8 {
    match g {
        ObjectGroup::Rb485 => 0,
        ObjectGroup::Energy => 1,
        ObjectGroup::GridMon => 2,
        ObjectGroup::Temperature => 3,
        ObjectGroup::Battery => 4,
        ObjectGroup::CsNeg => 5,
        ObjectGroup::HwTest => 6,
        ObjectGroup::GSync => 7,
        ObjectGroup::Logger => 8,
        ObjectGroup::Wifi => 9,
        ObjectGroup::Adc => 10,
        ObjectGroup::Net => 11,
        ObjectGroup::AccConv => 12,
        ObjectGroup::DcConv => 13,
        ObjectGroup::Nsm => 14,
        ObjectGroup::IoBoard => 15,
        ObjectGroup::FlashRtc => 16,
        ObjectGroup::PowerMng => 17,
        ObjectGroup::BufVControl => 18,
        ObjectGroup::Db => 19,
        ObjectGroup::SwitchOnCond => 20,
        ObjectGroup::PRec => 21,
        ObjectGroup::Modbus => 22,
        ObjectGroup::BatMngStruct => 23,
        ObjectGroup::IsoStruct => 24,
        ObjectGroup::GridLt => 25,
        ObjectGroup::CanBus => 26,
        ObjectGroup::DisplayStruct => 27,
        ObjectGroup::FlashParam => 28,
        ObjectGroup::Fault => 29,
        ObjectGroup::PrimSm => 30,
        ObjectGroup::CsMap => 31,
        ObjectGroup::LineMon => 32,
        ObjectGroup::Others => 33,
        ObjectGroup::BatteryPlaceholder => 34,
        ObjectGroup::Frt => 35,
        ObjectGroup::Partition => 36,
    }
}

/// The group at a position of the group table.
pub open spec fn group_at(v: u8) -> Option<ObjectGroup> {
    if v == 0 {
        Some(ObjectGroup::Rb485)
    } else if v == 1 {
        Some(ObjectGroup::Energy)
    } else if v == 2 {
        Some(ObjectGroup::GridMon)
    } else if v == 3 {
        Some(ObjectGroup::Temperature)
    } else if v == 4 {
        Some(ObjectGroup::Battery)
    } else if v == 5 {
        Some(ObjectGroup::CsNeg)
    } else if v == 6 {
        Some(ObjectGroup::HwTest)
    } else if v == 7 {
        Some(ObjectGroup::GSync)
    } else if v == 8 {
        Some(ObjectGroup::Logger)
    } else if v == 9 {
        Some(ObjectGroup::Wifi)
    } else if v == 10 {
        Some(ObjectGroup::Adc)
    } else if v == 11 {
        Some(ObjectGroup::Net)
    } else if v == 12 {
        Some(ObjectGroup::AccConv)
    } else if v == 13 {
        Some(ObjectGroup::DcConv)
    } else if v == 14 {
        Some(ObjectGroup::Nsm)
    } else if v == 15 {
        Some(ObjectGroup::IoBoard)
    } else if v == 16 {
        Some(ObjectGroup::FlashRtc)
    } else if v == 17 {
        Some(ObjectGroup::PowerMng)
    } else if v == 18 {
        Some(ObjectGroup::BufVControl)
    } else if v == 19 {
        Some(ObjectGroup::Db)
    } else if v == 20 {
        Some(ObjectGroup::SwitchOnCond)
    } else if v == 21 {
        Some(ObjectGroup::PRec)
    } else if v == 22 {
        Some(ObjectGroup::Modbus)
    } else if v == 23 {
        Some(ObjectGroup::BatMngStruct)
    } else if v == 24 {
        Some(ObjectGroup::IsoStruct)
    } else if v == 25 {
        Some(ObjectGroup::GridLt)
    } else if v == 26 {
        Some(ObjectGroup::CanBus)
    } else if v == 27 {
        Some(ObjectGroup::DisplayStruct)
    } else if v == 28 {
        Some(ObjectGroup::FlashParam)
    } else if v == 29 {
        Some(ObjectGroup::Fault)
    } else if v == 30 {
        Some(ObjectGroup::PrimSm)
    } else if v == 31 {
        Some(ObjectGroup::CsMap)
    } else if v == 32 {
        Some(ObjectGroup::LineMon)
    } else if v == 33 {
        Some(ObjectGroup::Others)
    } else if v == 34 {
        Some(ObjectGroup::BatteryPlaceholder)
    } else if v == 35 {
        Some(ObjectGroup::Frt)
    } else if v == 36 {
        Some(ObjectGroup::Partition)
    } else {
        None
    }
}

/// The table name of each group.
pub open spec fn group_name(g: ObjectGroup) -> Seq<char> {
    match g {
        ObjectGroup::Rb485 => "RB485"@,
        ObjectGroup::Energy => "ENERGY"@,
        ObjectGroup::GridMon => "GRID_MON"@,
        ObjectGroup::Temperature => "TEMPERATURE"@,
        ObjectGroup::Battery => "BATTERY"@,
        ObjectGroup::CsNeg => "CS_NEG"@,
        ObjectGroup::HwTest => "HW_TEST"@,
        ObjectGroup::GSync => "G_SYNC"@,
        ObjectGroup::Logger => "LOGGER"@,
        ObjectGroup::Wifi => "WIFI"@,
        ObjectGroup::Adc => "ADC"@,
        ObjectGroup::Net => "NET"@,
        ObjectGroup::AccConv => "ACC_CONV"@,
        ObjectGroup::DcConv => "DC_CONV"@,
        ObjectGroup::Nsm => "NSM"@,
        ObjectGroup::IoBoard => "IO_BOARD"@,
        ObjectGroup::FlashRtc => "FLASH_RTC"@,
        ObjectGroup::PowerMng => "POWER_MNG"@,
        ObjectGroup::BufVControl => "BUF_V_CONTROL"@,
        ObjectGroup::Db => "DB"@,
        ObjectGroup::SwitchOnCond => "SWITCH_ON_COND"@,
        ObjectGroup::PRec => "P_REC"@,
        ObjectGroup::Modbus => "MODBUS"@,
        ObjectGroup::BatMngStruct => "BAT_MNG_STRUCT"@,
        ObjectGroup::IsoStruct => "ISO_STRUCT"@,
        ObjectGroup::GridLt => "GRID_LT"@,
        ObjectGroup::CanBus => "CAN_BUS"@,
        ObjectGroup::DisplayStruct => "DISPLAY_STRUCT"@,
        ObjectGroup::FlashParam => "FLASH_PARAM"@,
        ObjectGroup::Fault => "FAULT"@,
        ObjectGroup::PrimSm => "PRIM_SM"@,
        ObjectGroup::CsMap => "CS_MAP"@,
        ObjectGroup::LineMon => "LINE_MON"@,
        ObjectGroup::Others => "OTHERS"@,
        ObjectGroup::BatteryPlaceholder => "BATTERY_PLACEHOLDER"@,
        ObjectGroup::Frt => "FRT"@,
        ObjectGroup::Partition => "PARTITION"@,
    }
}

impl ObjectGroup {
    /// Position of the group in the group table.
    pub fn index(self) -> (r: u8)
        ensures
            r == group_index(self),
    {
        match self {
            ObjectGroup::Rb485 => 0,
            ObjectGroup::Energy => 1,
            ObjectGroup::GridMon => 2,
            ObjectGroup::Temperature => 3,
            ObjectGroup::Battery => 4,
            ObjectGroup::CsNeg => 5,
            ObjectGroup::HwTest => 6,
            ObjectGroup::GSync => 7,
            ObjectGroup::Logger => 8,
            ObjectGroup::Wifi => 9,
            ObjectGroup::Adc => 10,
            ObjectGroup::Net => 11,
            ObjectGroup::AccConv => 12,
            ObjectGroup::DcConv => 13,
            ObjectGroup::Nsm => 14,
            ObjectGroup::IoBoard => 15,
            ObjectGroup::FlashRtc => 16,
            ObjectGroup::PowerMng => 17,
            ObjectGroup::BufVControl => 18,
            ObjectGroup::Db => 19,
            ObjectGroup::SwitchOnCond => 20,
            ObjectGroup::PRec => 21,
            ObjectGroup::Modbus => 22,
            ObjectGroup::BatMngStruct => 23,
            ObjectGroup::IsoStruct => 24,
            ObjectGroup::GridLt => 25,
            ObjectGroup::CanBus => 26,
            ObjectGroup::DisplayStruct => 27,
            ObjectGroup::FlashParam => 28,
            ObjectGroup::Fault => 29,
            ObjectGroup::PrimSm => 30,
            ObjectGroup::CsMap => 31,
            ObjectGroup::LineMon => 32,
            ObjectGroup::Others => 33,
            ObjectGroup::BatteryPlaceholder => 34,
            ObjectGroup::Frt => 35,
            ObjectGroup::Partition => 36,
        }
    }

    /// Table name of the group.
    pub fn name(self) -> (r: &'static str)
        ensures
            r@ == group_name(self),
    {
        match self {
            ObjectGroup::Rb485 => "RB485",
            ObjectGroup::Energy => "ENERGY",
            ObjectGroup::GridMon => "GRID_MON",
            ObjectGroup::Temperature => "TEMPERATURE",
            ObjectGroup::Battery => "BATTERY",
            ObjectGroup::CsNeg => "CS_NEG",
            ObjectGroup::HwTest => "HW_TEST",
            ObjectGroup::GSync => "G_SYNC",
            ObjectGroup::Logger => "LOGGER",
            ObjectGroup::Wifi => "WIFI",
            ObjectGroup::Adc => "ADC",
            ObjectGroup::Net => "NET",
            ObjectGroup::AccConv => "ACC_CONV",
            ObjectGroup::DcConv => "DC_CONV",
            ObjectGroup::Nsm => "NSM",
            ObjectGroup::IoBoard => "IO_BOARD",
            ObjectGroup::FlashRtc => "FLASH_RTC",
            ObjectGroup::PowerMng => "POWER_MNG",
            ObjectGroup::BufVControl => "BUF_V_CONTROL",
            ObjectGroup::Db => "DB",
            ObjectGroup::SwitchOnCond => "SWITCH_ON_COND",
            ObjectGroup::PRec => "P_REC",
            ObjectGroup::Modbus => "MODBUS",
            ObjectGroup::BatMngStruct => "BAT_MNG_STRUCT",
            ObjectGroup::IsoStruct => "ISO_STRUCT",
            ObjectGroup::GridLt => "GRID_LT",
            ObjectGroup::CanBus => "CAN_BUS",
            ObjectGroup::DisplayStruct => "DISPLAY_STRUCT",
            ObjectGroup::FlashParam => "FLASH_PARAM",
            ObjectGroup::Fault => "FAULT",
            ObjectGroup::PrimSm => "PRIM_SM",
            ObjectGroup::CsMap => "CS_MAP",
            ObjectGroup::LineMon => "LINE_MON",
            ObjectGroup::Others => "OTHERS",
            ObjectGroup::BatteryPlaceholder => "BATTERY_PLACEHOLDER",
            ObjectGroup::Frt => "FRT",
            ObjectGroup::Partition => "PARTITION",
        }
    }

    pub fn from_u8(v: u8) -> (r: Option<ObjectGroup>)
        ensures
            r == group_at(v),
    {
        if v <= 36 {
            Some(
                match v {
                    0 => ObjectGroup::Rb485,
                    1 => ObjectGroup::Energy,
                    2 => ObjectGroup::GridMon,
                    3 => ObjectGroup::Temperature,
                    4 => ObjectGroup::Battery,
                    5 => ObjectGroup::CsNeg,
                    6 => ObjectGroup::HwTest,
                    7 => ObjectGroup::GSync,
                    8 => ObjectGroup::Logger,
                    9 => ObjectGroup::Wifi,
                    10 => ObjectGroup::Adc,
                    11 => ObjectGroup::Net,
                    12 => ObjectGroup::AccConv,
                    13 => ObjectGroup::DcConv,
                    14 => ObjectGroup::Nsm,
                    15 => ObjectGroup::IoBoard,
                    16 => ObjectGroup::FlashRtc,
                    17 => ObjectGroup::PowerMng,
                    18 => ObjectGroup::BufVControl,
                    19 => ObjectGroup::Db,
                    20 => ObjectGroup::SwitchOnCond,
                    21 => ObjectGroup::PRec,
                    22 => ObjectGroup::Modbus,
                    23 => ObjectGroup::BatMngStruct,
                    24 => ObjectGroup::IsoStruct,
                    25 => ObjectGroup::GridLt,
                    26 => ObjectGroup::CanBus,
                    27 => ObjectGroup::DisplayStruct,
                    28 => ObjectGroup::FlashParam,
                    29 => ObjectGroup::Fault,
                    30 => ObjectGroup::PrimSm,
                    31 => ObjectGroup::CsMap,
                    32 => ObjectGroup::LineMon,
                    33 => ObjectGroup::Others,
                    34 => ObjectGroup::BatteryPlaceholder,
                    35 => ObjectGroup::Frt,
                    36 => ObjectGroup::Partition,
                    _ => return None,
                },
            )
        } else {
            None
        }
    }
}

/// The first group of the table whose name is `s`.
pub open spec fn group_named(g: ObjectGroup, s: Seq<char>) -> bool {
    &&& group_name(g) == s
    &&& forall|h: ObjectGroup| group_index(h) < group_index(g) ==> group_name(h) != s
}

/// A group is found at its own position in the table, and every position
/// of a group is within the table.
pub proof fn lemma_group_index_roundtrip(g: ObjectGroup)
    ensures
        group_at(group_index(g)) == Some(g),
        group_index(g) <= 36,
{
}

/// No two groups share a table name.
proof fn lemma_group_names_distinct(g: ObjectGroup, h: ObjectGroup)
    ensures
        group_name(g) == group_name(h) ==> g == h,
{
    reveal_strlit("RB485");
    assert("RB485"@.len() == 5 && "RB485"@[0] == 'R' && "RB485"@[4] == '5');
    reveal_strlit("ENERGY");
    assert("ENERGY"@.len() == 6 && "ENERGY"@[0] == 'E' && "ENERGY"@[5] == 'Y');
    reveal_strlit("GRID_MON");
    assert("GRID_MON"@.len() == 8 && "GRID_MON"@[0] == 'G' && "GRID_MON"@[7] == 'N');
    reveal_strlit("TEMPERATURE");
    assert("TEMPERATURE"@.len() == 11 && "TEMPERATURE"@[0] == 'T' && "TEMPERATURE"@[10] == 'E');
    reveal_strlit("BATTERY");
    assert("BATTERY"@.len() == 7 && "BATTERY"@[0] == 'B' && "BATTERY"@[6] == 'Y');
    reveal_strlit("CS_NEG");
    assert("CS_NEG"@.len() == 6 && "CS_NEG"@[0] == 'C' && "CS_NEG"@[5] == 'G');
    reveal_strlit("HW_TEST");
    assert("HW_TEST"@.len() == 7 && "HW_TEST"@[0] == 'H' && "HW_TEST"@[6] == 'T');
    reveal_strlit("G_SYNC");
    assert("G_SYNC"@.len() == 6 && "G_SYNC"@[0] == 'G' && "G_SYNC"@[5] == 'C');
    reveal_strlit("LOGGER");
    assert("LOGGER"@.len() == 6 && "LOGGER"@[0] == 'L' && "LOGGER"@[5] == 'R');
    reveal_strlit("WIFI");
    assert("WIFI"@.len() == 4 && "WIFI"@[0] == 'W' && "WIFI"@[3] == 'I');
    reveal_strlit("ADC");
    assert("ADC"@.len() == 3 && "ADC"@[0] == 'A' && "ADC"@[2] == 'C');
    reveal_strlit("NET");
    assert("NET"@.len() == 3 && "NET"@[0] == 'N' && "NET"@[2] == 'T');
    reveal_strlit("ACC_CONV");
    assert("ACC_CONV"@.len() == 8 && "ACC_CONV"@[0] == 'A' && "ACC_CONV"@[7] == 'V');
    reveal_strlit("DC_CONV");
    assert("DC_CONV"@.len() == 7 && "DC_CONV"@[0] == 'D' && "DC_CONV"@[6] == 'V');
    reveal_strlit("NSM");
    assert("NSM"@.len() == 3 && "NSM"@[0] == 'N' && "NSM"@[2] == 'M');
    reveal_strlit("IO_BOARD");
    assert("IO_BOARD"@.len() == 8 && "IO_BOARD"@[0] == 'I' && "IO_BOARD"@[7] == 'D');
    reveal_strlit("FLASH_RTC");
    assert("FLASH_RTC"@.len() == 9 && "FLASH_RTC"@[0] == 'F' && "FLASH_RTC"@[8] == 'C');
    reveal_strlit("POWER_MNG");
    assert("POWER_MNG"@.len() == 9 && "POWER_MNG"@[0] == 'P' && "POWER_MNG"@[8] == 'G');
    reveal_strlit("BUF_V_CONTROL");
    assert("BUF_V_CONTROL"@.len() == 13 && "BUF_V_CONTROL"@[0] == 'B' && "BUF_V_CONTROL"@[12] == 'L');
    reveal_strlit("DB");
    assert("DB"@.len() == 2 && "DB"@[0] == 'D' && "DB"@[1] == 'B');
    reveal_strlit("SWITCH_ON_COND");
    assert("SWITCH_ON_COND"@.len() == 14 && "SWITCH_ON_COND"@[0] == 'S' && "SWITCH_ON_COND"@[13] == 'D');
    reveal_strlit("P_REC");
    assert("P_REC"@.len() == 5 && "P_REC"@[0] == 'P' && "P_REC"@[4] == 'C');
    reveal_strlit("MODBUS");
    assert("MODBUS"@.len() == 6 && "MODBUS"@[0] == 'M' && "MODBUS"@[5] == 'S');
    reveal_strlit("BAT_MNG_STRUCT");
    assert("BAT_MNG_STRUCT"@.len() == 14 && "BAT_MNG_STRUCT"@[0] == 'B' && "BAT_MNG_STRUCT"@[13] == 'T');
    reveal_strlit("ISO_STRUCT");
    assert("ISO_STRUCT"@.len() == 10 && "ISO_STRUCT"@[0] == 'I' && "ISO_STRUCT"@[9] == 'T');
    reveal_strlit("GRID_LT");
    assert("GRID_LT"@.len() == 7 && "GRID_LT"@[0] == 'G' && "GRID_LT"@[6] == 'T');
    reveal_strlit("CAN_BUS");
    assert("CAN_BUS"@.len() == 7 && "CAN_BUS"@[0] == 'C' && "CAN_BUS"@[6] == 'S');
    reveal_strlit("DISPLAY_STRUCT");
    assert("DISPLAY_STRUCT"@.len() == 14 && "DISPLAY_STRUCT"@[0] == 'D' && "DISPLAY_STRUCT"@[13] == 'T');
    reveal_strlit("FLASH_PARAM");
    assert("FLASH_PARAM"@.len() == 11 && "FLASH_PARAM"@[0] == 'F' && "FLASH_PARAM"@[10] == 'M');
    reveal_strlit("FAULT");
    assert("FAULT"@.len() == 5 && "FAULT"@[0] == 'F' && "FAULT"@[4] == 'T');
    reveal_strlit("PRIM_SM");
    assert("PRIM_SM"@.len() == 7 && "PRIM_SM"@[0] == 'P' && "PRIM_SM"@[6] == 'M');
    reveal_strlit("CS_MAP");
    assert("CS_MAP"@.len() == 6 && "CS_MAP"@[0] == 'C' && "CS_MAP"@[5] == 'P');
    reveal_strlit("LINE_MON");
    assert("LINE_MON"@.len() == 8 && "LINE_MON"@[0] == 'L' && "LINE_MON"@[7] == 'N');
    reveal_strlit("OTHERS");
    assert("OTHERS"@.len() == 6 && "OTHERS"@[0] == 'O' && "OTHERS"@[5] == 'S');
    reveal_strlit("BATTERY_PLACEHOLDER");
    assert("BATTERY_PLACEHOLDER"@.len() == 19 && "BATTERY_PLACEHOLDER"@[0] == 'B' && "BATTERY_PLACEHOLDER"@[18] == 'R');
    reveal_strlit("FRT");
    assert("FRT"@.len() == 3 && "FRT"@[0] == 'F' && "FRT"@[2] == 'T');
    reveal_strlit("PARTITION");
    assert("PARTITION"@.len() == 9 && "PARTITION"@[0] == 'P' && "PARTITION"@[8] == 'N');
}

/// A group is found by its own table name, and it is the only group that
/// `from_string` can give for that name.
pub proof fn lemma_group_name_roundtrip(g: ObjectGroup, h: ObjectGroup)
    ensures
        group_named(g, group_name(g)),
        group_named(h, group_name(g)) ==> h == g,
{
    assert forall|x: ObjectGroup| group_index(x) < group_index(g) implies group_name(x)
        != group_name(g) by {
        lemma_group_names_distinct(x, g);
    }
    lemma_group_names_distinct(h, g);
}

impl ObjectGroup {
    /// Look a group up by its table name.
    pub fn from_string(entry: &str) -> (r: Option<ObjectGroup>)
        ensures
            match r {
                Some(g) => group_named(g, entry@),
                None => forall|h: ObjectGroup| group_name(h) != entry@,
            },
    {
        let mut e: u8 = 0;
        while e <= 36
            invariant
                e <= 37,
                forall|h: ObjectGroup| group_index(h) < e ==> group_name(h) != entry@,
            decreases 37 - e,
        {
            match ObjectGroup::from_u8(e) {
                Some(g) => {
                    proof {
                        lemma_group_index_roundtrip(g);
                    }
                    if str_eq(g.name(), entry) {
                        return Some(g);
                    }
                    assert forall|h: ObjectGroup| group_index(h) < e + 1 implies group_name(h) != entry@ by {
                        lemma_group_index_roundtrip(h);
                    }
                },
                None => {},
            }
            e = e + 1;
        }
        proof {
            assert forall|h: ObjectGroup| group_name(h) != entry@ by {
                lemma_group_index_roundtrip(h);
            }
        }
        None
    }
}

/// Equality of two string slices, by their bytes.
pub fn str_eq(a: &str, b: &str) -> (r: bool)
    ensures
        r == (a@ == b@),
{
    let x = a.as_bytes();
    let y = b.as_bytes();
    proof {
        vstd::utf8::encode_utf8_decode_utf8(a@);
        vstd::utf8::encode_utf8_decode_utf8(b@);
    }
    if x.len() != y.len() {
        return false;
    }
    let mut i: usize = 0;
    while i < x.len()
        invariant
            x@.len() == y@.len(),
            x@ == a.spec_bytes(),
            y@ == b.spec_bytes(),
            i <= x@.len(),
            forall|j: int| 0 <= j < i ==> x@[j] == y@[j],
        decreases x@.len() - i,
    {
        if x[i] != y[i] {
            return false;
        }
        i = i + 1;
    }
    assert(x@ =~= y@);
    true
}

/// Wire data types used to select the encode/decode mechanism.
#[derive(Debug, Clone, Copy, PartialEq, Eq, Hash, Structural)]
pub enum DataType {
    Unknown,
    Bool,
    Uint8,
    Int8,
    Uint16,
    Int16,
    Uint32,
    Int32,
    Enum,
    Float,
    String,
    // Composite, decode-only:
    Timeseries,
    EventTable,
    BatteryModuleStatus,
    BatteryModuleStatistics,
    BatteryModuleResistance,
}

/// The protocol name of each data type.
pub open spec fn data_type_name(t: DataType) -> Seq<char> {
    match t {
        DataType::Unknown => "UNKNOWN"@,
        DataType::Bool => "BOOL"@,
        DataType::Uint8 => "UINT8"@,
        DataType::Int8 => "INT8"@,
        DataType::Uint16 => "UINT16"@,
        DataType::Int16 => "INT16"@,
        DataType::Uint32 => "UINT32"@,
        DataType::Int32 => "INT32"@,
        DataType::Enum => "ENUM"@,
        DataType::Float => "FLOAT"@,
        DataType::String => "STRING"@,
        DataType::Timeseries => "TIMESERIES"@,
        DataType::EventTable => "EVENT_TABLE"@,
        DataType::BatteryModuleStatus => "BATTERY_MODULE_STATUS"@,
        DataType::BatteryModuleStatistics => "BATTERY_MODULE_STATISTICS"@,
        DataType::BatteryModuleResistance => "BATTERY_MODULE_RESISTANCE"@,
    }
}

/// The data type whose protocol name is `s`.
pub open spec fn data_type_named(s: Seq<char>) -> Option<DataType> {
    if s == "UNKNOWN"@ {
        Some(DataType::Unknown)
    } else if s == "BOOL"@ {
        Some(DataType::Bool)
    } else if s == "UINT8"@ {
        Some(DataType::Uint8)
    } else if s == "INT8"@ {
        Some(DataType::Int8)
    } else if s == "UINT16"@ {
        Some(DataType::Uint16)
    } else if s == "INT16"@ {
        Some(DataType::Int16)
    } else if s == "UINT32"@ {
        Some(DataType::Uint32)
    } else if s == "INT32"@ {
        Some(DataType::Int32)
    } else if s == "ENUM"@ {
        Some(DataType::Enum)
    } else if s == "FLOAT"@ {
        Some(DataType::Float)
    } else if s == "STRING"@ {
        Some(DataType::String)
    } else if s == "TIMESERIES"@ {
        Some(DataType::Timeseries)
    } else if s == "EVENT_TABLE"@ {
        Some(DataType::EventTable)
    } else if s == "BATTERY_MODULE_STATUS"@ {
        Some(DataType::BatteryModuleStatus)
    } else if s == "BATTERY_MODULE_STATISTICS"@ {
        Some(DataType::BatteryModuleStatistics)
    } else if s == "BATTERY_MODULE_RESISTANCE"@ {
        Some(DataType::BatteryModuleResistance)
    } else {
        None
    }
}

impl DataType {
    pub fn from_str_name(s: &str) -> (r: Option<DataType>)
        ensures
            r == data_type_named(s@),
    {
        if str_eq(s, "UNKNOWN") {
            Some(DataType::Unknown)
        } else if str_eq(s, "BOOL") {
            Some(DataType::Bool)
        } else if str_eq(s, "UINT8") {
            Some(DataType::Uint8)
        } else if str_eq(s, "INT8") {
            Some(DataType::Int8)
        } else if str_eq(s, "UINT16") {
            Some(DataType::Uint16)
        } else if str_eq(s, "INT16") {
            Some(DataType::Int16)
        } else if str_eq(s, "UINT32") {
            Some(DataType::Uint32)
        } else if str_eq(s, "INT32") {
            Some(DataType::Int32)
        } else if str_eq(s, "ENUM") {
            Some(DataType::Enum)
        } else if str_eq(s, "FLOAT") {
            Some(DataType::Float)
        } else if str_eq(s, "STRING") {
            Some(DataType::String)
        } else if str_eq(s, "TIMESERIES") {
            Some(DataType::Timeseries)
        } else if str_eq(s, "EVENT_TABLE") {
            Some(DataType::EventTable)
        } else if str_eq(s, "BATTERY_MODULE_STATUS") {
            Some(DataType::BatteryModuleStatus)
        } else if str_eq(s, "BATTERY_MODULE_STATISTICS") {
            Some(DataType::BatteryModuleStatistics)
        } else if str_eq(s, "BATTERY_MODULE_RESISTANCE") {
            Some(DataType::BatteryModuleResistance)
        } else {
            None
        }
    }

    pub fn name(self) -> (r: &'static str)
        ensures
            r@ == data_type_name(self),
    {
        match self {
            DataType::Unknown => "UNKNOWN",
            DataType::Bool => "BOOL",
            DataType::Uint8 => "UINT8",
            DataType::Int8 => "INT8",
            DataType::Uint16 => "UINT16",
            DataType::Int16 => "INT16",
            DataType::Uint32 => "UINT32",
            DataType::Int32 => "INT32",
            DataType::Enum => "ENUM",
            DataType::Float => "FLOAT",
            DataType::String => "STRING",
            DataType::Timeseries => "TIMESERIES",
            DataType::EventTable => "EVENT_TABLE",
            DataType::BatteryModuleStatus => "BATTERY_MODULE_STATUS",
            DataType::BatteryModuleStatistics => "BATTERY_MODULE_STATISTICS",
            DataType::BatteryModuleResistance => "BATTERY_MODULE_RESISTANCE",
        }
    }
}

/// Looking a data type up by its protocol name gives that data type.
pub proof fn lemma_data_type_name_roundtrip(t: DataType)
    ensures
        data_type_named(data_type_name(t)) == Some(t),
{
    reveal_strlit("UNKNOWN");
    assert("UNKNOWN"@.len() == 7 && "UNKNOWN"@[0] == 'U' && "UNKNOWN"@[6] == 'N');
    reveal_strlit("BOOL");
    assert("BOOL"@.len() == 4 && "BOOL"@[0] == 'B' && "BOOL"@[3] == 'L');
    reveal_strlit("UINT8");
    assert("UINT8"@.len() == 5 && "UINT8"@[0] == 'U' && "UINT8"@[4] == '8');
    reveal_strlit("INT8");
    assert("INT8"@.len() == 4 && "INT8"@[0] == 'I' && "INT8"@[3] == '8');
    reveal_strlit("UINT16");
    assert("UINT16"@.len() == 6 && "UINT16"@[0] == 'U' && "UINT16"@[5] == '6');
    reveal_strlit("INT16");
    assert("INT16"@.len() == 5 && "INT16"@[0] == 'I' && "INT16"@[4] == '6');
    reveal_strlit("UINT32");
    assert("UINT32"@.len() == 6 && "UINT32"@[0] == 'U' && "UINT32"@[5] == '2');
    reveal_strlit("INT32");
    assert("INT32"@.len() == 5 && "INT32"@[0] == 'I' && "INT32"@[4] == '2');
    reveal_strlit("ENUM");
    assert("ENUM"@.len() == 4 && "ENUM"@[0] == 'E' && "ENUM"@[3] == 'M');
    reveal_strlit("FLOAT");
    assert("FLOAT"@.len() == 5 && "FLOAT"@[0] == 'F' && "FLOAT"@[4] == 'T');
    reveal_strlit("STRING");
    assert("STRING"@.len() == 6 && "STRING"@[0] == 'S' && "STRING"@[5] == 'G');
    reveal_strlit("TIMESERIES");
    assert("TIMESERIES"@.len() == 10 && "TIMESERIES"@[0] == 'T' && "TIMESERIES"@[9] == 'S');
    reveal_strlit("EVENT_TABLE");
    assert("EVENT_TABLE"@.len() == 11 && "EVENT_TABLE"@[0] == 'E' && "EVENT_TABLE"@[10] == 'E');
    reveal_strlit("BATTERY_MODULE_STATUS");
    assert("BATTERY_MODULE_STATUS"@.len() == 21 && "BATTERY_MODULE_STATUS"@[0] == 'B' && "BATTERY_MODULE_STATUS"@[20] == 'S');
    reveal_strlit("BATTERY_MODULE_STATISTICS");
    assert("BATTERY_MODULE_STATISTICS"@.len() == 25 && "BATTERY_MODULE_STATISTICS"@[0] == 'B' && "BATTERY_MODULE_STATISTICS"@[24] == 'S');
    reveal_strlit("BATTERY_MODULE_RESISTANCE");
    assert("BATTERY_MODULE_RESISTANCE"@.len() == 25 && "BATTERY_MODULE_RESISTANCE"@[0] == 'B' && "BATTERY_MODULE_RESISTANCE"@[24] == 'E');
}

/// Frame types.
#[derive(Debug, Clone, Copy, PartialEq, Eq, Structural)]
pub enum FrameType {
    /// Length field counts the 4 id bytes.
    Standard,
    /// Length field counts the 4 address and 4 id bytes.
    Plant,
}

pub open spec fn frame_type_value(ft: FrameType) -> u8 {
    match ft {
        FrameType::Standard => 4,
        FrameType::Plant => 8,
    }
}

impl FrameType {
    /// The protocol value of the frame type.
    pub fn value(self) -> (r: u8)
        ensures
            r == frame_type_value(self),
    {
        match self {
            FrameType::Standard => 4,
            FrameType::Plant => 8,
        }
    }
}

/// A decoded/encodable protocol value.
///
/// `F32` carries the IEEE-754 bit pattern of a 32-bit float.
#[derive(Debug, Clone, PartialEq)]
pub enum DataValue {
    Bool(bool),
    I8(i8),
    U8(u8),
    I16(i16),
    U16(u16),
    I32(i32),
    U32(u32),
    F32(u32),
    Str(String),
    /// Raw payload for composite types not yet decoded.
    Raw(Vec<u8>),
}

/// Mathematical model of a protocol value.
pub enum ValueModel {
    Bool(bool),
    I8(i8),
    U8(u8),
    I16(i16),
    U16(u16),
    I32(i32),
    U32(u32),
    F32(u32),
    Str(Seq<char>),
    Raw(Seq<u8>),
}

impl View for DataValue {
    type V = ValueModel;

    open spec fn view(&self) -> ValueModel {
        match self {
            DataValue::Bool(b) => ValueModel::Bool(*b),
            DataValue::I8(v) => ValueModel::I8(*v),
            DataValue::U8(v) => ValueModel::U8(*v),
            DataValue::I16(v) => ValueModel::I16(*v),
            DataValue::U16(v) => ValueModel::U16(*v),
            DataValue::I32(v) => ValueModel::I32(*v),
            DataValue::U32(v) => ValueModel::U32(*v),
            DataValue::F32(v) => ValueModel::F32(*v),
            DataValue::Str(s) => ValueModel::Str(s@),
            DataValue::Raw(b) => ValueModel::Raw(b@),
        }
    }
}

impl DataValue {
    /// A copy of the value with the same model.
    pub fn duplicate(&self) -> (r: DataValue)
        ensures
            r@ == self@,
    {
        match self {
            DataValue::Bool(b) => DataValue::Bool(*b),
            DataValue::I8(v) => DataValue::I8(*v),
            DataValue::U8(v) => DataValue::U8(*v),
            DataValue::I16(v) => DataValue::I16(*v),
            DataValue::U16(v) => DataValue::U16(*v),
            DataValue::I32(v) => DataValue::I32(*v),
            DataValue::U32(v) => DataValue::U32(*v),
            DataValue::F32(v) => DataValue::F32(*v),
            DataValue::Str(s) => DataValue::Str(s.clone()),
            DataValue::Raw(b) => {
                let c = b.clone();
                assert(c@ =~= b@);
                DataValue::Raw(c)
            },
        }
    }
}

/// Lower-case hex digit of a nibble.
pub open spec fn hex_digit(n: u8) -> char {
    if n < 10 {
        (48 + n) as char
    } else {
        (87 + n) as char
    }
}

/// Lower-case hex rendering of bytes, two digits per byte.
pub open spec fn hex_chars(b: Seq<u8>) -> Seq<char>
    decreases b.len(),
{
    if b.len() == 0 {
        Seq::empty()
    } else {
        hex_chars(b.drop_last()) + seq![hex_digit(b.last() / 16), hex_digit(b.last() % 16)]
    }
}

fn hex_digit_str(n: u8) -> (r: &'static str)
    requires
        n < 16,
    ensures
        r@ == seq![hex_digit(n)],
{
    if n == 0 {
        proof { reveal_strlit("0"); }
        "0"
    } else if n == 1 {
        proof { reveal_strlit("1"); }
        "1"
    } else if n == 2 {
        proof { reveal_strlit("2"); }
        "2"
    } else if n == 3 {
        proof { reveal_strlit("3"); }
        "3"
    } else if n == 4 {
        proof { reveal_strlit("4"); }
        "4"
    } else if n == 5 {
        proof { reveal_strlit("5"); }
        "5"
    } else if n == 6 {
        proof { reveal_strlit("6"); }
        "6"
    } else if n == 7 {
        proof { reveal_strlit("7"); }
        "7"
    } else if n == 8 {
        proof { reveal_strlit("8"); }
        "8"
    } else if n == 9 {
        proof { reveal_strlit("9"); }
        "9"
    } else if n == 10 {
        proof { reveal_strlit("a"); }
        "a"
    } else if n == 11 {
        proof { reveal_strlit("b"); }
        "b"
    } else if n == 12 {
        proof { reveal_strlit("c"); }
        "c"
    } else if n == 13 {
        proof { reveal_strlit("d"); }
        "d"
    } else if n == 14 {
        proof { reveal_strlit("e"); }
        "e"
    } else {
        proof { reveal_strlit("f"); }
        "f"
    }
}

/// Upper-case hex digit of a value below 16.
pub open spec fn upper_hex_digit(n: u8) -> char {
    if n < 10 {
        (48 + n) as char
    } else {
        (55 + n) as char
    }
}

/// The last `k` upper-case hex digits of `v`, zero-padded.
pub open spec fn upper_hex_digits(v: nat, k: nat) -> Seq<char>
    decreases k,
{
    if k == 0 {
        Seq::empty()
    } else {
        upper_hex_digits(v / 16, (k - 1) as nat) + seq![upper_hex_digit((v % 16) as u8)]
    }
}

/// Decimal digits of `v`, without leading zeros.
pub open spec fn decimal_chars(v: nat) -> Seq<char>
    decreases v,
{
    if v < 10 {
        seq![hex_digit(v as u8)]
    } else {
        decimal_chars(v / 10) + seq![hex_digit((v % 10) as u8)]
    }
}

fn upper_hex_digit_str(n: u8) -> (r: &'static str)
    requires
        n < 16,
    ensures
        r@ == seq![upper_hex_digit(n)],
{
    if n < 10 {
        hex_digit_str(n)
    } else if n == 10 {
        proof { reveal_strlit("A"); }
        "A"
    } else if n == 11 {
        proof { reveal_strlit("B"); }
        "B"
    } else if n == 12 {
        proof { reveal_strlit("C"); }
        "C"
    } else if n == 13 {
        proof { reveal_strlit("D"); }
        "D"
    } else if n == 14 {
        proof { reveal_strlit("E"); }
        "E"
    } else {
        proof { reveal_strlit("F"); }
        "F"
    }
}

/// Append the decimal digits of `v`.
pub fn push_decimal(out: &mut String, v: u32)
    ensures
        final(out)@ == old(out)@ + decimal_chars(v as nat),
    decreases v,
{
    if v >= 10 {
        push_decimal(out, v / 10);
    }
    out.append(hex_digit_str((v % 10) as u8));
}

/// Append the last `k` upper-case hex digits of `v`, zero-padded.
pub fn push_upper_hex(out: &mut String, v: u32, k: u32)
    ensures
        final(out)@ == old(out)@ + upper_hex_digits(v as nat, k as nat),
    decreases k,
{
    if k > 0 {
        push_upper_hex(out, v / 16, k - 1);
        out.append(upper_hex_digit_str((v % 16) as u8));
    }
}

/// Lower-case hex rendering of bytes.
pub fn hex(b: &[u8]) -> (r: String)
    ensures
        r@ == hex_chars(b@),
{
    let mut out = String::new();
    let mut i: usize = 0;
    while i < b.len()
        invariant
            i <= b@.len(),
            out@ == hex_chars(b@.take(i as int)),
        decreases b@.len() - i,
    {
        let x = b[i];
        out.append(hex_digit_str(x / 16));
        out.append(hex_digit_str(x % 16));
        assert(b@.take(i + 1).drop_last() =~= b@.take(i as int));
        i = i + 1;
    }
    assert(b@.take(b@.len() as int) =~= b@);
    out
}

/// Whether two values are equal as the device's values: floats by
/// IEEE-754 equality (the two zeros equal, a NaN equal to nothing), all
/// other values when they are the same.
pub open spec fn same_value(a: ValueModel, b: ValueModel) -> bool {
    match (a, b) {
        (ValueModel::F32(x), ValueModel::F32(y)) => f32_bits_equal(x, y),
        _ => a == b,
    }
}

/// Equality of two byte slices.
fn bytes_eq(a: &[u8], b: &[u8]) -> (r: bool)
    ensures
        r == (a@ == b@),
{
    if a.len() != b.len() {
        return false;
    }
    let mut i: usize = 0;
    while i < a.len()
        invariant
            a@.len() == b@.len(),
            i <= a@.len(),
            forall|j: int| 0 <= j < i ==> a@[j] == b@[j],
        decreases a@.len() - i,
    {
        if a[i] != b[i] {
            return false;
        }
        i = i + 1;
    }
    assert(a@ =~= b@);
    true
}

/// Whether two values are equal as the device's values (see `same_value`).
pub fn values_equal(a: &DataValue, b: &DataValue) -> (r: bool)
    ensures
        r == same_value(a@, b@),
{
    match (a, b) {
        (DataValue::Bool(x), DataValue::Bool(y)) => *x == *y,
        (DataValue::I8(x), DataValue::I8(y)) => *x == *y,
        (DataValue::U8(x), DataValue::U8(y)) => *x == *y,
        (DataValue::I16(x), DataValue::I16(y)) => *x == *y,
        (DataValue::U16(x), DataValue::U16(y)) => *x == *y,
        (DataValue::I32(x), DataValue::I32(y)) => *x == *y,
        (DataValue::U32(x), DataValue::U32(y)) => *x == *y,
        (DataValue::F32(x), DataValue::F32(y)) => f32_bits_equal_exec(*x, *y),
        (DataValue::Str(x), DataValue::Str(y)) => str_eq(x.as_str(), y.as_str()),
        (DataValue::Raw(x), DataValue::Raw(y)) => bytes_eq(x.as_slice(), y.as_slice()),
        _ => false,
    }
}

} // verus!
