pub mod codec;
pub mod payload;

use crate::drivers::codec::{
    lemma_u16_value_round_trip, lemma_u32_bytes_round_trip, lemma_u32_value_round_trip,
    lemma_u64_bytes_round_trip, lemma_u64_value_round_trip, read_bytes, read_u16, read_u32,
    read_u64, reserved, u16_from_le, u16_to_le, u32_from_le, u32_to_le, u64_from_le, u64_to_le,
    write_bytes, write_u16, write_u32, write_u64,
};
use crate::drivers::payload::{number_field, read_number_field, NumberField};
use vstd::prelude::*;

verus! {

/// Size in bytes of one partition of the settings storage. Every
/// configuration record fills exactly one partition.
pub const SENSOR_SETTINGS_PARTITION_SIZE: usize = 32;

/// A partition that holds a general configuration record.
pub type SensorGeneralSettingsSlice = [u8; SENSOR_SETTINGS_PARTITION_SIZE];

/// A partition that holds the special configuration record of one driver kind.
pub type SensorSpecialSettingsSlice = [u8; SENSOR_SETTINGS_PARTITION_SIZE];

/// Length in bytes of a driver's identifier.
pub const ID_SIZE: usize = 6;

/// Offset of the identifier in a general configuration partition.
pub const ID_OFFSET: usize = 0;

/// Offset of the type code in a general configuration partition.
pub const TYPE_ID_OFFSET: usize = 6;

/// Offset of the warmup duration in a general configuration partition.
pub const WARMUP_OFFSET: usize = 8;

/// Offset of the burst repetition count in a general configuration partition.
pub const BURST_REPETITIONS_OFFSET: usize = 10;

/// Offset of the first reserved byte in a general configuration partition.
pub const GENERAL_RESERVED_OFFSET: usize = 11;

/// Why a configuration could not be built.
#[derive(Copy, Clone, Debug, PartialEq, Eq, Structural)]
pub enum ConfigurationError {
    /// The payload holds no number under a required key.
    MissingField,
    /// The payload holds a number under the key, but not one that the field can take.
    InvalidNumber,
    /// The bytes offered as a partition are not exactly one partition long.
    WrongLength,
    /// The type code names no driver kind that this library knows.
    UnrecognizedDriverKind,
}

/// What a general configuration record says, apart from how it is stored.
pub struct GeneralRecord {
    pub id: Seq<u8>,
    pub sensor_type_id: u16,
    pub warmup: u16,
    pub burst_repetitions: u8,
}

impl GeneralRecord {
    /// The identifier has its fixed length.
    pub open spec fn wf(self) -> bool {
        self.id.len() == ID_SIZE
    }

    /// The partition that stores the record: identifier, type code, warmup
    /// and burst repetition count in this order, the two 16-bit fields least
    /// significant byte first, then reserved bytes up to the partition's end.
    pub open spec fn encode(self) -> Seq<u8> {
        self.id + u16_to_le(self.sensor_type_id) + u16_to_le(self.warmup)
            + seq![self.burst_repetitions] + reserved(
            (SENSOR_SETTINGS_PARTITION_SIZE - GENERAL_RESERVED_OFFSET) as nat,
        )
    }

    /// The record that a partition stores. Every partition stores one: the
    /// reserved bytes are not looked at.
    pub open spec fn decode(bytes: Seq<u8>) -> GeneralRecord {
        GeneralRecord {
            id: bytes.subrange(ID_OFFSET as int, ID_OFFSET + ID_SIZE),
            sensor_type_id: u16_from_le(bytes.subrange(TYPE_ID_OFFSET as int, TYPE_ID_OFFSET + 2)),
            warmup: u16_from_le(bytes.subrange(WARMUP_OFFSET as int, WARMUP_OFFSET + 2)),
            burst_repetitions: bytes[BURST_REPETITIONS_OFFSET as int],
        }
    }
}

/// A general configuration record is read back unchanged from the partition
/// that stores it, whatever its identifier bytes, type code, warmup and
/// burst repetition count are.
pub proof fn lemma_general_round_trip(record: GeneralRecord)
    requires
        record.wf(),
    ensures
        record.encode().len() == SENSOR_SETTINGS_PARTITION_SIZE,
        GeneralRecord::decode(record.encode()) == record,
{
    let bytes = record.encode();
    lemma_u16_value_round_trip(record.sensor_type_id);
    lemma_u16_value_round_trip(record.warmup);
    assert(bytes.subrange(ID_OFFSET as int, ID_OFFSET + ID_SIZE) =~= record.id);
    assert(bytes.subrange(TYPE_ID_OFFSET as int, TYPE_ID_OFFSET + 2) =~= u16_to_le(
        record.sensor_type_id,
    ));
    assert(bytes.subrange(WARMUP_OFFSET as int, WARMUP_OFFSET + 2) =~= u16_to_le(record.warmup));
}

/// The configuration that every driver kind has: who the driver is, which
/// kind it is of, and how it is to be sampled.
#[derive(Copy, Clone, Debug, PartialEq, Eq)]
pub struct SensorDriverGeneralConfiguration {
    pub id: [u8; 6],
    pub sensor_type_id: u16,
    pub warmup: u16,
    pub burst_repetitions: u8,
}

impl View for SensorDriverGeneralConfiguration {
    type V = GeneralRecord;

    open spec fn view(&self) -> GeneralRecord {
        GeneralRecord {
            id: self.id@,
            sensor_type_id: self.sensor_type_id,
            warmup: self.warmup,
            burst_repetitions: self.burst_repetitions,
        }
    }
}

impl SensorDriverGeneralConfiguration {
    /// A fresh configuration: no warmup, one reading per burst.
    pub fn new(id: [u8; 6], sensor_type_id: u16) -> (config: SensorDriverGeneralConfiguration)
        ensures
            config.id == id,
            config.sensor_type_id == sensor_type_id,
            config.warmup == 0,
            config.burst_repetitions == 1,
    {
        Self { id: id, sensor_type_id: sensor_type_id, warmup: 0, burst_repetitions: 1 }
    }

    /// Reads the record that a partition stores.
    pub fn new_from_bytes(bytes: &[u8; SENSOR_SETTINGS_PARTITION_SIZE]) -> (config:
        SensorDriverGeneralConfiguration)
        ensures
            config@ == GeneralRecord::decode(bytes@),
    {
        Self {
            id: read_bytes::<ID_SIZE>(bytes, ID_OFFSET),
            sensor_type_id: read_u16(bytes, TYPE_ID_OFFSET),
            warmup: read_u16(bytes, WARMUP_OFFSET),
            burst_repetitions: bytes[BURST_REPETITIONS_OFFSET],
        }
    }

    /// Reads the record that `bytes` store, provided they are exactly one
    /// partition. For bytes that do not come out of the settings storage.
    pub fn new_from_slice(bytes: &[u8]) -> (decoded: Result<
        SensorDriverGeneralConfiguration,
        ConfigurationError,
    >)
        ensures
            bytes@.len() == SENSOR_SETTINGS_PARTITION_SIZE ==> decoded.is_ok()
                && decoded.unwrap()@ == GeneralRecord::decode(bytes@),
            bytes@.len() != SENSOR_SETTINGS_PARTITION_SIZE ==> decoded == Err::<
                SensorDriverGeneralConfiguration,
                ConfigurationError,
            >(ConfigurationError::WrongLength),
    {
        match partition_of(bytes) {
            Some(partition) => Ok(Self::new_from_bytes(&partition)),
            None => Err(ConfigurationError::WrongLength),
        }
    }

    /// The partition that stores this record.
    pub fn to_bytes(&self) -> (bytes: [u8; SENSOR_SETTINGS_PARTITION_SIZE])
        ensures
            bytes@ == self@.encode(),
            GeneralRecord::decode(bytes@) == self@,
    {
        let mut bytes = [0u8; SENSOR_SETTINGS_PARTITION_SIZE];
        write_bytes::<ID_SIZE>(&mut bytes, ID_OFFSET, &self.id);
        write_u16(&mut bytes, TYPE_ID_OFFSET, self.sensor_type_id);
        write_u16(&mut bytes, WARMUP_OFFSET, self.warmup);
        bytes[BURST_REPETITIONS_OFFSET] = self.burst_repetitions;
        proof {
            assert(bytes@ =~= self@.encode());
            lemma_general_round_trip(self@);
        }
        bytes
    }
}

/// Copies `bytes` into a partition where they are exactly one partition long.
pub fn partition_of(bytes: &[u8]) -> (partition: Option<[u8; SENSOR_SETTINGS_PARTITION_SIZE]>)
    ensures
        bytes@.len() == SENSOR_SETTINGS_PARTITION_SIZE ==> partition.is_some()
            && partition.unwrap()@ == bytes@,
        bytes@.len() != SENSOR_SETTINGS_PARTITION_SIZE ==> partition.is_none(),
{
    if bytes.len() != SENSOR_SETTINGS_PARTITION_SIZE {
        return None;
    }
    let mut partition = [0u8; SENSOR_SETTINGS_PARTITION_SIZE];
    let mut i: usize = 0;
    while i < SENSOR_SETTINGS_PARTITION_SIZE
        invariant
            i <= SENSOR_SETTINGS_PARTITION_SIZE,
            bytes@.len() == SENSOR_SETTINGS_PARTITION_SIZE,
            forall|j: int| 0 <= j < i ==> partition@[j] == bytes@[j],
        decreases SENSOR_SETTINGS_PARTITION_SIZE - i,
    {
        partition[i] = bytes[i];
        i = i + 1;
    }
    assert(partition@ =~= bytes@);
    Some(partition)
}

/// What every sensor driver can do, whatever its kind.
pub trait SensorDriver {
    /// The general configuration record that the driver owns.
    spec fn general_config(&self) -> SensorDriverGeneralConfiguration;

    /// Prepares the driver for use. Its identity and kind stay as they are.
    fn setup(&mut self)
        ensures
            final(self).general_config() == old(self).general_config(),
    ;

    /// The identifier from the driver's general configuration.
    fn get_id(&mut self) -> (id: [u8; 6])
        ensures
            id == old(self).general_config().id,
            final(self).general_config() == old(self).general_config(),
    ;

    /// The type code from the driver's general configuration.
    fn get_type_id(&mut self) -> (type_id: u16)
        ensures
            type_id == old(self).general_config().sensor_type_id,
            final(self).general_config() == old(self).general_config(),
    ;
}

/// What every actuator driver can do.
pub trait ActuatorDriver {
    /// Prepares the driver for use.
    fn setup(&mut self);
}

/// What every telemeter driver can do.
pub trait TelemeterDriver {
    /// Prepares the driver for use.
    fn setup(&mut self);
}

/// Length in bytes of the reserved tail of an analog sensor's special partition.
pub const GENERIC_ANALOG_RESERVED_SIZE: usize = 15;

/// Offset of the calibration slope in an analog sensor's special partition.
pub const M_OFFSET: usize = 0;

/// Offset of the calibration intercept in an analog sensor's special partition.
pub const B_OFFSET: usize = 8;

/// Offset of the port index in an analog sensor's special partition.
pub const SENSOR_PORT_OFFSET: usize = 16;

/// Offset of the reserved tail in an analog sensor's special partition.
pub const GENERIC_ANALOG_RESERVED_OFFSET: usize = 17;

/// Key of the port index in a payload that configures an analog sensor.
pub const SENSOR_PORT_KEY: &'static str = "sensor_port";

/// What the special configuration record of an analog sensor says. The
/// slope `m` and the intercept `b` of the linear calibration are held as the
/// bit patterns of their 64-bit IEEE 754 values.
pub struct GenericAnalogRecord {
    pub m_bits: u64,
    pub b_bits: u64,
    pub sensor_port: u8,
    pub empty: Seq<u8>,
}

impl GenericAnalogRecord {
    /// The reserved tail has its fixed length.
    pub open spec fn wf(self) -> bool {
        self.empty.len() == GENERIC_ANALOG_RESERVED_SIZE
    }

    /// The partition that stores the record: slope, intercept (each least
    /// significant byte first), port index, reserved tail.
    pub open spec fn encode(self) -> Seq<u8> {
        u64_to_le(self.m_bits) + u64_to_le(self.b_bits) + seq![self.sensor_port] + self.empty
    }

    /// The record that a partition stores. Nothing is validated: every
    /// partition stores some record of this kind.
    pub open spec fn decode(bytes: Seq<u8>) -> GenericAnalogRecord {
        GenericAnalogRecord {
            m_bits: u64_from_le(bytes.subrange(M_OFFSET as int, M_OFFSET + 8)),
            b_bits: u64_from_le(bytes.subrange(B_OFFSET as int, B_OFFSET + 8)),
            sensor_port: bytes[SENSOR_PORT_OFFSET as int],
            empty: bytes.subrange(
                GENERIC_ANALOG_RESERVED_OFFSET as int,
                SENSOR_SETTINGS_PARTITION_SIZE as int,
            ),
        }
    }

    /// The record that a payload asks for: the given port, a calibration of
    /// all zero bits and a zeroed tail.
    pub open spec fn with_port(sensor_port: u8) -> GenericAnalogRecord {
        GenericAnalogRecord {
            m_bits: 0,
            b_bits: 0,
            sensor_port,
            empty: reserved(GENERIC_ANALOG_RESERVED_SIZE as nat),
        }
    }

    /// What becomes of a payload, given what it holds under the port's key:
    /// a record where an unsigned number that fits a byte stands there, and
    /// otherwise the error that says what is wrong.
    pub open spec fn from_field(field: NumberField) -> Result<
        GenericAnalogRecord,
        ConfigurationError,
    > {
        match field {
            NumberField::Missing => Err(ConfigurationError::MissingField),
            NumberField::NotUnsigned => Err(ConfigurationError::InvalidNumber),
            NumberField::Unsigned(n) => if n <= u8::MAX {
                Ok(Self::with_port(n as u8))
            } else {
                Err(ConfigurationError::InvalidNumber)
            },
        }
    }
}

/// An analog sensor's special record and its partition determine each other.
pub proof fn lemma_generic_analog_round_trip(record: GenericAnalogRecord, bytes: Seq<u8>)
    requires
        record.wf(),
        bytes.len() == SENSOR_SETTINGS_PARTITION_SIZE,
    ensures
        record.encode().len() == SENSOR_SETTINGS_PARTITION_SIZE,
        GenericAnalogRecord::decode(record.encode()) == record,
        GenericAnalogRecord::decode(bytes).wf(),
        GenericAnalogRecord::decode(bytes).encode() == bytes,
{
    let stored = record.encode();
    lemma_u64_value_round_trip(record.m_bits);
    lemma_u64_value_round_trip(record.b_bits);
    assert(stored.subrange(M_OFFSET as int, M_OFFSET + 8) =~= u64_to_le(record.m_bits));
    assert(stored.subrange(B_OFFSET as int, B_OFFSET + 8) =~= u64_to_le(record.b_bits));
    assert(stored.subrange(
        GENERIC_ANALOG_RESERVED_OFFSET as int,
        SENSOR_SETTINGS_PARTITION_SIZE as int,
    ) =~= record.empty);
    lemma_u64_bytes_round_trip(bytes.subrange(M_OFFSET as int, M_OFFSET + 8));
    lemma_u64_bytes_round_trip(bytes.subrange(B_OFFSET as int, B_OFFSET + 8));
    assert(GenericAnalogRecord::decode(bytes).encode() =~= bytes);
}

/// The special configuration of an analog sensor: a linear calibration and
/// the port that the sensor is wired to.
#[derive(Copy, Clone, Debug, PartialEq, Eq)]
pub struct GenericAnalogSpecialConfiguration {
    m_bits: u64,
    b_bits: u64,
    sensor_port: u8,
    empty: [u8; 15],
}

impl View for GenericAnalogSpecialConfiguration {
    type V = GenericAnalogRecord;

    closed spec fn view(&self) -> GenericAnalogRecord {
        GenericAnalogRecord {
            m_bits: self.m_bits,
            b_bits: self.b_bits,
            sensor_port: self.sensor_port,
            empty: self.empty@,
        }
    }
}

impl GenericAnalogSpecialConfiguration {
    /// The outcome of building a configuration, with the configuration
    /// replaced by the record that it holds.
    pub open spec fn outcome_view(
        outcome: Result<GenericAnalogSpecialConfiguration, ConfigurationError>,
    ) -> Result<GenericAnalogRecord, ConfigurationError> {
        match outcome {
            Ok(config) => Ok(config@),
            Err(error) => Err(error),
        }
    }

    /// Builds the configuration that a payload asks for. The payload must
    /// name the port under `sensor_port` as an unsigned number that fits a
    /// byte; nothing is filled in for a port that is absent or unusable.
    pub fn new_from_values(value: serde_json::Value) -> (outcome: Result<
        GenericAnalogSpecialConfiguration,
        ConfigurationError,
    >)
        ensures
            Self::outcome_view(outcome) == GenericAnalogRecord::from_field(
                number_field(value, SENSOR_PORT_KEY@),
            ),
            number_field(value, SENSOR_PORT_KEY@) is Missing ==> outcome == Err::<
                GenericAnalogSpecialConfiguration,
                ConfigurationError,
            >(ConfigurationError::MissingField),
    {
        Self::new_from_field(read_number_field(&value, SENSOR_PORT_KEY))
    }

    /// Builds the configuration from what a payload holds under the port's
    /// key.
    pub fn new_from_field(field: NumberField) -> (outcome: Result<
        GenericAnalogSpecialConfiguration,
        ConfigurationError,
    >)
        ensures
            Self::outcome_view(outcome) == GenericAnalogRecord::from_field(field),
            field is Missing ==> outcome == Err::<
                GenericAnalogSpecialConfiguration,
                ConfigurationError,
            >(ConfigurationError::MissingField),
            outcome.is_ok() <==> field is Unsigned && field->Unsigned_0 <= u8::MAX,
    {
        match field {
            NumberField::Missing => Err(ConfigurationError::MissingField),
            NumberField::NotUnsigned => Err(ConfigurationError::InvalidNumber),
            NumberField::Unsigned(n) => {
                if n <= 255 {
                    let config = Self {
                        m_bits: 0,
                        b_bits: 0,
                        sensor_port: n as u8,
                        empty: [0u8; 15],
                    };
                    assert(config@.empty =~= reserved(GENERIC_ANALOG_RESERVED_SIZE as nat));
                    Ok(config)
                } else {
                    Err(ConfigurationError::InvalidNumber)
                }
            },
        }
    }

    /// Reads the record that a partition stores. Nothing is validated.
    pub fn new_from_bytes(bytes: [u8; SENSOR_SETTINGS_PARTITION_SIZE]) -> (config:
        GenericAnalogSpecialConfiguration)
        ensures
            config@ == GenericAnalogRecord::decode(bytes@),
    {
        Self {
            m_bits: read_u64(&bytes, M_OFFSET),
            b_bits: read_u64(&bytes, B_OFFSET),
            sensor_port: bytes[SENSOR_PORT_OFFSET],
            empty: read_bytes::<GENERIC_ANALOG_RESERVED_SIZE>(
                &bytes,
                GENERIC_ANALOG_RESERVED_OFFSET,
            ),
        }
    }

    /// The partition that stores this record.
    pub fn to_bytes(&self) -> (bytes: [u8; SENSOR_SETTINGS_PARTITION_SIZE])
        ensures
            bytes@ == self@.encode(),
            GenericAnalogRecord::decode(bytes@) == self@,
    {
        let mut bytes = [0u8; SENSOR_SETTINGS_PARTITION_SIZE];
        write_u64(&mut bytes, M_OFFSET, self.m_bits);
        write_u64(&mut bytes, B_OFFSET, self.b_bits);
        bytes[SENSOR_PORT_OFFSET] = self.sensor_port;
        write_bytes::<GENERIC_ANALOG_RESERVED_SIZE>(
            &mut bytes,
            GENERIC_ANALOG_RESERVED_OFFSET,
            &self.empty,
        );
        proof {
            lemma_u64_value_round_trip(self.m_bits);
            lemma_u64_value_round_trip(self.b_bits);
            assert(bytes@ =~= self@.encode());
            lemma_generic_analog_round_trip(self@, bytes@);
        }
        bytes
    }

    /// Bit pattern of the calibration slope, a 64-bit IEEE 754 value.
    pub fn m_bits(&self) -> (bits: u64)
        ensures
            bits == self@.m_bits,
    {
        self.m_bits
    }

    /// Bit pattern of the calibration intercept, a 64-bit IEEE 754 value.
    pub fn b_bits(&self) -> (bits: u64)
        ensures
            bits == self@.b_bits,
    {
        self.b_bits
    }

    /// Index of the port that the sensor is wired to.
    pub fn sensor_port(&self) -> (port: u8)
        ensures
            port == self@.sensor_port,
    {
        self.sensor_port
    }
}

/// Driver of an analog sensor read through one of the board's ports.
pub struct GenericAnalog {
    general_config: SensorDriverGeneralConfiguration,
    special_config: GenericAnalogSpecialConfiguration,
}

impl GenericAnalog {
    /// The special configuration record that the driver owns.
    pub closed spec fn special_config(&self) -> GenericAnalogSpecialConfiguration {
        self.special_config
    }

    /// A driver that owns the two records given.
    pub fn new(
        general_config: SensorDriverGeneralConfiguration,
        special_config: GenericAnalogSpecialConfiguration,
    ) -> (driver: Self)
        ensures
            driver.general_config() == general_config,
            driver.special_config() == special_config,
    {
        GenericAnalog { general_config, special_config }
    }

    /// A copy of the driver's special configuration.
    pub fn get_special_config(&self) -> (config: GenericAnalogSpecialConfiguration)
        ensures
            config == self.special_config(),
    {
        self.special_config
    }
}

impl SensorDriver for GenericAnalog {
    closed spec fn general_config(&self) -> SensorDriverGeneralConfiguration {
        self.general_config
    }

    /// The sensor needs no preparation of its own: the board starts the
    /// converter that reads it. The driver is left as it is.
    fn setup(&mut self)
        ensures
            *final(self) == *old(self),
    {
    }

    fn get_id(&mut self) -> (id: [u8; 6])
        ensures
            *final(self) == *old(self),
    {
        self.general_config.id
    }

    fn get_type_id(&mut self) -> (type_id: u16)
        ensures
            *final(self) == *old(self),
    {
        self.general_config.sensor_type_id
    }
}

/// Length in bytes of the reserved tail of a humidity sensor's special partition.
pub const AHT22_RESERVED_SIZE: usize = 28;

/// Offset of the wait time in a humidity sensor's special partition.
pub const WAIT_TIME_OFFSET: usize = 0;

/// Offset of the reserved tail in a humidity sensor's special partition.
pub const AHT22_RESERVED_OFFSET: usize = 4;

/// What the special configuration record of a temperature and humidity
/// sensor says.
pub struct AHT22Record {
    pub wait_time: u32,
    pub empty: Seq<u8>,
}

impl AHT22Record {
    /// The reserved tail has its fixed length.
    pub open spec fn wf(self) -> bool {
        self.empty.len() == AHT22_RESERVED_SIZE
    }

    /// The partition that stores the record: the wait time, least
    /// significant byte first, then the reserved tail.
    pub open spec fn encode(self) -> Seq<u8> {
        u32_to_le(self.wait_time) + self.empty
    }

    /// The record that a partition stores. Nothing is validated: every
    /// partition stores some record of this kind.
    pub open spec fn decode(bytes: Seq<u8>) -> AHT22Record {
        AHT22Record {
            wait_time: u32_from_le(bytes.subrange(WAIT_TIME_OFFSET as int, WAIT_TIME_OFFSET + 4)),
            empty: bytes.subrange(
                AHT22_RESERVED_OFFSET as int,
                SENSOR_SETTINGS_PARTITION_SIZE as int,
            ),
        }
    }
}

/// A humidity sensor's special record and its partition determine each other.
pub proof fn lemma_aht22_round_trip(record: AHT22Record, bytes: Seq<u8>)
    requires
        record.wf(),
        bytes.len() == SENSOR_SETTINGS_PARTITION_SIZE,
    ensures
        record.encode().len() == SENSOR_SETTINGS_PARTITION_SIZE,
        AHT22Record::decode(record.encode()) == record,
        AHT22Record::decode(bytes).wf(),
        AHT22Record::decode(bytes).encode() == bytes,
{
    let stored = record.encode();
    lemma_u32_value_round_trip(record.wait_time);
    assert(stored.subrange(WAIT_TIME_OFFSET as int, WAIT_TIME_OFFSET + 4) =~= u32_to_le(
        record.wait_time,
    ));
    assert(stored.subrange(AHT22_RESERVED_OFFSET as int, SENSOR_SETTINGS_PARTITION_SIZE as int)
        =~= record.empty);
    lemma_u32_bytes_round_trip(bytes.subrange(WAIT_TIME_OFFSET as int, WAIT_TIME_OFFSET + 4));
    assert(AHT22Record::decode(bytes).encode() =~= bytes);
}

/// The special configuration of a temperature and humidity sensor: how
/// long to wait for a reading.
#[derive(Copy, Clone, Debug, PartialEq, Eq)]
pub struct AHT22SpecialConfiguration {
    wait_time: u32,
    empty: [u8; 28],
}

impl View for AHT22SpecialConfiguration {
    type V = AHT22Record;

    closed spec fn view(&self) -> AHT22Record {
        AHT22Record { wait_time: self.wait_time, empty: self.empty@ }
    }
}

impl AHT22SpecialConfiguration {
    /// Reads the record that a partition stores. Nothing is validated.
    pub fn new_from_bytes(bytes: &[u8; SENSOR_SETTINGS_PARTITION_SIZE]) -> (config:
        AHT22SpecialConfiguration)
        ensures
            config@ == AHT22Record::decode(bytes@),
    {
        Self {
            wait_time: read_u32(bytes, WAIT_TIME_OFFSET),
            empty: read_bytes::<AHT22_RESERVED_SIZE>(bytes, AHT22_RESERVED_OFFSET),
        }
    }

    /// The partition that stores this record.
    pub fn to_bytes(&self) -> (bytes: [u8; SENSOR_SETTINGS_PARTITION_SIZE])
        ensures
            bytes@ == self@.encode(),
            AHT22Record::decode(bytes@) == self@,
    {
        let mut bytes = [0u8; SENSOR_SETTINGS_PARTITION_SIZE];
        write_u32(&mut bytes, WAIT_TIME_OFFSET, self.wait_time);
        write_bytes::<AHT22_RESERVED_SIZE>(&mut bytes, AHT22_RESERVED_OFFSET, &self.empty);
        proof {
            lemma_u32_value_round_trip(self.wait_time);
            assert(bytes@ =~= self@.encode());
            lemma_aht22_round_trip(self@, bytes@);
        }
        bytes
    }

    /// How long to wait for a reading.
    pub fn wait_time(&self) -> (wait_time: u32)
        ensures
            wait_time == self@.wait_time,
    {
        self.wait_time
    }
}

/// Driver of a temperature and humidity sensor.
pub struct AHT22 {
    general_config: SensorDriverGeneralConfiguration,
    special_config: AHT22SpecialConfiguration,
}

impl AHT22 {
    /// The special configuration record that the driver owns.
    pub closed spec fn special_config(&self) -> AHT22SpecialConfiguration {
        self.special_config
    }

    /// A driver that owns the general record given and the special record
    /// that the partition stores.
    pub fn new(
        general_config: SensorDriverGeneralConfiguration,
        specific_config_bytes: &[u8; SENSOR_SETTINGS_PARTITION_SIZE],
    ) -> (driver: Self)
        ensures
            driver.general_config() == general_config,
            driver.special_config()@ == AHT22Record::decode(specific_config_bytes@),
    {
        let special_config = AHT22SpecialConfiguration::new_from_bytes(specific_config_bytes);
        AHT22 { general_config, special_config }
    }

    /// A copy of the driver's special configuration.
    pub fn get_special_config(&self) -> (config: AHT22SpecialConfiguration)
        ensures
            config == self.special_config(),
    {
        self.special_config
    }
}

impl SensorDriver for AHT22 {
    closed spec fn general_config(&self) -> SensorDriverGeneralConfiguration {
        self.general_config
    }

    /// The sensor needs no preparation of its own: the board starts the bus
    /// that it answers on. The driver is left as it is.
    fn setup(&mut self)
        ensures
            *final(self) == *old(self),
    {
    }

    fn get_id(&mut self) -> (id: [u8; 6])
        ensures
            *final(self) == *old(self),
    {
        self.general_config.id
    }

    fn get_type_id(&mut self) -> (type_id: u16)
        ensures
            *final(self) == *old(self),
    {
        self.general_config.sensor_type_id
    }
}

/// Type code of the analog sensor driver.
pub const GENERIC_ANALOG_TYPE_ID: u16 = 0;

/// Type code of the temperature and humidity sensor driver.
pub const AHT22_TYPE_ID: u16 = 1;

/// The driver kinds that a type code can select.
#[derive(Copy, Clone, Debug, PartialEq, Eq, Structural)]
pub enum DriverKind {
    GenericAnalog,
    AHT22,
}

/// The driver kind that a type code selects, if it selects one.
pub open spec fn kind_of(type_id: u16) -> Option<DriverKind> {
    if type_id == GENERIC_ANALOG_TYPE_ID {
        Some(DriverKind::GenericAnalog)
    } else if type_id == AHT22_TYPE_ID {
        Some(DriverKind::AHT22)
    } else {
        None
    }
}

/// Looks up the driver kind that a type code selects.
pub fn driver_kind(type_id: u16) -> (kind: Result<DriverKind, ConfigurationError>)
    ensures
        kind_of(type_id) is Some ==> kind == Ok::<DriverKind, ConfigurationError>(
            kind_of(type_id).unwrap(),
        ),
        kind_of(type_id) is None ==> kind == Err::<DriverKind, ConfigurationError>(
            ConfigurationError::UnrecognizedDriverKind,
        ),
{
    if type_id == GENERIC_ANALOG_TYPE_ID {
        Ok(DriverKind::GenericAnalog)
    } else if type_id == AHT22_TYPE_ID {
        Ok(DriverKind::AHT22)
    } else {
        Err(ConfigurationError::UnrecognizedDriverKind)
    }
}

/// A driver of any of the kinds that this library knows.
pub enum RegisteredDriver {
    GenericAnalog(GenericAnalog),
    AHT22(AHT22),
}

impl RegisteredDriver {
    /// The kind that the driver is of.
    pub open spec fn kind(&self) -> DriverKind {
        match self {
            RegisteredDriver::GenericAnalog(_) => DriverKind::GenericAnalog,
            RegisteredDriver::AHT22(_) => DriverKind::AHT22,
        }
    }

    /// Builds the driver that a pair of partitions stores: the type code in
    /// the general partition selects the kind, and with it the layout under
    /// which the special partition is read. A type code that selects no
    /// kind is refused.
    pub fn from_partitions(
        general: &[u8; SENSOR_SETTINGS_PARTITION_SIZE],
        special: &[u8; SENSOR_SETTINGS_PARTITION_SIZE],
    ) -> (built: Result<RegisteredDriver, ConfigurationError>)
        ensures
            match built {
                Ok(RegisteredDriver::GenericAnalog(driver)) => {
                    &&& kind_of(GeneralRecord::decode(general@).sensor_type_id) == Some(
                        DriverKind::GenericAnalog,
                    )
                    &&& driver.general_config()@ == GeneralRecord::decode(general@)
                    &&& driver.special_config()@ == GenericAnalogRecord::decode(special@)
                },
                Ok(RegisteredDriver::AHT22(driver)) => {
                    &&& kind_of(GeneralRecord::decode(general@).sensor_type_id) == Some(
                        DriverKind::AHT22,
                    )
                    &&& driver.general_config()@ == GeneralRecord::decode(general@)
                    &&& driver.special_config()@ == AHT22Record::decode(special@)
                },
                Err(error) => {
                    &&& kind_of(GeneralRecord::decode(general@).sensor_type_id) is None
                    &&& error == ConfigurationError::UnrecognizedDriverKind
                },
            },
    {
        let general_config = SensorDriverGeneralConfiguration::new_from_bytes(general);
        match driver_kind(general_config.sensor_type_id) {
            Err(error) => Err(error),
            Ok(DriverKind::GenericAnalog) => {
                let special_config = GenericAnalogSpecialConfiguration::new_from_bytes(*special);
                Ok(
                    RegisteredDriver::GenericAnalog(
                        GenericAnalog::new(general_config, special_config),
                    ),
                )
            },
            Ok(DriverKind::AHT22) => {
                Ok(RegisteredDriver::AHT22(AHT22::new(general_config, special)))
            },
        }
    }

    /// Builds the driver that two runs of bytes store, provided each is
    /// exactly one partition. For bytes that do not come out of the
    /// settings storage.
    pub fn from_slices(general: &[u8], special: &[u8]) -> (built: Result<
        RegisteredDriver,
        ConfigurationError,
    >)
        ensures
            match built {
                Ok(RegisteredDriver::GenericAnalog(driver)) => {
                    &&& general@.len() == SENSOR_SETTINGS_PARTITION_SIZE
                    &&& special@.len() == SENSOR_SETTINGS_PARTITION_SIZE
                    &&& kind_of(GeneralRecord::decode(general@).sensor_type_id) == Some(
                        DriverKind::GenericAnalog,
                    )
                    &&& driver.general_config()@ == GeneralRecord::decode(general@)
                    &&& driver.special_config()@ == GenericAnalogRecord::decode(special@)
                },
                Ok(RegisteredDriver::AHT22(driver)) => {
                    &&& general@.len() == SENSOR_SETTINGS_PARTITION_SIZE
                    &&& special@.len() == SENSOR_SETTINGS_PARTITION_SIZE
                    &&& kind_of(GeneralRecord::decode(general@).sensor_type_id) == Some(
                        DriverKind::AHT22,
                    )
                    &&& driver.general_config()@ == GeneralRecord::decode(general@)
                    &&& driver.special_config()@ == AHT22Record::decode(special@)
                },
                Err(ConfigurationError::WrongLength) => {
                    ||| general@.len() != SENSOR_SETTINGS_PARTITION_SIZE
                    ||| special@.len() != SENSOR_SETTINGS_PARTITION_SIZE
                },
                Err(error) => {
                    &&& general@.len() == SENSOR_SETTINGS_PARTITION_SIZE
                    &&& special@.len() == SENSOR_SETTINGS_PARTITION_SIZE
                    &&& kind_of(GeneralRecord::decode(general@).sensor_type_id) is None
                    &&& error == ConfigurationError::UnrecognizedDriverKind
                },
            },
    {
        match partition_of(general) {
            None => Err(ConfigurationError::WrongLength),
            Some(general_partition) => match partition_of(special) {
                None => Err(ConfigurationError::WrongLength),
                Some(special_partition) => Self::from_partitions(
                    &general_partition,
                    &special_partition,
                ),
            },
        }
    }
}

impl SensorDriver for RegisteredDriver {
    open spec fn general_config(&self) -> SensorDriverGeneralConfiguration {
        match self {
            RegisteredDriver::GenericAnalog(driver) => driver.general_config(),
            RegisteredDriver::AHT22(driver) => driver.general_config(),
        }
    }

    fn setup(&mut self)
        ensures
            *final(self) == *old(self),
    {
        match self {
            RegisteredDriver::GenericAnalog(driver) => driver.setup(),
            RegisteredDriver::AHT22(driver) => driver.setup(),
        }
    }

    fn get_id(&mut self) -> (id: [u8; 6])
        ensures
            *final(self) == *old(self),
    {
        match self {
            RegisteredDriver::GenericAnalog(driver) => driver.get_id(),
            RegisteredDriver::AHT22(driver) => driver.get_id(),
        }
    }

    fn get_type_id(&mut self) -> (type_id: u16)
        ensures
            *final(self) == *old(self),
    {
        match self {
            RegisteredDriver::GenericAnalog(driver) => driver.get_type_id(),
            RegisteredDriver::AHT22(driver) => driver.get_type_id(),
        }
    }
}

} // verus!
