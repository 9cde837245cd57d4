//! Client library for a solar inverter telemetry service: request signing,
//! session handling and decoding of the service's `{id, val}` field arrays.

pub mod api;
pub mod fields;
pub mod json;
pub mod records;
pub mod signer;
pub mod text;

pub use api::{ApiError, WatchPowerAPI, WatchPowerDeviceParams};
pub use json::Json;
pub use fields::{DecodeError, FieldEntry, FieldKind, FieldSpec, FieldValue};
pub use records::{
    Date, WatchPowerLastData, WatchPowerLastDataGrid, WatchPowerLastDataMain, WatchPowerLastDataPV,
    WatchPowerLastDataSystem,
};
pub use text::Decimal;
