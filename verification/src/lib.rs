//! japanx: the typed layer for Bank of Japan source facts.
//!
//! It holds the twelve declared `JP.*` metric codes and their canonical shape
//! `JP.<category>.<indicator>[.<sub-dimension>]`, periods (with the ten-day
//! period) and frequencies, the source unit kept verbatim, the checks applied
//! to offline data point documents and TOML source definitions once read, and
//! a fail-closed authorization decision.
//!
//! It collects nothing over the network, converts no unit, derives no
//! indicator and transcodes nothing. This source has no owner sign-off on
//! record, so its authorization decision is always `Denied`.
pub mod authz;
pub mod error;
pub mod parse;
pub mod pit;
pub mod text;
pub mod value;

pub use authz::{
    current_authorization, decide_authorization, ensure_authorized, registered_evidence,
    JapanCbAuthorization, JapanCbAuthorizationEvidence,
};
pub use error::{JapanCbError, JapanCbErrorKind, JapanCbResult};
pub use parse::document::{
    annotate, data_point_from_record, data_points_from_document, describe_json_error,
    json_reading_error, DataPointDocument, DataPointRecord, JsonErrorCategory,
};
pub use parse::source_definition::{
    describe_toml_error, source_definition_from_record, toml_reading_error,
    JapanCbSourceDefinition, SourceDefinitionRecord,
    PARSER_INPUT_ENCODING, SOURCE_ENCODING_SHIFT_JIS, SOURCE_KIND_CSV_DOWNLOAD,
};
pub use pit::{
    publication_for_period, publication_semantics, AvailabilityEvidence, PitEligibility,
    TimePrecision,
};
pub use value::datapoint::{
    ensure_no_converted_or_derived_field, validate_data_point, DataPointValue, JapanCbDataPoint,
    JapanCbMissingReason, Revision, Unit, SOURCE_UNIT_HUNDRED_MILLION_YEN,
};
pub use value::date::Date;
pub use value::metric::{
    claim_curve_authority, claim_forwarded_series_sovereignty, is_declared_metric_code,
    reject_excluded_fx_symbol, reject_silent_fx_substitution, validate_metric_code,
    JapanCbMetricCode, MetricCategory, DECLARED_METRIC_CODES, EXCLUDED_FX_SYMBOLS,
    FRED_EXCLUSIVE_FX_SERIES, JP_BS_ETF_HOLDINGS, JP_BS_JGB_HOLDINGS, JP_BS_TOTAL_ASSETS,
    JP_CA_EXCESS_RESERVES, JP_CA_TOTAL, JP_FX_INTERVENTION, JP_IR_POLICY_RATE, JP_IR_TONA,
    JP_MB_TOTAL, JP_MO_JGB_PURCHASE, JP_MS_M2, JP_TK_LARGE_MFG_DI,
};
pub use value::period::{Frequency, Period};
