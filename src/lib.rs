//! Loading, splitting and checking a tabular housing dataset for a linear
//! regression run.
mod checks;
mod dataset;
mod number;
mod record;
mod split;

pub use checks::{check_fit_inputs, check_predict_inputs, check_score_inputs, FitError, PredictError, ScoreError};
pub use dataset::{scan_line, scan_records, split_fields, split_lines, LoadError, FIELD_COUNT};
pub use number::is_number_field;
pub use record::{records_from_rows, feature_matrix_data, target_data, BostonHousing, FEATURE_COUNT};
pub use split::{lemma_seeded_split_reproducible, shuffle_and_split, test_count};
