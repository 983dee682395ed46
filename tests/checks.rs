use housing_regression::{
    check_fit_inputs, check_predict_inputs, check_score_inputs, FitError, PredictError, ScoreError,
};

#[test]
fn score_inputs() {
    assert_eq!(check_score_inputs(3, 3), Ok(()));
    assert_eq!(check_score_inputs(3, 2), Err(ScoreError::LengthMismatch));
    assert_eq!(check_score_inputs(0, 1), Err(ScoreError::LengthMismatch));
    assert_eq!(check_score_inputs(0, 0), Err(ScoreError::EmptyInput));
}

#[test]
fn fit_inputs() {
    assert_eq!(check_fit_inputs(4, 4), Ok(()));
    assert_eq!(check_fit_inputs(0, 0), Err(FitError::InsufficientData));
    assert_eq!(check_fit_inputs(4, 3), Err(FitError::LengthMismatch));
}

#[test]
fn predict_inputs() {
    assert_eq!(check_predict_inputs(13, 13), Ok(()));
    assert_eq!(check_predict_inputs(13, 12), Err(PredictError::DimensionMismatch));
}
