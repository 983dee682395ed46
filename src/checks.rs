use vstd::prelude::*;

verus! {

/// Why a score cannot be computed.
#[derive(Debug, Clone, Copy, PartialEq, Eq, Structural)]
pub enum ScoreError {
    /// The true values and the predictions differ in number.
    LengthMismatch,
    /// There is nothing to score.
    EmptyInput,
    /// All true values are equal, so R² has a zero denominator.
    R2Undefined,
}

/// Why a model cannot be fitted.
#[derive(Debug, Clone, Copy, PartialEq, Eq, Structural)]
pub enum FitError {
    /// There are no training rows.
    InsufficientData,
    /// The feature matrix and the target vector differ in rows.
    LengthMismatch,
    /// The feature columns are linearly dependent.
    SingularMatrix,
}

/// Why a fitted model cannot predict.
#[derive(Debug, Clone, Copy, PartialEq, Eq, Structural)]
pub enum PredictError {
    /// The input has another number of columns than the model was fitted on.
    DimensionMismatch,
}

/// Whether `n_true` true values and `n_pred` predictions can be scored.
pub fn check_score_inputs(n_true: usize, n_pred: usize) -> (r: Result<(), ScoreError>)
    ensures
        r == Err::<(), ScoreError>(ScoreError::LengthMismatch) <==> n_true != n_pred,
        r == Err::<(), ScoreError>(ScoreError::EmptyInput) <==> n_true == n_pred && n_true == 0,
        r is Ok <==> n_true == n_pred && n_true > 0,
{
    if n_true != n_pred {
        Err(ScoreError::LengthMismatch)
    } else if n_true == 0 {
        Err(ScoreError::EmptyInput)
    } else {
        Ok(())
    }
}

/// Whether a feature matrix of `rows` rows and a target vector of `n_targets`
/// values can be fitted.
pub fn check_fit_inputs(rows: usize, n_targets: usize) -> (r: Result<(), FitError>)
    ensures
        r == Err::<(), FitError>(FitError::InsufficientData) <==> rows == 0,
        r == Err::<(), FitError>(FitError::LengthMismatch) <==> rows > 0 && rows != n_targets,
        r is Ok <==> rows > 0 && rows == n_targets,
{
    if rows == 0 {
        Err(FitError::InsufficientData)
    } else if rows != n_targets {
        Err(FitError::LengthMismatch)
    } else {
        Ok(())
    }
}

/// Whether a model fitted on `fitted_cols` columns can predict for an input
/// of `cols` columns.
pub fn check_predict_inputs(fitted_cols: usize, cols: usize) -> (r: Result<(), PredictError>)
    ensures
        r is Ok <==> fitted_cols == cols,
        r == Err::<(), PredictError>(PredictError::DimensionMismatch) <==> fitted_cols != cols,
{
    if fitted_cols != cols {
        Err(PredictError::DimensionMismatch)
    } else {
        Ok(())
    }
}

} // verus!
