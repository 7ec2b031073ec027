//! Online time-series forecasting: the past values, residuals and coefficients of ARMA and ARFIMA
//! models. Numbers stand as the bits of doubles.
pub mod arima;
pub mod arma;
pub mod lags;
