//! Exact, float-free core of an N-body gravitational simulator: the
//! Runge-Kutta-Fehlberg tableau, the initial-condition file grammar, the
//! layout of trajectory tables, and small text utilities they share.
pub mod files;
pub mod text;
pub mod config;
pub mod integrator;
pub mod trajectory;
