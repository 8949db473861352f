//! A small payroll model: employees paid by salary or by the hour, and a
//! manager who records their hours and pays them out.
//!
//! Amounts of money are integers counted in cents.

pub mod employees;
pub mod manager;
pub mod commands;
