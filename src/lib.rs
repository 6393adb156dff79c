//! Appointment scheduling for an admissions queue: slot allocation, an
//! in-memory booking store with capacity checks, a challenge gate, the
//! per-applicant conversation state machine and the notification rules.

pub mod calendar;
pub mod captcha;
pub mod dialogue;
pub mod notifier;
pub mod parser;
pub mod slots;
pub mod store;
pub mod text;
pub mod validate;
pub mod web;
