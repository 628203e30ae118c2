//! A linear token-vesting ledger.
//!
//! A company deposits tokens into a treasury and enrolls beneficiaries, each
//! of whom accrues the right to withdraw a linearly increasing share of an
//! allocated total between a start time and an end time, gated by a cliff
//! time before which nothing is claimable.
//!
//! Record identity is a deterministic derivation from the owning entities'
//! seeds (`address`), the schedule arithmetic is exact integer arithmetic
//! with an explicit overflow policy (`schedule`), and the three operations
//! — grant creation, employee enrollment, claiming — act atomically on a
//! persistent record store (`ledger`). The ambient clock and the party that
//! performs real token movement are the caller's concern: operations take
//! the current time as an argument and the store models custodial balances.

pub mod address;
pub mod accounts;
pub mod errors;
pub mod ledger;
pub mod schedule;
