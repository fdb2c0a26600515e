//! Agent memory backed by a Verifiable Trust Agent.
//!
//! The program around this library is a thin front end: a tool server, a setup
//! flow, and a handful of one-shot commands. What they decide is here, without
//! any transport, file or clock of its own, so that what matters can be stated
//! and proved.
//!
//! Start at [`record`] and [`rank`]: the key encoding and the ranking there are
//! where the design decisions live. [`store`] says what is asked of the agent's
//! memory and what is made of its answers; [`server`], [`answers`] and [`cli`] say
//! what a model and a person are told; [`fence`] keeps recalled text from passing for
//! instructions. [`setup`], [`enrol`], [`pnm`], [`config`] and [`lazy`] get a
//! machine connected and keep it that way.
//!
//! What holds of several functions together is stated beside them, or in the
//! modules whose names end in `_laws`.

pub mod answer_laws;
pub mod answers;
pub mod cli;
pub mod cli_laws;
pub mod config;
pub mod enrol;
pub mod fence;
pub mod fence_laws;
pub mod files;
pub mod json;
pub mod lazy;
pub mod listing;
pub mod listing_laws;
pub mod lists;
pub mod onboarding_laws;
pub mod order;
pub mod pnm;
pub mod rank;
pub mod recall_laws;
pub mod record;
pub mod record_laws;
pub mod save_laws;
pub mod server;
pub mod setup;
pub mod store;
pub mod store_laws;
pub mod text;
pub mod text_laws;
pub mod view_laws;
