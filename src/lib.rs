//! Decisions of a pull-request evaluation worker: what to report, which
//! labels to set and which builds to schedule, given what the code host,
//! the checkout and the package evaluator answered.
pub mod text;
pub mod commits;
pub mod order;
pub mod issue;
pub mod labels;
pub mod stdenvs;
pub mod outpaths;
pub mod job;
pub mod checks;
pub mod taggers;
pub mod strategy;
pub mod effects;
pub mod pipeline;
