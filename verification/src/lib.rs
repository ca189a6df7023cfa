//! Control plane of a mini-app factory: a store of projects, deployments,
//! workers, credits, promo codes and waitlist entries, together with the
//! decision logic of the deployment pipeline (fleet sizing, worker setup,
//! dispatch, completion watching), the credit ledger with its non-negative
//! balance invariant, pricing, project-ownership synchronisation from NFT
//! transfer events, and the text formats the pipeline exchanges with worker
//! nodes (assignment documents, flakes, authentication messages).

pub mod auth;
pub mod credits;
pub mod database;
pub mod env;
pub mod handlers;
pub mod error;
pub mod json;
pub mod models;
pub mod nft;
pub mod deployments;
pub mod price;
pub mod projects;
pub mod promo_code;
pub mod runner;
pub mod showcase;
pub mod textutil;
pub mod time;
pub mod validation;
pub mod waitlist;
pub mod worker_servers;
