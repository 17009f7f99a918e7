//! The decisions of a supervisor that puts a pool of plumber workers, R
//! processes that serve one API each, behind a single address.
//!
//! Nothing here waits, spawns or sends: each module says what is to be done and
//! takes in how it went.
//!
//! - `start`: what the supervisor is started with.
//! - `plumber`: workers, how they are launched, checked on and handed requests.
//! - `port`: the search for a port that a worker can listen on.
//! - `output`: what a worker prints, and when it counts as ready.
//! - `pool`: how many workers there are, and which are let go.
//! - `handler`: a request and the worker that it borrows.
//! - `proxy`: a request's way to a worker and back.
//! - `uri`: a request's address at its worker.
//! - `lifetime`: why no worker outlives the supervisor.
//! - `text`: the text that all of these write.

pub mod handler;
pub mod lifetime;
pub mod output;
pub mod plumber;
pub mod pool;
pub mod port;
pub mod proxy;
pub mod start;
pub mod text;
pub mod uri;
