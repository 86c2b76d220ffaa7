//! A task manager with a pomodoro timer: the logic of its pages and server,
//! and the RESP protocol by which it keeps timers in Redis.
use vstd::prelude::*;

pub mod backend;
pub mod pomodoro;
pub mod pomodoro_laws;
pub mod redis;
pub mod resp;
pub mod resp_laws;
pub mod session;
pub mod task;
pub mod text;

verus! {

} // verus!
