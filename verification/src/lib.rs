//! Chat-bot dispatch runtime: an admission guard, an ordered plugin stack,
//! a multi-turn interaction engine (the reminder flow), and the control-side
//! logic of background tracker workers. Outbound traffic and persistence are
//! returned as plain values; the surrounding process performs the I/O.

pub mod clock;
pub mod dispatch;
pub mod guard;
pub mod manager;
pub mod name_map;
pub mod message;
pub mod reminder;
pub mod session;
pub mod tg_logger;
pub mod time;
pub mod timer;
pub mod tracker;
pub mod types;
pub mod util;
