//! Operating-system services: time, timers, semaphores, tasks.
pub mod instant_order;
pub mod mail;
pub mod semaphore;
pub mod task;
pub mod time;
pub mod timers;

pub use self::mail::RecvTimeoutError;
pub use self::semaphore::Semaphore;
pub use self::task::make_c_str;
pub use self::time::{Duration, Instant, Offset};
pub use self::timers::TimerId;
