pub mod stopper;
pub mod timer;
pub mod util;
pub mod wide;
