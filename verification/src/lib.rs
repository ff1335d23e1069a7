//! Project Butler: the verified core of a launcher that groups development
//! commands into projects, starts them and follows their output.

pub mod text;
pub mod lookup;
pub mod trusted;
pub mod config;
pub mod forms;
pub mod process;
pub mod toast;
pub mod dashboard;
pub mod view;
