//! Core logic of a coordination system for medical-care robots: a FIFO task
//! queue, exclusive zone ownership, heartbeat-based offline detection, the
//! occupancy metrics of a simulation run, command-line parsing, and the layout
//! of debug log lines.

pub mod task;
pub mod task_queue;
pub mod health_monitor;
pub mod zones;
pub mod zone_metrics;
pub mod text;
pub mod cli;
pub mod sim;
pub mod log_format;
