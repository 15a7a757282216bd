pub mod backend_p3;
pub mod backend_wf;
pub mod bytes;
pub mod field;
pub mod report;
pub mod runner;
pub mod timing;
pub mod workload;
