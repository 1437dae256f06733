//! Planning core of an active-learning scheduler for machine-learned interatomic potentials.
pub mod backend;
pub mod binary64;
pub mod call_laws;
pub mod calls;
pub mod command_laws;
pub mod config;
pub mod config_laws;
pub mod consistency;
pub mod copying;
pub mod data;
pub mod data_laws;
pub mod dataset;
pub mod determinism;
pub mod disagreement;
pub mod dump;
pub mod dump_laws;
pub mod effects;
pub mod evaluation_laws;
pub mod fields;
pub mod home_laws;
pub mod job;
pub mod job_laws;
pub mod job_run;
pub mod job_script;
pub mod literals;
pub mod mock_laws;
pub mod mock_run;
pub mod number;
pub mod order;
pub mod os_path;
pub mod paths;
pub mod pipeline;
pub mod preflight;
pub mod preflight_laws;
pub mod preparation;
pub mod reading_back;
pub mod refusal_laws;
pub mod report;
pub mod report_laws;
pub mod requirement_laws;
pub mod run_laws;
pub mod runner;
pub mod runner_laws;
pub mod selection;
pub mod selection_laws;
pub mod species;
pub mod species_laws;
pub mod structure;
pub mod text;
pub mod text_laws;
pub mod traces;
pub mod trajectory;
pub mod trajectory_reading;
pub mod watching;
