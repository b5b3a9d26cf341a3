//! The decisions of a controller that keeps third-party ML2 mechanism drivers of Neutron installed.
//!
//! The controller guards one Deployment. In each reconcile pass it checks every configured driver
//! and repairs those that are absent; in a dry run it only says what it would do, and takes out what
//! it has installed before. The library decides what to ask of the cluster and what the answers mean;
//! the program around it talks to the cluster.
//!
//! - [`config`], [`error`]: the settings and the errors.
//! - [`k8s`]: what is read out of the objects of the cluster, and the patches.
//! - [`wheelcache`]: the Job that downloads the wheels of a driver.
//! - [`reconcile`]: the edits of Neutron's settings, the check, the repair, the way back, the pass.
//! - [`metrics`], [`hashes`], [`helm`]: the metrics, how they are told apart, and the `helm` command.
//! - [`text`], [`text_lemmas`], [`files`], [`numbers`], [`bytes`], [`json`]: what the others are made of.
//!
//! What holds of every run is stated in the modules whose names end in `laws`.
pub mod bytes;
pub mod command_laws;
pub mod config;
pub mod error;
pub mod files;
pub mod hashes;
pub mod helm;
pub mod json;
pub mod k8s;
pub mod k8s_laws;
pub mod manifest_laws;
pub mod metrics;
pub mod metrics_laws;
pub mod numbers;
pub mod reconcile;
pub mod settings_laws;
pub mod text;
pub mod text_laws;
pub mod text_lemmas;
pub mod wheelcache;
pub mod wheelcache_laws;
