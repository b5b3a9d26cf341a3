//! The reconcile pass: the edits of Neutron's settings and of its start script, the check of a driver,
//! its repair, the way back from a repair, and the pass over all drivers.
pub mod actions;
pub mod check;
pub mod check_laws;
pub mod edit_laws;
pub mod line_laws;
pub mod ml2_conf;
pub mod ml2_conf_lemmas;
pub mod pass_laws;
pub mod record;
pub mod record_laws;
pub mod repair;
pub mod repair_laws;
pub mod revert;
pub mod revert_laws;
pub mod run;
pub mod run_laws;
pub mod script_laws;
pub mod server_script;
pub mod state;
pub mod step_laws;
pub mod wheel_laws;

pub use crate::reconcile::check::{check_present, check_present_next, other_debug, CheckResult};
pub use crate::reconcile::ml2_conf::{
    add_driver_to_ml2_conf, mechanism_drivers_line_includes, remove_driver_from_ml2_conf,
};
pub use crate::reconcile::repair::describe_intended_repair;
pub use crate::reconcile::run::run_once;
pub use crate::reconcile::server_script::{add_config_dir_flag, remove_config_dir_flag};
pub use crate::reconcile::state::{bump_failure, ReconcileState};
