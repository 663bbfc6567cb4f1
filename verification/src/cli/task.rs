//! Tasks: what they exchange and the commands they build.

pub mod cassandra_ctl_task;
pub mod config_fields;
pub mod copy_task;
pub mod db_update_log_task;
pub mod exec_custom_cmd;
pub mod monograph_install_task;
pub mod monograph_log_ctl_task;
pub mod runtime_deps_install;
pub mod scale_log_cleanup_task;
pub mod ssh_check_task;
pub mod task_base;
pub mod task_group;
pub mod topology_display_task;
pub mod topology_update_task;
pub mod unpack_file_task;
pub mod upload;
pub mod upload_task;
