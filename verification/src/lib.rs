//! Verified core of the Neomacs runtime and of its build driver.
pub mod bootstrap_vars;
pub mod buffer_laws;
pub mod build_laws;
pub mod build_options;
pub mod delete_laws;
pub mod disk;
pub mod driver;
pub mod fingerprint;
pub mod frame_delete;
pub mod frame_gui;
pub mod frame_laws;
pub mod frame_make;
pub mod frame_size;
pub mod generation;
pub mod geometry_laws;
pub mod history_laws;
pub mod image_laws;
pub mod jit_cache;
pub mod jit_dispatch;
pub mod jit_laws;
pub mod job_laws;
pub mod lisp;
pub mod lisp_jobs;
pub mod lisp_tree;
pub mod list_laws;
pub mod local_socket;
pub mod logging;
pub mod makefile;
pub mod make_laws;
pub mod measure_laws;
pub mod option_laws;
pub mod path_laws;
pub mod paths;
pub mod pipeline;
pub mod place_laws;
pub mod plan_laws;
pub mod query_laws;
pub mod record_laws;
pub mod repo_policy;
pub mod rule_laws;
pub mod scroll_laws;
pub mod select_laws;
pub mod session;
pub mod setting_laws;
pub mod size_laws;
pub mod socket_laws;
pub mod stage_laws;
pub mod text;
pub mod text_laws;
pub mod tree_laws;
pub mod value_laws;
pub mod waves;
pub mod window_buffers;
pub mod window_geometry;
pub mod window_lists;
pub mod window_measures;
pub mod window_queries;
pub mod window_scroll;
pub mod window_select;
pub mod window_state;
