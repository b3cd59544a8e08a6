//! The task pipeline of a mobile network stack.
pub mod anti_avalanche;
pub mod check_promises;
pub mod config;
pub mod core_host;
pub mod core_laws;
pub mod core_pieces;
pub mod core_promises;
pub mod core_steps;
pub mod dynamic_timeout;
pub mod flow_limit;
pub mod frequency_limit;
pub mod history;
pub mod ip_port;
pub mod limit_promises;
pub mod link_connect;
pub mod link_heartbeat;
pub mod link_promises;
pub mod long_link;
pub mod longlink;
pub mod longlink_connect_monitor;
pub mod longlink_identify_checker;
pub mod longlink_metadata;
pub mod longlink_speed_test;
pub mod longlink_task_manager;
pub mod monitor_promises;
pub mod net_check_logic;
pub mod net_core;
pub mod net_route;
pub mod net_source;
pub mod netsource_timercheck;
pub mod piece_promises;
pub mod proxy_test;
pub mod queue_host;
pub mod queue_laws;
pub mod queue_promises;
pub mod queue_spec;
pub mod race_promises;
pub mod source_items;
pub mod source_promises;
pub mod task;
pub mod task_profile;
pub mod text_map;
pub mod unwired;
