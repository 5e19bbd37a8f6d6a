//! Verified core of the Zenoh Hammer tool: the data model, the page state
//! machines and the payload logic behind its user interface.

pub mod outside;

pub mod archive_file;
pub mod data_viewer;
pub mod hammer_app;
pub mod hex_viewer;
pub mod id_list;
pub mod image_data;
pub mod key_map;
pub mod page_get;
pub mod page_pub;
pub mod page_put;
pub mod page_session;
pub mod page_sub;
pub mod payload_editor;
pub mod reply_viewer;
pub mod sample_viewer;
pub mod task_zenoh;
pub mod text;
pub mod zenoh_data;
