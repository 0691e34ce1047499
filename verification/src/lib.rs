pub mod drive_commands;
pub mod edges;
pub mod landmark_classifier;
pub mod map_mirror;
pub mod map_updater;
pub mod msg;
pub mod navigation;
pub mod openvslam;
pub mod paths;
pub mod robot_params_echo;
pub mod saved_images;
pub mod settings;
pub mod signal_map;
pub mod system_info;
pub mod teleop;
pub mod types;
pub mod ui_state;
pub mod utils;
