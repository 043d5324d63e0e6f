pub mod get_init_config_file_text;
pub mod get_plugin_config_map;
