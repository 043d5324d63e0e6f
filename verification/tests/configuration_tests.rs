use dprint_core::configuration::get_init_config_file_text::{
    check_info_file, get_init_config_file_text, get_selection_items, get_unique_items, join, select_plugins,
    InfoFile, InfoFilePluginInfo,
};
use dprint_core::configuration::get_plugin_config_map::{
    get_plugin_config_map, ConfigKeyMap, ConfigKeyValue, ConfigMap, ConfigMapValue,
};

fn strings(items: &[&str]) -> Vec<String> {
    items.iter().map(|item| item.to_string()).collect()
}

fn plugin(
    name: &str,
    version: &str,
    url: &str,
    config_key: Option<&str>,
    file_extensions: &[&str],
    file_names: &[&str],
    config_excludes: &[&str],
    checksum: Option<&str>,
) -> InfoFilePluginInfo {
    InfoFilePluginInfo {
        name: name.to_string(),
        version: version.to_string(),
        url: url.to_string(),
        config_key: config_key.map(|key| key.to_string()),
        file_extensions: strings(file_extensions),
        file_names: strings(file_names),
        config_excludes: strings(config_excludes),
        checksum: checksum.map(|checksum| checksum.to_string()),
    }
}

fn get_multi_plugins_config() -> InfoFile {
    InfoFile {
        plugin_system_schema_version: 3,
        latest_plugins: vec![
            plugin(
                "dprint-plugin-typescript",
                "0.17.2",
                "https://plugins.dprint.dev/typescript-0.17.2.wasm",
                Some("typescript"),
                &["ts", "tsx"],
                &[],
                &["**/something"],
                None,
            ),
            plugin(
                "dprint-plugin-jsonc",
                "0.2.3",
                "https://plugins.dprint.dev/json-0.2.3.wasm",
                Some("json"),
                &["json"],
                &[],
                &["**/*-asdf.json"],
                None,
            ),
            plugin(
                "dprint-plugin-final",
                "0.1.2",
                "https://plugins.dprint.dev/final-0.1.2.wasm",
                None,
                &["tsx", "rs"],
                &["Cargo.toml"],
                &["**/something", "**other"],
                None,
            ),
            plugin(
                "dprint-process-plugin",
                "0.1.0",
                "https://plugins.dprint.dev/process-0.1.0.exe-plugin",
                None,
                &["ps"],
                &[],
                &[],
                Some("test-checksum"),
            ),
        ],
    }
}

fn get_text_for_selection(info: Result<InfoFile, String>, selection: Vec<usize>) -> (String, Option<String>) {
    let (info, message) = check_info_file(info);
    let selected_plugins = info.map(|info| {
        assert!(selection.iter().all(|index| *index < info.latest_plugins.len()));
        select_plugins(&info.latest_plugins, &selection)
    });
    (get_init_config_file_text(&selected_plugins), message)
}

#[test]
fn should_get_initialization_text_when_can_access_url() {
    let (text, message) = get_text_for_selection(Ok(get_multi_plugins_config()), vec![0, 1, 2]);
    assert_eq!(
        text,
        r#"{
  "incremental": true,
  "typescript": {
  },
  "json": {
  },
  "includes": ["**/*.{ts,tsx,json,rs}","**/{Cargo.toml}"],
  "excludes": [
    "**/something",
    "**/*-asdf.json",
    "**other"
  ],
  "plugins": [
    "https://plugins.dprint.dev/typescript-0.17.2.wasm",
    "https://plugins.dprint.dev/json-0.2.3.wasm",
    "https://plugins.dprint.dev/final-0.1.2.wasm"
  ]
}
"#
    );
    assert_eq!(message, None);
}

#[test]
fn should_get_initialization_text_when_selecting_one_plugin() {
    let (text, message) = get_text_for_selection(Ok(get_multi_plugins_config()), vec![1]);
    assert_eq!(
        text,
        r#"{
  "incremental": true,
  "json": {
  },
  "includes": ["**/*.{json}"],
  "excludes": [
    "**/*-asdf.json"
  ],
  "plugins": [
    "https://plugins.dprint.dev/json-0.2.3.wasm"
  ]
}
"#
    );
    assert_eq!(message, None);
}

#[test]
fn should_get_initialization_text_when_selecting_no_plugins() {
    let (text, message) = get_text_for_selection(Ok(get_multi_plugins_config()), vec![]);
    assert_eq!(
        text,
        r#"{
  "incremental": true,
  "includes": ["**/*.*"],
  "excludes": [],
  "plugins": [
    // specify plugin urls here
  ]
}
"#
    );
    assert_eq!(message, None);
}

#[test]
fn should_get_initialization_text_when_selecting_process_plugin() {
    let (text, message) = get_text_for_selection(Ok(get_multi_plugins_config()), vec![3]);
    assert_eq!(
        text,
        r#"{
  "incremental": true,
  "includes": ["**/*.{ps}"],
  "excludes": [],
  "plugins": [
    "https://plugins.dprint.dev/process-0.1.0.exe-plugin@test-checksum"
  ]
}
"#
    );
    assert_eq!(message, None);
}

#[test]
fn should_get_initialization_text_when_cannot_access_url() {
    let (text, message) = get_text_for_selection(
        Err(String::from("Could not find file at url https://plugins.dprint.dev/info.json")),
        vec![],
    );
    assert_eq!(
        text,
        r#"{
  "incremental": true,
  "includes": ["**/*.{ts,tsx,js,jsx,json}"],
  "excludes": [
    "**/node_modules",
    "**/*-lock.json"
  ],
  "plugins": [
    // specify plugin urls here
  ]
}
"#
    );
    let mut expected_message = String::new();
    expected_message.push_str("There was a problem getting the latest plugin info. ");
    expected_message.push_str("The created config file may not be as helpful of a starting point. ");
    expected_message.push_str("Error: Could not find file at url https://plugins.dprint.dev/info.json");
    assert_eq!(message, Some(expected_message));
}

#[test]
fn should_get_initialization_text_when_selecting_other_option() {
    let info = InfoFile {
        plugin_system_schema_version: 3,
        latest_plugins: vec![plugin(
            "dprint-plugin-typescript",
            "0.17.2",
            "https://plugins.dprint.dev/typescript-0.17.2.wasm",
            Some("typescript"),
            &["ts"],
            &[],
            &["test"],
            None,
        )],
    };
    let (text, message) = get_text_for_selection(Ok(info), vec![0]);
    assert_eq!(
        text,
        r#"{
  "incremental": true,
  "typescript": {
  },
  "includes": ["**/*.{ts}"],
  "excludes": [
    "test"
  ],
  "plugins": [
    "https://plugins.dprint.dev/typescript-0.17.2.wasm"
  ]
}
"#
    );
    assert_eq!(message, None);
}

#[test]
fn should_get_initialization_text_when_old_plugin_system() {
    let info = InfoFile {
        plugin_system_schema_version: 9, // this is 9 instead of 3
        latest_plugins: vec![plugin(
            "dprint-plugin-typescript",
            "0.17.2",
            "https://plugins.dprint.dev/typescript-0.17.2.wasm",
            Some("typescript"),
            &["ts"],
            &[],
            &["asdf"],
            None,
        )],
    };
    let (text, message) = get_text_for_selection(Ok(info), vec![0]);
    assert_eq!(
        text,
        r#"{
  "incremental": true,
  "includes": ["**/*.{ts,tsx,js,jsx,json}"],
  "excludes": [
    "**/node_modules",
    "**/*-lock.json"
  ],
  "plugins": [
    // specify plugin urls here
  ]
}
"#
    );
    let mut expected_message = String::new();
    expected_message
        .push_str("You are using an old version of dprint so the created config file may not be as helpful of a starting point. ");
    expected_message.push_str("Consider upgrading to support new plugins. ");
    expected_message.push_str("Plugin system schema version is 3, latest is 9.");
    assert_eq!(message, Some(expected_message));
}

#[test]
fn old_plugin_system_message_writes_all_digits() {
    let info = InfoFile { plugin_system_schema_version: 4294967295, latest_plugins: vec![] };
    let (_, message) = check_info_file(Ok(info));
    assert!(message.unwrap().ends_with("Plugin system schema version is 3, latest is 4294967295."));
    let info = InfoFile { plugin_system_schema_version: 120, latest_plugins: vec![] };
    let (_, message) = check_info_file(Ok(info));
    assert!(message.unwrap().ends_with("latest is 120."));
}

#[test]
fn selection_offers_all_but_process_plugins() {
    let info = get_multi_plugins_config();
    let items = get_selection_items(&info.latest_plugins);
    assert_eq!(
        items,
        vec![
            (true, String::from("dprint-plugin-typescript")),
            (true, String::from("dprint-plugin-jsonc")),
            (true, String::from("dprint-plugin-final")),
            (false, String::from("dprint-process-plugin")),
        ]
    );
}

#[test]
fn unique_items_keep_the_first_of_each() {
    assert_eq!(get_unique_items(strings(&["b", "a", "b", "c", "a"])), strings(&["b", "a", "c"]));
    assert_eq!(get_unique_items(Vec::new()), Vec::<String>::new());
}

#[test]
fn join_puts_the_separator_between() {
    assert_eq!(join(&strings(&["a", "b", "c"]), ", "), "a, b, c");
    assert_eq!(join(&strings(&["a"]), ", "), "a");
    assert_eq!(join(&Vec::new(), ", "), "");
}

fn number(value: i32) -> ConfigMapValue {
    ConfigMapValue::KeyValue(ConfigKeyValue::Number(value))
}

#[test]
fn it_should_get_config_for_plugin() {
    let ts_config_map = || ConfigKeyMap { entries: vec![(String::from("lineWidth"), ConfigKeyValue::Number(40))] };
    let mut config_map = ConfigMap {
        entries: vec![
            (String::from("lineWidth"), number(80)),
            (String::from("typescript"), ConfigMapValue::HashMap(ts_config_map())),
        ],
    };
    let result = get_plugin_config_map("typescript", &mut config_map).unwrap();
    assert_eq!(result, ts_config_map());
    assert_eq!(config_map.find("typescript").is_some(), false);
    assert_eq!(config_map.entries, vec![(String::from("lineWidth"), number(80))]);
}

#[test]
fn it_should_error_plugin_key_is_not_object() {
    let mut config_map = ConfigMap {
        entries: vec![
            (String::from("lineWidth"), number(80)),
            (String::from("typescript"), ConfigMapValue::KeyValue(ConfigKeyValue::String(String::from("")))),
        ],
    };
    let result = get_plugin_config_map("typescript", &mut config_map);
    assert_eq!(
        result.err().unwrap(),
        format!(
            "Error initializing from configuration file. {}",
            "Expected the configuration property 'typescript' to be an object."
        )
    );
}

#[test]
fn it_should_get_no_config_without_a_property() {
    let mut config_map = ConfigMap { entries: vec![(String::from("lineWidth"), number(80))] };
    let result = get_plugin_config_map("typescript", &mut config_map).unwrap();
    assert_eq!(result, ConfigKeyMap { entries: vec![] });
    assert_eq!(config_map.entries.len(), 1);
}
