use vstd::prelude::*;

verus! {

/// A value of a plugin's configuration.
#[derive(Debug, PartialEq)]
pub enum ConfigKeyValue {
    String(String),
    Number(i32),
    Bool(bool),
}

/// The configuration of one plugin: its properties in the order of the
/// configuration file.
#[derive(Debug, PartialEq)]
pub struct ConfigKeyMap {
    pub entries: Vec<(String, ConfigKeyValue)>,
}

/// A value of the configuration file.
#[derive(Debug, PartialEq)]
pub enum ConfigMapValue {
    KeyValue(ConfigKeyValue),
    HashMap(ConfigKeyMap),
    Vec(Vec<String>),
}

/// The configuration file: its properties in their order.
#[derive(Debug, PartialEq)]
pub struct ConfigMap {
    pub entries: Vec<(String, ConfigMapValue)>,
}

/// Where the first property named `key` stands among the entries from
/// `from` on; the number of entries when there is none.
pub open spec fn index_of_key(entries: Seq<(String, ConfigMapValue)>, key: Seq<char>, from: int) -> int
    decreases entries.len() - from,
{
    if from < 0 || from >= entries.len() {
        entries.len() as int
    } else if entries[from].0@ == key {
        from
    } else {
        index_of_key(entries, key, from + 1)
    }
}

/// What is said when the property for a plugin is not an object.
pub open spec fn not_an_object_message(config_key: Seq<char>) -> Seq<char> {
    "Error initializing from configuration file. "@ + "Expected the configuration property '"@ + config_key
        + "' to be an object."@
}

impl ConfigMap {
    /// Where the first property named `key` stands; `None` when there is
    /// none.
    pub fn find(&self, key: &str) -> (index: Option<usize>)
        ensures
            match index {
                Some(index) => index < self.entries@.len() && index == index_of_key(self.entries@, key@, 0),
                None => index_of_key(self.entries@, key@, 0) == self.entries@.len(),
            },
    {
        let wanted = key.to_owned();
        let mut index: usize = 0;
        while index < self.entries.len()
            invariant
                wanted@ == key@,
                index <= self.entries@.len(),
                index_of_key(self.entries@, key@, index as int) == index_of_key(self.entries@, key@, 0),
            decreases self.entries@.len() - index,
        {
            if self.entries[index].0 == wanted {
                return Some(index);
            }
            index = index + 1;
        }
        None
    }
}

/// Takes the configuration of the plugin out of the configuration file:
/// the object under the plugin's key. Without such a property the plugin
/// has no configuration; a property that is no object is an error.
pub fn get_plugin_config_map(config_key: &str, config_map: &mut ConfigMap) -> (result: Result<ConfigKeyMap, String>)
    ensures
        ({
            let index = index_of_key(old(config_map).entries@, config_key@, 0);
            if index == old(config_map).entries@.len() {
                &&& final(config_map).entries@ == old(config_map).entries@
                &&& result is Ok
                &&& result.unwrap().entries@.len() == 0
            } else {
                &&& final(config_map).entries@ == old(config_map).entries@.remove(index)
                &&& match old(config_map).entries@[index].1 {
                    ConfigMapValue::HashMap(plugin_config_map) => result == Ok::<ConfigKeyMap, String>(
                        plugin_config_map,
                    ),
                    _ => result is Err && result.unwrap_err()@ == not_an_object_message(config_key@),
                }
            }
        }),
{
    match config_map.find(config_key) {
        Some(index) => {
            let entry = config_map.entries.remove(index);
            match entry.1 {
                ConfigMapValue::HashMap(plugin_config_map) => Ok(plugin_config_map),
                _ => {
                    let mut message = String::from_str("Error initializing from configuration file. ");
                    message.append("Expected the configuration property '");
                    message.append(config_key);
                    message.append("' to be an object.");
                    assert(message@ =~= not_an_object_message(config_key@));
                    Err(message)
                },
            }
        },
        None => Ok(ConfigKeyMap { entries: Vec::new() }),
    }
}

} // verus!
