use crate::formatting::text::push_char;
use vstd::prelude::*;

verus! {

/// What the list of the latest plugins says of one plugin.
#[derive(Debug)]
pub struct InfoFilePluginInfo {
    pub name: String,
    pub version: String,
    pub url: String,
    pub config_key: Option<String>,
    pub file_extensions: Vec<String>,
    pub file_names: Vec<String>,
    pub config_excludes: Vec<String>,
    pub checksum: Option<String>,
}

/// The list of the latest plugins.
#[derive(Debug)]
pub struct InfoFile {
    pub plugin_system_schema_version: u32,
    pub latest_plugins: Vec<InfoFilePluginInfo>,
}

/// The plugin system schema version that this version understands.
pub const PLUGIN_SYSTEM_SCHEMA_VERSION: u32 = 3;

/// What each of the strings reads.
pub open spec fn texts_of(strings: Seq<String>) -> Seq<Seq<char>> {
    Seq::new(strings.len(), |i: int| strings[i]@)
}

/// The parts one after the other, with the separator between them.
pub open spec fn joined(parts: Seq<Seq<char>>, separator: Seq<char>) -> Seq<char>
    decreases parts.len(),
{
    if parts.len() == 0 {
        Seq::empty()
    } else if parts.len() == 1 {
        parts[0]
    } else {
        joined(parts.drop_last(), separator) + separator + parts.last()
    }
}

/// The items in their order, each only where it comes first.
pub open spec fn unique_items(items: Seq<Seq<char>>) -> Seq<Seq<char>>
    decreases items.len(),
{
    if items.len() == 0 {
        Seq::empty()
    } else {
        let before = unique_items(items.drop_last());
        if before.contains(items.last()) {
            before
        } else {
            before.push(items.last())
        }
    }
}

/// Whether the text ends with `end`.
pub open spec fn ends_with(text: Seq<char>, end: Seq<char>) -> bool {
    end.len() <= text.len() && text.subrange(text.len() - end.len(), text.len() as int) == end
}

/// Whether the characters end with `end`.
fn chars_end_with(text: &Vec<char>, end: &Vec<char>) -> (found: bool)
    ensures
        found == ends_with(text@, end@),
{
    let text_len = text.len();
    let end_len = end.len();
    if end_len > text_len {
        return false;
    }
    let start = text_len - end_len;
    let mut index: usize = 0;
    while index < end_len
        invariant
            index <= end_len,
            end_len == end@.len(),
            text_len == text@.len(),
            start + end_len == text_len,
            forall|i: int| 0 <= i < index ==> text@[start + i] == end@[i],
        decreases end_len - index,
    {
        if text[start + index] != end[index] {
            assert(text@.subrange(start as int, text_len as int)[index as int] != end@[index as int]);
            return false;
        }
        index = index + 1;
    }
    assert(text@.subrange(start as int, text_len as int) =~= end@);
    true
}

/// Which of a plugin's lists is meant.
#[derive(Clone, Copy)]
pub enum PluginList {
    FileExtensions,
    FileNames,
    ConfigExcludes,
}

impl InfoFilePluginInfo {
    pub open spec fn spec_is_process_plugin(&self) -> bool {
        ends_with(self.url@, ".exe-plugin"@)
    }

    /// Whether the plugin runs as a process of its own: its url says so.
    #[verifier::when_used_as_spec(spec_is_process_plugin)]
    pub fn is_process_plugin(&self) -> (process: bool)
        ensures
            process == self.spec_is_process_plugin(),
    {
        let url = crate::formatting::text::to_chars(self.url.as_str());
        let end = crate::formatting::text::to_chars(".exe-plugin");
        chars_end_with(&url, &end)
    }

    /// The list of the plugin that `list` means.
    pub open spec fn list(&self, list: PluginList) -> Seq<String> {
        match list {
            PluginList::FileExtensions => self.file_extensions@,
            PluginList::FileNames => self.file_names@,
            PluginList::ConfigExcludes => self.config_excludes@,
        }
    }

    /// The url as the configuration file names it: with the checksum for a
    /// process plugin that has one.
    pub open spec fn url_text(&self) -> Seq<char> {
        if self.is_process_plugin() && self.checksum is Some {
            self.url@ + seq!['@'] + self.checksum.unwrap()@
        } else {
            self.url@
        }
    }

    /// The object that the configuration file holds for the plugin's
    /// configuration; nothing when the plugin has no key for it.
    pub open spec fn config_key_text(&self) -> Seq<char> {
        match self.config_key {
            Some(key) => if key@.len() == 0 {
                Seq::empty()
            } else {
                "  \""@ + key@ + "\": {\n"@ + "  },\n"@
            },
            None => Seq::empty(),
        }
    }
}

/// The strings of one list of all the plugins, plugin after plugin.
pub open spec fn all_of(plugins: Seq<InfoFilePluginInfo>, list: PluginList) -> Seq<Seq<char>>
    decreases plugins.len(),
{
    if plugins.len() == 0 {
        Seq::empty()
    } else {
        all_of(plugins.drop_last(), list) + texts_of(plugins.last().list(list))
    }
}

/// The objects for the configuration of the plugins, one after the other.
pub open spec fn config_keys_text(plugins: Seq<InfoFilePluginInfo>) -> Seq<char>
    decreases plugins.len(),
{
    if plugins.len() == 0 {
        Seq::empty()
    } else {
        config_keys_text(plugins.drop_last()) + plugins.last().config_key_text()
    }
}

/// Each of the texts as a line of a list: indented and between quotes.
pub open spec fn quoted_lines(items: Seq<Seq<char>>) -> Seq<Seq<char>> {
    Seq::new(items.len(), |i: int| "    \""@ + items[i] + "\""@)
}

/// What the configuration file includes: the files with one of the
/// plugins' extensions and the files with one of their names; all files
/// when the plugins name neither.
pub open spec fn includes_text(plugins: Seq<InfoFilePluginInfo>) -> Seq<char> {
    let extensions = unique_items(all_of(plugins, PluginList::FileExtensions));
    let names = unique_items(all_of(plugins, PluginList::FileNames));
    let by_extension = "\"**/*.{"@ + joined(extensions, ","@) + "}\""@;
    let by_name = "\"**/{"@ + joined(names, ","@) + "}\""@;
    if extensions.len() > 0 && names.len() > 0 {
        by_extension + ","@ + by_name
    } else if extensions.len() > 0 {
        by_extension
    } else if names.len() > 0 {
        by_name
    } else {
        "\"**/*.*\""@
    }
}

/// What the configuration file excludes: what the plugins ask for, each
/// on a line of its own.
pub open spec fn excludes_text(plugins: Seq<InfoFilePluginInfo>) -> Seq<char> {
    let excludes = unique_items(quoted_lines(all_of(plugins, PluginList::ConfigExcludes)));
    if excludes.len() > 0 {
        "\n"@ + joined(excludes, ",\n"@) + "\n  "@
    } else {
        Seq::empty()
    }
}

/// The urls of the plugins, each on a line of its own.
pub open spec fn plugin_lines(plugins: Seq<InfoFilePluginInfo>) -> Seq<Seq<char>> {
    Seq::new(plugins.len(), |i: int| "    \""@ + plugins[i].url_text() + "\""@)
}

pub open spec fn plugins_text(plugins: Seq<InfoFilePluginInfo>) -> Seq<char> {
    if plugins.len() == 0 {
        "    // specify plugin urls here\n"@
    } else {
        joined(plugin_lines(plugins), ",\n"@) + "\n"@
    }
}

/// The text of a new configuration file for the plugins that were
/// selected; without a selection, one that names no plugin.
pub open spec fn init_config_file_text(selected_plugins: Option<Seq<InfoFilePluginInfo>>) -> Seq<char> {
    "{\n"@ + "  \"incremental\": true,\n"@ + match selected_plugins {
        Some(plugins) => config_keys_text(plugins) + "  \"includes\": ["@ + includes_text(plugins) + "],\n"@
            + "  \"excludes\": ["@ + excludes_text(plugins) + "],\n"@ + "  \"plugins\": [\n"@ + plugins_text(
            plugins,
        ) + "  ]\n}\n"@,
        None => "  \"includes\": [\"**/*.{ts,tsx,js,jsx,json}\"],\n"@
            + "  \"excludes\": [\n    \"**/node_modules\",\n    \"**/*-lock.json\"\n  ],\n"@
            + "  \"plugins\": [\n"@ + "    // specify plugin urls here\n"@ + "  ]\n}\n"@,
    }
}

/// The parts one after the other, with the separator between them.
pub fn join(parts: &Vec<String>, separator: &str) -> (text: String)
    ensures
        text@ == joined(texts_of(parts@), separator@),
{
    let mut text = String::new();
    let mut index: usize = 0;
    while index < parts.len()
        invariant
            index <= parts@.len(),
            text@ == joined(texts_of(parts@).take(index as int), separator@),
        decreases parts@.len() - index,
    {
        let ghost before = texts_of(parts@).take(index as int);
        if index > 0 {
            text.append(separator);
        }
        text.append(parts[index].as_str());
        index = index + 1;
        proof {
            let now = texts_of(parts@).take(index as int);
            assert(now.drop_last() =~= before);
            assert(now.last() == parts@[index - 1]@);
            if index == 1 {
                assert(text@ =~= now[0]);
            }
        }
    }
    assert(texts_of(parts@).take(index as int) =~= texts_of(parts@));
    text
}

/// Gets the unique items in the vector in the same order.
pub fn get_unique_items(vec: Vec<String>) -> (unique: Vec<String>)
    ensures
        texts_of(unique@) == unique_items(texts_of(vec@)),
{
    let mut new_vec: Vec<String> = Vec::new();
    let mut index: usize = 0;
    assert(texts_of(new_vec@) =~= unique_items(texts_of(vec@).take(0)));
    while index < vec.len()
        invariant
            index <= vec@.len(),
            texts_of(new_vec@) == unique_items(texts_of(vec@).take(index as int)),
        decreases vec@.len() - index,
    {
        let ghost before = texts_of(vec@).take(index as int);
        let ghost held = texts_of(new_vec@);
        let item = vec[index].clone();
        let mut found = false;
        let mut at: usize = 0;
        while at < new_vec.len()
            invariant
                at <= new_vec@.len(),
                item@ == vec@[index as int]@,
                found == texts_of(new_vec@).take(at as int).contains(item@),
            decreases new_vec@.len() - at,
        {
            let ghost seen = texts_of(new_vec@).take(at as int);
            if new_vec[at] == item {
                found = true;
            }
            at = at + 1;
            proof {
                let now = texts_of(new_vec@).take(at as int);
                assert(now =~= seen.push(new_vec@[at - 1]@));
                if seen.contains(item@) {
                    let place = choose|i: int| 0 <= i < seen.len() && seen[i] == item@;
                    assert(now[place] == item@);
                }
                if new_vec@[at - 1]@ == item@ {
                    assert(now[now.len() - 1] == item@);
                }
            }
        }
        assert(texts_of(new_vec@).take(at as int) =~= texts_of(new_vec@));
        if !found {
            new_vec.push(item);
        }
        index = index + 1;
        proof {
            let now = texts_of(vec@).take(index as int);
            assert(now.drop_last() =~= before);
            assert(now.last() == item@);
            if !found {
                assert(texts_of(new_vec@) =~= held.push(item@));
            }
        }
    }
    assert(texts_of(vec@).take(index as int) =~= texts_of(vec@));
    new_vec
}

/// The strings of one list of all the plugins, plugin after plugin.
fn collect(plugins: &Vec<InfoFilePluginInfo>, list: PluginList) -> (items: Vec<String>)
    ensures
        texts_of(items@) == all_of(plugins@, list),
{
    let mut items: Vec<String> = Vec::new();
    let mut index: usize = 0;
    assert(texts_of(items@) =~= all_of(plugins@.take(0), list));
    while index < plugins.len()
        invariant
            index <= plugins@.len(),
            texts_of(items@) == all_of(plugins@.take(index as int), list),
        decreases plugins@.len() - index,
    {
        let ghost before = texts_of(items@);
        let plugin = &plugins[index];
        let strings = match list {
            PluginList::FileExtensions => &plugin.file_extensions,
            PluginList::FileNames => &plugin.file_names,
            PluginList::ConfigExcludes => &plugin.config_excludes,
        };
        assert(strings@ == plugin.list(list));
        let mut at: usize = 0;
        while at < strings.len()
            invariant
                at <= strings@.len(),
                texts_of(items@) == before + texts_of(strings@).take(at as int),
            decreases strings@.len() - at,
        {
            let ghost held = texts_of(items@);
            let item = strings[at].clone();
            assert(item@ == strings@[at as int]@);
            items.push(item);
            at = at + 1;
            assert(texts_of(items@) =~= held.push(item@));
            assert(texts_of(strings@).take(at as int) =~= texts_of(strings@).take(at - 1).push(item@));
            assert(texts_of(items@) =~= before + texts_of(strings@).take(at as int));
        }
        assert(texts_of(strings@).take(at as int) =~= texts_of(strings@));
        index = index + 1;
        assert(plugins@.take(index as int).drop_last() =~= plugins@.take(index - 1));
    }
    assert(plugins@.take(index as int) =~= plugins@);
    items
}

/// The text between the two others.
fn surround_text(before: &str, text: &str, after: &str) -> (all: String)
    ensures
        all@ == before@ + text@ + after@,
{
    let mut all = String::from_str(before);
    all.append(text);
    all.append(after);
    all
}

/// Each of the texts as a line of a list: indented and between quotes.
fn quote_lines(items: &Vec<String>) -> (lines: Vec<String>)
    ensures
        texts_of(lines@) == quoted_lines(texts_of(items@)),
{
    let mut lines: Vec<String> = Vec::new();
    let mut index: usize = 0;
    while index < items.len()
        invariant
            index <= items@.len(),
            lines@.len() == index,
            forall|i: int| 0 <= i < index ==> (#[trigger] lines@[i])@ == "    \""@ + items@[i]@ + "\""@,
        decreases items@.len() - index,
    {
        lines.push(surround_text("    \"", items[index].as_str(), "\""));
        index = index + 1;
    }
    assert(texts_of(lines@) =~= quoted_lines(texts_of(items@)));
    lines
}

fn push_config_keys(json_text: &mut String, plugins: &Vec<InfoFilePluginInfo>)
    ensures
        final(json_text)@ == old(json_text)@ + config_keys_text(plugins@),
{
    let mut index: usize = 0;
    assert(json_text@ =~= old(json_text)@ + config_keys_text(plugins@.take(0)));
    while index < plugins.len()
        invariant
            index <= plugins@.len(),
            json_text@ == old(json_text)@ + config_keys_text(plugins@.take(index as int)),
        decreases plugins@.len() - index,
    {
        let ghost before = json_text@;
        // Put the brace on the next line so the user doesn't have to as soon as they
        // go to add options.
        if let Some(config_key) = &plugins[index].config_key {
            if !config_key.as_str().is_empty() {
                json_text.append("  \"");
                json_text.append(config_key.as_str());
                json_text.append("\": {\n");
                json_text.append("  },\n");
            }
        }
        index = index + 1;
        proof {
            assert(plugins@.take(index as int).drop_last() =~= plugins@.take(index - 1));
            assert(json_text@ =~= before + plugins@[index - 1].config_key_text());
            assert(json_text@ =~= old(json_text)@ + config_keys_text(plugins@.take(index as int)));
        }
    }
    assert(plugins@.take(index as int) =~= plugins@);
}

fn get_includes_text(plugins: &Vec<InfoFilePluginInfo>) -> (text: String)
    ensures
        text@ == includes_text(plugins@),
{
    let extension_includes = get_unique_items(collect(plugins, PluginList::FileExtensions));
    let file_name_includes = get_unique_items(collect(plugins, PluginList::FileNames));
    let mut json_includes: Vec<String> = Vec::new();
    if extension_includes.len() > 0 {
        json_includes.push(surround_text("\"**/*.{", join(&extension_includes, ",").as_str(), "}\""));
    }
    if file_name_includes.len() > 0 {
        json_includes.push(surround_text("\"**/{", join(&file_name_includes, ",").as_str(), "}\""));
    }
    if json_includes.len() == 0 {
        String::from_str("\"**/*.*\"")
    } else {
        let text = join(&json_includes, ",");
        proof {
            let parts = texts_of(json_includes@);
            if parts.len() == 2 {
                assert(parts.drop_last().len() == 1);
                assert(joined(parts.drop_last(), ","@) == parts[0]);
            }
        }
        text
    }
}

fn get_excludes_text(plugins: &Vec<InfoFilePluginInfo>) -> (text: String)
    ensures
        text@ == excludes_text(plugins@),
{
    let excludes = get_unique_items(quote_lines(&collect(plugins, PluginList::ConfigExcludes)));
    let mut text = String::new();
    if excludes.len() > 0 {
        text.append("\n");
        text.append(join(&excludes, ",\n").as_str());
        text.append("\n  ");
    }
    assert(text@ =~= excludes_text(plugins@));
    text
}

fn get_plugins_text(plugins: &Vec<InfoFilePluginInfo>) -> (text: String)
    ensures
        text@ == plugins_text(plugins@),
{
    if plugins.len() == 0 {
        return String::from_str("    // specify plugin urls here\n");
    }
    let mut lines: Vec<String> = Vec::new();
    let mut index: usize = 0;
    while index < plugins.len()
        invariant
            index <= plugins@.len(),
            lines@.len() == index,
            forall|i: int| 0 <= i < index ==> (#[trigger] lines@[i])@ == "    \""@ + plugins@[i].url_text() + "\""@,
        decreases plugins@.len() - index,
    {
        let plugin = &plugins[index];
        let mut url = plugin.url.clone();
        if plugin.is_process_plugin() {
            if let Some(checksum) = &plugin.checksum {
                proof {
                    reveal_strlit("@");
                }
                url.append("@");
                url.append(checksum.as_str());
                assert(url@ =~= plugin.url@ + seq!['@'] + checksum@);
            }
        }
        lines.push(surround_text("    \"", url.as_str(), "\""));
        index = index + 1;
    }
    assert(texts_of(lines@) =~= plugin_lines(plugins@));
    let mut text = join(&lines, ",\n");
    text.append("\n");
    text
}

/// The text of a new configuration file for the plugins that were
/// selected; without a selection, one that names no plugin.
pub fn get_init_config_file_text(selected_plugins: &Option<Vec<InfoFilePluginInfo>>) -> (json_text: String)
    ensures
        json_text@ == init_config_file_text(
            match *selected_plugins {
                Some(plugins) => Some(plugins@),
                None => None,
            },
        ),
{
    let mut json_text = String::from_str("{\n");
    json_text.append("  \"incremental\": true,\n");
    if let Some(selected_plugins) = selected_plugins {
        push_config_keys(&mut json_text, selected_plugins);
        json_text.append("  \"includes\": [");
        json_text.append(get_includes_text(selected_plugins).as_str());
        json_text.append("],\n");
        json_text.append("  \"excludes\": [");
        json_text.append(get_excludes_text(selected_plugins).as_str());
        json_text.append("],\n");
        json_text.append("  \"plugins\": [\n");
        json_text.append(get_plugins_text(selected_plugins).as_str());
        json_text.append("  ]\n}\n");
        assert(json_text@ =~= init_config_file_text(Some(selected_plugins@)));
    } else {
        json_text.append("  \"includes\": [\"**/*.{ts,tsx,js,jsx,json}\"],\n");
        json_text.append("  \"excludes\": [\n    \"**/node_modules\",\n    \"**/*-lock.json\"\n  ],\n");
        json_text.append("  \"plugins\": [\n");
        json_text.append("    // specify plugin urls here\n");
        json_text.append("  ]\n}\n");
        assert(json_text@ =~= init_config_file_text(None));
    }
    json_text
}

/// The character for a digit.
pub open spec fn digit_char(digit: int) -> char {
    if digit == 0 {
        '0'
    } else if digit == 1 {
        '1'
    } else if digit == 2 {
        '2'
    } else if digit == 3 {
        '3'
    } else if digit == 4 {
        '4'
    } else if digit == 5 {
        '5'
    } else if digit == 6 {
        '6'
    } else if digit == 7 {
        '7'
    } else if digit == 8 {
        '8'
    } else {
        '9'
    }
}

/// The number in decimal digits.
pub open spec fn decimal_text(number: nat) -> Seq<char>
    decreases number,
{
    if number < 10 {
        seq![digit_char(number as int)]
    } else {
        decimal_text(number / 10).push(digit_char((number % 10) as int))
    }
}

fn get_digit_char(digit: u32) -> (c: char)
    requires
        digit < 10,
    ensures
        c == digit_char(digit as int),
{
    if digit == 0 {
        '0'
    } else if digit == 1 {
        '1'
    } else if digit == 2 {
        '2'
    } else if digit == 3 {
        '3'
    } else if digit == 4 {
        '4'
    } else if digit == 5 {
        '5'
    } else if digit == 6 {
        '6'
    } else if digit == 7 {
        '7'
    } else if digit == 8 {
        '8'
    } else {
        '9'
    }
}

/// Appends the number in decimal digits.
fn push_number(text: &mut String, number: u32)
    ensures
        final(text)@ == old(text)@ + decimal_text(number as nat),
    decreases number,
{
    if number >= 10 {
        push_number(text, number / 10);
    }
    push_char(text, get_digit_char(number % 10));
    assert(text@ =~= old(text)@ + decimal_text(number as nat));
}

/// What is said when the list of plugins is for a later version.
pub open spec fn old_version_message(latest: u32) -> Seq<char> {
    "You are using an old version of dprint so the created config file may not be as helpful of a starting point. "@
        + "Consider upgrading to support new plugins. "@ + "Plugin system schema version is "@ + decimal_text(
        PLUGIN_SYSTEM_SCHEMA_VERSION as nat,
    ) + ", latest is "@ + decimal_text(latest as nat) + "."@
}

/// What is said when the list of plugins could not be had.
pub open spec fn problem_message(error: Seq<char>) -> Seq<char> {
    "There was a problem getting the latest plugin info. "@
        + "The created config file may not be as helpful of a starting point. "@ + "Error: "@ + error
}

/// Whether the list of plugins can be used, and what to say when it
/// cannot: it could not be had, or it is for another version.
pub fn check_info_file(info: Result<InfoFile, String>) -> (checked: (Option<InfoFile>, Option<String>))
    ensures
        match info {
            Ok(file) => if file.plugin_system_schema_version != PLUGIN_SYSTEM_SCHEMA_VERSION {
                checked.0 is None && checked.1 is Some && checked.1.unwrap()@ == old_version_message(
                    file.plugin_system_schema_version,
                )
            } else {
                checked.0 == Some(file) && checked.1 is None
            },
            Err(error) => checked.0 is None && checked.1 is Some && checked.1.unwrap()@ == problem_message(
                error@,
            ),
        },
{
    match info {
        Ok(info) => {
            // ok to only check wasm here because the configuration file is only ever initialized with wasm plugins
            if info.plugin_system_schema_version != PLUGIN_SYSTEM_SCHEMA_VERSION {
                let mut message = String::from_str(
                    "You are using an old version of dprint so the created config file may not be as helpful of a starting point. ",
                );
                message.append("Consider upgrading to support new plugins. ");
                message.append("Plugin system schema version is ");
                push_number(&mut message, PLUGIN_SYSTEM_SCHEMA_VERSION);
                message.append(", latest is ");
                push_number(&mut message, info.plugin_system_schema_version);
                message.append(".");
                assert(message@ =~= old_version_message(info.plugin_system_schema_version));
                (None, Some(message))
            } else {
                (Some(info), None)
            }
        },
        Err(err) => {
            let mut message = String::from_str("There was a problem getting the latest plugin info. ");
            message.append("The created config file may not be as helpful of a starting point. ");
            message.append("Error: ");
            message.append(err.as_str());
            assert(message@ =~= problem_message(err@));
            (None, Some(message))
        },
    }
}

/// What the user is asked to select from: the names of the plugins, with
/// all selected at first but the process plugins.
pub fn get_selection_items(plugins: &Vec<InfoFilePluginInfo>) -> (items: Vec<(bool, String)>)
    ensures
        items@.len() == plugins@.len(),
        forall|i: int|
            0 <= i < plugins@.len() ==> (#[trigger] items@[i]).0 == !plugins@[i].is_process_plugin()
                && items@[i].1@ == plugins@[i].name@,
{
    let mut items: Vec<(bool, String)> = Vec::new();
    let mut index: usize = 0;
    while index < plugins.len()
        invariant
            index <= plugins@.len(),
            items@.len() == index,
            forall|i: int|
                0 <= i < index ==> (#[trigger] items@[i]).0 == !plugins@[i].is_process_plugin() && items@[i].1@
                    == plugins@[i].name@,
        decreases plugins@.len() - index,
    {
        items.push((!plugins[index].is_process_plugin(), plugins[index].name.clone()));
        index = index + 1;
    }
    items
}

/// Whether the two say the same of a plugin.
pub open spec fn same_plugin(one: InfoFilePluginInfo, other: InfoFilePluginInfo) -> bool {
    &&& one.name == other.name
    &&& one.version == other.version
    &&& one.url == other.url
    &&& one.config_key == other.config_key
    &&& one.file_extensions@ == other.file_extensions@
    &&& one.file_names@ == other.file_names@
    &&& one.config_excludes@ == other.config_excludes@
    &&& one.checksum == other.checksum
}

fn copy_strings(strings: &Vec<String>) -> (copy: Vec<String>)
    ensures
        copy@ == strings@,
{
    let mut copy: Vec<String> = Vec::new();
    let mut index: usize = 0;
    while index < strings.len()
        invariant
            index <= strings@.len(),
            copy@ == strings@.take(index as int),
        decreases strings@.len() - index,
    {
        copy.push(strings[index].clone());
        index = index + 1;
        assert(copy@ =~= strings@.take(index as int));
    }
    assert(strings@.take(index as int) =~= strings@);
    copy
}

fn copy_optional(text: &Option<String>) -> (copy: Option<String>)
    ensures
        copy == *text,
{
    match text {
        Some(text) => Some(text.clone()),
        None => None,
    }
}

fn copy_plugin(plugin: &InfoFilePluginInfo) -> (copy: InfoFilePluginInfo)
    ensures
        same_plugin(copy, *plugin),
{
    InfoFilePluginInfo {
        name: plugin.name.clone(),
        version: plugin.version.clone(),
        url: plugin.url.clone(),
        config_key: copy_optional(&plugin.config_key),
        file_extensions: copy_strings(&plugin.file_extensions),
        file_names: copy_strings(&plugin.file_names),
        config_excludes: copy_strings(&plugin.config_excludes),
        checksum: copy_optional(&plugin.checksum),
    }
}

/// The plugins at the places that were selected, in the order of the
/// selection.
pub fn select_plugins(latest_plugins: &Vec<InfoFilePluginInfo>, plugin_indexes: &Vec<usize>) -> (selected_plugins: Vec<
    InfoFilePluginInfo,
>)
    requires
        forall|i: int| 0 <= i < plugin_indexes@.len() ==> #[trigger] plugin_indexes@[i] < latest_plugins@.len(),
    ensures
        selected_plugins@.len() == plugin_indexes@.len(),
        forall|i: int|
            0 <= i < plugin_indexes@.len() ==> same_plugin(
                #[trigger] selected_plugins@[i],
                latest_plugins@[plugin_indexes@[i] as int],
            ),
{
    let mut selected_plugins: Vec<InfoFilePluginInfo> = Vec::new();
    let mut at: usize = 0;
    while at < plugin_indexes.len()
        invariant
            at <= plugin_indexes@.len(),
            selected_plugins@.len() == at,
            forall|i: int| 0 <= i < plugin_indexes@.len() ==> #[trigger] plugin_indexes@[i] < latest_plugins@.len(),
            forall|i: int|
                0 <= i < at ==> same_plugin(
                    #[trigger] selected_plugins@[i],
                    latest_plugins@[plugin_indexes@[i] as int],
                ),
        decreases plugin_indexes@.len() - at,
    {
        let index = plugin_indexes[at];
        selected_plugins.push(copy_plugin(&latest_plugins[index]));
        at = at + 1;
    }
    selected_plugins
}

} // verus!
