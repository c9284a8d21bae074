//! The configuration of the prompt home directory: models, plugins and chats.
use vstd::prelude::*;
use crate::file_order::{sort_entries, sorted_entries, law_sorted_entries};
use crate::paths::{join_path, join_spec, file_name_parts, file_stem_spec, extension_spec};
use crate::string_map::{StringMap, set_entry, lookup, lemma_lookup_after_set, lemma_set_entry_distinct, distinct_keys};

verus! {

/// The directory under the user's home that holds the configuration.
pub const PROMPT_DEFAULT_DIRECTORY: &'static str = ".prompt";

/// The configuration file inside the prompt home.
pub const CONFIG_FILE_NAME: &'static str = "config.yml";

/// The directory of model plugins inside the prompt home.
pub const MODEL_PLUGIN_DIRECTORY: &'static str = "model_plugins";

/// The directory of tool plugins inside the prompt home.
pub const TOOL_PLUGIN_DIRECTORY: &'static str = "tool_plugins";

/// The directory of chats inside the prompt home.
pub const CHATS_DIRECTORY: &'static str = "chats";

/// The extension of plugin files.
pub const PLUGIN_EXTENSION: &'static str = "js";

/// A setting of a model. A float setting holds the bit pattern of its IEEE-754 double.
#[derive(Debug, Clone, PartialEq)]
pub enum ModelConfigSettingType {
    String(String),
    Integer(i32),
    Float(u64),
    Bool(bool),
}

/// The value of a setting.
pub enum SettingView {
    String(Seq<char>),
    Integer(i32),
    Float(u64),
    Bool(bool),
}

impl View for ModelConfigSettingType {
    type V = SettingView;

    open spec fn view(&self) -> SettingView {
        match self {
            ModelConfigSettingType::String(s) => SettingView::String(s@),
            ModelConfigSettingType::Integer(i) => SettingView::Integer(*i),
            ModelConfigSettingType::Float(f) => SettingView::Float(*f),
            ModelConfigSettingType::Bool(b) => SettingView::Bool(*b),
        }
    }
}

impl ModelConfigSettingType {
    /// A copy of this setting.
    pub fn duplicate(&self) -> (copy: Self)
        ensures
            copy@ == self@,
    {
        match self {
            ModelConfigSettingType::String(s) => ModelConfigSettingType::String(s.clone()),
            ModelConfigSettingType::Integer(i) => ModelConfigSettingType::Integer(*i),
            ModelConfigSettingType::Float(f) => ModelConfigSettingType::Float(*f),
            ModelConfigSettingType::Bool(b) => ModelConfigSettingType::Bool(*b),
        }
    }
}

/// The settings of a model, by name; a setting may be present without a value.
pub type ModelSettings = StringMap<Option<ModelConfigSettingType>>;

/// The value of an optional setting.
pub open spec fn optional_setting_view(o: Option<ModelConfigSettingType>) -> Option<SettingView> {
    match o {
        Some(s) => Some(s@),
        None => None,
    }
}

/// The view of one entry of a model's settings.
pub open spec fn setting_entry_view(e: (String, Option<ModelConfigSettingType>)) -> (
    Seq<char>,
    Option<SettingView>,
) {
    (e.0@, optional_setting_view(e.1))
}

/// The view of a model's settings, in order.
pub open spec fn settings_view(m: ModelSettings) -> Seq<(Seq<char>, Option<SettingView>)> {
    m.spec_entries().map_values(|e: (String, Option<ModelConfigSettingType>)| setting_entry_view(e))
}

/// The view of a list of strings.
pub open spec fn strings_view(v: Seq<String>) -> Seq<Seq<char>> {
    v.map_values(|s: String| s@)
}

/// The configuration of a model: its plugin provider, its settings and the tool plugins it uses.
#[derive(Debug, PartialEq)]
pub struct ModelConfig {
    pub settings: Option<ModelSettings>,
    pub provider: String,
    pub plugins: Option<Vec<String>>,
}

/// The value of a model configuration.
pub struct ModelConfigView {
    pub settings: Option<Seq<(Seq<char>, Option<SettingView>)>>,
    pub provider: Seq<char>,
    pub plugins: Option<Seq<Seq<char>>>,
}

impl View for ModelConfig {
    type V = ModelConfigView;

    open spec fn view(&self) -> ModelConfigView {
        ModelConfigView {
            settings: match self.settings {
                Some(m) => Some(settings_view(m)),
                None => None,
            },
            provider: self.provider@,
            plugins: match self.plugins {
                Some(v) => Some(strings_view(v@)),
                None => None,
            },
        }
    }
}

/// A copy of a list of strings.
pub fn copy_strings(v: &Vec<String>) -> (copy: Vec<String>)
    ensures
        strings_view(copy@) == strings_view(v@),
{
    let mut copy: Vec<String> = Vec::new();
    let n = v.len();
    let mut i: usize = 0;
    while i < n
        invariant
            n == v@.len(),
            i <= n,
            copy@.len() == i,
            forall|j: int| 0 <= j < i ==> copy@[j]@ == v@[j]@,
        decreases n - i,
    {
        copy.push(v[i].clone());
        i = i + 1;
    }
    assert(strings_view(copy@) =~= strings_view(v@));
    copy
}

/// A copy of a model's settings.
pub fn copy_settings(m: &ModelSettings) -> (copy: ModelSettings)
    ensures
        settings_view(copy) == settings_view(*m),
        copy.spec_wf(),
{
    let entries = m.entries();
    let mut copy: ModelSettings = StringMap::new();
    let n = entries.len();
    let mut i: usize = 0;
    while i < n
        invariant
            n == entries@.len(),
            entries@ == m.spec_entries(),
            distinct_keys(entries@),
            i <= n,
            copy.spec_wf(),
            copy.spec_entries().len() == i,
            forall|j: int|
                0 <= j < i ==> #[trigger] setting_entry_view(copy.spec_entries()[j])
                    == setting_entry_view(entries@[j]),
        decreases n - i,
    {
        let key = entries[i].0.clone();
        let value = match &entries[i].1 {
            Some(setting) => Some(setting.duplicate()),
            None => None,
        };
        proof {
            crate::string_map::lemma_key_position(copy.spec_entries(), key@);
            let k = crate::string_map::key_position(copy.spec_entries(), key@);
            if k >= 0 {
                assert(setting_entry_view(copy.spec_entries()[k]) == setting_entry_view(
                    entries@[k],
                ));
                assert(entries@[k].0@ != entries@[i as int].0@);
            }
        }
        copy.insert(key, value);
        i = i + 1;
    }
    assert(settings_view(copy) =~= settings_view(*m)) by {
        assert forall|j: int| 0 <= j < n implies settings_view(copy)[j] == settings_view(*m)[j] by {
            assert(setting_entry_view(copy.spec_entries()[j]) == setting_entry_view(entries@[j]));
        }
    }
    copy
}

impl ModelConfig {
    /// A copy of this configuration.
    pub fn duplicate(&self) -> (copy: Self)
        ensures
            copy@ == self@,
    {
        let settings = match &self.settings {
            Some(m) => Some(copy_settings(m)),
            None => None,
        };
        let plugins = match &self.plugins {
            Some(v) => Some(copy_strings(v)),
            None => None,
        };
        ModelConfig { settings, provider: self.provider.clone(), plugins }
    }
}


/// The configuration file's contents: the default model and the configured models by name.
#[derive(Debug, PartialEq)]
pub struct Config {
    pub default_model: Option<String>,
    pub models: Option<StringMap<ModelConfig>>,
}

impl Config {
    /// The entries of the models, in order; none when no model was ever configured.
    pub open spec fn spec_model_entries(self) -> Seq<(String, ModelConfig)> {
        match self.models {
            Some(m) => m.spec_entries(),
            None => Seq::empty(),
        }
    }

    /// The configuration of the model named `name`.
    pub open spec fn spec_model(self, name: Seq<char>) -> Option<ModelConfig> {
        match self.models {
            Some(m) => m.spec_get(name),
            None => None,
        }
    }

    /// The configured models are keyed by distinct names.
    pub open spec fn spec_wf(self) -> bool {
        match self.models {
            Some(m) => m.spec_wf(),
            None => true,
        }
    }

    /// Sets the configuration of the model `model_name`, replacing an earlier one of that name.
    pub fn add_model(&mut self, model_name: String, model_config: ModelConfig)
        ensures
            final(self).default_model == old(self).default_model,
            final(self).models is Some,
            final(self).spec_model_entries() == set_entry(
                old(self).spec_model_entries(),
                model_name,
                model_config,
            ),
            final(self).spec_wf(),
    {
        match &mut self.models {
            Some(models) => {
                models.insert(model_name, model_config);
            },
            None => {
                let mut map: StringMap<ModelConfig> = StringMap::new();
                map.insert(model_name, model_config);
                self.models = Some(map);
            },
        }
    }
}

/// The directory of a model plugin's configuration, relative to the prompt home.
#[derive(Clone, Copy, Debug, PartialEq, Eq, Structural)]
pub enum PluginType {
    Tool,
    Model,
}

/// The directory, inside the prompt home, that holds the plugins of a type.
pub open spec fn plugin_directory_spec(plugin_type: PluginType) -> Seq<char> {
    match plugin_type {
        PluginType::Tool => TOOL_PLUGIN_DIRECTORY@,
        PluginType::Model => MODEL_PLUGIN_DIRECTORY@,
    }
}

/// The name of the directory that holds the plugins of a type.
pub fn plugin_directory_name(plugin_type: PluginType) -> (name: &'static str)
    ensures
        name@ == plugin_directory_spec(plugin_type),
{
    match plugin_type {
        PluginType::Tool => TOOL_PLUGIN_DIRECTORY,
        PluginType::Model => MODEL_PLUGIN_DIRECTORY,
    }
}

/// A JavaScript plugin: its name, its type and the file that holds it.
#[derive(Debug, Clone, PartialEq, Eq)]
pub struct Plugin {
    pub name: String,
    pub plugin_type: PluginType,
    pub location: String,
}

/// The value of a plugin.
pub struct PluginView {
    pub name: Seq<char>,
    pub plugin_type: PluginType,
    pub location: Seq<char>,
}

impl View for Plugin {
    type V = PluginView;

    open spec fn view(&self) -> PluginView {
        PluginView { name: self.name@, plugin_type: self.plugin_type, location: self.location@ }
    }
}

/// A chat.
#[derive(Debug, Clone, PartialEq, Eq)]
pub struct Chat {
    pub name: String,
}

/// A file found in a plugin directory.
#[derive(Debug, Clone, PartialEq, Eq)]
pub struct PluginFileEntry {
    pub file_name: String,
    pub is_file: bool,
}

/// The file name of a plugin named `name`.
pub open spec fn plugin_file_name(name: Seq<char>) -> Seq<char> {
    name + PLUGIN_EXTENSION@.insert(0, '.')
}

/// A directory entry holds a plugin when it is a file with the extension "js".
pub open spec fn is_plugin_file(entry: PluginFileEntry) -> bool {
    entry.is_file && extension_spec(entry.file_name@) == Some(PLUGIN_EXTENSION@)
}

/// The location of a listed plugin file: the model plugin directory of the prompt home, joined
/// with the file's name.
pub open spec fn listed_location(home: Seq<char>, file_name: Seq<char>) -> Seq<char> {
    join_spec(join_spec(home, MODEL_PLUGIN_DIRECTORY@), file_name)
}

/// The plugin that a plugin file of the prompt home `home` is listed as: named by the stem of its
/// file name, of the model type, located in the model plugin directory.
pub open spec fn listed_plugin(home: Seq<char>, entry: PluginFileEntry) -> PluginView {
    PluginView {
        name: file_stem_spec(entry.file_name@),
        plugin_type: PluginType::Model,
        location: listed_location(home, entry.file_name@),
    }
}

/// The plugins that the directory entries hold, in their order: each plugin file is listed as
/// `listed_plugin` gives it.
pub open spec fn plugins_in(entries: Seq<PluginFileEntry>, home: Seq<char>) -> Seq<PluginView>
    decreases entries.len(),
{
    if entries.len() == 0 {
        Seq::empty()
    } else {
        let rest = plugins_in(entries.drop_last(), home);
        if is_plugin_file(entries.last()) {
            rest.push(listed_plugin(home, entries.last()))
        } else {
            rest
        }
    }
}

/// The views of a list of plugins.
pub open spec fn plugins_view(v: Seq<Plugin>) -> Seq<PluginView> {
    v.map_values(|p: Plugin| p@)
}

/// The chats that the application lists when the chats directory exists.
pub open spec fn known_chats() -> Seq<Seq<char>> {
    seq!["QBR 2024"@, "WBR 2024"@]
}

/// Why a model plugin could not be found.
#[derive(Debug, Clone, PartialEq, Eq)]
pub enum ConfigError {
    /// No model of that name is configured.
    ModelNotFound(String),
    /// No model is configured at all.
    NoModelsAvailable,
}

impl ConfigError {
    /// The message that describes the error.
    pub open spec fn spec_message(self) -> Seq<char> {
        match self {
            ConfigError::ModelNotFound(name) => "model "@ + name@ + " not found"@,
            ConfigError::NoModelsAvailable => "no models available"@,
        }
    }

    /// The message that describes the error.
    pub fn message(&self) -> (message: String)
        ensures
            message@ == self.spec_message(),
    {
        match self {
            ConfigError::ModelNotFound(name) => {
                let mut message = String::from_str("model ");
                message.append(name.as_str());
                message.append(" not found");
                message
            },
            ConfigError::NoModelsAvailable => String::from_str("no models available"),
        }
    }
}

/// Where a plugin is copied when it is installed.
#[derive(Debug, Clone, PartialEq, Eq)]
pub struct PluginInstallation {
    pub source: String,
    pub destination: String,
}

/// The location of the plugin file of the provider `provider` under the prompt home `home`.
pub open spec fn model_plugin_location(home: Seq<char>, provider: Seq<char>) -> Seq<char> {
    join_spec(join_spec(home, MODEL_PLUGIN_DIRECTORY@), plugin_file_name(provider))
}

/// The location where a plugin named `name` of type `plugin_type` is installed.
pub open spec fn installed_plugin_location(
    home: Seq<char>,
    plugin_type: PluginType,
    name: Seq<char>,
) -> Seq<char> {
    join_spec(join_spec(home, plugin_directory_spec(plugin_type)), plugin_file_name(name))
}

/// The file name of the plugin named `name`.
pub fn plugin_file_name_of(name: &str) -> (file_name: String)
    ensures
        file_name@ == plugin_file_name(name@),
{
    let mut file_name = String::from_str(name);
    file_name.append(".");
    file_name.append(PLUGIN_EXTENSION);
    proof {
        reveal_strlit(".");
        assert(file_name@ =~= plugin_file_name(name@));
    }
    file_name
}

/// The configuration held in a prompt home directory.
#[derive(Debug, PartialEq)]
pub struct PromptConfig {
    pub prompt_home: String,
    pub config: Config,
}

impl PromptConfig {
    /// The configuration of the prompt home `path`, given the configuration file's contents when the
    /// file exists; without a file there is no default model and no model.
    pub fn from_prompt_home(path: String, stored: Option<Config>) -> (config: PromptConfig)
        ensures
            config.prompt_home@ == path@,
            match stored {
                Some(c) => config.config == c,
                None => config.config.default_model is None && config.config.models is None,
            },
    {
        match stored {
            Some(config) => PromptConfig { prompt_home: path, config },
            None => PromptConfig {
                prompt_home: path,
                config: Config { default_model: None, models: None },
            },
        }
    }

    /// The directories that must exist under the prompt home `path`, in the order they are created:
    /// the home itself, then the tool plugin, model plugin and chats directories.
    pub fn required_directories(path: &str) -> (directories: Vec<String>)
        ensures
            directories@.len() == 4,
            directories@[0]@ == path@,
            directories@[1]@ == join_spec(path@, TOOL_PLUGIN_DIRECTORY@),
            directories@[2]@ == join_spec(path@, MODEL_PLUGIN_DIRECTORY@),
            directories@[3]@ == join_spec(path@, CHATS_DIRECTORY@),
    {
        let mut directories: Vec<String> = Vec::new();
        directories.push(String::from_str(path));
        directories.push(join_path(path, TOOL_PLUGIN_DIRECTORY));
        directories.push(join_path(path, MODEL_PLUGIN_DIRECTORY));
        directories.push(join_path(path, CHATS_DIRECTORY));
        directories
    }

    /// The path of the configuration file under the prompt home `path`.
    pub fn config_file_path(path: &str) -> (file: String)
        ensures
            file@ == join_spec(path@, CONFIG_FILE_NAME@),
    {
        join_path(path, CONFIG_FILE_NAME)
    }

    /// Where `plugin` is copied from and to when it is installed: from its location into the
    /// directory of its type, under its name with the extension "js".
    pub fn install_plugin(&self, plugin: &Plugin) -> (installation: PluginInstallation)
        ensures
            installation.source@ == plugin.location@,
            installation.destination@ == installed_plugin_location(
                self.prompt_home@,
                plugin.plugin_type,
                plugin.name@,
            ),
    {
        let directory = join_path(self.prompt_home.as_str(), plugin_directory_name(plugin.plugin_type));
        let file_name = plugin_file_name_of(plugin.name.as_str());
        let destination = join_path(directory.as_str(), file_name.as_str());
        PluginInstallation { source: plugin.location.clone(), destination }
    }

    /// The configuration of the model `model_name` and its plugin, which the provider names and
    /// which lies in the model plugin directory.
    pub fn get_model_plugin(&self, model_name: String) -> (result: Result<(ModelConfig, Plugin), ConfigError>)
        ensures
            match self.config.models {
                None => result == Err::<(ModelConfig, Plugin), ConfigError>(ConfigError::NoModelsAvailable),
                Some(models) => match models.spec_get(model_name@) {
                    None => result matches Err(ConfigError::ModelNotFound(name)) && name@ == model_name@,
                    Some(model) => result matches Ok((found, plugin)) && found@ == model@ && plugin@
                        == (PluginView {
                        name: model_name@,
                        plugin_type: PluginType::Model,
                        location: model_plugin_location(self.prompt_home@, model.provider@),
                    }),
                },
            },
    {
        match &self.config.models {
            Some(models) => match models.get(&model_name) {
                Some(model) => {
                    let found = model.duplicate();
                    let directory = join_path(self.prompt_home.as_str(), MODEL_PLUGIN_DIRECTORY);
                    let file_name = plugin_file_name_of(found.provider.as_str());
                    let location = join_path(directory.as_str(), file_name.as_str());
                    let plugin = Plugin { name: model_name, plugin_type: PluginType::Model, location };
                    Ok((found, plugin))
                },
                None => Err(ConfigError::ModelNotFound(model_name)),
            },
            None => Err(ConfigError::NoModelsAvailable),
        }
    }

    /// The path whose existence decides whether chats are listed: the chats directory joined
    /// once more onto the prompt home.
    pub fn chats_probe_path(&self) -> (path: String)
        ensures
            path@ == join_spec(self.prompt_home@, join_spec(self.prompt_home@, CHATS_DIRECTORY@)),
    {
        let directory = join_path(self.prompt_home.as_str(), CHATS_DIRECTORY);
        join_path(self.prompt_home.as_str(), directory.as_str())
    }

    /// The chats: none when the chats directory does not exist, otherwise the known chats.
    pub fn list_chats(&self, chats_directory_exists: bool) -> (chats: Vec<Chat>)
        ensures
            !chats_directory_exists ==> chats@.len() == 0,
            chats_directory_exists ==> chats@.map_values(|c: Chat| c.name@) == known_chats(),
    {
        let mut chats: Vec<Chat> = Vec::new();
        if !chats_directory_exists {
            return chats;
        }
        chats.push(Chat { name: String::from_str("QBR 2024") });
        chats.push(Chat { name: String::from_str("WBR 2024") });
        assert(chats@.map_values(|c: Chat| c.name@) =~= known_chats());
        chats
    }

    /// The directory that holds the plugins of type `plugin_type`.
    pub fn plugin_directory(&self, plugin_type: PluginType) -> (directory: String)
        ensures
            directory@ == join_spec(self.prompt_home@, plugin_directory_spec(plugin_type)),
    {
        join_path(self.prompt_home.as_str(), plugin_directory_name(plugin_type))
    }

    /// The plugins listed from the entries of the directory of `plugin_type` (none when the
    /// directory does not exist): the files with the extension "js", in ascending order of file
    /// name, each named by its stem, of the model type and located in the model plugin directory,
    /// whichever type's directory was read.
    pub fn list_plugins(&self, plugin_type: PluginType, entries: Option<&Vec<PluginFileEntry>>) -> (plugins: Vec<Plugin>)
        ensures
            match entries {
                None => plugins@.len() == 0,
                Some(entries) => plugins_view(plugins@) == plugins_in(sort_entries(entries@), self.prompt_home@),
            },
    {
        let mut plugins: Vec<Plugin> = Vec::new();
        let entries = match entries {
            None => return plugins,
            Some(entries) => sorted_entries(entries),
        };
        let directory = join_path(self.prompt_home.as_str(), MODEL_PLUGIN_DIRECTORY);
        let js = String::from_str(PLUGIN_EXTENSION);
        let n = entries.len();
        let mut i: usize = 0;
        while i < n
            invariant
                n == entries@.len(),
                i <= n,
                js@ == PLUGIN_EXTENSION@,
                directory@ == join_spec(self.prompt_home@, MODEL_PLUGIN_DIRECTORY@),
                plugins_view(plugins@) == plugins_in(entries@.take(i as int), self.prompt_home@),
            decreases n - i,
        {
            let entry = &entries[i];
            let (stem, extension) = file_name_parts(entry.file_name.as_str());
            let is_js = match &extension {
                Some(e) => *e == js,
                None => false,
            };
            assert(entries@.take(i + 1).drop_last() =~= entries@.take(i as int));
            if entry.is_file && is_js {
                let location = join_path(directory.as_str(), entry.file_name.as_str());
                plugins.push(Plugin { name: stem, plugin_type: PluginType::Model, location });
                assert(plugins_view(plugins@) =~= plugins_in(entries@.take(i + 1), self.prompt_home@));
            } else {
                assert(plugins_view(plugins@) =~= plugins_in(entries@.take(i + 1), self.prompt_home@));
            }
            i = i + 1;
        }
        assert(entries@.take(n as int) =~= entries@);
        plugins
    }
}

/// After a model is added, its name finds the configuration that was added, and every other
/// name finds what it found before; so the model's plugin is then found.
pub proof fn law_added_model_is_found(
    before: Config,
    after: Config,
    model_name: String,
    model_config: ModelConfig,
    other: Seq<char>,
)
    requires
        before.spec_wf(),
        after.models is Some,
        after.spec_model_entries() == set_entry(before.spec_model_entries(), model_name, model_config),
    ensures
        after.spec_model(model_name@) == Some(model_config),
        other != model_name@ ==> after.spec_model(other) == before.spec_model(other),
{
    let entries = before.spec_model_entries();
    if before.models is None {
        assert(distinct_keys(entries));
        crate::string_map::lemma_key_position(entries, other);
    }
    lemma_lookup_after_set(entries, model_name, model_config, other);
}

/// The last '.' of a plugin's file name is the one before its extension.
proof fn lemma_plugin_file_name_dot(name: Seq<char>)
    ensures
        crate::paths::last_dot(plugin_file_name(name)) == name.len(),
{
    reveal_strlit("js");
    let f = plugin_file_name(name);
    let n = name.len() as int;
    crate::paths::lemma_last_dot(f);
    assert(f[n] == '.' && f[n + 1] == 'j' && f[n + 2] == 's');
}

/// The file of the plugin named `name` is the file with the extension "js" whose stem is `name`.
proof fn lemma_plugin_file_of_name(name: Seq<char>, f: Seq<char>)
    requires
        name.len() > 0,
    ensures
        f == plugin_file_name(name) <==> (extension_spec(f) == Some(PLUGIN_EXTENSION@) && file_stem_spec(f) == name),
{
    reveal_strlit("js");
    let g = plugin_file_name(name);
    lemma_plugin_file_name_dot(name);
    assert(g.len() != 2);
    assert(g.subrange(0, name.len() as int) =~= name);
    assert(g.subrange(name.len() as int + 1, g.len() as int) =~= PLUGIN_EXTENSION@);
    crate::paths::lemma_last_dot(f);
    if extension_spec(f) == Some(PLUGIN_EXTENSION@) && file_stem_spec(f) == name {
        let d = crate::paths::last_dot(f);
        assert(f[d] == '.');
        assert(f =~= f.subrange(0, d) + seq!['.'] + f.subrange(d + 1, f.len() as int));
        assert(f =~= g);
    }
}

/// No two entries of a directory have the same file name.
pub open spec fn distinct_file_names(entries: Seq<PluginFileEntry>) -> bool {
    forall|i: int, j: int|
        0 <= i < j < entries.len() ==> #[trigger] entries[i].file_name@ != #[trigger] entries[j].file_name@
}

/// The entries hold the file of the plugin named `name`.
pub open spec fn holds_plugin_file(entries: Seq<PluginFileEntry>, name: Seq<char>) -> bool {
    exists|k: int|
        0 <= k < entries.len() && #[trigger] entries[k].is_file && entries[k].file_name@ == plugin_file_name(name)
}

/// The plugin listed for the file of the plugin named `name`.
pub open spec fn listed_plugin_named(home: Seq<char>, name: Seq<char>) -> PluginView {
    PluginView { name, plugin_type: PluginType::Model, location: listed_location(home, plugin_file_name(name)) }
}

/// The plugins named `name` among the plugins listed from entries with distinct file names: the
/// one listed for the file of that name when the entries hold it, otherwise none.
proof fn lemma_named_plugins_in(entries: Seq<PluginFileEntry>, home: Seq<char>, name: Seq<char>)
    requires
        name.len() > 0,
        distinct_file_names(entries),
    ensures
        plugins_in(entries, home).filter(|v: PluginView| v.name == name) == if holds_plugin_file(entries, name) {
            seq![listed_plugin_named(home, name)]
        } else {
            Seq::<PluginView>::empty()
        },
    decreases entries.len(),
{
    reveal(Seq::filter);
    let named = |v: PluginView| v.name == name;
    if entries.len() == 0 {
        assert(!holds_plugin_file(entries, name));
    } else {
        let rest = entries.drop_last();
        let e = entries.last();
        let last = entries.len() - 1;
        assert forall|i: int, j: int| 0 <= i < j < rest.len() implies #[trigger] rest[i].file_name@
            != #[trigger] rest[j].file_name@ by {
            assert(rest[i] == entries[i] && rest[j] == entries[j]);
        }
        lemma_named_plugins_in(rest, home, name);
        lemma_plugin_file_of_name(name, e.file_name@);
        let listed = plugins_in(rest, home);
        assert(listed.push(listed_plugin(home, e)).drop_last() =~= listed);
        if e.is_file && e.file_name@ == plugin_file_name(name) {
            assert(holds_plugin_file(entries, name)) by {
                assert(entries[last] == e);
            }
            assert(!holds_plugin_file(rest, name)) by {
                if holds_plugin_file(rest, name) {
                    let k = choose|k: int|
                        0 <= k < rest.len() && #[trigger] rest[k].is_file && rest[k].file_name@ == plugin_file_name(name);
                    assert(entries[k] == rest[k]);
                    assert(entries[k].file_name@ != entries[last].file_name@);
                }
            }
            assert(listed_plugin(home, e) == listed_plugin_named(home, name));
            assert(plugins_in(entries, home).filter(named) =~= seq![listed_plugin_named(home, name)]);
        } else {
            assert(holds_plugin_file(entries, name) == holds_plugin_file(rest, name)) by {
                if holds_plugin_file(rest, name) {
                    let k = choose|k: int|
                        0 <= k < rest.len() && #[trigger] rest[k].is_file && rest[k].file_name@ == plugin_file_name(name);
                    assert(entries[k] == rest[k]);
                }
                if holds_plugin_file(entries, name) {
                    let k = choose|k: int|
                        0 <= k < entries.len() && #[trigger] entries[k].is_file && entries[k].file_name@
                            == plugin_file_name(name);
                    assert(k != last);
                    assert(rest[k] == entries[k]);
                }
            }
            assert(plugins_in(entries, home).filter(named) == listed.filter(named));
        }
    }
}

/// Sorting entries with distinct file names keeps the names distinct and keeps every entry.
proof fn lemma_sort_entries_keeps(entries: Seq<PluginFileEntry>, name: Seq<char>)
    requires
        distinct_file_names(entries),
        holds_plugin_file(entries, name),
    ensures
        distinct_file_names(sort_entries(entries)),
        holds_plugin_file(sort_entries(entries), name),
{
    broadcast use vstd::seq_lib::group_to_multiset_ensures;
    let sorted = sort_entries(entries);
    law_sorted_entries(entries);
    assert(entries.no_duplicates()) by {
        assert forall|i: int, j: int| 0 <= i < entries.len() && 0 <= j < entries.len() && i != j implies entries[i]
            != entries[j] by {
            if i < j {
                assert(entries[i].file_name@ != entries[j].file_name@);
            } else {
                assert(entries[j].file_name@ != entries[i].file_name@);
            }
        }
    }
    entries.lemma_multiset_has_no_duplicates();
    sorted.lemma_multiset_has_no_duplicates_conv();
    assert forall|i: int, j: int| 0 <= i < j < sorted.len() implies #[trigger] sorted[i].file_name@
        != #[trigger] sorted[j].file_name@ by {
        assert(sorted.contains(sorted[i]));
        assert(sorted.contains(sorted[j]));
        assert(entries.to_multiset().count(sorted[i]) > 0);
        assert(entries.to_multiset().count(sorted[j]) > 0);
        let a = choose|a: int| 0 <= a < entries.len() && entries[a] == sorted[i];
        let b = choose|b: int| 0 <= b < entries.len() && entries[b] == sorted[j];
        if a < b {
            assert(entries[a].file_name@ != entries[b].file_name@);
        } else if b < a {
            assert(entries[b].file_name@ != entries[a].file_name@);
        }
    }
    let k = choose|k: int|
        0 <= k < entries.len() && #[trigger] entries[k].is_file && entries[k].file_name@ == plugin_file_name(name);
    assert(entries.contains(entries[k]));
    assert(sorted.to_multiset().count(entries[k]) > 0);
    assert(sorted.contains(entries[k]));
    let q = choose|q: int| 0 <= q < sorted.len() && sorted[q] == entries[k];
    assert(sorted[q].is_file);
}

/// Once a plugin has been installed under a non-empty name, its directory's entries, whatever else
/// they hold, list exactly one plugin of that name: the one listed for its file, of the model type
/// and located in the model plugin directory. For a model plugin, that is where it was installed.
pub proof fn law_installed_plugin_is_listed(
    home: Seq<char>,
    plugin_type: PluginType,
    name: Seq<char>,
    entries: Seq<PluginFileEntry>,
)
    requires
        name.len() > 0,
        distinct_file_names(entries),
        holds_plugin_file(entries, name),
    ensures
        plugins_in(sort_entries(entries), home).filter(|v: PluginView| v.name == name) == seq![
            listed_plugin_named(home, name),
        ],
        plugin_type == PluginType::Model ==> listed_plugin_named(home, name).location == installed_plugin_location(
            home,
            plugin_type,
            name,
        ),
{
    lemma_sort_entries_keeps(entries, name);
    lemma_named_plugins_in(sort_entries(entries), home, name);
}

/// A model added with a provider whose plugin has been installed is found, and its plugin is where
/// the plugin was installed; listing the model plugins gives exactly one plugin of the provider's
/// name, at that same location.
pub proof fn law_installed_model_plugin_is_found(
    home: Seq<char>,
    before: Config,
    after: Config,
    model_name: String,
    model_config: ModelConfig,
    entries: Seq<PluginFileEntry>,
)
    requires
        before.spec_wf(),
        after.models is Some,
        after.spec_model_entries() == set_entry(before.spec_model_entries(), model_name, model_config),
        model_config.provider@.len() > 0,
        distinct_file_names(entries),
        holds_plugin_file(entries, model_config.provider@),
    ensures
        after.spec_model(model_name@) == Some(model_config),
        model_plugin_location(home, model_config.provider@) == installed_plugin_location(
            home,
            PluginType::Model,
            model_config.provider@,
        ),
        plugins_in(sort_entries(entries), home).filter(|v: PluginView| v.name == model_config.provider@) == seq![
            PluginView {
                name: model_config.provider@,
                plugin_type: PluginType::Model,
                location: model_plugin_location(home, model_config.provider@),
            },
        ],
{
    law_added_model_is_found(before, after, model_name, model_config, model_name@);
    law_installed_plugin_is_listed(home, PluginType::Model, model_config.provider@, entries);
}

} // verus!
