//! The interactive setup: which step comes first, what the menu offers, how installed plugins
//! are listed and how a model's configuration is put together from the answers.
use vstd::prelude::*;
use crate::config::{ModelConfig, ModelSettings, Plugin, PluginType, settings_view, strings_view};
use crate::plugin::ModelInput;

verus! {

/// The menu entry that adds a model.
pub const SETUP_MODEL_DISPLAY: &'static str = "Add Model";

/// The menu entry that adds a model plugin.
pub const SETUP_ADD_MODEL_PLUGIN_DISPLAY: &'static str = "Add Model Plugin";

/// The menu entry that adds a tool plugin.
pub const SETUP_ADD_TOOL_PLUGIN_DISPLAY: &'static str = "Add Tool Plugin";

/// The menu entry that ends the setup.
pub const SETUP_EXIT_DISPLAY: &'static str = "Exit";

/// The provider that a model added during setup uses.
pub const DEFAULT_MODEL_PROVIDER: &'static str = "bedrock";

/// A setup command.
#[derive(Clone, Copy, Debug, PartialEq, Eq, Structural)]
pub enum Setup {
    AddModel,
    AddModelPlugin,
    AddToolPlugin,
}

/// The entries of the setup menu, in order.
pub fn setup_menu() -> (entries: Vec<&'static str>)
    ensures
        entries@.len() == 4,
        entries@[0]@ == SETUP_MODEL_DISPLAY@,
        entries@[1]@ == SETUP_ADD_MODEL_PLUGIN_DISPLAY@,
        entries@[2]@ == SETUP_ADD_TOOL_PLUGIN_DISPLAY@,
        entries@[3]@ == SETUP_EXIT_DISPLAY@,
{
    let mut entries: Vec<&'static str> = Vec::new();
    entries.push(SETUP_MODEL_DISPLAY);
    entries.push(SETUP_ADD_MODEL_PLUGIN_DISPLAY);
    entries.push(SETUP_ADD_TOOL_PLUGIN_DISPLAY);
    entries.push(SETUP_EXIT_DISPLAY);
    entries
}

/// The command that a menu entry selects; any other entry ends the setup.
pub open spec fn selection_spec(selected: Seq<char>) -> Option<Setup> {
    if selected == SETUP_MODEL_DISPLAY@ {
        Some(Setup::AddModel)
    } else if selected == SETUP_ADD_MODEL_PLUGIN_DISPLAY@ {
        Some(Setup::AddModelPlugin)
    } else if selected == SETUP_ADD_TOOL_PLUGIN_DISPLAY@ {
        Some(Setup::AddToolPlugin)
    } else {
        None
    }
}

/// The command that a menu entry selects.
pub fn setup_from_selection(selected: &str) -> (command: Option<Setup>)
    ensures
        command == selection_spec(selected@),
{
    let selected = String::from_str(selected);
    if selected == String::from_str(SETUP_MODEL_DISPLAY) {
        Some(Setup::AddModel)
    } else if selected == String::from_str(SETUP_ADD_MODEL_PLUGIN_DISPLAY) {
        Some(Setup::AddModelPlugin)
    } else if selected == String::from_str(SETUP_ADD_TOOL_PLUGIN_DISPLAY) {
        Some(Setup::AddToolPlugin)
    } else {
        None
    }
}

/// The type of plugin that a command installs, if it installs one.
pub fn plugin_type_to_install(command: Setup) -> (plugin_type: Option<PluginType>)
    ensures
        plugin_type == match command {
            Setup::AddModel => None,
            Setup::AddModelPlugin => Some(PluginType::Model),
            Setup::AddToolPlugin => Some(PluginType::Tool),
        },
{
    match command {
        Setup::AddModel => None,
        Setup::AddModelPlugin => Some(PluginType::Model),
        Setup::AddToolPlugin => Some(PluginType::Tool),
    }
}

/// What the setup does first.
#[derive(Clone, Copy, Debug, PartialEq, Eq, Structural)]
pub enum SetupStart {
    /// List the installed plugins of a type, then stop.
    ListPlugins(PluginType),
    /// No model plugin is installed: say so and install one.
    InstallFirstModelPlugin,
    /// Ask which command to run.
    AskForCommand,
}

/// The first step of the setup: listing wins, model plugins before tool plugins; without any
/// model plugin, one is installed; otherwise the user is asked.
pub fn setup_start(list_model_plugins: bool, list_tool_plugins: bool, has_model_plugins: bool) -> (start: SetupStart)
    ensures
        start == if list_model_plugins {
            SetupStart::ListPlugins(PluginType::Model)
        } else if list_tool_plugins {
            SetupStart::ListPlugins(PluginType::Tool)
        } else if !has_model_plugins {
            SetupStart::InstallFirstModelPlugin
        } else {
            SetupStart::AskForCommand
        },
{
    if list_model_plugins {
        SetupStart::ListPlugins(PluginType::Model)
    } else if list_tool_plugins {
        SetupStart::ListPlugins(PluginType::Tool)
    } else if !has_model_plugins {
        SetupStart::InstallFirstModelPlugin
    } else {
        SetupStart::AskForCommand
    }
}

/// The line that lists an installed plugin.
pub open spec fn plugin_line(p: Plugin) -> Seq<char> {
    "\t "@ + p.name@ + ": "@ + p.location@
}

/// A plugin file that the user pointed at, and the name to install it under.
#[derive(Debug, Clone, PartialEq, Eq)]
pub struct InputPluginLocation {
    pub name: String,
    pub location: String,
}

impl InputPluginLocation {
    /// The plugin of the given type that this answer describes.
    pub fn into_plugin(self, plugin_type: PluginType) -> (plugin: Plugin)
        ensures
            plugin.name == self.name,
            plugin.location == self.location,
            plugin.plugin_type == plugin_type,
    {
        Plugin { name: self.name, plugin_type, location: self.location }
    }
}

/// The lines that list installed plugins: a notice when there are none, otherwise a heading and
/// one line per plugin, in order.
pub fn plugins_listing(plugins: &Vec<Plugin>) -> (lines: Vec<String>)
    ensures
        plugins@.len() == 0 ==> lines@.len() == 1 && lines@[0]@ == "You have no installed plugins."@,
        plugins@.len() > 0 ==> lines@.len() == plugins@.len() + 1 && lines@[0]@ == "Installed plugins:"@
            && forall|i: int| 0 <= i < plugins@.len() ==> #[trigger] lines@[i + 1]@ == plugin_line(plugins@[i]),
{
    let mut lines: Vec<String> = Vec::new();
    if plugins.len() == 0 {
        lines.push(String::from_str("You have no installed plugins."));
        return lines;
    }
    lines.push(String::from_str("Installed plugins:"));
    let n = plugins.len();
    let mut i: usize = 0;
    while i < n
        invariant
            n == plugins@.len(),
            n > 0,
            i <= n,
            lines@.len() == i + 1,
            lines@[0]@ == "Installed plugins:"@,
            forall|j: int| 0 <= j < i ==> #[trigger] lines@[j + 1]@ == plugin_line(plugins@[j]),
        decreases n - i,
    {
        let mut line = String::from_str("\t ");
        line.append(plugins[i].name.as_str());
        line.append(": ");
        line.append(plugins[i].location.as_str());
        lines.push(line);
        i = i + 1;
    }
    lines
}

/// Why a model could not be added.
#[derive(Debug, Clone, PartialEq, Eq)]
pub enum AddModelError {
    /// No model plugin is installed.
    NoModelPlugins,
    /// A selection input offers no options.
    NoOptions(String),
    /// An input has a type that cannot be asked for.
    UnknownInputType,
}

impl AddModelError {
    /// The message that describes the error.
    pub open spec fn spec_message(self) -> Seq<char> {
        match self {
            AddModelError::NoModelPlugins => "No model plugins found."@,
            AddModelError::NoOptions(name) => "No options available for "@ + name@,
            AddModelError::UnknownInputType => "unknown input type"@,
        }
    }

    /// The message that describes the error.
    pub fn message(&self) -> (message: String)
        ensures
            message@ == self.spec_message(),
    {
        match self {
            AddModelError::NoModelPlugins => String::from_str("No model plugins found."),
            AddModelError::NoOptions(name) => {
                let mut message = String::from_str("No options available for ");
                message.append(name.as_str());
                message
            },
            AddModelError::UnknownInputType => String::from_str("unknown input type"),
        }
    }
}

/// A model can only be added when a model plugin is installed.
pub fn check_model_plugins(model_plugins: &Vec<Plugin>) -> (r: Result<(), AddModelError>)
    ensures
        r is Ok <==> model_plugins@.len() > 0,
        r is Err ==> r == Err::<(), AddModelError>(AddModelError::NoModelPlugins),
{
    if model_plugins.len() == 0 {
        Err(AddModelError::NoModelPlugins)
    } else {
        Ok(())
    }
}

/// How the user is asked for an input.
#[derive(Debug, Clone, PartialEq, Eq)]
pub enum InputRequest {
    /// Pick one of the options.
    Select(Vec<String>),
    /// Type a string.
    Text,
    /// Answer yes or no.
    Confirm,
    /// Type a floating-point number.
    Float,
    /// Type an integer.
    Integer,
}

/// How an input of the given type is asked for.
pub open spec fn request_spec(input_type: Seq<char>) -> Option<InputRequest> {
    if input_type == "string"@ {
        Some(InputRequest::Text)
    } else if input_type == "bool"@ {
        Some(InputRequest::Confirm)
    } else if input_type == "float"@ {
        Some(InputRequest::Float)
    } else if input_type == "number"@ {
        Some(InputRequest::Integer)
    } else {
        None
    }
}

/// How the user is asked for an input: a "select" input offers its options and must have some;
/// "string", "bool", "float" and "number" inputs are typed; any other type is refused.
pub fn input_request(input: ModelInput) -> (request: Result<InputRequest, AddModelError>)
    ensures
        input.input_type@ == "select"@ ==> match input.options {
            Some(options) => request matches Ok(InputRequest::Select(o)) && o@ == options@,
            None => request matches Err(AddModelError::NoOptions(name)) && name@ == input.name@,
        },
        input.input_type@ != "select"@ ==> match request_spec(input.input_type@) {
            Some(r) => request == Ok::<InputRequest, AddModelError>(r),
            None => request == Err::<InputRequest, AddModelError>(AddModelError::UnknownInputType),
        },
{
    let t = input.input_type;
    if t == String::from_str("select") {
        match input.options {
            Some(options) => Ok(InputRequest::Select(options)),
            None => Err(AddModelError::NoOptions(input.name)),
        }
    } else if t == String::from_str("string") {
        Ok(InputRequest::Text)
    } else if t == String::from_str("bool") {
        Ok(InputRequest::Confirm)
    } else if t == String::from_str("float") {
        Ok(InputRequest::Float)
    } else if t == String::from_str("number") {
        Ok(InputRequest::Integer)
    } else {
        Err(AddModelError::UnknownInputType)
    }
}

/// The configuration of a model added during setup: the default provider, the settings the
/// plugin's configuration gathered, and the names of the selected tool plugins, in order.
pub fn model_config_from_selection(settings: ModelSettings, selected_tools: &Vec<Plugin>) -> (config: ModelConfig)
    ensures
        config.provider@ == DEFAULT_MODEL_PROVIDER@,
        config.settings matches Some(s) && settings_view(s) == settings_view(settings),
        config.plugins matches Some(names) && strings_view(names@) == selected_tools@.map_values(
            |p: Plugin| p.name@,
        ),
{
    let mut names: Vec<String> = Vec::new();
    let n = selected_tools.len();
    let mut i: usize = 0;
    while i < n
        invariant
            n == selected_tools@.len(),
            i <= n,
            names@.len() == i,
            forall|j: int| 0 <= j < i ==> #[trigger] names@[j]@ == selected_tools@[j].name@,
        decreases n - i,
    {
        names.push(selected_tools[i].name.clone());
        i = i + 1;
    }
    assert(strings_view(names@) =~= selected_tools@.map_values(|p: Plugin| p.name@));
    ModelConfig {
        provider: String::from_str(DEFAULT_MODEL_PROVIDER),
        settings: Some(settings),
        plugins: Some(names),
    }
}

} // verus!
