use prompt_core::config::{
    Config, ConfigError, ModelConfig, ModelConfigSettingType, ModelSettings, Plugin, PluginFileEntry,
    PluginType, PromptConfig,
};
use prompt_core::string_map::StringMap;

fn assistant_settings() -> ModelSettings {
    let mut settings: ModelSettings = StringMap::new();
    settings.insert(
        String::from("model-id"),
        Some(ModelConfigSettingType::String(String::from(
            "anthropic.model-3-haiku-20240307-v1:0",
        ))),
    );
    settings.insert(
        String::from("region"),
        Some(ModelConfigSettingType::String(String::from("us-east-1"))),
    );
    settings
}

fn populated_config() -> Config {
    let mut models: StringMap<ModelConfig> = StringMap::new();
    models.insert(
        String::from("assistant"),
        ModelConfig {
            settings: Some(assistant_settings()),
            provider: String::from("bedrock"),
            plugins: None,
        },
    );
    Config { default_model: Some(String::from("test")), models: Some(models) }
}

fn entry(file_name: &str, is_file: bool) -> PluginFileEntry {
    PluginFileEntry { file_name: String::from(file_name), is_file }
}

#[test]
fn test_load_config_no_file() {
    let home = String::from("tests/config/no-config-file");
    let result = PromptConfig::from_prompt_home(home.clone(), None);

    assert_eq!(result.prompt_home, home);
}

#[test]
fn test_load_config_optionals() {
    let home = String::from("tests/config/empty");
    let config_result = PromptConfig::from_prompt_home(home, None);

    assert!(!config_result.config.default_model.is_some());
    assert!(!config_result.config.models.is_some());
}

#[test]
fn test_load_config() {
    let home = String::from("tests/config/populated");
    let config_result = PromptConfig::from_prompt_home(home, Some(populated_config()));

    assert_eq!("test", config_result.config.default_model.unwrap());

    let binding = config_result.config.models.unwrap();
    let model_config = binding.get(&String::from("assistant")).unwrap();

    assert_eq!("bedrock", model_config.provider);
    let settings = model_config.settings.as_ref().unwrap();
    assert_eq!(settings.len(), 2);
    assert_eq!(
        settings.get(&String::from("model-id")),
        Some(&Some(ModelConfigSettingType::String(String::from(
            "anthropic.model-3-haiku-20240307-v1:0"
        ))))
    );
    assert_eq!(
        settings.get(&String::from("region")),
        Some(&Some(ModelConfigSettingType::String(String::from("us-east-1"))))
    );
}

#[test]
fn test_config_model_plugins() {
    let home = String::from("tests/config/plugins");
    let config_result = PromptConfig::from_prompt_home(home, None);

    let directory = config_result.plugin_directory(PluginType::Model);
    assert_eq!(directory, "tests/config/plugins/model_plugins");
    let entries = vec![
        entry("bedrock.js", true),
        entry("anthropic.js.js", true),
    ];
    let model_plugins = config_result.list_plugins(PluginType::Model, Some(&entries));

    assert_eq!(model_plugins.len(), 2);
    assert_eq!(
        model_plugins,
        vec![
            Plugin {
                name: String::from("anthropic.js"),
                plugin_type: PluginType::Model,
                location: String::from("tests/config/plugins/model_plugins/anthropic.js.js")
            },
            Plugin {
                name: String::from("bedrock"),
                plugin_type: PluginType::Model,
                location: String::from("tests/config/plugins/model_plugins/bedrock.js")
            },
        ]
    );
}

#[test]
fn test_config_tool_plugins() {
    let home = String::from("tests/config/plugins");
    let config_result = PromptConfig::from_prompt_home(home, None);

    let directory = config_result.plugin_directory(PluginType::Tool);
    assert_eq!(directory, "tests/config/plugins/tool_plugins");
    let entries = vec![entry("weather.js", true), entry("google.js.js", true)];
    let model_plugins = config_result.list_plugins(PluginType::Tool, Some(&entries));

    assert_eq!(model_plugins.len(), 2);
    assert_eq!(
        model_plugins,
        vec![
            Plugin {
                name: String::from("google.js"),
                plugin_type: PluginType::Model,
                location: String::from("tests/config/plugins/model_plugins/google.js.js")
            },
            Plugin {
                name: String::from("weather"),
                plugin_type: PluginType::Model,
                location: String::from("tests/config/plugins/model_plugins/weather.js")
            },
        ]
    );
}

#[test]
fn list_plugins_keeps_only_javascript_files_in_name_order() {
    let config = PromptConfig::from_prompt_home(String::from("/home/u/.prompt"), None);
    let entries = vec![
        entry("weather.js", true),
        entry("notes.txt", true),
        entry("nested.js", false),
        entry(".js", true),
        entry("js", true),
        entry("Zeta.js", true),
        entry("google.js.js", true),
        entry("alpha.js", true),
        entry("alp.js", true),
    ];
    let plugins = config.list_plugins(PluginType::Model, Some(&entries));
    let names: Vec<&str> = plugins.iter().map(|p| p.name.as_str()).collect();
    assert_eq!(names, vec!["Zeta", "alp", "alpha", "google.js", "weather"]);
    assert_eq!(plugins[0].location, "/home/u/.prompt/model_plugins/Zeta.js");
    assert!(plugins.iter().all(|p| p.plugin_type == PluginType::Model));
}

#[test]
fn list_plugins_without_directory_is_empty() {
    let config = PromptConfig::from_prompt_home(String::from("/home/u/.prompt"), None);
    assert!(config.list_plugins(PluginType::Model, None).is_empty());
}

#[test]
fn installed_plugin_is_listed_back() {
    let config = PromptConfig::from_prompt_home(String::from("/home/u/.prompt"), None);
    let plugin = Plugin {
        name: String::from("my_model"),
        plugin_type: PluginType::Model,
        location: String::from("/tmp/bundle.js"),
    };
    let installation = config.install_plugin(&plugin);
    assert_eq!(installation.source, "/tmp/bundle.js");
    assert_eq!(installation.destination, "/home/u/.prompt/model_plugins/my_model.js");

    let listed = config.list_plugins(
        PluginType::Model,
        Some(&vec![entry("zoo.js", true), entry("my_model.js", true), entry("my_model.txt", true)]),
    );
    let mine: Vec<&Plugin> = listed.iter().filter(|p| p.name == "my_model").collect();
    assert_eq!(
        mine,
        vec![&Plugin {
            name: String::from("my_model"),
            plugin_type: PluginType::Model,
            location: installation.destination,
        }]
    );
}

#[test]
fn tool_plugins_install_into_tool_directory() {
    let config = PromptConfig::from_prompt_home(String::from("home"), None);
    let plugin = Plugin {
        name: String::from("weather"),
        plugin_type: PluginType::Tool,
        location: String::from("weather_bundle.js"),
    };
    assert_eq!(config.install_plugin(&plugin).destination, "home/tool_plugins/weather.js");
}

#[test]
fn added_model_is_found_with_its_plugin() {
    let mut config = PromptConfig::from_prompt_home(String::from("/home/u/.prompt"), None);
    config.config.add_model(
        String::from("assistant"),
        ModelConfig { settings: Some(assistant_settings()), provider: String::from("bedrock"), plugins: None },
    );
    let (model, plugin) = config.get_model_plugin(String::from("assistant")).unwrap();
    assert_eq!(model.provider, "bedrock");
    assert_eq!(model.settings.as_ref().unwrap().len(), 2);
    assert_eq!(
        plugin,
        Plugin {
            name: String::from("assistant"),
            plugin_type: PluginType::Model,
            location: String::from("/home/u/.prompt/model_plugins/bedrock.js"),
        }
    );
}

#[test]
fn adding_a_model_again_replaces_it_in_place() {
    let mut config = populated_config();
    config.add_model(
        String::from("writer"),
        ModelConfig { settings: None, provider: String::from("remote"), plugins: None },
    );
    config.add_model(
        String::from("assistant"),
        ModelConfig {
            settings: None,
            provider: String::from("vendor"),
            plugins: Some(vec![String::from("weather")]),
        },
    );
    let models = config.models.as_ref().unwrap();
    assert_eq!(models.len(), 2);
    let keys: Vec<&str> = models.entries().iter().map(|(k, _)| k.as_str()).collect();
    assert_eq!(keys, vec!["assistant", "writer"]);
    assert_eq!(models.get(&String::from("assistant")).unwrap().provider, "vendor");
    assert_eq!(config.default_model, Some(String::from("test")));
}

#[test]
fn missing_models_are_reported() {
    let empty = PromptConfig::from_prompt_home(String::from("home"), None);
    let err = empty.get_model_plugin(String::from("assistant")).unwrap_err();
    assert_eq!(err, ConfigError::NoModelsAvailable);
    assert_eq!(err.message(), "no models available");

    let populated = PromptConfig::from_prompt_home(String::from("home"), Some(populated_config()));
    let err = populated.get_model_plugin(String::from("writer")).unwrap_err();
    assert_eq!(err, ConfigError::ModelNotFound(String::from("writer")));
    assert_eq!(err.message(), "model writer not found");
}

#[test]
fn chats_are_listed_when_the_directory_exists() {
    let config = PromptConfig::from_prompt_home(String::from("/home/u/.prompt"), None);
    assert!(config.list_chats(false).is_empty());
    let names: Vec<String> = config.list_chats(true).into_iter().map(|c| c.name).collect();
    assert_eq!(names, vec![String::from("QBR 2024"), String::from("WBR 2024")]);
    assert_eq!(config.chats_probe_path(), "/home/u/.prompt/chats");

    let relative = PromptConfig::from_prompt_home(String::from("home"), None);
    assert_eq!(relative.chats_probe_path(), "home/home/chats");
}

#[test]
fn prompt_home_layout() {
    let directories = PromptConfig::required_directories("/home/u/.prompt");
    assert_eq!(
        directories,
        vec![
            String::from("/home/u/.prompt"),
            String::from("/home/u/.prompt/tool_plugins"),
            String::from("/home/u/.prompt/model_plugins"),
            String::from("/home/u/.prompt/chats"),
        ]
    );
    assert_eq!(PromptConfig::config_file_path("/home/u/.prompt/"), "/home/u/.prompt/config.yml");
}

#[test]
fn model_config_copies_are_equal() {
    let original = ModelConfig {
        settings: Some(assistant_settings()),
        provider: String::from("bedrock"),
        plugins: Some(vec![String::from("weather"), String::from("google")]),
    };
    assert_eq!(original.duplicate(), original);
}

#[test]
fn configurations_are_equal_whatever_the_order_of_their_models() {
    let mut first = Config { default_model: None, models: None };
    let mut second = Config { default_model: None, models: None };
    let model = |provider: &str| ModelConfig { settings: None, provider: String::from(provider), plugins: None };
    first.add_model(String::from("writer"), model("remote"));
    first.add_model(String::from("assistant"), model("bedrock"));
    second.add_model(String::from("assistant"), model("bedrock"));
    second.add_model(String::from("writer"), model("remote"));
    assert_eq!(first, second);
    second.add_model(String::from("writer"), model("other"));
    assert_ne!(first, second);
}
