use prompt_core::cli::{
    greeting, prompt_from_input, resolve_prompt_home, select_model_name, CliError, FileExtension, InputFile,
};
use prompt_core::config::{ModelSettings, Plugin, PluginType};
use prompt_core::javascript_engine::{
    console_methods, require_plan, resolvable_module_names, ConsoleLogger, ExportsHolder, JavascriptEngineModule,
    LogLevel,
};
use prompt_core::plugin::{ModelInput, ModelPrompt, ModelPromptBinaryPayload};
use prompt_core::setup::{
    check_model_plugins, input_request, model_config_from_selection, plugin_type_to_install, plugins_listing,
    setup_from_selection, setup_menu, setup_start, AddModelError, InputPluginLocation, InputRequest, Setup,
    SetupStart,
};
use prompt_core::string_map::StringMap;
use prompt_core::validators::{plugin_location_validator, plugin_name_validator, Validation};

fn plugin(name: &str, location: &str) -> Plugin {
    Plugin { name: String::from(name), plugin_type: PluginType::Tool, location: String::from(location) }
}

fn input(input_type: &str, options: Option<Vec<&str>>) -> ModelInput {
    ModelInput {
        name: String::from("field"),
        display_name: String::from("Field"),
        input_type: String::from(input_type),
        required: true,
        options: options.map(|o| o.into_iter().map(String::from).collect()),
    }
}

#[test]
fn prompt_home_resolution() {
    assert_eq!(resolve_prompt_home(Some(String::from("/tmp/p")), Some(String::from("/home/u"))), Ok(String::from("/tmp/p")));
    assert_eq!(resolve_prompt_home(None, Some(String::from("/home/u"))), Ok(String::from("/home/u/.prompt")));
    let err = resolve_prompt_home(None, None).unwrap_err();
    assert_eq!(err.message(), "could not resolve home directory");
}

#[test]
fn model_selection() {
    assert_eq!(select_model_name(Some(String::from("a")), &Some(String::from("b"))), Ok(String::from("a")));
    assert_eq!(select_model_name(None, &Some(String::from("b"))), Ok(String::from("b")));
    let err = select_model_name(None, &None).unwrap_err();
    assert_eq!(err, CliError::NoModelSpecified);
    assert_eq!(err.message(), "no model specified");
}

#[test]
fn prompt_input_priority_and_errors() {
    let png = InputFile { data: vec![1, 2], extension: FileExtension::Name(String::from("png")) };
    let pdf = InputFile { data: vec![3], extension: FileExtension::Name(String::from("pdf")) };
    assert_eq!(
        prompt_from_input(Some(String::from("hello")), Some(png.clone()), None),
        Ok(ModelPrompt::Text(String::from("hello")))
    );
    assert_eq!(
        prompt_from_input(None, Some(png), Some(pdf.clone())),
        Ok(ModelPrompt::Image(ModelPromptBinaryPayload { value: vec![1, 2], format: String::from("png") }))
    );
    assert_eq!(
        prompt_from_input(None, None, Some(pdf)),
        Ok(ModelPrompt::Document(ModelPromptBinaryPayload { value: vec![3], format: String::from("pdf") }))
    );
    let err = prompt_from_input(None, Some(InputFile { data: vec![], extension: FileExtension::Missing }), None)
        .unwrap_err();
    assert_eq!(err.message(), "could not resolve file extension");
    let err = prompt_from_input(None, None, Some(InputFile { data: vec![], extension: FileExtension::NotUnicode }))
        .unwrap_err();
    assert_eq!(err.message(), "error mapping file extension");
    let err = prompt_from_input(None, None, None).unwrap_err();
    assert_eq!(err.message(), "text, image, or document are required for input prompt");
}

#[test]
fn greeting_text() {
    assert_eq!(greeting("Ada"), "Hello, Ada! You've been greeted from Rust!");
}

#[test]
fn setup_menu_and_selection() {
    assert_eq!(setup_menu(), vec!["Add Model", "Add Model Plugin", "Add Tool Plugin", "Exit"]);
    assert_eq!(setup_from_selection("Add Model"), Some(Setup::AddModel));
    assert_eq!(setup_from_selection("Add Model Plugin"), Some(Setup::AddModelPlugin));
    assert_eq!(setup_from_selection("Add Tool Plugin"), Some(Setup::AddToolPlugin));
    assert_eq!(setup_from_selection("Exit"), None);
    assert_eq!(plugin_type_to_install(Setup::AddModel), None);
    assert_eq!(plugin_type_to_install(Setup::AddModelPlugin), Some(PluginType::Model));
    assert_eq!(plugin_type_to_install(Setup::AddToolPlugin), Some(PluginType::Tool));
}

#[test]
fn setup_first_step() {
    assert_eq!(setup_start(true, true, false), SetupStart::ListPlugins(PluginType::Model));
    assert_eq!(setup_start(false, true, true), SetupStart::ListPlugins(PluginType::Tool));
    assert_eq!(setup_start(false, false, false), SetupStart::InstallFirstModelPlugin);
    assert_eq!(setup_start(false, false, true), SetupStart::AskForCommand);
}

#[test]
fn plugin_listing_lines() {
    assert_eq!(plugins_listing(&vec![]), vec![String::from("You have no installed plugins.")]);
    assert_eq!(
        plugins_listing(&vec![plugin("weather", "/p/weather.js"), plugin("google", "/p/google.js")]),
        vec![
            String::from("Installed plugins:"),
            String::from("\t weather: /p/weather.js"),
            String::from("\t google: /p/google.js"),
        ]
    );
}

#[test]
fn adding_a_model() {
    let err = check_model_plugins(&vec![]).unwrap_err();
    assert_eq!(err.message(), "No model plugins found.");
    assert_eq!(check_model_plugins(&vec![plugin("m", "m.js")]), Ok(()));

    assert_eq!(
        input_request(input("select", Some(vec!["a", "b"]))),
        Ok(InputRequest::Select(vec![String::from("a"), String::from("b")]))
    );
    let err = input_request(input("select", None)).unwrap_err();
    assert_eq!(err, AddModelError::NoOptions(String::from("field")));
    assert_eq!(err.message(), "No options available for field");
    assert_eq!(input_request(input("string", None)), Ok(InputRequest::Text));
    assert_eq!(input_request(input("bool", None)), Ok(InputRequest::Confirm));
    assert_eq!(input_request(input("float", None)), Ok(InputRequest::Float));
    assert_eq!(input_request(input("number", None)), Ok(InputRequest::Integer));
    let err = input_request(input("date", None)).unwrap_err();
    assert_eq!(err.message(), "unknown input type");

    let settings: ModelSettings = StringMap::new();
    let config = model_config_from_selection(settings, &vec![plugin("weather", "w.js"), plugin("google", "g.js")]);
    assert_eq!(config.provider, "bedrock");
    assert_eq!(config.settings.unwrap().len(), 0);
    assert_eq!(config.plugins, Some(vec![String::from("weather"), String::from("google")]));

    let location = InputPluginLocation { name: String::from("w"), location: String::from("/tmp/w.js") };
    assert_eq!(
        location.into_plugin(PluginType::Tool),
        Plugin { name: String::from("w"), plugin_type: PluginType::Tool, location: String::from("/tmp/w.js") }
    );
}

#[test]
fn plugin_name_validation() {
    assert_eq!(plugin_name_validator("my_plugin1"), Ok(Validation::Valid));
    assert_eq!(plugin_name_validator("Z_9"), Ok(Validation::Valid));
    let invalid = Ok(Validation::Invalid(String::from("Plugin names can only contain letters, numbers or '_'")));
    assert_eq!(plugin_name_validator("my-plugin"), invalid);
    assert_eq!(plugin_name_validator("a-b"), invalid);
    assert_eq!(plugin_name_validator("name "), invalid);
    assert_eq!(plugin_name_validator("plugin.js"), invalid);
    assert_eq!(plugin_name_validator("---"), invalid);
    assert_eq!(plugin_name_validator(""), invalid);
}

#[test]
fn plugin_location_validation() {
    assert_eq!(plugin_location_validator("/p/a.js", true), Validation::Valid);
    assert_eq!(
        plugin_location_validator("/p/a.js", false),
        Validation::Invalid(String::from("Plugin file does not exist: /p/a.js"))
    );
}

#[test]
fn engine_modules_and_console() {
    let names = resolvable_module_names(&vec![JavascriptEngineModule {
        name: String::from("test"),
        code: String::from("export const plugin = {};"),
    }]);
    assert_eq!(names.len(), 13);
    assert_eq!(names[0], "fs");
    assert_eq!(names[7], "stream");
    assert_eq!(names[12], "test");

    let methods = console_methods();
    assert_eq!(methods.len(), 6);
    assert_eq!(methods[5], ("info", LogLevel::Trace));
    assert_eq!(methods[0], ("log", LogLevel::Log));
    let _logger = ConsoleLogger::new();
}

#[test]
fn require_presents_exports() {
    let exports = vec![(String::from("default"), false), (String::from("plugin"), true), (String::from("helper"), false)];
    let plan = require_plan(&exports, true);
    assert_eq!(plan.holder, ExportsHolder::DefaultExport);
    assert_eq!(plan.copied, vec![String::from("default"), String::from("helper")]);
    let plan = require_plan(&exports, false);
    assert_eq!(plan.holder, ExportsHolder::NewObject);
    assert_eq!(plan.copied, vec![String::from("default"), String::from("plugin"), String::from("helper")]);
}
