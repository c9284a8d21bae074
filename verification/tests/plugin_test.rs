use prompt_core::config::{ModelConfigSettingType, ModelSettings};
use prompt_core::js_value::{ConversionError, JsObject, JsObjectKind, JsProperty, JsTarget, JsType, JsValue};
use prompt_core::plugin::{
    check_configuration_step, configure_argument, model_responses, plugin_from_module, require_method,
    read_input, ModelInput, ModelPrompt, ModelPromptBinaryPayload, PluginError, PluginMethod,
};
use prompt_core::string_map::StringMap;

fn prop(key: &str, value: JsValue) -> JsProperty {
    JsProperty { key: String::from(key), value }
}

fn object(properties: Vec<JsProperty>) -> JsValue {
    JsValue::Object(JsObject { kind: JsObjectKind::Plain, properties })
}

fn function() -> JsValue {
    JsValue::Object(JsObject { kind: JsObjectKind::Function, properties: vec![] })
}

fn array(elements: Vec<JsValue>) -> JsValue {
    JsValue::Object(JsObject { kind: JsObjectKind::Array(elements), properties: vec![] })
}

fn bytes(data: Vec<u8>) -> JsValue {
    JsValue::Object(JsObject { kind: JsObjectKind::Uint8Array(data), properties: vec![] })
}

fn text(s: &str) -> JsValue {
    JsValue::Str(String::from(s))
}

#[test]
fn prompts_read_back_as_sent() {
    let sent = ModelPrompt::Text(String::from("prompt"));
    assert_eq!(ModelPrompt::from_value(&sent.to_value()), Ok(sent));

    let image = ModelPrompt::Image(ModelPromptBinaryPayload { value: vec![1, 2, 3], format: String::from("png") });
    assert_eq!(ModelPrompt::from_value(&image.to_value()), Ok(image));
}

#[test]
fn documents_read_back_as_images() {
    let document =
        ModelPrompt::Document(ModelPromptBinaryPayload { value: vec![9, 8], format: String::from("pdf") });
    assert_eq!(
        ModelPrompt::from_value(&document.to_value()),
        Ok(ModelPrompt::Image(ModelPromptBinaryPayload { value: vec![9, 8], format: String::from("pdf") }))
    );
}

#[test]
fn text_prompt_value_layout() {
    let value = ModelPrompt::Text(String::from("hi")).to_value();
    assert_eq!(value, object(vec![prop("type", text("text")), prop("value", text("hi"))]));
}

#[test]
fn malformed_responses_are_refused() {
    let err = ModelPrompt::from_value(&JsValue::Int(3)).unwrap_err();
    assert_eq!(err, PluginError::ResponseNotObject(JsType::Int));
    assert_eq!(err.message(), "model response should be an object, int returned.");

    let err = ModelPrompt::from_value(&object(vec![])).unwrap_err();
    assert_eq!(
        err,
        PluginError::Conversion(ConversionError { from: JsType::Undefined, to: JsTarget::Type(JsType::String) })
    );
    assert_eq!(err.message(), "Error converting from js 'undefined' into type 'string'");

    let err = ModelPrompt::from_value(&object(vec![prop("type", text("audio"))])).unwrap_err();
    assert_eq!(err, PluginError::UnsupportedPromptType(String::from("audio")));
    assert_eq!(err.message(), "Type 'audio' is not supported for plugin prompt");

    let err = ModelPrompt::from_value(&object(vec![
        prop("type", text("image")),
        prop("value", object(vec![])),
        prop("format", text("png")),
    ]))
    .unwrap_err();
    assert_eq!(err.message(), "Error converting from js 'object' into type 'Uint8Array'");

    let err = ModelPrompt::from_value(&object(vec![prop("type", text("image")), prop("value", text("x"))]))
        .unwrap_err();
    assert_eq!(err.message(), "Error converting from js 'string' into type 'object'");

    let err = ModelPrompt::from_value(&object(vec![prop("type", text("image")), prop("value", bytes(vec![1]))]))
        .unwrap_err();
    assert_eq!(err.message(), "Error converting from js 'undefined' into type 'string'");
}

#[test]
fn settings_convert_both_ways() {
    let float = ModelConfigSettingType::Float(1.5f64.to_bits());
    for setting in [
        ModelConfigSettingType::Integer(7),
        float,
        ModelConfigSettingType::String(String::from("us-east-1")),
        ModelConfigSettingType::Bool(true),
    ] {
        assert_eq!(ModelConfigSettingType::from_value(&setting.to_value()), Ok(setting));
    }
    assert_eq!(ModelConfigSettingType::Integer(7).to_value(), JsValue::Int(7));
    let err = ModelConfigSettingType::from_value(&JsValue::Null).unwrap_err();
    assert_eq!(err.message(), "Type 'null' is not supported for plugin settings");
    let err = ModelConfigSettingType::from_value(&array(vec![])).unwrap_err();
    assert_eq!(err.message(), "Type 'array' is not supported for plugin settings");
}

#[test]
fn plugin_export_is_found() {
    let plugin = JsObject { kind: JsObjectKind::Plain, properties: vec![prop("test", function())] };
    let module = object(vec![prop("plugin", JsValue::Object(JsObject {
        kind: JsObjectKind::Plain,
        properties: vec![prop("test", function())],
    }))]);
    assert_eq!(plugin_from_module(&module), Ok(&plugin));

    let err = plugin_from_module(&JsValue::Undefined).unwrap_err();
    assert_eq!(err.message(), "no exported members found in module.");
    let err = plugin_from_module(&object(vec![prop("other", function())])).unwrap_err();
    assert_eq!(err.message(), "The 'plugin' export should be an object");
    let err = plugin_from_module(&object(vec![prop("plugin", text("x"))])).unwrap_err();
    assert_eq!(err, PluginError::PluginNotObject);
}

#[test]
fn plugin_methods_must_be_functions() {
    let plugin = JsObject {
        kind: JsObjectKind::Plain,
        properties: vec![prop("prompt", function()), prop("configure", text("no"))],
    };
    assert_eq!(require_method(&plugin, PluginMethod::Prompt), Ok(()));
    let err = require_method(&plugin, PluginMethod::Configure).unwrap_err();
    assert_eq!(err.message(), "Method 'configure' not found in model plugin.");
    let err = require_method(&plugin, PluginMethod::Test).unwrap_err();
    assert_eq!(err.message(), "Method 'test' not found on plugin.");
    let err = require_method(&plugin, PluginMethod::Configuration).unwrap_err();
    assert_eq!(err.message(), "Method 'configuration' not found in model plugin.");
}

#[test]
fn model_responses_are_read_in_order() {
    let answer = array(vec![
        object(vec![prop("type", text("text")), prop("value", text("I was configured with: derp, and was sent: prompt"))]),
        object(vec![prop("type", text("image")), prop("value", bytes(vec![7])), prop("format", text("jpg"))]),
    ]);
    assert_eq!(
        model_responses(&answer),
        Ok(vec![
            ModelPrompt::Text(String::from("I was configured with: derp, and was sent: prompt")),
            ModelPrompt::Image(ModelPromptBinaryPayload { value: vec![7], format: String::from("jpg") }),
        ])
    );
    let err = model_responses(&text("nope")).unwrap_err();
    assert_eq!(err.message(), "Error converting from js 'string' into type 'array'");
    let err = model_responses(&array(vec![object(vec![prop("type", text("text"))]), JsValue::Int(1)])).unwrap_err();
    assert_eq!(err.message(), "Error converting from js 'undefined' into type 'string'");
}

#[test]
fn configure_argument_holds_defined_settings() {
    let mut settings: ModelSettings = StringMap::new();
    settings.insert(String::from("deep"), Some(ModelConfigSettingType::String(String::from("derp"))));
    settings.insert(String::from("unset"), None);
    settings.insert(String::from("count"), Some(ModelConfigSettingType::Integer(2)));
    assert_eq!(
        configure_argument(&Some(settings)),
        object(vec![prop("deep", text("derp")), prop("count", JsValue::Int(2))])
    );
    assert_eq!(configure_argument(&None), object(vec![]));
}

#[test]
fn configuration_steps_are_checked() {
    assert_eq!(check_configuration_step(&object(vec![prop("input", function())])), Ok(()));
    let err = check_configuration_step(&object(vec![prop("input", text("x"))])).unwrap_err();
    assert_eq!(err.message(), "Configuration step 'input' field should be a function");
    let err = check_configuration_step(&JsValue::Bool(true)).unwrap_err();
    assert_eq!(err.message(), "Method 'configuration' should return array or configuration steps.");
}

#[test]
fn inputs_are_read_from_descriptions() {
    let description = prop(
        "model",
        object(vec![
            prop("displayName", text("Model")),
            prop("type", text("select")),
            prop("required", JsValue::Bool(true)),
            prop("options", array(vec![text("a"), text("b")])),
        ]),
    );
    assert_eq!(
        read_input(&description),
        Some(Ok(ModelInput {
            name: String::from("model"),
            display_name: String::from("Model"),
            input_type: String::from("select"),
            required: true,
            options: Some(vec![String::from("a"), String::from("b")]),
        }))
    );
    assert_eq!(read_input(&prop("skipped", text("not an object"))), None);
    let missing_required = prop(
        "region",
        object(vec![prop("displayName", text("Region")), prop("type", text("string"))]),
    );
    let err = read_input(&missing_required).unwrap().unwrap_err();
    assert_eq!(err.message(), "Error converting from js 'undefined' into type 'bool'");
    let bad_options = prop(
        "region",
        object(vec![
            prop("displayName", text("Region")),
            prop("type", text("string")),
            prop("required", JsValue::Bool(false)),
            prop("options", array(vec![JsValue::Int(1)])),
        ]),
    );
    let err = read_input(&bad_options).unwrap().unwrap_err();
    assert_eq!(err.message(), "Error converting from js 'int' into type 'string'");
}

fn module_exporting(plugin: JsValue) -> JsValue {
    object(vec![prop("plugin", plugin)])
}

#[test]
fn test_no_test_method() {
    let module = module_exporting(object(vec![prop("prompt", function())]));
    let plugin = plugin_from_module(&module);
    assert!(plugin.is_ok(), "unexpected error getting plugin: {:#?}", plugin.err());

    if let Ok(plugin) = plugin {
        let plugin_result = require_method(plugin, PluginMethod::Test);
        assert!(plugin_result.is_err(), "expected plugin error");
        assert_eq!(plugin_result.err().unwrap().message(), "Method 'test' not found on plugin.");
    }
}

#[test]
fn test_simple_test_method() {
    let module = module_exporting(object(vec![prop("test", function())]));
    let plugin = plugin_from_module(&module);
    assert!(plugin.is_ok(), "unexpected error getting plugin: {:#?}", plugin.err());

    if let Ok(plugin) = plugin {
        let plugin_result = require_method(plugin, PluginMethod::Test);
        assert!(plugin_result.is_ok(), "unexpected plugin result: {:?}", plugin_result);
    }
}
