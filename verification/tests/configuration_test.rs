use prompt_core::config::ModelConfigSettingType;
use prompt_core::configuration::{ConfigurationAction, ConfigurationRun};
use prompt_core::js_value::{JsObject, JsObjectKind, JsProperty, JsValue};
use prompt_core::plugin::{ModelInput, PluginError};

fn prop(key: &str, value: JsValue) -> JsProperty {
    JsProperty { key: String::from(key), value }
}

fn object(properties: Vec<JsProperty>) -> JsValue {
    JsValue::Object(JsObject { kind: JsObjectKind::Plain, properties })
}

fn function() -> JsValue {
    JsValue::Object(JsObject { kind: JsObjectKind::Function, properties: vec![] })
}

fn array(elements: Vec<JsValue>) -> JsValue {
    JsValue::Object(JsObject { kind: JsObjectKind::Array(elements), properties: vec![] })
}

fn text(s: &str) -> JsValue {
    JsValue::Str(String::from(s))
}

fn step() -> JsValue {
    object(vec![prop("input", function())])
}

fn description(display: &str, kind: &str) -> JsValue {
    object(vec![
        prop("displayName", text(display)),
        prop("type", text(kind)),
        prop("required", JsValue::Bool(true)),
    ])
}

fn expect_step(action: ConfigurationAction, index: usize) -> JsObject {
    match action {
        ConfigurationAction::RunStep(i, argument) => {
            assert_eq!(i, index);
            assert_eq!(argument.kind, JsObjectKind::Plain);
            argument
        }
        other => panic!("expected a step, got {:?}", other),
    }
}

fn expect_ask(action: &ConfigurationAction, name: &str) {
    match action {
        ConfigurationAction::Ask(ModelInput { name: n, .. }) => assert_eq!(n, name),
        other => panic!("expected a question, got {:?}", other),
    }
}

#[test]
fn configuration_gathers_answers_into_settings() {
    let (run, action) = ConfigurationRun::start(array(vec![step(), step()]));
    let argument = expect_step(action, 0);
    assert!(argument.properties.is_empty());

    let (run, action) = run.on_step_result(
        object(vec![
            prop("region", description("Region", "string")),
            prop("ignored", text("not a description")),
            prop("count", description("Count", "number")),
        ]),
        argument,
    );
    expect_ask(&action, "region");
    let (run, action) = run.on_input(text("us-east-1"));
    expect_ask(&action, "count");
    let (run, action) = run.on_input(JsValue::Int(3));
    let mut argument = expect_step(action, 1);
    assert_eq!(argument.properties, vec![prop("region", text("us-east-1")), prop("count", JsValue::Int(3))]);

    // The step adds a value of its own to the object it was given.
    argument.properties.push(prop("verbose", JsValue::Bool(true)));
    let (run, action) = run.on_step_result(object(vec![prop("region", description("Region", "string"))]), argument);
    expect_ask(&action, "region");
    let (_, action) = run.on_input(text("eu-west-1"));
    match action {
        ConfigurationAction::Done(settings) => {
            let entries = settings.entries();
            assert_eq!(
                entries,
                &vec![
                    (String::from("region"), Some(ModelConfigSettingType::String(String::from("eu-west-1")))),
                    (String::from("count"), Some(ModelConfigSettingType::Integer(3))),
                    (String::from("verbose"), Some(ModelConfigSettingType::Bool(true))),
                ]
            );
        }
        other => panic!("expected settings, got {:?}", other),
    }
}

#[test]
fn values_a_step_leaves_are_what_is_gathered() {
    let (run, action) = ConfigurationRun::start(array(vec![step()]));
    let mut argument = expect_step(action, 0);
    argument.properties.push(prop("model", text("first")));
    argument.properties.push(prop("model", text("second")));
    argument.properties.push(prop("handler", function()));
    let (_, action) = run.on_step_result(object(vec![]), argument);
    match action {
        ConfigurationAction::Fail(e) => assert_eq!(e.message(), "Type 'function' is not supported for plugin settings"),
        other => panic!("expected a failure, got {:?}", other),
    }

    let (run, action) = ConfigurationRun::start(array(vec![step()]));
    let mut argument = expect_step(action, 0);
    argument.properties.push(prop("model", text("first")));
    argument.properties.push(prop("model", text("second")));
    let (_, action) = run.on_step_result(object(vec![]), argument);
    match action {
        ConfigurationAction::Done(settings) => assert_eq!(
            settings.entries(),
            &vec![(String::from("model"), Some(ModelConfigSettingType::String(String::from("second"))))]
        ),
        other => panic!("expected settings, got {:?}", other),
    }
}

#[test]
fn configuration_without_steps_is_empty() {
    let (_, action) = ConfigurationRun::start(array(vec![]));
    match action {
        ConfigurationAction::Done(settings) => assert_eq!(settings.len(), 0),
        other => panic!("expected settings, got {:?}", other),
    }
}

#[test]
fn configuration_failures() {
    let (_, action) = ConfigurationRun::start(object(vec![]));
    match action {
        ConfigurationAction::Fail(e) => {
            assert_eq!(e, PluginError::ConfigurationNotArray);
            assert_eq!(e.message(), "Method 'configuration' should return an array.");
        }
        other => panic!("expected a failure, got {:?}", other),
    }

    let (_, action) = ConfigurationRun::start(array(vec![text("step")]));
    assert!(matches!(action, ConfigurationAction::Fail(PluginError::StepNotObject)));

    let (_, action) = ConfigurationRun::start(array(vec![object(vec![])]));
    assert!(matches!(action, ConfigurationAction::Fail(PluginError::StepInputNotFunction)));

    let (run, action) = ConfigurationRun::start(array(vec![step()]));
    let argument = expect_step(action, 0);
    let (_, action) = run.on_step_result(JsValue::Null, argument);
    match action {
        ConfigurationAction::Fail(e) => assert_eq!(e.message(), "Configuration step should return an object."),
        other => panic!("expected a failure, got {:?}", other),
    }

    let (run, action) = ConfigurationRun::start(array(vec![step()]));
    let argument = expect_step(action, 0);
    let (run, _) = run.on_step_result(object(vec![prop("flag", description("Flag", "bool"))]), argument);
    let (_, action) = run.on_input(JsValue::Null);
    match action {
        ConfigurationAction::Fail(e) => assert_eq!(e.message(), "Type 'null' is not supported for plugin settings"),
        other => panic!("expected a failure, got {:?}", other),
    }
}
