//! Model plugins: the prompts and settings exchanged with them, and how their answers are read.
use vstd::prelude::*;
use crate::config::{
    ModelConfigSettingType, ModelSettings, SettingView, settings_view, setting_entry_view,
};
use crate::js_value::{
    JsTarget,
    property,
    JsValue, JsObject, JsObjectKind, JsProperty, JsType, ConversionError, js_type, get_property,
    spec_as_string, spec_as_strings, spec_as_bytes, spec_as_bool, spec_as_optional_strings, as_string, as_bytes,
    as_bool, as_optional_strings, copy_bytes, is_function,
};
use crate::string_map::{StringMap, distinct_keys, key_position, keyed, lemma_key_position};

verus! {

/// A method that a plugin exports.
#[derive(Clone, Copy, Debug, PartialEq, Eq, Structural)]
pub enum PluginMethod {
    Test,
    Prompt,
    Configure,
    Configuration,
}

impl PluginMethod {
    /// The name of the method.
    pub open spec fn spec_name(self) -> Seq<char> {
        match self {
            PluginMethod::Test => "test"@,
            PluginMethod::Prompt => "prompt"@,
            PluginMethod::Configure => "configure"@,
            PluginMethod::Configuration => "configuration"@,
        }
    }

    /// The name of the method.
    pub fn name(&self) -> (name: &'static str)
        ensures
            name@ == self.spec_name(),
    {
        match self {
            PluginMethod::Test => "test",
            PluginMethod::Prompt => "prompt",
            PluginMethod::Configure => "configure",
            PluginMethod::Configuration => "configuration",
        }
    }
}

/// What went wrong between the library and a plugin.
#[derive(Debug, Clone, PartialEq, Eq)]
pub enum PluginError {
    /// A value did not convert to the type that was read.
    Conversion(ConversionError),
    /// The module exports nothing.
    NoExports,
    /// The module's `plugin` export is not an object.
    PluginNotObject,
    /// The plugin has no such method.
    MethodNotFound(PluginMethod),
    /// The `configuration` method did not return an array.
    ConfigurationNotArray,
    /// A configuration step is not an object.
    StepNotObject,
    /// A configuration step's `input` field is not a function.
    StepInputNotFunction,
    /// A configuration step's input did not return an object.
    StepResultNotObject,
    /// A setting's value has a type that settings cannot hold.
    UnsupportedSettingType(JsType),
    /// A model response is not an object.
    ResponseNotObject(JsType),
    /// A model response has a type that prompts cannot hold.
    UnsupportedPromptType(String),
}

/// The value of a plugin error.
pub enum PluginErrorView {
    Conversion(ConversionError),
    NoExports,
    PluginNotObject,
    MethodNotFound(PluginMethod),
    ConfigurationNotArray,
    StepNotObject,
    StepInputNotFunction,
    StepResultNotObject,
    UnsupportedSettingType(JsType),
    ResponseNotObject(JsType),
    UnsupportedPromptType(Seq<char>),
}

impl View for PluginError {
    type V = PluginErrorView;

    open spec fn view(&self) -> PluginErrorView {
        match self {
            PluginError::Conversion(e) => PluginErrorView::Conversion(*e),
            PluginError::NoExports => PluginErrorView::NoExports,
            PluginError::PluginNotObject => PluginErrorView::PluginNotObject,
            PluginError::MethodNotFound(m) => PluginErrorView::MethodNotFound(*m),
            PluginError::ConfigurationNotArray => PluginErrorView::ConfigurationNotArray,
            PluginError::StepNotObject => PluginErrorView::StepNotObject,
            PluginError::StepInputNotFunction => PluginErrorView::StepInputNotFunction,
            PluginError::StepResultNotObject => PluginErrorView::StepResultNotObject,
            PluginError::UnsupportedSettingType(t) => PluginErrorView::UnsupportedSettingType(*t),
            PluginError::ResponseNotObject(t) => PluginErrorView::ResponseNotObject(*t),
            PluginError::UnsupportedPromptType(s) => PluginErrorView::UnsupportedPromptType(s@),
        }
    }
}

impl PluginErrorView {
    /// The message that describes the error.
    pub open spec fn spec_message(self) -> Seq<char> {
        match self {
            PluginErrorView::Conversion(e) => e.spec_message(),
            PluginErrorView::NoExports => "no exported members found in module."@,
            PluginErrorView::PluginNotObject => "The 'plugin' export should be an object"@,
            PluginErrorView::MethodNotFound(m) => if m == PluginMethod::Test {
                "Method 'test' not found on plugin."@
            } else {
                "Method '"@ + m.spec_name() + "' not found in model plugin."@
            },
            PluginErrorView::ConfigurationNotArray => "Method 'configuration' should return an array."@,
            PluginErrorView::StepNotObject => "Method 'configuration' should return array or configuration steps."@,
            PluginErrorView::StepInputNotFunction => "Configuration step 'input' field should be a function"@,
            PluginErrorView::StepResultNotObject => "Configuration step should return an object."@,
            PluginErrorView::UnsupportedSettingType(t) => "Type '"@ + t.spec_name()
                + "' is not supported for plugin settings"@,
            PluginErrorView::ResponseNotObject(t) => "model response should be an object, "@ + t.spec_name()
                + " returned."@,
            PluginErrorView::UnsupportedPromptType(s) => "Type '"@ + s + "' is not supported for plugin prompt"@,
        }
    }
}

impl PluginError {
    /// The message that describes the error.
    pub fn message(&self) -> (message: String)
        ensures
            message@ == self@.spec_message(),
    {
        match self {
            PluginError::Conversion(e) => e.message(),
            PluginError::NoExports => String::from_str("no exported members found in module."),
            PluginError::PluginNotObject => String::from_str("The 'plugin' export should be an object"),
            PluginError::MethodNotFound(m) => match m {
                PluginMethod::Test => String::from_str("Method 'test' not found on plugin."),
                _ => {
                    let mut message = String::from_str("Method '");
                    message.append(m.name());
                    message.append("' not found in model plugin.");
                    message
                },
            },
            PluginError::ConfigurationNotArray => String::from_str(
                "Method 'configuration' should return an array.",
            ),
            PluginError::StepNotObject => String::from_str(
                "Method 'configuration' should return array or configuration steps.",
            ),
            PluginError::StepInputNotFunction => String::from_str(
                "Configuration step 'input' field should be a function",
            ),
            PluginError::StepResultNotObject => String::from_str("Configuration step should return an object."),
            PluginError::UnsupportedSettingType(t) => {
                let mut message = String::from_str("Type '");
                message.append(t.name());
                message.append("' is not supported for plugin settings");
                message
            },
            PluginError::ResponseNotObject(t) => {
                let mut message = String::from_str("model response should be an object, ");
                message.append(t.name());
                message.append(" returned.");
                message
            },
            PluginError::UnsupportedPromptType(s) => {
                let mut message = String::from_str("Type '");
                message.append(s.as_str());
                message.append("' is not supported for plugin prompt");
                message
            },
        }
    }
}

/// A binary part of a prompt: its bytes and their format.
#[derive(Debug, Clone, PartialEq, Eq)]
pub struct ModelPromptBinaryPayload {
    pub value: Vec<u8>,
    pub format: String,
}

/// A prompt sent to a model or a response it gave.
#[derive(Debug, Clone, PartialEq, Eq)]
pub enum ModelPrompt {
    Text(String),
    Image(ModelPromptBinaryPayload),
    Document(ModelPromptBinaryPayload),
}

/// The value of a prompt.
pub enum PromptView {
    Text(Seq<char>),
    Image(Seq<u8>, Seq<char>),
    Document(Seq<u8>, Seq<char>),
}

impl View for ModelPrompt {
    type V = PromptView;

    open spec fn view(&self) -> PromptView {
        match self {
            ModelPrompt::Text(t) => PromptView::Text(t@),
            ModelPrompt::Image(p) => PromptView::Image(p.value@, p.format@),
            ModelPrompt::Document(p) => PromptView::Document(p.value@, p.format@),
        }
    }
}

/// The view of a conversion's outcome.
pub open spec fn prompt_result_view(r: Result<ModelPrompt, PluginError>) -> Result<PromptView, PluginErrorView> {
    match r {
        Ok(p) => Ok(p@),
        Err(e) => Err(e@),
    }
}

/// The view of a setting conversion's outcome.
pub open spec fn setting_result_view(r: Result<ModelConfigSettingType, PluginError>) -> Result<SettingView, PluginErrorView> {
    match r {
        Ok(s) => Ok(s@),
        Err(e) => Err(e@),
    }
}

/// The setting that a JavaScript value gives: integers, floats, strings and booleans are settings.
pub open spec fn decode_setting(v: JsValue) -> Result<SettingView, PluginErrorView> {
    match v {
        JsValue::Int(i) => Ok(SettingView::Integer(i)),
        JsValue::Float(f) => Ok(SettingView::Float(f)),
        JsValue::Str(s) => Ok(SettingView::String(s@)),
        JsValue::Bool(b) => Ok(SettingView::Bool(b)),
        _ => Err(PluginErrorView::UnsupportedSettingType(js_type(v))),
    }
}

/// `v` is the JavaScript value of the setting `s`.
pub open spec fn encodes_setting(v: JsValue, s: SettingView) -> bool {
    match s {
        SettingView::Integer(i) => v == JsValue::Int(i),
        SettingView::Float(f) => v == JsValue::Float(f),
        SettingView::Bool(b) => v == JsValue::Bool(b),
        SettingView::String(t) => v matches JsValue::Str(x) && x@ == t,
    }
}

impl ModelConfigSettingType {
    /// The JavaScript value of this setting.
    pub fn to_value(&self) -> (v: JsValue)
        ensures
            encodes_setting(v, self@),
    {
        match self {
            ModelConfigSettingType::Float(f) => JsValue::Float(*f),
            ModelConfigSettingType::Integer(i) => JsValue::Int(*i),
            ModelConfigSettingType::Bool(b) => JsValue::Bool(*b),
            ModelConfigSettingType::String(s) => JsValue::Str(s.clone()),
        }
    }

    /// The setting that a JavaScript value gives.
    pub fn from_value(v: &JsValue) -> (r: Result<ModelConfigSettingType, PluginError>)
        ensures
            setting_result_view(r) == decode_setting(*v),
    {
        match v {
            JsValue::Int(i) => Ok(ModelConfigSettingType::Integer(*i)),
            JsValue::Float(f) => Ok(ModelConfigSettingType::Float(*f)),
            JsValue::Str(s) => Ok(ModelConfigSettingType::String(s.clone())),
            JsValue::Bool(b) => Ok(ModelConfigSettingType::Bool(*b)),
            _ => Err(PluginError::UnsupportedSettingType(v.type_of())),
        }
    }
}

/// A setting turned into a JavaScript value reads back as the same setting.
pub proof fn law_setting_round_trip(v: JsValue, s: SettingView)
    requires
        encodes_setting(v, s),
    ensures
        decode_setting(v) == Ok::<SettingView, PluginErrorView>(s),
{
}


/// The bytes and format fields of a binary prompt: the first conversion error, or both values.
pub open spec fn decode_binary(o: JsObject) -> Result<(Seq<u8>, Seq<char>), PluginErrorView> {
    match spec_as_bytes(get_property(o, "value"@)) {
        Err(e) => Err(PluginErrorView::Conversion(e)),
        Ok(bytes) => match spec_as_string(get_property(o, "format"@)) {
            Err(e) => Err(PluginErrorView::Conversion(e)),
            Ok(format) => Ok((bytes, format)),
        },
    }
}

/// The prompt that a JavaScript value gives: an object whose `type` is "text" (with a string
/// `value`), or "image" or "document" (with a Uint8Array `value` and a string `format`). Both
/// binary types read back as an image.
pub open spec fn decode_prompt(v: JsValue) -> Result<PromptView, PluginErrorView> {
    match v {
        JsValue::Object(o) => match spec_as_string(get_property(o, "type"@)) {
            Err(e) => Err(PluginErrorView::Conversion(e)),
            Ok(t) => if t == "text"@ {
                match spec_as_string(get_property(o, "value"@)) {
                    Err(e) => Err(PluginErrorView::Conversion(e)),
                    Ok(text) => Ok(PromptView::Text(text)),
                }
            } else if t == "image"@ || t == "document"@ {
                match decode_binary(o) {
                    Err(e) => Err(e),
                    Ok((bytes, format)) => Ok(PromptView::Image(bytes, format)),
                }
            } else {
                Err(PluginErrorView::UnsupportedPromptType(t))
            },
        },
        _ => Err(PluginErrorView::ResponseNotObject(js_type(v))),
    }
}

/// `p` is a property named `key` whose value is the string `text`.
pub open spec fn is_string_property(p: JsProperty, key: Seq<char>, text: Seq<char>) -> bool {
    p.key@ == key && (p.value matches JsValue::Str(s) && s@ == text)
}

/// `p` is a property named `key` whose value is a Uint8Array, without own properties, holding `bytes`.
pub open spec fn is_bytes_property(p: JsProperty, key: Seq<char>, bytes: Seq<u8>) -> bool {
    p.key@ == key && (p.value matches JsValue::Object(b) && (b.kind matches JsObjectKind::Uint8Array(
        data,
    ) && data@ == bytes) && b.properties@.len() == 0)
}

/// `v` is the JavaScript value of the prompt `p`: a plain object with the properties `type`,
/// `value` and, for binary prompts, `format`, in that order.
pub open spec fn encodes_prompt(v: JsValue, p: PromptView) -> bool {
    v matches JsValue::Object(o) && (o.kind is Plain && {
        let props = o.properties@;
        match p {
            PromptView::Text(text) => props.len() == 2 && is_string_property(props[0], "type"@, "text"@)
                && is_string_property(props[1], "value"@, text),
            PromptView::Image(bytes, format) => props.len() == 3 && is_string_property(props[0], "type"@, "image"@)
                && is_bytes_property(props[1], "value"@, bytes) && is_string_property(props[2], "format"@, format),
            PromptView::Document(bytes, format) => props.len() == 3 && is_string_property(props[0], "type"@, "document"@)
                && is_bytes_property(props[1], "value"@, bytes) && is_string_property(props[2], "format"@, format),
        }
    })
}

/// The prompt that reading back the JavaScript value of `p` gives: `p` itself, except that a
/// document reads back as an image with the same bytes and format.
pub open spec fn prompt_read_back(p: PromptView) -> PromptView {
    match p {
        PromptView::Document(bytes, format) => PromptView::Image(bytes, format),
        _ => p,
    }
}

/// A string property with the given key and text.
fn string_property(key: &str, text: String) -> (p: JsProperty)
    ensures
        is_string_property(p, key@, text@),
{
    JsProperty { key: String::from_str(key), value: JsValue::Str(text) }
}

/// The value of the property named `key` of `o`: undefined when it has none.
fn property_or_undefined<'a>(o: &'a JsObject, key: &str) -> (v: Option<&'a JsValue>)
    ensures
        match v {
            Some(v) => get_property(*o, key@) == *v,
            None => get_property(*o, key@) == JsValue::Undefined,
        },
{
    let key = String::from_str(key);
    o.get(&key)
}

/// Reads a value as a string, undefined when absent.
fn read_string(v: Option<&JsValue>) -> (r: Result<String, PluginError>)
    ensures
        match r {
            Ok(s) => spec_as_string(match v { Some(v) => *v, None => JsValue::Undefined }) == Ok::<Seq<char>, ConversionError>(s@),
            Err(e) => spec_as_string(match v { Some(v) => *v, None => JsValue::Undefined }) matches Err(c) && e == PluginError::Conversion(c),
        },
{
    let undefined = JsValue::Undefined;
    let v = match v {
        Some(v) => v,
        None => &undefined,
    };
    match as_string(v) {
        Ok(s) => Ok(s),
        Err(c) => Err(PluginError::Conversion(c)),
    }
}

/// Reads a value as bytes, undefined when absent.
fn read_bytes(v: Option<&JsValue>) -> (r: Result<Vec<u8>, PluginError>)
    ensures
        match r {
            Ok(b) => spec_as_bytes(match v { Some(v) => *v, None => JsValue::Undefined }) == Ok::<Seq<u8>, ConversionError>(b@),
            Err(e) => spec_as_bytes(match v { Some(v) => *v, None => JsValue::Undefined }) matches Err(c) && e == PluginError::Conversion(c),
        },
{
    let undefined = JsValue::Undefined;
    let v = match v {
        Some(v) => v,
        None => &undefined,
    };
    match as_bytes(v) {
        Ok(b) => Ok(b),
        Err(c) => Err(PluginError::Conversion(c)),
    }
}

impl ModelPrompt {
    /// The JavaScript value of this prompt.
    pub fn to_value(&self) -> (v: JsValue)
        ensures
            encodes_prompt(v, self@),
    {
        let mut properties: Vec<JsProperty> = Vec::new();
        match self {
            ModelPrompt::Text(t) => {
                properties.push(string_property("type", String::from_str("text")));
                properties.push(string_property("value", t.clone()));
            },
            ModelPrompt::Image(p) => {
                properties.push(string_property("type", String::from_str("image")));
                properties.push(
                    JsProperty {
                        key: String::from_str("value"),
                        value: JsValue::Object(
                            JsObject { kind: JsObjectKind::Uint8Array(copy_bytes(&p.value)), properties: Vec::new() },
                        ),
                    },
                );
                properties.push(string_property("format", p.format.clone()));
            },
            ModelPrompt::Document(p) => {
                properties.push(string_property("type", String::from_str("document")));
                properties.push(
                    JsProperty {
                        key: String::from_str("value"),
                        value: JsValue::Object(
                            JsObject { kind: JsObjectKind::Uint8Array(copy_bytes(&p.value)), properties: Vec::new() },
                        ),
                    },
                );
                properties.push(string_property("format", p.format.clone()));
            },
        }
        JsValue::Object(JsObject { kind: JsObjectKind::Plain, properties })
    }

    /// The prompt that a JavaScript value gives.
    pub fn from_value(v: &JsValue) -> (r: Result<ModelPrompt, PluginError>)
        ensures
            prompt_result_view(r) == decode_prompt(*v),
    {
        let o = match v {
            JsValue::Object(o) => o,
            _ => return Err(PluginError::ResponseNotObject(v.type_of())),
        };
        let prompt_type = read_string(property_or_undefined(o, "type"))?;
        let text = String::from_str("text");
        let image = String::from_str("image");
        let document = String::from_str("document");
        if prompt_type == text {
            let value = read_string(property_or_undefined(o, "value"))?;
            Ok(ModelPrompt::Text(value))
        } else if prompt_type == image || prompt_type == document {
            let value = read_bytes(property_or_undefined(o, "value"))?;
            let format = read_string(property_or_undefined(o, "format"))?;
            Ok(ModelPrompt::Image(ModelPromptBinaryPayload { value, format }))
        } else {
            Err(PluginError::UnsupportedPromptType(prompt_type))
        }
    }
}

/// A prompt turned into a JavaScript value reads back as the same prompt, except that a
/// document reads back as an image with the same bytes and format.
pub proof fn law_prompt_round_trip(v: JsValue, p: PromptView)
    requires
        encodes_prompt(v, p),
    ensures
        decode_prompt(v) == Ok::<PromptView, PluginErrorView>(prompt_read_back(p)),
{
    reveal_strlit("type");
    reveal_strlit("value");
    reveal_strlit("format");
    reveal_strlit("text");
    reveal_strlit("image");
    reveal_strlit("document");
    let o = v->Object_0;
    let props = o.properties@;
    assert("type"@[0] == 't' && "value"@[0] == 'v' && "format"@[0] == 'f');
    assert("type"@ != "value"@);
    assert("type"@ != "format"@);
    assert("value"@ != "format"@);
    assert(props.drop_first()[0] == props[1]);
    assert(property(props, "type"@) == Some(props[0].value));
    assert(property(props.drop_first(), "value"@) == Some(props[1].value));
    assert(property(props, "value"@) == Some(props[1].value));
    if props.len() == 3 {
        let rest = props.drop_first().drop_first();
        assert(rest[0] == props[2]);
        assert(property(rest, "format"@) == Some(props[2].value));
        assert(property(props.drop_first(), "format"@) == property(rest, "format"@));
        assert(property(props, "format"@) == Some(props[2].value));
    }
    assert("text"@[0] == 't' && "image"@[0] == 'i' && "document"@[0] == 'd');
    assert("text"@ != "image"@);
    assert("text"@ != "document"@);
}


/// The plugin object of a module's exports: the exports must be an object whose `plugin`
/// export is an object.
pub fn plugin_from_module(module: &JsValue) -> (plugin: Result<&JsObject, PluginError>)
    ensures
        match *module {
            JsValue::Object(exports) => match get_property(exports, "plugin"@) {
                JsValue::Object(p) => plugin matches Ok(q) && *q == p,
                _ => plugin matches Err(e) && e == PluginError::PluginNotObject,
            },
            _ => plugin matches Err(e) && e == PluginError::NoExports,
        },
{
    let exports = match module {
        JsValue::Object(exports) => exports,
        _ => return Err(PluginError::NoExports),
    };
    match property_or_undefined(exports, "plugin") {
        Some(JsValue::Object(p)) => Ok(p),
        _ => Err(PluginError::PluginNotObject),
    }
}

/// The plugin has the method: a property of that name that can be called.
pub open spec fn has_method(plugin: JsObject, method: PluginMethod) -> bool {
    is_function(get_property(plugin, method.spec_name()))
}

/// Checks that the plugin has the method.
pub fn require_method(plugin: &JsObject, method: PluginMethod) -> (r: Result<(), PluginError>)
    ensures
        r is Ok <==> has_method(*plugin, method),
        r matches Err(e) ==> e == PluginError::MethodNotFound(method),
{
    match property_or_undefined(plugin, method.name()) {
        Some(v) => if v.is_function() {
            Ok(())
        } else {
            Err(PluginError::MethodNotFound(method))
        },
        None => Err(PluginError::MethodNotFound(method)),
    }
}

/// The prompts that a list of values gives, stopping at the first that is not one.
pub open spec fn decode_prompts(s: Seq<JsValue>) -> Result<Seq<PromptView>, PluginErrorView>
    decreases s.len(),
{
    if s.len() == 0 {
        Ok(Seq::empty())
    } else {
        match decode_prompts(s.drop_last()) {
            Err(e) => Err(e),
            Ok(prompts) => match decode_prompt(s.last()) {
                Ok(p) => Ok(prompts.push(p)),
                Err(e) => Err(e),
            },
        }
    }
}

/// A failure among the first `k` values is the failure of the whole list.
pub proof fn lemma_decode_prompts_error_prefix(s: Seq<JsValue>, k: int)
    requires
        0 <= k <= s.len(),
        decode_prompts(s.take(k)) is Err,
    ensures
        decode_prompts(s) == decode_prompts(s.take(k)),
    decreases s.len(),
{
    if k == s.len() {
        assert(s.take(k) =~= s);
    } else {
        assert(s.drop_last().take(k) =~= s.take(k));
        lemma_decode_prompts_error_prefix(s.drop_last(), k);
    }
}

/// The responses that a model's answer gives: the answer must be an array, and each of its
/// elements a prompt.
pub open spec fn decode_responses(v: JsValue) -> Result<Seq<PromptView>, PluginErrorView> {
    match v {
        JsValue::Object(o) => match o.kind {
            JsObjectKind::Array(elements) => decode_prompts(elements@),
            _ => Err(PluginErrorView::Conversion(ConversionError { from: js_type(v), to: JsTarget::Type(JsType::Array) })),
        },
        _ => Err(PluginErrorView::Conversion(ConversionError { from: js_type(v), to: JsTarget::Type(JsType::Array) })),
    }
}

/// The views of a list of prompts.
pub open spec fn prompts_view(v: Seq<ModelPrompt>) -> Seq<PromptView> {
    v.map_values(|p: ModelPrompt| p@)
}

/// Reads a model's answer to a prompt.
pub fn model_responses(answer: &JsValue) -> (r: Result<Vec<ModelPrompt>, PluginError>)
    ensures
        match r {
            Ok(responses) => decode_responses(*answer) == Ok::<Seq<PromptView>, PluginErrorView>(prompts_view(responses@)),
            Err(e) => decode_responses(*answer) == Err::<Seq<PromptView>, PluginErrorView>(e@),
        },
{
    let elements = match answer {
        JsValue::Object(o) => match &o.kind {
            JsObjectKind::Array(elements) => elements,
            _ => return Err(PluginError::Conversion(ConversionError { from: answer.type_of(), to: JsTarget::Type(JsType::Array) })),
        },
        _ => return Err(PluginError::Conversion(ConversionError { from: answer.type_of(), to: JsTarget::Type(JsType::Array) })),
    };
    let mut responses: Vec<ModelPrompt> = Vec::new();
    let n = elements.len();
    assert(elements@.take(0) =~= Seq::<JsValue>::empty());
    assert(prompts_view(responses@) =~= Seq::<PromptView>::empty());
    let mut i: usize = 0;
    while i < n
        invariant
            decode_responses(*answer) == decode_prompts(elements@),
            n == elements@.len(),
            i <= n,
            decode_prompts(elements@.take(i as int)) == Ok::<Seq<PromptView>, PluginErrorView>(prompts_view(responses@)),
        decreases n - i,
    {
        assert(elements@.take(i + 1).drop_last() =~= elements@.take(i as int));
        assert(elements@.take(i + 1).last() == elements@[i as int]);
        match ModelPrompt::from_value(&elements[i]) {
            Ok(p) => {
                responses.push(p);
                assert(prompts_view(responses@) =~= decode_prompts(elements@.take(i as int))->Ok_0.push(
                    decode_prompt(elements@[i as int])->Ok_0,
                ));
            },
            Err(e) => {
                proof {
                    lemma_decode_prompts_error_prefix(elements@, i + 1);
                }
                return Err(e);
            },
        }
        i = i + 1;
    }
    assert(elements@.take(n as int) =~= elements@);
    Ok(responses)
}


/// The settings that have a value, in order, with their values.
pub open spec fn defined_settings(e: Seq<(String, Option<ModelConfigSettingType>)>) -> Seq<(Seq<char>, SettingView)>
    decreases e.len(),
{
    if e.len() == 0 {
        Seq::empty()
    } else {
        let rest = defined_settings(e.drop_last());
        match e.last().1 {
            Some(s) => rest.push((e.last().0@, s@)),
            None => rest,
        }
    }
}

/// The properties hold, in order, the given settings as JavaScript values.
pub open spec fn encodes_settings(props: Seq<JsProperty>, settings: Seq<(Seq<char>, SettingView)>) -> bool {
    &&& props.len() == settings.len()
    &&& forall|i: int|
        0 <= i < props.len() ==> #[trigger] props[i].key@ == settings[i].0 && encodes_setting(
            props[i].value,
            settings[i].1,
        )
}

/// The settings that a model's `configure` method is given.
pub open spec fn configured_settings(settings: Option<ModelSettings>) -> Seq<(Seq<char>, SettingView)> {
    match settings {
        Some(m) => defined_settings(m.spec_entries()),
        None => Seq::empty(),
    }
}

/// The argument of a model's `configure` method: an object that holds each setting that has a
/// value, in order.
pub fn configure_argument(settings: &Option<ModelSettings>) -> (argument: JsValue)
    ensures
        argument matches JsValue::Object(o) && (o.kind is Plain && encodes_settings(
            o.properties@,
            configured_settings(*settings),
        )),
{
    let mut properties: Vec<JsProperty> = Vec::new();
    if let Some(m) = settings {
        let entries = m.entries();
        let n = entries.len();
        let mut i: usize = 0;
        assert(entries@.take(0) =~= Seq::<(String, Option<ModelConfigSettingType>)>::empty());
        while i < n
            invariant
                n == entries@.len(),
                entries@ == m.spec_entries(),
                i <= n,
                encodes_settings(properties@, defined_settings(entries@.take(i as int))),
            decreases n - i,
        {
            assert(entries@.take(i + 1).drop_last() =~= entries@.take(i as int));
            assert(entries@.take(i + 1).last() == entries@[i as int]);
            if let Some(setting) = &entries[i].1 {
                let key = entries[i].0.clone();
                properties.push(JsProperty { key, value: setting.to_value() });
            }
            i = i + 1;
        }
        assert(entries@.take(n as int) =~= entries@);
    }
    JsValue::Object(JsObject { kind: JsObjectKind::Plain, properties })
}

/// Checks a configuration step: it must be an object whose `input` field can be called.
pub fn check_configuration_step(step: &JsValue) -> (r: Result<(), PluginError>)
    ensures
        match *step {
            JsValue::Object(o) => if is_function(get_property(o, "input"@)) {
                r is Ok
            } else {
                r matches Err(e) && e == PluginError::StepInputNotFunction
            },
            _ => r matches Err(e) && e == PluginError::StepNotObject,
        },
{
    match step {
        JsValue::Object(o) => match property_or_undefined(o, "input") {
            Some(input) => if input.is_function() {
                Ok(())
            } else {
                Err(PluginError::StepInputNotFunction)
            },
            None => Err(PluginError::StepInputNotFunction),
        },
        _ => Err(PluginError::StepNotObject),
    }
}

/// An input that a model's configuration asks for.
#[derive(Debug, Clone, PartialEq, Eq)]
pub struct ModelInput {
    pub name: String,
    pub display_name: String,
    pub input_type: String,
    pub required: bool,
    pub options: Option<Vec<String>>,
}

/// The value of an input.
pub struct InputView {
    pub name: Seq<char>,
    pub display_name: Seq<char>,
    pub input_type: Seq<char>,
    pub required: bool,
    pub options: Option<Seq<Seq<char>>>,
}

impl View for ModelInput {
    type V = InputView;

    open spec fn view(&self) -> InputView {
        InputView {
            name: self.name@,
            display_name: self.display_name@,
            input_type: self.input_type@,
            required: self.required,
            options: match self.options {
                Some(v) => Some(v@.map_values(|s: String| s@)),
                None => None,
            },
        }
    }
}

/// The input that a property of a configuration step's result describes: none when its value
/// is not an object; otherwise its `displayName`, `type`, `required` and `options` fields, read
/// in that order.
pub open spec fn decode_input(p: JsProperty) -> Option<Result<InputView, PluginErrorView>> {
    match p.value {
        JsValue::Object(o) => Some(
            match spec_as_string(get_property(o, "displayName"@)) {
                Err(e) => Err(PluginErrorView::Conversion(e)),
                Ok(display_name) => match spec_as_string(get_property(o, "type"@)) {
                    Err(e) => Err(PluginErrorView::Conversion(e)),
                    Ok(input_type) => match spec_as_bool(get_property(o, "required"@)) {
                        Err(e) => Err(PluginErrorView::Conversion(e)),
                        Ok(required) => match spec_as_optional_strings(get_property(o, "options"@)) {
                            Err(e) => Err(PluginErrorView::Conversion(e)),
                            Ok(options) => Ok(
                                InputView { name: p.key@, display_name, input_type, required, options },
                            ),
                        },
                    },
                },
            },
        ),
        _ => None,
    }
}

/// Reads the input that a property describes.
pub fn read_input(p: &JsProperty) -> (r: Option<Result<ModelInput, PluginError>>)
    ensures
        match r {
            None => decode_input(*p) is None,
            Some(Ok(input)) => decode_input(*p) == Some(Ok::<InputView, PluginErrorView>(input@)),
            Some(Err(e)) => decode_input(*p) == Some(Err::<InputView, PluginErrorView>(e@)),
        },
{
    match &p.value {
        JsValue::Object(o) => Some(read_described_input(p, o)),
        _ => None,
    }
}

/// Reads the fields of a described input.
fn read_described_input(p: &JsProperty, o: &JsObject) -> (r: Result<ModelInput, PluginError>)
    requires
        p.value == JsValue::Object(*o),
    ensures
        match r {
            Ok(input) => decode_input(*p) == Some(Ok::<InputView, PluginErrorView>(input@)),
            Err(e) => decode_input(*p) == Some(Err::<InputView, PluginErrorView>(e@)),
        },
{
    let display_name = read_string(property_or_undefined(o, "displayName"))?;
    let input_type = read_string(property_or_undefined(o, "type"))?;
    let undefined = JsValue::Undefined;
    let required_value = match property_or_undefined(o, "required") {
        Some(v) => v,
        None => &undefined,
    };
    let required = match as_bool(required_value) {
        Ok(b) => b,
        Err(c) => return Err(PluginError::Conversion(c)),
    };
    let options_value = match property_or_undefined(o, "options") {
        Some(v) => v,
        None => &undefined,
    };
    let options = match as_optional_strings(options_value) {
        Ok(options) => options,
        Err(c) => return Err(PluginError::Conversion(c)),
    };
    let input = ModelInput { name: p.key.clone(), display_name, input_type, required, options };
    Ok(input)
}

/// The settings that the values gathered during configuration give, in order, stopping at the
/// first value that is not a setting.
pub open spec fn decode_context(e: Seq<(Seq<char>, JsValue)>) -> Result<Seq<(Seq<char>, Option<SettingView>)>, PluginErrorView>
    decreases e.len(),
{
    if e.len() == 0 {
        Ok(Seq::empty())
    } else {
        match decode_context(e.drop_last()) {
            Err(err) => Err(err),
            Ok(settings) => match decode_setting(e.last().1) {
                Ok(s) => Ok(settings.push((e.last().0, Some(s)))),
                Err(err) => Err(err),
            },
        }
    }
}

/// A failure among the first `k` values is the failure of all of them.
pub proof fn lemma_decode_context_error_prefix(s: Seq<(Seq<char>, JsValue)>, k: int)
    requires
        0 <= k <= s.len(),
        decode_context(s.take(k)) is Err,
    ensures
        decode_context(s) == decode_context(s.take(k)),
    decreases s.len(),
{
    if k == s.len() {
        assert(s.take(k) =~= s);
    } else {
        assert(s.drop_last().take(k) =~= s.take(k));
        lemma_decode_context_error_prefix(s.drop_last(), k);
    }
}

/// The decoded settings carry the keys of the values, in order.
pub proof fn lemma_decode_context_keys(s: Seq<(Seq<char>, JsValue)>)
    requires
        decode_context(s) is Ok,
    ensures
        decode_context(s)->Ok_0.len() == s.len(),
        forall|j: int| 0 <= j < s.len() ==> #[trigger] decode_context(s)->Ok_0[j].0 == s[j].0,
    decreases s.len(),
{
    if s.len() > 0 {
        lemma_decode_context_keys(s.drop_last());
        assert forall|j: int| 0 <= j < s.len() implies #[trigger] decode_context(s)->Ok_0[j].0 == s[j].0 by {
            if j < s.len() - 1 {
                assert(s.drop_last()[j] == s[j]);
            }
        }
    }
}

/// Settings handed over as JavaScript values and gathered back under the same names, in the same
/// order, read back as the same settings.
pub proof fn law_settings_read_back(values: Seq<(Seq<char>, JsValue)>, settings: Seq<(Seq<char>, SettingView)>)
    requires
        values.len() == settings.len(),
        forall|i: int|
            0 <= i < values.len() ==> #[trigger] values[i].0 == settings[i].0 && encodes_setting(
                values[i].1,
                settings[i].1,
            ),
    ensures
        decode_context(values) == Ok::<Seq<(Seq<char>, Option<SettingView>)>, PluginErrorView>(
            settings.map_values(|e: (Seq<char>, SettingView)| (e.0, Some(e.1))),
        ),
    decreases values.len(),
{
    if values.len() > 0 {
        let n = values.len() - 1;
        assert forall|i: int| 0 <= i < values.drop_last().len() implies #[trigger] values.drop_last()[i].0
            == settings.drop_last()[i].0 && encodes_setting(values.drop_last()[i].1, settings.drop_last()[i].1) by {
            assert(values.drop_last()[i] == values[i]);
            assert(settings.drop_last()[i] == settings[i]);
        }
        law_settings_read_back(values.drop_last(), settings.drop_last());
        assert(values[n].0 == settings[n].0);
        law_setting_round_trip(values[n].1, settings[n].1);
        assert(settings.map_values(|e: (Seq<char>, SettingView)| (e.0, Some(e.1))) =~= settings.drop_last().map_values(
            |e: (Seq<char>, SettingView)| (e.0, Some(e.1)),
        ).push((settings[n].0, Some(settings[n].1))));
    } else {
        assert(settings.map_values(|e: (Seq<char>, SettingView)| (e.0, Some(e.1))) =~= Seq::<(Seq<char>, Option<SettingView>)>::empty());
    }
}

/// The settings gathered during a model's configuration: each value the configuration collected,
/// by name and in order, as a setting.
pub fn settings_from_context(context: &StringMap<JsValue>) -> (r: Result<ModelSettings, PluginError>)
    ensures
        match r {
            Ok(settings) => settings.spec_wf() && decode_context(keyed(context.spec_entries())) == Ok::<
                Seq<(Seq<char>, Option<SettingView>)>,
                PluginErrorView,
            >(settings_view(settings)),
            Err(e) => decode_context(keyed(context.spec_entries())) == Err::<
                Seq<(Seq<char>, Option<SettingView>)>,
                PluginErrorView,
            >(e@),
        },
{
    let entries = context.entries();
    let ghost ke = keyed(entries@);
    let mut settings: ModelSettings = StringMap::new();
    let n = entries.len();
    assert(ke.take(0) =~= Seq::<(Seq<char>, JsValue)>::empty());
    assert(settings_view(settings) =~= Seq::<(Seq<char>, Option<SettingView>)>::empty());
    let mut i: usize = 0;
    while i < n
        invariant
            entries@ == context.spec_entries(),
            ke == keyed(entries@),
            distinct_keys(entries@),
            n == entries@.len(),
            i <= n,
            settings.spec_wf(),
            decode_context(ke.take(i as int)) == Ok::<Seq<(Seq<char>, Option<SettingView>)>, PluginErrorView>(
                settings_view(settings),
            ),
        decreases n - i,
    {
        assert(ke.take(i + 1).drop_last() =~= ke.take(i as int));
        assert(ke.take(i + 1).last() == ke[i as int]);
        match ModelConfigSettingType::from_value(&entries[i].1) {
            Ok(setting) => {
                let key = entries[i].0.clone();
                proof {
                    lemma_decode_context_keys(ke.take(i as int));
                    lemma_key_position(settings.spec_entries(), key@);
                    let k = key_position(settings.spec_entries(), key@);
                    if k >= 0 {
                        assert(settings_view(settings)[k].0 == settings.spec_entries()[k].0@);
                        assert(ke.take(i as int)[k] == ke[k]);
                        assert(entries@[k].0@ != entries@[i as int].0@);
                    }
                }
                let ghost before = settings.spec_entries();
                settings.insert(key, Some(setting));
                assert(settings.spec_entries() == before.push((key, Some(setting))));
                assert(settings_view(settings) =~= decode_context(ke.take(i as int))->Ok_0.push(
                    (ke[i as int].0, Some(decode_setting(ke[i as int].1)->Ok_0)),
                ));
            },
            Err(e) => {
                proof {
                    lemma_decode_context_error_prefix(ke, i + 1);
                }
                return Err(e);
            },
        }
        i = i + 1;
    }
    assert(ke.take(n as int) =~= ke);
    Ok(settings)
}

/// A prompt's JavaScript value tells which kind of prompt it is by its `type` property: "text",
/// "image" or "document"; it holds the text in `value`, or the bytes in a Uint8Array `value` and
/// their format in `format`.
pub proof fn law_prompt_value_tells_its_kind(v: JsValue, p: PromptView)
    requires
        encodes_prompt(v, p),
    ensures
        v matches JsValue::Object(o) && o.kind is Plain && match p {
            PromptView::Text(text) => (get_property(o, "type"@) matches JsValue::Str(t) && t@ == "text"@) && (
            get_property(o, "value"@) matches JsValue::Str(x) && x@ == text),
            PromptView::Image(bytes, format) => (get_property(o, "type"@) matches JsValue::Str(t) && t@ == "image"@)
                && (get_property(o, "value"@) matches JsValue::Object(b) && (b.kind matches JsObjectKind::Uint8Array(
                data,
            ) && data@ == bytes)) && (get_property(o, "format"@) matches JsValue::Str(f) && f@ == format),
            PromptView::Document(bytes, format) => (get_property(o, "type"@) matches JsValue::Str(t) && t@
                == "document"@) && (get_property(o, "value"@) matches JsValue::Object(b) && (b.kind matches JsObjectKind::Uint8Array(
                data,
            ) && data@ == bytes)) && (get_property(o, "format"@) matches JsValue::Str(f) && f@ == format),
        },
{
    reveal_strlit("type");
    reveal_strlit("value");
    reveal_strlit("format");
    let o = v->Object_0;
    let props = o.properties@;
    assert("type"@[0] == 't' && "value"@[0] == 'v' && "format"@[0] == 'f');
    assert("type"@ != "value"@);
    assert("type"@ != "format"@);
    assert("value"@ != "format"@);
    assert(props.drop_first()[0] == props[1]);
    assert(property(props, "type"@) == Some(props[0].value));
    assert(property(props.drop_first(), "value"@) == Some(props[1].value));
    assert(property(props, "value"@) == Some(props[1].value));
    if props.len() == 3 {
        let rest = props.drop_first().drop_first();
        assert(rest[0] == props[2]);
        assert(property(rest, "format"@) == Some(props[2].value));
        assert(property(props.drop_first(), "format"@) == property(rest, "format"@));
        assert(property(props, "format"@) == Some(props[2].value));
    }
}

/// No JavaScript value is the value of two different prompts: text, images and documents, and
/// prompts of one kind with different contents, are all told apart.
pub proof fn law_prompt_values_differ(v: JsValue, p: PromptView, q: PromptView)
    requires
        encodes_prompt(v, p),
        encodes_prompt(v, q),
    ensures
        p == q,
{
    law_prompt_value_tells_its_kind(v, p);
    law_prompt_value_tells_its_kind(v, q);
    reveal_strlit("text");
    reveal_strlit("image");
    reveal_strlit("document");
    assert("text"@[0] == 't' && "image"@[0] == 'i' && "document"@[0] == 'd');
    assert("text"@ != "image"@);
    assert("text"@ != "document"@);
    assert("image"@ != "document"@);
}

/// The name and value of the setting at position `i`, which has a value.
pub open spec fn setting_at(e: Seq<(String, Option<ModelConfigSettingType>)>, i: int) -> (Seq<char>, SettingView) {
    (e[i].0@, e[i].1->Some_0@)
}

/// `x` is the name and value of a setting of `e` that has a value.
pub open spec fn is_set_setting(e: Seq<(String, Option<ModelConfigSettingType>)>, x: (Seq<char>, SettingView)) -> bool {
    exists|i: int| 0 <= i < e.len() && e[i].1 is Some && #[trigger] setting_at(e, i) == x
}

/// The settings that have a value, each with that value, are what `defined_settings` keeps.
proof fn lemma_defined_settings(e: Seq<(String, Option<ModelConfigSettingType>)>)
    ensures
        forall|i: int| 0 <= i < e.len() && e[i].1 is Some ==> defined_settings(e).contains(#[trigger] setting_at(e, i)),
        forall|j: int| 0 <= j < defined_settings(e).len() ==> is_set_setting(e, #[trigger] defined_settings(e)[j]),
    decreases e.len(),
{
    if e.len() > 0 {
        let rest = e.drop_last();
        let d = defined_settings(e);
        let dr = defined_settings(rest);
        lemma_defined_settings(rest);
        let last = e.len() - 1;
        assert(e.last() == e[last]);
        assert forall|i: int| 0 <= i < e.len() && e[i].1 is Some implies d.contains(#[trigger] setting_at(e, i)) by {
            if i == last {
                assert(d[d.len() - 1] == setting_at(e, i));
            } else {
                assert(rest[i] == e[i]);
                assert(setting_at(rest, i) == setting_at(e, i));
                assert(dr.contains(setting_at(rest, i)));
                let j = choose|j: int| 0 <= j < dr.len() && dr[j] == setting_at(rest, i);
                assert(d[j] == dr[j]);
            }
        }
        assert forall|j: int| 0 <= j < d.len() implies is_set_setting(e, #[trigger] d[j]) by {
            if j < dr.len() {
                assert(d[j] == dr[j]);
                assert(is_set_setting(rest, dr[j]));
                let i = choose|i: int| 0 <= i < rest.len() && rest[i].1 is Some && #[trigger] setting_at(rest, i) == dr[j];
                assert(rest[i] == e[i]);
                assert(setting_at(e, i) == d[j]);
            } else {
                assert(e[last].1 is Some);
                assert(setting_at(e, last) == d[j]);
            }
        }
    }
}

/// The configure argument holds every setting that has a value, whatever the value, under its
/// name and as its JavaScript value; and each of its properties is such a setting. Without
/// settings it holds nothing.
pub proof fn law_configure_argument_holds_every_set_setting(settings: Option<ModelSettings>, argument: JsValue)
    requires
        argument matches JsValue::Object(o) && (o.kind is Plain && encodes_settings(
            o.properties@,
            configured_settings(settings),
        )),
    ensures
        argument matches JsValue::Object(o) && match settings {
            None => o.properties@.len() == 0,
            Some(m) => {
                &&& forall|i: int|
                    #![trigger m.spec_entries()[i]]
                    0 <= i < m.spec_entries().len() && m.spec_entries()[i].1 is Some ==> exists|j: int|
                        #![trigger o.properties@[j]]
                        0 <= j < o.properties@.len() && o.properties@[j].key@ == m.spec_entries()[i].0@
                            && encodes_setting(o.properties@[j].value, m.spec_entries()[i].1->Some_0@)
                &&& forall|j: int|
                    #![trigger o.properties@[j]]
                    0 <= j < o.properties@.len() ==> exists|i: int|
                        #![trigger m.spec_entries()[i]]
                        0 <= i < m.spec_entries().len() && m.spec_entries()[i].1 is Some
                            && o.properties@[j].key@ == m.spec_entries()[i].0@ && encodes_setting(
                            o.properties@[j].value,
                            m.spec_entries()[i].1->Some_0@,
                        )
            },
        },
{
    let o = argument->Object_0;
    let props = o.properties@;
    if let Some(m) = settings {
        let e = m.spec_entries();
        let d = defined_settings(e);
        lemma_defined_settings(e);
        assert forall|i: int| #![trigger e[i]] 0 <= i < e.len() && e[i].1 is Some implies exists|j: int|
            #![trigger props[j]]
            0 <= j < props.len() && props[j].key@ == e[i].0@ && encodes_setting(props[j].value, e[i].1->Some_0@) by {
            assert(d.contains(setting_at(e, i)));
            let j = choose|j: int| 0 <= j < d.len() && d[j] == setting_at(e, i);
            assert(props[j].key@ == d[j].0 && encodes_setting(props[j].value, d[j].1));
        }
        assert forall|j: int| #![trigger props[j]] 0 <= j < props.len() implies exists|i: int|
            #![trigger e[i]]
            0 <= i < e.len() && e[i].1 is Some && props[j].key@ == e[i].0@ && encodes_setting(
                props[j].value,
                e[i].1->Some_0@,
            ) by {
            assert(props[j].key@ == d[j].0 && encodes_setting(props[j].value, d[j].1));
            assert(is_set_setting(e, d[j]));
            let i = choose|i: int| 0 <= i < e.len() && e[i].1 is Some && #[trigger] setting_at(e, i) == d[j];
            assert(e[i].1 is Some);
        }
    }
}

/// A plugin has a method exactly when the property of that name can be called: a function, or a
/// constructor such as a `function` expression or a class.
pub proof fn law_callable_methods_are_found(plugin: JsObject, method: PluginMethod)
    ensures
        has_method(plugin, method) <==> (get_property(plugin, method.spec_name()) matches JsValue::Object(o) && (
        o.kind is Function || o.kind is Constructor)),
{
}

/// Strings read as a list of strings give their texts, in order.
proof fn lemma_strings_of_strings(s: Seq<JsValue>)
    requires
        forall|i: int| 0 <= i < s.len() ==> #[trigger] s[i] is Str,
    ensures
        spec_as_strings(s) == Ok::<Seq<Seq<char>>, ConversionError>(s.map_values(|v: JsValue| v->Str_0@)),
    decreases s.len(),
{
    if s.len() > 0 {
        assert forall|i: int| 0 <= i < s.drop_last().len() implies #[trigger] s.drop_last()[i] is Str by {
            assert(s.drop_last()[i] == s[i]);
        }
        lemma_strings_of_strings(s.drop_last());
        assert(s.last() is Str);
        assert(s.map_values(|v: JsValue| v->Str_0@) =~= s.drop_last().map_values(|v: JsValue| v->Str_0@).push(
            s.last()->Str_0@,
        ));
    } else {
        assert(s.map_values(|v: JsValue| v->Str_0@) =~= Seq::<Seq<char>>::empty());
    }
}

/// An input description with a string `displayName`, a string `type` and a boolean `required`
/// describes an input of that name: with no options when `options` is null, undefined or
/// uninitialized, and with the texts of `options`, in order, when it is an array of strings.
pub proof fn law_input_description_options(p: JsProperty, o: JsObject, display_name: String, input_type: String, required: bool)
    requires
        p.value == JsValue::Object(o),
        get_property(o, "displayName"@) == JsValue::Str(display_name),
        get_property(o, "type"@) == JsValue::Str(input_type),
        get_property(o, "required"@) == JsValue::Bool(required),
    ensures
        (get_property(o, "options"@) is Null || get_property(o, "options"@) is Undefined || get_property(o, "options"@)
            == JsValue::Other(JsType::Uninitialized)) ==> decode_input(p) == Some(
            Ok::<InputView, PluginErrorView>(
                InputView {
                    name: p.key@,
                    display_name: display_name@,
                    input_type: input_type@,
                    required,
                    options: None,
                },
            ),
        ),
        get_property(o, "options"@) matches JsValue::Object(a) && (a.kind matches JsObjectKind::Array(elements) && (
        forall|i: int| 0 <= i < elements@.len() ==> #[trigger] elements@[i] is Str)) ==> decode_input(p) == Some(
            Ok::<InputView, PluginErrorView>(
                InputView {
                    name: p.key@,
                    display_name: display_name@,
                    input_type: input_type@,
                    required,
                    options: Some(
                        get_property(o, "options"@)->Object_0.kind->Array_0@.map_values(|v: JsValue| v->Str_0@),
                    ),
                },
            ),
        ),
{
    let options = get_property(o, "options"@);
    if options matches JsValue::Object(a) && (a.kind matches JsObjectKind::Array(elements) && (forall|i: int|
        0 <= i < elements@.len() ==> #[trigger] elements@[i] is Str)) {
        lemma_strings_of_strings(options->Object_0.kind->Array_0@);
    }
}

} // verus!
