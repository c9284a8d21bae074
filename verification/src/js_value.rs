//! The values that the library exchanges with JavaScript plugins, as plain data: what the logic
//! reads of a JavaScript value and what it builds to hand one over.
use vstd::prelude::*;

verus! {

/// The type of a JavaScript value, as the engine names it.
#[derive(Clone, Copy, Debug, PartialEq, Eq, Structural)]
pub enum JsType {
    Uninitialized,
    Undefined,
    Null,
    Bool,
    Int,
    Float,
    String,
    Symbol,
    Array,
    Constructor,
    Function,
    Promise,
    Exception,
    Proxy,
    Object,
    Module,
    BigInt,
    Unknown,
}

impl JsType {
    /// The engine's name of the type.
    pub open spec fn spec_name(self) -> Seq<char> {
        match self {
            JsType::Uninitialized => "uninitialized"@,
            JsType::Undefined => "undefined"@,
            JsType::Null => "null"@,
            JsType::Bool => "bool"@,
            JsType::Int => "int"@,
            JsType::Float => "float"@,
            JsType::String => "string"@,
            JsType::Symbol => "symbol"@,
            JsType::Array => "array"@,
            JsType::Constructor => "constructor"@,
            JsType::Function => "function"@,
            JsType::Promise => "promise"@,
            JsType::Exception => "exception"@,
            JsType::Proxy => "proxy"@,
            JsType::Object => "object"@,
            JsType::Module => "module"@,
            JsType::BigInt => "big_int"@,
            JsType::Unknown => "Unknown type"@,
        }
    }

    /// The engine's name of the type.
    pub fn name(&self) -> (name: &'static str)
        ensures
            name@ == self.spec_name(),
    {
        match self {
            JsType::Uninitialized => "uninitialized",
            JsType::Undefined => "undefined",
            JsType::Null => "null",
            JsType::Bool => "bool",
            JsType::Int => "int",
            JsType::Float => "float",
            JsType::String => "string",
            JsType::Symbol => "symbol",
            JsType::Array => "array",
            JsType::Constructor => "constructor",
            JsType::Function => "function",
            JsType::Promise => "promise",
            JsType::Exception => "exception",
            JsType::Proxy => "proxy",
            JsType::Object => "object",
            JsType::Module => "module",
            JsType::BigInt => "big_int",
            JsType::Unknown => "Unknown type",
        }
    }
}

/// A JavaScript value. A float holds the bit pattern of its IEEE-754 double.
#[derive(Debug, PartialEq)]
pub enum JsValue {
    Undefined,
    Null,
    Bool(bool),
    Int(i32),
    Float(u64),
    Str(String),
    Object(JsObject),
    /// A value of another kind: uninitialized, symbol, module, big int or unknown.
    Other(JsType),
}

/// A JavaScript object: what kind of object it is and its own properties, in order.
#[derive(Debug, PartialEq)]
pub struct JsObject {
    pub kind: JsObjectKind,
    pub properties: Vec<JsProperty>,
}

/// The kinds of JavaScript object that the library tells apart.
#[derive(Debug, PartialEq)]
pub enum JsObjectKind {
    Plain,
    Array(Vec<JsValue>),
    Uint8Array(Vec<u8>),
    Function,
    Constructor,
    Promise,
    Exception,
    Proxy,
}

/// A property of an object.
#[derive(Debug, PartialEq)]
pub struct JsProperty {
    pub key: String,
    pub value: JsValue,
}

/// The type of a value.
pub open spec fn js_type(v: JsValue) -> JsType {
    match v {
        JsValue::Undefined => JsType::Undefined,
        JsValue::Null => JsType::Null,
        JsValue::Bool(_) => JsType::Bool,
        JsValue::Int(_) => JsType::Int,
        JsValue::Float(_) => JsType::Float,
        JsValue::Str(_) => JsType::String,
        JsValue::Object(o) => match o.kind {
            JsObjectKind::Plain => JsType::Object,
            JsObjectKind::Array(_) => JsType::Array,
            JsObjectKind::Uint8Array(_) => JsType::Object,
            JsObjectKind::Function => JsType::Function,
            JsObjectKind::Constructor => JsType::Constructor,
            JsObjectKind::Promise => JsType::Promise,
            JsObjectKind::Exception => JsType::Exception,
            JsObjectKind::Proxy => JsType::Proxy,
        },
        JsValue::Other(t) => t,
    }
}

/// Whether a value is undefined, null or uninitialized.
pub open spec fn is_void(v: JsValue) -> bool {
    v is Undefined || v is Null || v == JsValue::Other(JsType::Uninitialized)
}

/// Whether a value can be called.
pub open spec fn is_function(v: JsValue) -> bool {
    v matches JsValue::Object(o) && (o.kind is Function || o.kind is Constructor)
}

/// The value of the first property named `key`, if any.
pub open spec fn property(props: Seq<JsProperty>, key: Seq<char>) -> Option<JsValue>
    decreases props.len(),
{
    if props.len() == 0 {
        None
    } else if props[0].key@ == key {
        Some(props[0].value)
    } else {
        property(props.drop_first(), key)
    }
}

/// Reading property `key` of an object: its value, or undefined when it has none.
pub open spec fn get_property(o: JsObject, key: Seq<char>) -> JsValue {
    match property(o.properties@, key) {
        Some(v) => v,
        None => JsValue::Undefined,
    }
}

/// `property` finds the first property of that name.
pub proof fn lemma_property(props: Seq<JsProperty>, key: Seq<char>, i: int)
    requires
        0 <= i <= props.len(),
        forall|j: int| 0 <= j < i ==> props[j].key@ != key,
    ensures
        i < props.len() && props[i].key@ == key ==> property(props, key) == Some(props[i].value),
        i == props.len() ==> property(props, key) is None,
    decreases i,
{
    if i > 0 {
        lemma_property(props.drop_first(), key, i - 1);
    }
}

impl JsValue {
    /// The type of this value.
    pub fn type_of(&self) -> (t: JsType)
        ensures
            t == js_type(*self),
    {
        match self {
            JsValue::Undefined => JsType::Undefined,
            JsValue::Null => JsType::Null,
            JsValue::Bool(_) => JsType::Bool,
            JsValue::Int(_) => JsType::Int,
            JsValue::Float(_) => JsType::Float,
            JsValue::Str(_) => JsType::String,
            JsValue::Object(o) => match &o.kind {
                JsObjectKind::Plain => JsType::Object,
                JsObjectKind::Array(_) => JsType::Array,
                JsObjectKind::Uint8Array(_) => JsType::Object,
                JsObjectKind::Function => JsType::Function,
                JsObjectKind::Constructor => JsType::Constructor,
                JsObjectKind::Promise => JsType::Promise,
                JsObjectKind::Exception => JsType::Exception,
                JsObjectKind::Proxy => JsType::Proxy,
            },
            JsValue::Other(t) => *t,
        }
    }

    /// Whether this value can be called.
    pub fn is_function(&self) -> (b: bool)
        ensures
            b == is_function(*self),
    {
        match self {
            JsValue::Object(o) => match &o.kind {
                JsObjectKind::Function => true,
                JsObjectKind::Constructor => true,
                _ => false,
            },
            _ => false,
        }
    }
}

impl JsObject {
    /// The value of the first own property named `key`, if any.
    pub fn get(&self, key: &String) -> (value: Option<&JsValue>)
        ensures
            match value {
                Some(v) => property(self.properties@, key@) == Some(*v),
                None => property(self.properties@, key@) is None,
            },
    {
        let n = self.properties.len();
        let mut i: usize = 0;
        while i < n
            invariant
                n == self.properties@.len(),
                i <= n,
                forall|j: int| 0 <= j < i ==> self.properties@[j].key@ != key@,
            decreases n - i,
        {
            if self.properties[i].key == *key {
                proof {
                    lemma_property(self.properties@, key@, i as int);
                }
                return Some(&self.properties[i].value);
            }
            i = i + 1;
        }
        proof {
            lemma_property(self.properties@, key@, n as int);
        }
        None
    }
}

/// The Rust type that a conversion from JavaScript aimed at.
#[derive(Clone, Copy, Debug, PartialEq, Eq, Structural)]
pub enum JsTarget {
    /// A value of that JavaScript type.
    Type(JsType),
    /// A byte array.
    Uint8Array,
}

impl JsTarget {
    /// The name of the target.
    pub open spec fn spec_name(self) -> Seq<char> {
        match self {
            JsTarget::Type(t) => t.spec_name(),
            JsTarget::Uint8Array => "Uint8Array"@,
        }
    }
}

/// A JavaScript value that could not be converted to the type asked for.
#[derive(Clone, Copy, Debug, PartialEq, Eq, Structural)]
pub struct ConversionError {
    pub from: JsType,
    pub to: JsTarget,
}

impl ConversionError {
    /// The message that describes the error.
    pub open spec fn spec_message(self) -> Seq<char> {
        "Error converting from js '"@ + self.from.spec_name() + "' into type '"@ + self.to.spec_name()
            + "'"@
    }

    /// The message that describes the error.
    pub fn message(&self) -> (message: String)
        ensures
            message@ == self.spec_message(),
    {
        let mut message = String::from_str("Error converting from js '");
        message.append(self.from.name());
        message.append("' into type '");
        match self.to {
            JsTarget::Type(t) => message.append(t.name()),
            JsTarget::Uint8Array => message.append("Uint8Array"),
        }
        message.append("'");
        message
    }
}

/// Converting a value to a string: only a string converts.
pub open spec fn spec_as_string(v: JsValue) -> Result<Seq<char>, ConversionError> {
    match v {
        JsValue::Str(s) => Ok(s@),
        _ => Err(ConversionError { from: js_type(v), to: JsTarget::Type(JsType::String) }),
    }
}

/// Converting a value to a boolean: only a boolean converts.
pub open spec fn spec_as_bool(v: JsValue) -> Result<bool, ConversionError> {
    match v {
        JsValue::Bool(b) => Ok(b),
        _ => Err(ConversionError { from: js_type(v), to: JsTarget::Type(JsType::Bool) }),
    }
}

/// Converting a value to bytes: only a Uint8Array converts.
pub open spec fn spec_as_bytes(v: JsValue) -> Result<Seq<u8>, ConversionError> {
    match v {
        JsValue::Object(o) => match o.kind {
            JsObjectKind::Uint8Array(b) => Ok(b@),
            _ => Err(ConversionError { from: JsType::Object, to: JsTarget::Uint8Array }),
        },
        _ => Err(ConversionError { from: js_type(v), to: JsTarget::Type(JsType::Object) }),
    }
}

/// Converting the elements of an array to strings, stopping at the first that does not convert.
pub open spec fn spec_as_strings(s: Seq<JsValue>) -> Result<Seq<Seq<char>>, ConversionError>
    decreases s.len(),
{
    if s.len() == 0 {
        Ok(Seq::empty())
    } else {
        match spec_as_strings(s.drop_last()) {
            Err(e) => Err(e),
            Ok(strings) => match spec_as_string(s.last()) {
                Ok(last) => Ok(strings.push(last)),
                Err(e) => Err(e),
            },
        }
    }
}

/// Converting a value to an optional list of strings: void gives none, an array gives its
/// elements as strings.
pub open spec fn spec_as_optional_strings(v: JsValue) -> Result<Option<Seq<Seq<char>>>, ConversionError> {
    if is_void(v) {
        Ok(None)
    } else {
        match v {
            JsValue::Object(o) => match o.kind {
                JsObjectKind::Array(elements) => match spec_as_strings(elements@) {
                    Ok(strings) => Ok(Some(strings)),
                    Err(e) => Err(e),
                },
                _ => Err(ConversionError { from: js_type(v), to: JsTarget::Type(JsType::Array) }),
            },
            _ => Err(ConversionError { from: js_type(v), to: JsTarget::Type(JsType::Array) }),
        }
    }
}

/// A conversion error among the first `k` elements is the error of the whole conversion.
pub proof fn lemma_as_strings_error_prefix(s: Seq<JsValue>, k: int)
    requires
        0 <= k <= s.len(),
        spec_as_strings(s.take(k)) is Err,
    ensures
        spec_as_strings(s) == spec_as_strings(s.take(k)),
    decreases s.len(),
{
    if k == s.len() {
        assert(s.take(k) =~= s);
    } else {
        assert(s.drop_last().take(k) =~= s.take(k));
        lemma_as_strings_error_prefix(s.drop_last(), k);
    }
}

/// Converts a value to a string.
pub fn as_string(v: &JsValue) -> (r: Result<String, ConversionError>)
    ensures
        match r {
            Ok(s) => spec_as_string(*v) == Ok::<Seq<char>, ConversionError>(s@),
            Err(e) => spec_as_string(*v) == Err::<Seq<char>, ConversionError>(e),
        },
{
    match v {
        JsValue::Str(s) => Ok(s.clone()),
        _ => Err(ConversionError { from: v.type_of(), to: JsTarget::Type(JsType::String) }),
    }
}

/// Converts a value to a boolean.
pub fn as_bool(v: &JsValue) -> (r: Result<bool, ConversionError>)
    ensures
        r == spec_as_bool(*v),
{
    match v {
        JsValue::Bool(b) => Ok(*b),
        _ => Err(ConversionError { from: v.type_of(), to: JsTarget::Type(JsType::Bool) }),
    }
}

/// A copy of a list of bytes.
pub fn copy_bytes(b: &Vec<u8>) -> (copy: Vec<u8>)
    ensures
        copy@ == b@,
{
    let mut copy: Vec<u8> = Vec::new();
    let n = b.len();
    let mut i: usize = 0;
    while i < n
        invariant
            n == b@.len(),
            i <= n,
            copy@ == b@.take(i as int),
        decreases n - i,
    {
        copy.push(b[i]);
        assert(copy@ =~= b@.take(i + 1));
        i = i + 1;
    }
    assert(b@.take(n as int) =~= b@);
    copy
}

/// Converts a value to bytes.
pub fn as_bytes(v: &JsValue) -> (r: Result<Vec<u8>, ConversionError>)
    ensures
        match r {
            Ok(b) => spec_as_bytes(*v) == Ok::<Seq<u8>, ConversionError>(b@),
            Err(e) => spec_as_bytes(*v) == Err::<Seq<u8>, ConversionError>(e),
        },
{
    match v {
        JsValue::Object(o) => match &o.kind {
            JsObjectKind::Uint8Array(b) => Ok(copy_bytes(b)),
            _ => Err(ConversionError { from: JsType::Object, to: JsTarget::Uint8Array }),
        },
        _ => Err(ConversionError { from: v.type_of(), to: JsTarget::Type(JsType::Object) }),
    }
}

/// Converts a value to an optional list of strings.
pub fn as_optional_strings(v: &JsValue) -> (r: Result<Option<Vec<String>>, ConversionError>)
    ensures
        match r {
            Ok(Some(strings)) => spec_as_optional_strings(*v) == Ok::<Option<Seq<Seq<char>>>, ConversionError>(
                Some(strings@.map_values(|s: String| s@)),
            ),
            Ok(None) => spec_as_optional_strings(*v) == Ok::<Option<Seq<Seq<char>>>, ConversionError>(None),
            Err(e) => spec_as_optional_strings(*v) == Err::<Option<Seq<Seq<char>>>, ConversionError>(e),
        },
{
    let elements = match v {
        JsValue::Undefined => return Ok(None),
        JsValue::Null => return Ok(None),
        JsValue::Other(JsType::Uninitialized) => return Ok(None),
        JsValue::Object(o) => match &o.kind {
            JsObjectKind::Array(elements) => elements,
            _ => return Err(ConversionError { from: v.type_of(), to: JsTarget::Type(JsType::Array) }),
        },
        _ => return Err(ConversionError { from: v.type_of(), to: JsTarget::Type(JsType::Array) }),
    };
    let mut strings: Vec<String> = Vec::new();
    let n = elements.len();
    assert(elements@.take(0) =~= Seq::<JsValue>::empty());
    assert(strings@.map_values(|s: String| s@) =~= Seq::<Seq<char>>::empty());
    let ghost expected = match spec_as_strings(elements@) {
        Ok(strings) => Ok(Some(strings)),
        Err(e) => Err(e),
    };
    assert(spec_as_optional_strings(*v) == expected);
    let mut i: usize = 0;
    while i < n
        invariant
            spec_as_optional_strings(*v) == expected,
            expected == match spec_as_strings(elements@) {
                Ok(strings) => Ok(Some(strings)),
                Err(e) => Err(e),
            },
            n == elements@.len(),
            i <= n,
            spec_as_strings(elements@.take(i as int)) == Ok::<Seq<Seq<char>>, ConversionError>(
                strings@.map_values(|s: String| s@),
            ),
        decreases n - i,
    {
        assert(elements@.take(i + 1).drop_last() =~= elements@.take(i as int));
        match as_string(&elements[i]) {
            Ok(s) => {
                strings.push(s);
                assert(strings@.map_values(|s: String| s@) =~= spec_as_strings(
                    elements@.take(i as int),
                ).unwrap().push(elements@[i as int]->Str_0@));
            },
            Err(e) => {
                proof {
                    lemma_as_strings_error_prefix(elements@, i + 1);
                }
                return Err(e);
            },
        }
        i = i + 1;
    }
    assert(elements@.take(n as int) =~= elements@);
    Ok(Some(strings))
}

} // verus!
