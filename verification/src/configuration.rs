//! Configuring a model through its plugin. The plugin's `configuration` method returns steps;
//! each step's `input` function, called with the values gathered so far, describes inputs to
//! ask the user for; the answers become the model's settings. The engine runs the plugin's
//! code, so this module only decides: each transition takes what the engine or the user gave
//! and tells what to do next.
use vstd::prelude::*;
use crate::config::{ModelSettings, settings_view};
use crate::js_value::{JsValue, JsObject, JsObjectKind, JsProperty, is_function, get_property};
use crate::plugin::{
    ModelInput, PluginError, PluginErrorView, InputView, decode_input, decode_context, read_input,
    check_configuration_step, settings_from_context,
};
use crate::string_map::{StringMap, keyed, set_entry, lemma_keyed_set_entry};

verus! {

/// What to do next in a model's configuration.
#[derive(Debug)]
pub enum ConfigurationAction {
    /// Call the `input` function of the step at this position with this object, which holds the
    /// values gathered so far; the object, as the step leaves it, is handed back with the step's result.
    RunStep(usize, JsObject),
    /// Ask the user for this input.
    Ask(ModelInput),
    /// The configuration is complete, with these settings.
    Done(ModelSettings),
    /// The configuration failed.
    Fail(PluginError),
}

/// What can go wrong with a configuration step before it runs.
pub open spec fn step_failure(step: JsValue) -> Option<PluginErrorView> {
    match step {
        JsValue::Object(o) => if is_function(get_property(o, "input"@)) {
            None
        } else {
            Some(PluginErrorView::StepInputNotFunction)
        },
        _ => Some(PluginErrorView::StepNotObject),
    }
}

/// The position of the first property at or after `from` that describes an input, or the
/// number of properties when none does.
pub open spec fn next_described(props: Seq<JsProperty>, from: int) -> int
    decreases props.len() - from,
{
    if from < 0 || from >= props.len() {
        props.len() as int
    } else if decode_input(props[from]) is Some {
        from
    } else {
        next_described(props, from + 1)
    }
}

/// What `next_described` finds.
proof fn lemma_next_described(props: Seq<JsProperty>, from: int)
    requires
        0 <= from <= props.len(),
    ensures
        from <= next_described(props, from) <= props.len(),
        next_described(props, from) < props.len() ==> decode_input(props[next_described(props, from)]) is Some,
    decreases props.len() - from,
{
    if from < props.len() && decode_input(props[from]) is None {
        lemma_next_described(props, from + 1);
    }
}

/// The properties hold, in order, the given values under the given names.
pub open spec fn holds_values(props: Seq<JsProperty>, values: Seq<(Seq<char>, JsValue)>) -> bool {
    &&& props.len() == values.len()
    &&& forall|i: int| 0 <= i < props.len() ==> #[trigger] props[i].key@ == values[i].0 && props[i].value == values[i].1
}

/// The values that setting each property in turn gathers: a name set again keeps its place and
/// takes the later value.
pub open spec fn gathered_from(props: Seq<JsProperty>) -> Seq<(String, JsValue)>
    decreases props.len(),
{
    if props.len() == 0 {
        Seq::empty()
    } else {
        set_entry(gathered_from(props.drop_last()), props.last().key, props.last().value)
    }
}

/// The object handed to a step: a plain object that holds the gathered values, in order.
fn argument_of(context: StringMap<JsValue>) -> (argument: JsObject)
    ensures
        argument.kind is Plain,
        holds_values(argument.properties@, keyed(context.spec_entries())),
{
    let mut entries = context.into_entries();
    let ghost all = entries@;
    let mut properties: Vec<JsProperty> = Vec::new();
    while entries.len() > 0
        invariant
            properties@.len() <= all.len(),
            entries@ == all.skip(properties@.len() as int),
            holds_values(properties@, keyed(all.take(properties@.len() as int))),
        decreases entries@.len(),
    {
        let ghost k = properties@.len() as int;
        let (key, value) = entries.remove(0);
        assert(all.skip(k)[0] == all[k]);
        let ghost before = properties@;
        properties.push(JsProperty { key, value });
        assert(entries@ =~= all.skip(k + 1));
        assert(keyed(all.take(k + 1)) =~= keyed(all.take(k)).push((all[k].0@, all[k].1)));
        assert forall|i: int| 0 <= i < properties@.len() implies #[trigger] properties@[i].key@ == keyed(
            all.take(k + 1),
        )[i].0 && properties@[i].value == keyed(all.take(k + 1))[i].1 by {
            if i < k {
                assert(properties@[i] == before[i]);
            }
        }
    }
    assert(all.take(all.len() as int) =~= all);
    JsObject { kind: JsObjectKind::Plain, properties }
}

/// The values that an object handed back by a step holds.
fn context_of(argument: JsObject) -> (context: StringMap<JsValue>)
    ensures
        context.spec_entries() == gathered_from(argument.properties@),
{
    let mut properties = argument.properties;
    let ghost all = properties@;
    let mut context: StringMap<JsValue> = StringMap::new();
    let ghost mut k: int = 0;
    assert(all.take(0) =~= Seq::<JsProperty>::empty());
    while properties.len() > 0
        invariant
            0 <= k <= all.len(),
            properties@ == all.skip(k),
            context.spec_entries() == gathered_from(all.take(k)),
        decreases properties@.len(),
    {
        let property = properties.remove(0);
        assert(all.skip(k)[0] == all[k]);
        assert(all.take(k + 1).drop_last() =~= all.take(k));
        assert(all.take(k + 1).last() == all[k]);
        context.insert(property.key, property.value);
        proof {
            k = k + 1;
        }
        assert(properties@ =~= all.skip(k));
    }
    assert(all.take(all.len() as int) =~= all);
    context
}

/// A model's configuration in progress.
pub struct ConfigurationRun {
    steps: Vec<JsValue>,
    next_step: usize,
    properties: Vec<JsProperty>,
    next_property: usize,
    context: StringMap<JsValue>,
}

impl ConfigurationRun {
    /// The configuration steps.
    pub closed spec fn spec_steps(self) -> Seq<JsValue> {
        self.steps@
    }

    /// The position of the next step to run.
    pub closed spec fn spec_next_step(self) -> int {
        self.next_step as int
    }

    /// The properties of the last step's result.
    pub closed spec fn spec_properties(self) -> Seq<JsProperty> {
        self.properties@
    }

    /// The position of the next property to read.
    pub closed spec fn spec_next_property(self) -> int {
        self.next_property as int
    }

    /// The values gathered so far, in order.
    pub closed spec fn spec_context_entries(self) -> Seq<(String, JsValue)> {
        self.context.spec_entries()
    }

    /// The values gathered so far, by input name and in order.
    pub open spec fn spec_context(self) -> Seq<(Seq<char>, JsValue)> {
        keyed(self.spec_context_entries())
    }

    #[verifier::type_invariant]
    closed spec fn positions_in_bounds(self) -> bool {
        &&& self.next_step <= self.steps@.len()
        &&& self.next_property <= self.properties@.len()
    }

    /// What comes next from a state: the next input described by the last step's result, else the
    /// next step, else the settings that the gathered values give.
    pub open spec fn expected(self, next: Self, action: ConfigurationAction) -> bool {
        let props = self.spec_properties();
        let k = next_described(props, self.spec_next_property());
        if k < props.len() {
            match decode_input(props[k]) {
                Some(Ok(input)) => action matches ConfigurationAction::Ask(a) && a@ == input
                    && next.spec_steps() == self.spec_steps() && next.spec_next_step() == self.spec_next_step()
                    && next.spec_properties() == props && next.spec_next_property() == k
                    && next.spec_context() == self.spec_context(),
                Some(Err(e)) => action matches ConfigurationAction::Fail(f) && f@ == e,
                None => false,
            }
        } else if self.spec_next_step() < self.spec_steps().len() {
            match step_failure(self.spec_steps()[self.spec_next_step()]) {
                None => action matches ConfigurationAction::RunStep(i, argument) && i == self.spec_next_step()
                    && argument.kind is Plain && holds_values(argument.properties@, self.spec_context())
                    && next.spec_steps() == self.spec_steps() && next.spec_next_step() == self.spec_next_step() + 1
                    && next.spec_context().len() == 0,
                Some(e) => action matches ConfigurationAction::Fail(f) && f@ == e,
            }
        } else {
            match decode_context(self.spec_context()) {
                Ok(settings) => action matches ConfigurationAction::Done(m) && settings_view(m) == settings,
                Err(e) => action matches ConfigurationAction::Fail(f) && f@ == e,
            }
        }
    }

    /// Moves on to what comes next.
    fn advance(self) -> (r: (ConfigurationRun, ConfigurationAction))
        ensures
            self.expected(r.0, r.1),
    {
        proof {
            use_type_invariant(&self);
            lemma_next_described(self.properties@, self.next_property as int);
        }
        let ghost original = self;
        let ConfigurationRun { steps, next_step, properties, next_property, context } = self;
        let n = properties.len();
        let mut k = next_property;
        while k < n
            invariant
                steps@ == original.spec_steps(),
                next_step == original.spec_next_step(),
                next_step <= steps@.len(),
                properties@ == original.spec_properties(),
                next_property == original.spec_next_property(),
                context == original.context,
                original == self,
                n == properties@.len(),
                next_property <= k <= n,
                next_described(properties@, next_property as int) == next_described(properties@, k as int),
            decreases n - k,
        {
            proof {
                lemma_next_described(properties@, k as int);
            }
            match read_input(&properties[k]) {
                Some(Ok(input)) => {
                    assert(next_described(properties@, k as int) == k as int);
                    let run = ConfigurationRun { steps, next_step, properties, next_property: k, context };
                    return (run, ConfigurationAction::Ask(input));
                },
                Some(Err(e)) => {
                    assert(next_described(properties@, k as int) == k as int);
                    let run = ConfigurationRun { steps, next_step, properties, next_property: k, context };
                    return (run, ConfigurationAction::Fail(e));
                },
                None => {},
            }
            k = k + 1;
        }
        if next_step < steps.len() {
            match check_configuration_step(&steps[next_step]) {
                Ok(()) => {
                    let step = next_step;
                    let argument = argument_of(context);
                    let run = ConfigurationRun {
                        steps,
                        next_step: next_step + 1,
                        properties,
                        next_property: n,
                        context: StringMap::new(),
                    };
                    assert(run.spec_context() =~= Seq::<(Seq<char>, JsValue)>::empty());
                    (run, ConfigurationAction::RunStep(step, argument))
                },
                Err(e) => {
                    let run = ConfigurationRun { steps, next_step, properties, next_property: n, context };
                    (run, ConfigurationAction::Fail(e))
                },
            }
        } else {
            let outcome = settings_from_context(&context);
            let run = ConfigurationRun { steps, next_step, properties, next_property: n, context };
            match outcome {
                Ok(settings) => (run, ConfigurationAction::Done(settings)),
                Err(e) => (run, ConfigurationAction::Fail(e)),
            }
        }
    }

    /// Starts a configuration with what the plugin's `configuration` method returned: it must be
    /// an array of steps; nothing has been gathered yet.
    pub fn start(answer: JsValue) -> (r: (ConfigurationRun, ConfigurationAction))
        ensures
            match answer {
                JsValue::Object(o) => match o.kind {
                    JsObjectKind::Array(steps) => exists|first: ConfigurationRun| {
                        &&& first.spec_steps() == steps@
                        &&& first.spec_next_step() == 0
                        &&& first.spec_properties().len() == 0
                        &&& first.spec_context().len() == 0
                        &&& #[trigger] first.expected(r.0, r.1)
                    },
                    _ => r.1 matches ConfigurationAction::Fail(PluginError::ConfigurationNotArray),
                },
                _ => r.1 matches ConfigurationAction::Fail(PluginError::ConfigurationNotArray),
            },
    {
        let steps = match answer {
            JsValue::Object(o) => match o.kind {
                JsObjectKind::Array(steps) => steps,
                _ => {
                    let run = ConfigurationRun {
                        steps: Vec::new(),
                        next_step: 0,
                        properties: Vec::new(),
                        next_property: 0,
                        context: StringMap::new(),
                    };
                    return (run, ConfigurationAction::Fail(PluginError::ConfigurationNotArray));
                },
            },
            _ => {
                let run = ConfigurationRun {
                    steps: Vec::new(),
                    next_step: 0,
                    properties: Vec::new(),
                    next_property: 0,
                    context: StringMap::new(),
                };
                return (run, ConfigurationAction::Fail(PluginError::ConfigurationNotArray));
            },
        };
        let first = ConfigurationRun {
            steps,
            next_step: 0,
            properties: Vec::new(),
            next_property: 0,
            context: StringMap::new(),
        };
        assert(first.spec_context() =~= Seq::<(Seq<char>, JsValue)>::empty());
        let ghost g = first;
        let r = first.advance();
        assert(g.expected(r.0, r.1));
        r
    }

    /// Takes what a step's `input` function returned, and the object it was called with as the step
    /// left it: the result must be an object, whose properties describe the inputs to ask for, in
    /// order; the values the object holds are what has been gathered so far, so that what a step
    /// adds to it is gathered too.
    pub fn on_step_result(self, result: JsValue, argument: JsObject) -> (r: (ConfigurationRun, ConfigurationAction))
        ensures
            match result {
                JsValue::Object(o) => exists|after: ConfigurationRun| {
                    &&& after.spec_steps() == self.spec_steps()
                    &&& after.spec_next_step() == self.spec_next_step()
                    &&& after.spec_properties() == o.properties@
                    &&& after.spec_next_property() == 0
                    &&& after.spec_context() == keyed(gathered_from(argument.properties@))
                    &&& #[trigger] after.expected(r.0, r.1)
                },
                _ => r.1 matches ConfigurationAction::Fail(PluginError::StepResultNotObject),
            },
    {
        proof {
            use_type_invariant(&self);
        }
        let ConfigurationRun { steps, next_step, properties: _, next_property: _, context: _ } = self;
        match result {
            JsValue::Object(o) => {
                let context = context_of(argument);
                let after = ConfigurationRun { steps, next_step, properties: o.properties, next_property: 0, context };
                let ghost g = after;
                let r = after.advance();
                assert(g.expected(r.0, r.1));
                r
            },
            _ => {
                let run = ConfigurationRun {
                    steps,
                    next_step,
                    properties: Vec::new(),
                    next_property: 0,
                    context: StringMap::new(),
                };
                (run, ConfigurationAction::Fail(PluginError::StepResultNotObject))
            },
        }
    }

    /// Takes the user's answer to the input that was asked for: it is gathered under the input's
    /// name (replacing an earlier value of that name in place), and the next property is read. An
    /// answer when no input is pending is not gathered.
    pub fn on_input(self, value: JsValue) -> (r: (ConfigurationRun, ConfigurationAction))
        ensures
            self.spec_next_property() < self.spec_properties().len() ==> exists|after: ConfigurationRun| {
                &&& after.spec_steps() == self.spec_steps()
                &&& after.spec_next_step() == self.spec_next_step()
                &&& after.spec_properties() == self.spec_properties()
                &&& after.spec_next_property() == self.spec_next_property() + 1
                &&& after.spec_context() == keyed(
                    set_entry(self.spec_context_entries(), self.spec_properties()[self.spec_next_property()].key, value),
                )
                &&& #[trigger] after.expected(r.0, r.1)
            },
            self.spec_next_property() >= self.spec_properties().len() ==> self.expected(r.0, r.1),
    {
        proof {
            use_type_invariant(&self);
        }
        if self.next_property < self.properties.len() {
            let ghost before = self.context.spec_entries();
            let ghost original_key = self.properties@[self.next_property as int].key;
            let ConfigurationRun { steps, next_step, properties, next_property, context } = self;
            let key = properties[next_property].key.clone();
            let mut context = context;
            context.insert(key, value);
            proof {
                lemma_keyed_set_entry(before, key, original_key, value);
            }
            let after = ConfigurationRun { steps, next_step, properties, next_property: next_property + 1, context };
            let ghost g = after;
            let r = after.advance();
            assert(g.expected(r.0, r.1));
            r
        } else {
            self.advance()
        }
    }
}

} // verus!
