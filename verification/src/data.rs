//! Plain data that crosses between scripts and native components.
use crate::error::Fault;
use crate::error::ScriptError;
use crate::error;
use crate::number::Number;
use crate::number;
use crate::text;
use crate::value::Prototype;
use crate::value::ScriptMarks;
use crate::value::ScriptObject;
use crate::value::ScriptProperty;
use crate::value::ScriptValue;
use vstd::prelude::*;
use vstd::string::*;

verus! {

/// How deep data may be nested.
pub const MAX_COMPONENT_DATA_DEPTH: usize = 16;

/// How many values data may hold, over all levels.
pub const MAX_COMPONENT_DATA_NODES: usize = 4096;

/// How many bytes the strings and keys of data may have together.
pub const MAX_COMPONENT_DATA_STRING_BYTES: usize = 1024 * 1024;

/// How many keys the objects of data may have together.
pub const MAX_COMPONENT_DATA_OBJECT_KEYS: usize = 1024;

/// A field of an object.
pub struct ComponentDataField {
    pub key: String,
    pub value: ComponentDataValue,
}

/// Plain data. An object's fields are in the order the script gave them.
pub enum ComponentDataValue {
    Null,
    Boolean(bool),
    Number(Number),
    String(String),
    Array(Vec<ComponentDataValue>),
    Object(Vec<ComponentDataField>),
}

/// Plain data, with sequences in place of vectors and strings.
pub enum DataModel {
    Null,
    Boolean(bool),
    Number(Number),
    String(Seq<char>),
    Array(Seq<DataModel>),
    Object(Seq<(Seq<char>, DataModel)>),
}

impl ComponentDataValue {
    /// The data that this stands for.
    pub open spec fn model(self) -> DataModel
        decreases self,
    {
        match self {
            ComponentDataValue::Null => DataModel::Null,
            ComponentDataValue::Boolean(value) => DataModel::Boolean(value),
            ComponentDataValue::Number(value) => DataModel::Number(value),
            ComponentDataValue::String(value) => DataModel::String(value@),
            ComponentDataValue::Array(items) => DataModel::Array(
                Seq::new(
                    items@.len(),
                    |i: int|
                        if 0 <= i < items@.len() {
                            items@[i].model()
                        } else {
                            arbitrary()
                        },
                ),
            ),
            ComponentDataValue::Object(fields) => DataModel::Object(
                Seq::new(
                    fields@.len(),
                    |i: int|
                        if 0 <= i < fields@.len() {
                            (fields@[i].key@, fields@[i].value.model())
                        } else {
                            arbitrary()
                        },
                ),
            ),
        }
    }
}

/// The data that a list stands for.
pub open spec fn item_models(items: Seq<ComponentDataValue>) -> Seq<DataModel> {
    Seq::new(items.len(), |i: int| items[i].model())
}

/// The fields that a list stands for.
pub open spec fn field_models(fields: Seq<ComponentDataField>) -> Seq<(Seq<char>, DataModel)> {
    Seq::new(fields.len(), |i: int| (fields[i].key@, fields[i].value.model()))
}

/// How much of the limits has been used.
pub struct ComponentDataBudget {
    pub nodes: usize,
    pub string_bytes: usize,
    pub keys: usize,
}

/// How much of the limits has been used.
pub struct BudgetModel {
    pub nodes: nat,
    pub string_bytes: nat,
    pub keys: nat,
}

impl ComponentDataBudget {
    /// How much of the limits has been used.
    pub open spec fn model(self) -> BudgetModel {
        BudgetModel {
            nodes: self.nodes as nat,
            string_bytes: self.string_bytes as nat,
            keys: self.keys as nat,
        }
    }

    /// Nothing has been used.
    pub fn new() -> (r: Self)
        ensures
            r.model() == (BudgetModel { nodes: 0, string_bytes: 0, keys: 0 }),
    {
        ComponentDataBudget { nodes: 0, string_bytes: 0, keys: 0 }
    }
}

/// Whether a key names a handle of the shell.
pub open spec fn reserved_key(key: Seq<char>) -> bool {
    key == "__id"@ || key == "__handle"@ || key == "__componentStateHandle"@
}

/// What a value comes to: data and what is used up after it, or the first thing wrong with it.
pub open spec fn data_of(value: ScriptValue, depth: nat, budget: BudgetModel) -> Result<
    (DataModel, BudgetModel),
    ScriptError<Seq<char>>,
>
    decreases value,
{
    let counted = BudgetModel { nodes: budget.nodes + 1, ..budget };
    if depth > MAX_COMPONENT_DATA_DEPTH {
        Err(ScriptError::Fixed(Fault::DataDepth))
    } else if counted.nodes > MAX_COMPONENT_DATA_NODES {
        Err(ScriptError::Fixed(Fault::DataNodes))
    } else {
        match value {
            ScriptValue::Undefined | ScriptValue::Null => Ok((DataModel::Null, counted)),
            ScriptValue::Boolean(flag) => Ok((DataModel::Boolean(flag), counted)),
            ScriptValue::Number(number) => if number::wide_finite(number.wide) {
                Ok((DataModel::Number(number), counted))
            } else {
                Err(ScriptError::Fixed(Fault::DataNumber))
            },
            ScriptValue::Text(string) => {
                let grown = counted.string_bytes + text::byte_len(string@);
                if grown > MAX_COMPONENT_DATA_STRING_BYTES {
                    Err(ScriptError::Fixed(Fault::DataBytes))
                } else {
                    Ok(
                        (
                            DataModel::String(string@),
                            BudgetModel { string_bytes: grown, ..counted },
                        ),
                    )
                }
            },
            ScriptValue::Function(_) => Err(ScriptError::Fixed(Fault::DataFunction)),
            ScriptValue::Array { slot, items } => match data_of_items(items@, depth + 1, counted) {
                Ok((models, after)) => Ok((DataModel::Array(models), after)),
                Err(error) => Err(error),
            },
            ScriptValue::Object(object) => if object.promise {
                Err(ScriptError::Fixed(Fault::DataPromise))
            } else if object.prototype == Prototype::Foreign {
                Err(ScriptError::Fixed(Fault::DataPrototype))
            } else if object.symbols {
                Err(ScriptError::Fixed(Fault::DataSymbol))
            } else {
                match data_of_fields(object.properties@, depth + 1, counted) {
                    Ok((models, after)) => Ok((DataModel::Object(models), after)),
                    Err(error) => Err(error),
                }
            },
            ScriptValue::Broken(message) => Err(ScriptError::Raised { message: message@ }),
            ScriptValue::TooLong(message) => Err(ScriptError::Raised { message: message@ }),
            ScriptValue::Raised(message) => Err(ScriptError::Raised { message: message@ }),
            ScriptValue::Other => Err(ScriptError::Fixed(Fault::DataPlain)),
        }
    }
}

/// What the items of an array come to, first to last.
pub open spec fn data_of_items(items: Seq<ScriptValue>, depth: nat, budget: BudgetModel) -> Result<
    (Seq<DataModel>, BudgetModel),
    ScriptError<Seq<char>>,
>
    decreases items,
{
    if items.len() == 0 {
        Ok((Seq::empty(), budget))
    } else {
        match data_of_items(items.drop_last(), depth, budget) {
            Err(error) => Err(error),
            Ok((models, used)) => match items.last() {
                ScriptValue::Raised(message) => Err(ScriptError::Raised { message: message@ }),
                item => match data_of(items.last(), depth, used) {
                    Ok((model, after)) => Ok((models.push(model), after)),
                    Err(error) => Err(error),
                },
            },
        }
    }
}

/// What the properties of an object come to, first to last.
pub open spec fn data_of_fields(
    properties: Seq<ScriptProperty>,
    depth: nat,
    budget: BudgetModel,
) -> Result<(Seq<(Seq<char>, DataModel)>, BudgetModel), ScriptError<Seq<char>>>
    decreases properties,
{
    if properties.len() == 0 {
        Ok((Seq::empty(), budget))
    } else {
        match data_of_fields(properties.drop_last(), depth, budget) {
            Err(error) => Err(error),
            Ok((models, used)) => {
                let property = properties.last();
                let keys = used.keys + 1;
                let grown = used.string_bytes + text::byte_len(property.key@);
                if keys > MAX_COMPONENT_DATA_OBJECT_KEYS {
                    Err(ScriptError::Fixed(Fault::DataKeys))
                } else if grown > MAX_COMPONENT_DATA_STRING_BYTES {
                    Err(ScriptError::Fixed(Fault::DataBytes))
                } else if property.accessor {
                    Err(ScriptError::Fixed(Fault::DataAccessor))
                } else if reserved_key(property.key@) {
                    Err(ScriptError::Fixed(Fault::DataHandle))
                } else {
                    match property.value {
                        ScriptValue::Raised(message) => Err(
                            ScriptError::Raised { message: message@ },
                        ),
                        _ => match data_of(
                            properties.last().value,
                            depth,
                            BudgetModel { keys, string_bytes: grown, ..used },
                        ) {
                            Ok((model, after)) => Ok((models.push((property.key@, model)), after)),
                            Err(error) => Err(error),
                        },
                    }
                }
            },
        }
    }
}

/// Whether an answer is the one that is owed, and the budget stands as it should after it.
pub open spec fn answers(
    answer: Result<ComponentDataValue, ScriptError<String>>,
    budget: BudgetModel,
    owed: Result<(DataModel, BudgetModel), ScriptError<Seq<char>>>,
) -> bool {
    match (answer, owed) {
        (Ok(data), Ok((model, after))) => data.model() == model && budget == after,
        (Err(error), Err(expected)) => error::error_view(error) == expected,
        _ => false,
    }
}

proof fn lemma_items_stop(items: Seq<ScriptValue>, upto: int, depth: nat, budget: BudgetModel)
    requires
        0 <= upto <= items.len(),
        data_of_items(items.take(upto), depth, budget) is Err,
    ensures
        data_of_items(items, depth, budget) == data_of_items(items.take(upto), depth, budget),
    decreases items.len() - upto,
{
    if upto == items.len() {
        assert(items.take(upto) =~= items);
    } else {
        assert(items.take(upto + 1).drop_last() =~= items.take(upto));
        lemma_items_stop(items, upto + 1, depth, budget);
    }
}

proof fn lemma_fields_stop(
    properties: Seq<ScriptProperty>,
    upto: int,
    depth: nat,
    budget: BudgetModel,
)
    requires
        0 <= upto <= properties.len(),
        data_of_fields(properties.take(upto), depth, budget) is Err,
    ensures
        data_of_fields(properties, depth, budget) == data_of_fields(
            properties.take(upto),
            depth,
            budget,
        ),
    decreases properties.len() - upto,
{
    if upto == properties.len() {
        assert(properties.take(upto) =~= properties);
    } else {
        assert(properties.take(upto + 1).drop_last() =~= properties.take(upto));
        lemma_fields_stop(properties, upto + 1, depth, budget);
    }
}

/// The data that a script value holds, if it is plain data within the limits.
pub fn component_data_from_js(
    value: &ScriptValue,
    depth: usize,
    budget: &mut ComponentDataBudget,
) -> (r: Result<ComponentDataValue, ScriptError<String>>)
    requires
        old(budget).keys < usize::MAX,
    ensures
        answers(r, final(budget).model(), data_of(*value, depth as nat, old(budget).model())),
        r is Ok ==> final(budget).keys < usize::MAX,
    decreases value,
{
    if depth > MAX_COMPONENT_DATA_DEPTH {
        return Err(ScriptError::Fixed(Fault::DataDepth));
    }
    match budget.nodes.checked_add(1) {
        Some(nodes) => {
            budget.nodes = nodes;
        },
        None => {
            return Err(ScriptError::Fixed(Fault::DataNodes));
        },
    }
    if budget.nodes > MAX_COMPONENT_DATA_NODES {
        return Err(ScriptError::Fixed(Fault::DataNodes));
    }
    let ghost counted = budget.model();
    match value {
        ScriptValue::Undefined | ScriptValue::Null => Ok(ComponentDataValue::Null),
        ScriptValue::Boolean(flag) => Ok(ComponentDataValue::Boolean(*flag)),
        ScriptValue::Number(number) => if number.is_finite() {
            Ok(ComponentDataValue::Number(*number))
        } else {
            Err(ScriptError::Fixed(Fault::DataNumber))
        },
        ScriptValue::Text(string) => {
            budget.string_bytes = budget.string_bytes.saturating_add(
                text::bytes_in(string.as_str()),
            );
            if budget.string_bytes > MAX_COMPONENT_DATA_STRING_BYTES {
                return Err(ScriptError::Fixed(Fault::DataBytes));
            }
            Ok(ComponentDataValue::String(string.as_str().to_owned()))
        },
        ScriptValue::Function(_) => Err(ScriptError::Fixed(Fault::DataFunction)),
        ScriptValue::Array { slot, items } => {
            let mut out: Vec<ComponentDataValue> = Vec::new();
            let mut i: usize = 0;
            let ghost inner = (depth + 1) as nat;
            assert(items@.take(0) =~= Seq::empty());
            assert(item_models(out@) =~= Seq::empty());
            while i < items.len()
                invariant
                    value is Array,
                    items == value->items,
                    i <= items@.len(),
                    counted == (BudgetModel {
                        nodes: old(budget).model().nodes + 1,
                        ..old(budget).model()
                    }),
                    counted.nodes <= MAX_COMPONENT_DATA_NODES,
                    inner == depth + 1,
                    depth <= MAX_COMPONENT_DATA_DEPTH,
                    budget.keys < usize::MAX,
                    data_of_items(items@.take(i as int), inner, counted) == Ok::<
                        (Seq<DataModel>, BudgetModel),
                        ScriptError<Seq<char>>,
                    >((item_models(out@), budget.model())),
                decreases items@.len() - i,
            {
                let ghost used = budget.model();
                let ghost before = out@;
                assert(items@.take(i + 1).drop_last() =~= items@.take(i as int));
                assert(items@.take(i + 1).last() == items@[i as int]);
                match &items[i] {
                    ScriptValue::Raised(message) => {
                        proof {
                            lemma_items_stop(items@, i + 1, inner, counted);
                        }
                        return Err(ScriptError::Raised { message: message.as_str().to_owned() });
                    },
                    _ => {},
                }
                match component_data_from_js(&items[i], depth + 1, budget) {
                    Ok(item) => {
                        out.push(item);
                        assert(item_models(out@) =~= item_models(before).push(item.model()));
                    },
                    Err(error) => {
                        proof {
                            lemma_items_stop(items@, i + 1, inner, counted);
                        }
                        return Err(error);
                    },
                }
                i += 1;
            }
            assert(items@.take(i as int) =~= items@);
            let data = ComponentDataValue::Array(out);
            assert(data.model() is Array);
            assert(data.model()->Array_0 =~= item_models(out@));
            Ok(data)
        },
        ScriptValue::Object(object) => {
            if object.promise {
                return Err(ScriptError::Fixed(Fault::DataPromise));
            }
            match object.prototype {
                Prototype::Foreign => {
                    return Err(ScriptError::Fixed(Fault::DataPrototype));
                },
                _ => {},
            }
            if object.symbols {
                return Err(ScriptError::Fixed(Fault::DataSymbol));
            }
            let properties = &object.properties;
            let mut out: Vec<ComponentDataField> = Vec::new();
            let mut i: usize = 0;
            let ghost inner = (depth + 1) as nat;
            assert(properties@.take(0) =~= Seq::empty());
            assert(field_models(out@) =~= Seq::empty());
            while i < properties.len()
                invariant
                    value is Object,
                    *properties == value->Object_0.properties,
                    i <= properties@.len(),
                    !value->Object_0.promise,
                    value->Object_0.prototype != Prototype::Foreign,
                    !value->Object_0.symbols,
                    counted == (BudgetModel {
                        nodes: old(budget).model().nodes + 1,
                        ..old(budget).model()
                    }),
                    counted.nodes <= MAX_COMPONENT_DATA_NODES,
                    inner == depth + 1,
                    depth <= MAX_COMPONENT_DATA_DEPTH,
                    budget.keys < usize::MAX,
                    data_of_fields(properties@.take(i as int), inner, counted) == Ok::<
                        (Seq<(Seq<char>, DataModel)>, BudgetModel),
                        ScriptError<Seq<char>>,
                    >((field_models(out@), budget.model())),
                decreases properties@.len() - i,
            {
                let ghost used = budget.model();
                let ghost before = out@;
                assert(properties@.take(i + 1).drop_last() =~= properties@.take(i as int));
                assert(properties@.take(i + 1).last() == properties@[i as int]);
                proof {
                    if data_of_fields(properties@.take(i + 1), inner, counted) is Err {
                        lemma_fields_stop(properties@, i + 1, inner, counted);
                    }
                }
                let property = &properties[i];
                budget.keys = budget.keys + 1;
                if budget.keys > MAX_COMPONENT_DATA_OBJECT_KEYS {
                    return Err(ScriptError::Fixed(Fault::DataKeys));
                }
                budget.string_bytes = budget.string_bytes.saturating_add(
                    text::bytes_in(property.key.as_str()),
                );
                if budget.string_bytes > MAX_COMPONENT_DATA_STRING_BYTES {
                    return Err(ScriptError::Fixed(Fault::DataBytes));
                }
                if property.accessor {
                    return Err(ScriptError::Fixed(Fault::DataAccessor));
                }
                if is_reserved_key(property.key.as_str()) {
                    return Err(ScriptError::Fixed(Fault::DataHandle));
                }
                match &property.value {
                    ScriptValue::Raised(message) => {
                        return Err(ScriptError::Raised { message: message.as_str().to_owned() });
                    },
                    _ => {},
                }
                match component_data_from_js(&property.value, depth + 1, budget) {
                    Ok(data) => {
                        let ghost model = data.model();
                        out.push(
                            ComponentDataField {
                                key: property.key.as_str().to_owned(),
                                value: data,
                            },
                        );
                        assert(field_models(out@) =~= field_models(before).push(
                            (property.key@, model),
                        ));
                    },
                    Err(error) => {
                        return Err(error);
                    },
                }
                i += 1;
            }
            assert(properties@.take(i as int) =~= properties@);
            let data = ComponentDataValue::Object(out);
            assert(data.model() is Object);
            assert(data.model()->Object_0 =~= field_models(out@));
            Ok(data)
        },
        ScriptValue::Broken(message) | ScriptValue::TooLong(message) => Err(
            ScriptError::Raised { message: message.as_str().to_owned() },
        ),
        ScriptValue::Raised(message) => Err(
            ScriptError::Raised { message: message.as_str().to_owned() },
        ),
        ScriptValue::Other => Err(ScriptError::Fixed(Fault::DataPlain)),
    }
}

/// Whether a key names a handle of the shell.
pub fn is_reserved_key(key: &str) -> (r: bool)
    ensures
        r == reserved_key(key@),
{
    text::same(key, "__id") || text::same(key, "__handle") || text::same(
        key,
        "__componentStateHandle",
    )
}

/// Whether a script value is what the data looks like to a script: arrays and objects of the same
/// shape, the objects without a prototype and with plain properties only.
pub open spec fn shows(value: ScriptValue, data: DataModel) -> bool
    decreases data,
{
    match (value, data) {
        (ScriptValue::Null, DataModel::Null) => true,
        (ScriptValue::Boolean(flag), DataModel::Boolean(expected)) => flag == expected,
        (ScriptValue::Number(number), DataModel::Number(expected)) => number == expected,
        (ScriptValue::Text(string), DataModel::String(expected)) => string@ == expected,
        (ScriptValue::Array { slot, items }, DataModel::Array(models)) => {
            &&& slot is None
            &&& items@.len() == models.len()
            &&& forall|i: int| 0 <= i < models.len() ==> shows(#[trigger] items@[i], models[i])
        },
        (ScriptValue::Object(object), DataModel::Object(models)) => {
            &&& !object.promise
            &&& object.prototype == Prototype::Null
            &&& !object.symbols
            &&& object.properties@.len() == models.len()
            &&& forall|i: int|
                0 <= i < models.len() ==> {
                    &&& (#[trigger] object.properties@[i]).key@ == models[i].0
                    &&& !object.properties@[i].accessor
                    &&& shows(object.properties@[i].value, models[i].1)
                }
        },
        _ => false,
    }
}

/// The marks of an object that stands for nothing of the shell's.
pub fn no_marks() -> (r: ScriptMarks)
    ensures
        r.slot is None,
        r.element is None,
        !r.entity,
        r.token matches Err(message) && message@ == Seq::<char>::empty(),
        r.handle is None,
        r.state_handle is None,
        r.state_proof is None,
{
    ScriptMarks {
        slot: None,
        element: None,
        entity: false,
        token: Err(String::new()),
        handle: None,
        state_handle: None,
        state_proof: None,
    }
}

/// What data looks like to a script.
pub fn component_data_into_js(data: &ComponentDataValue) -> (r: ScriptValue)
    ensures
        shows(r, data.model()),
    decreases data,
{
    match data {
        ComponentDataValue::Null => ScriptValue::Null,
        ComponentDataValue::Boolean(flag) => ScriptValue::Boolean(*flag),
        ComponentDataValue::Number(number) => ScriptValue::Number(*number),
        ComponentDataValue::String(string) => ScriptValue::Text(string.as_str().to_owned()),
        ComponentDataValue::Array(items) => {
            let mut out: Vec<ScriptValue> = Vec::new();
            let mut i: usize = 0;
            while i < items.len()
                invariant
                    data is Array,
                    *items == data->Array_0,
                    i <= items@.len(),
                    out@.len() == i,
                    forall|j: int| 0 <= j < i ==> shows(#[trigger] out@[j], items@[j].model()),
                decreases items@.len() - i,
            {
                let shown = component_data_into_js(&items[i]);
                out.push(shown);
                i += 1;
            }
            let ghost models = data.model()->Array_0;
            assert forall|j: int| 0 <= j < models.len() implies shows(
                #[trigger] out@[j],
                models[j],
            ) by {
                assert(models[j] == items@[j].model());
            }
            let shown = ScriptValue::Array { slot: None, items: out };
            assert(shown->items@.len() == models.len());
            assert(shows(shown, DataModel::Array(models)));
            shown
        },
        ComponentDataValue::Object(fields) => {
            let mut out: Vec<ScriptProperty> = Vec::new();
            let mut i: usize = 0;
            while i < fields.len()
                invariant
                    data is Object,
                    *fields == data->Object_0,
                    i <= fields@.len(),
                    out@.len() == i,
                    forall|j: int|
                        0 <= j < i ==> {
                            &&& (#[trigger] out@[j]).key@ == fields@[j].key@
                            &&& !out@[j].accessor
                            &&& shows(out@[j].value, fields@[j].value.model())
                        },
                decreases fields@.len() - i,
            {
                let shown = component_data_into_js(&fields[i].value);
                out.push(
                    ScriptProperty {
                        key: fields[i].key.as_str().to_owned(),
                        accessor: false,
                        value: shown,
                    },
                );
                i += 1;
            }
            let ghost models = data.model()->Object_0;
            assert forall|j: int| 0 <= j < models.len() implies {
                &&& (#[trigger] out@[j]).key@ == models[j].0
                &&& !out@[j].accessor
                &&& shows(out@[j].value, models[j].1)
            } by {
                assert(models[j] == (fields@[j].key@, fields@[j].value.model()));
            }
            let shown = ScriptValue::Object(
                ScriptObject {
                    marks: no_marks(),
                    promise: false,
                    prototype: Prototype::Null,
                    symbols: false,
                    properties: out,
                },
            );
            assert(shown->Object_0.properties@.len() == models.len());
            assert(shows(shown, DataModel::Object(models)));
            shown
        },
    }
}

/// What is used up after data was read.
pub open spec fn spent(budget: BudgetModel, nodes: nat, bytes: nat, keys: nat) -> BudgetModel {
    BudgetModel {
        nodes: budget.nodes + nodes,
        string_bytes: budget.string_bytes + bytes,
        keys: budget.keys + keys,
    }
}

/// Whether so much can be used up and no limit is exceeded.
pub open spec fn affords(budget: BudgetModel, nodes: nat, bytes: nat, keys: nat) -> bool {
    &&& budget.nodes + nodes <= MAX_COMPONENT_DATA_NODES
    &&& budget.string_bytes + bytes <= MAX_COMPONENT_DATA_STRING_BYTES
    &&& budget.keys + keys <= MAX_COMPONENT_DATA_OBJECT_KEYS
}

/// Plain data within the limits that a component hands to a script and gets back unchanged is read
/// as the same data.
pub proof fn law_data_survives_the_crossing(
    sent: DataModel,
    shown: ScriptValue,
    depth: nat,
    budget: BudgetModel,
)
    requires
        shows(shown, sent),
        plain_within(sent, MAX_COMPONENT_DATA_DEPTH - depth),
        affords(budget, node_count(sent), byte_count(sent), key_count(sent)),
    ensures
        data_of(shown, depth, budget) == Ok::<(DataModel, BudgetModel), ScriptError<Seq<char>>>(
            (sent, spent(budget, node_count(sent), byte_count(sent), key_count(sent))),
        ),
    decreases sent,
{
    let counted = BudgetModel { nodes: budget.nodes + 1, ..budget };
    match (shown, sent) {
        (ScriptValue::Array { slot, items }, DataModel::Array(models)) => {
            lemma_items_survive(models, items@, depth + 1, counted);
        },
        (ScriptValue::Object(object), DataModel::Object(models)) => {
            lemma_fields_survive(models, object.properties@, depth + 1, counted);
        },
        _ => {},
    }
}

proof fn lemma_items_survive(
    models: Seq<DataModel>,
    items: Seq<ScriptValue>,
    depth: nat,
    budget: BudgetModel,
)
    requires
        items.len() == models.len(),
        forall|i: int| 0 <= i < models.len() ==> shows(#[trigger] items[i], models[i]),
        items_plain_within(models, MAX_COMPONENT_DATA_DEPTH - depth),
        affords(budget, item_nodes(models), item_bytes(models), item_keys(models)),
    ensures
        data_of_items(items, depth, budget) == Ok::<
            (Seq<DataModel>, BudgetModel),
            ScriptError<Seq<char>>,
        >((models, spent(budget, item_nodes(models), item_bytes(models), item_keys(models)))),
    decreases models,
{
    if models.len() > 0 {
        let front = models.drop_last();
        let before = items.drop_last();
        assert forall|i: int| 0 <= i < front.len() implies shows(
            #[trigger] before[i],
            front[i],
        ) by {
            assert(shows(items[i], models[i]));
        }
        lemma_items_survive(front, before, depth, budget);
        assert(shows(items[items.len() - 1], models[models.len() - 1]));
        law_data_survives_the_crossing(
            models.last(),
            items.last(),
            depth,
            spent(budget, item_nodes(front), item_bytes(front), item_keys(front)),
        );
        assert(front.push(models.last()) =~= models);
    } else {
        assert(models =~= Seq::empty());
    }
}

proof fn lemma_fields_survive(
    models: Seq<(Seq<char>, DataModel)>,
    properties: Seq<ScriptProperty>,
    depth: nat,
    budget: BudgetModel,
)
    requires
        properties.len() == models.len(),
        forall|i: int|
            0 <= i < models.len() ==> {
                &&& (#[trigger] properties[i]).key@ == models[i].0
                &&& !properties[i].accessor
                &&& shows(properties[i].value, models[i].1)
            },
        fields_plain_within(models, MAX_COMPONENT_DATA_DEPTH - depth),
        affords(budget, field_nodes(models), field_bytes(models), field_keys(models)),
    ensures
        data_of_fields(properties, depth, budget) == Ok::<
            (Seq<(Seq<char>, DataModel)>, BudgetModel),
            ScriptError<Seq<char>>,
        >((models, spent(budget, field_nodes(models), field_bytes(models), field_keys(models)))),
    decreases models,
{
    if models.len() > 0 {
        let front = models.drop_last();
        let before = properties.drop_last();
        assert forall|i: int| 0 <= i < front.len() implies {
            &&& (#[trigger] before[i]).key@ == front[i].0
            &&& !before[i].accessor
            &&& shows(before[i].value, front[i].1)
        } by {
            assert(properties[i].key@ == models[i].0);
        }
        lemma_fields_survive(front, before, depth, budget);
        let last = models.last();
        let property = properties[properties.len() - 1];
        assert(property.key@ == models[models.len() - 1].0);
        let used = spent(budget, field_nodes(front), field_bytes(front), field_keys(front));
        law_data_survives_the_crossing(
            last.1,
            property.value,
            depth,
            BudgetModel {
                keys: used.keys + 1,
                string_bytes: used.string_bytes + text::byte_len(property.key@),
                ..used
            },
        );
        assert(front.push(last) =~= models);
    } else {
        assert(models =~= Seq::empty());
    }
}

/// What was read from a script, shown to it again and read again, is the same data at the same cost.
pub proof fn law_data_reads_back(
    value: ScriptValue,
    shown: ScriptValue,
    depth: nat,
    budget: BudgetModel,
)
    requires
        data_of(value, depth, budget) is Ok,
        shows(shown, data_of(value, depth, budget)->Ok_0.0),
    ensures
        data_of(shown, depth, budget) == data_of(value, depth, budget),
    decreases value,
{
    let counted = BudgetModel { nodes: budget.nodes + 1, ..budget };
    match (value, shown) {
        (
            ScriptValue::Array { slot: _, items },
            ScriptValue::Array { slot: _, items: again },
        ) => {
            let models = data_of_items(items@, depth + 1, counted)->Ok_0.0;
            assert(items@.take(items@.len() as int) =~= items@);
            lemma_item_count(items@, depth + 1, counted);
            assert(again@.take(again@.len() as int) =~= again@);
            lemma_items_read_back(items@, again@, items@.len() as int, depth + 1, counted);
        },
        (ScriptValue::Object(object), ScriptValue::Object(again)) => {
            let fields = object.properties@;
            assert(fields.take(fields.len() as int) =~= fields);
            lemma_field_count(fields, depth + 1, counted);
            assert(again.properties@.take(again.properties@.len() as int) =~= again.properties@);
            lemma_fields_read_back(
                fields,
                again.properties@,
                fields.len() as int,
                depth + 1,
                counted,
            );
        },
        _ => {},
    }
}

proof fn lemma_item_count(items: Seq<ScriptValue>, depth: nat, budget: BudgetModel)
    requires
        data_of_items(items, depth, budget) is Ok,
    ensures
        data_of_items(items, depth, budget)->Ok_0.0.len() == items.len(),
    decreases items.len(),
{
    if items.len() > 0 {
        lemma_item_count(items.drop_last(), depth, budget);
    }
}

proof fn lemma_field_count(properties: Seq<ScriptProperty>, depth: nat, budget: BudgetModel)
    requires
        data_of_fields(properties, depth, budget) is Ok,
    ensures
        data_of_fields(properties, depth, budget)->Ok_0.0.len() == properties.len(),
    decreases properties.len(),
{
    if properties.len() > 0 {
        lemma_field_count(properties.drop_last(), depth, budget);
    }
}

proof fn lemma_items_read_back(
    items: Seq<ScriptValue>,
    again: Seq<ScriptValue>,
    upto: int,
    depth: nat,
    budget: BudgetModel,
)
    requires
        items.len() == again.len(),
        0 <= upto <= items.len(),
        data_of_items(items.take(upto), depth, budget) is Ok,
        forall|i: int|
            0 <= i < upto ==> shows(
                #[trigger] again[i],
                data_of_items(items.take(upto), depth, budget)->Ok_0.0[i],
            ),
    ensures
        data_of_items(again.take(upto), depth, budget) == data_of_items(
            items.take(upto),
            depth,
            budget,
        ),
    decreases items, upto,
{
    if upto > 0 {
        let models = data_of_items(items.take(upto), depth, budget)->Ok_0.0;
        assert(items.take(upto).drop_last() =~= items.take(upto - 1));
        assert(again.take(upto).drop_last() =~= again.take(upto - 1));
        let (fewer, used) = data_of_items(items.take(upto - 1), depth, budget)->Ok_0;
        lemma_item_count(items.take(upto - 1), depth, budget);
        assert forall|i: int| 0 <= i < upto - 1 implies shows(#[trigger] again[i], fewer[i]) by {
            assert(models[i] == fewer[i]);
        }
        lemma_items_read_back(items, again, upto - 1, depth, budget);
        assert(shows(again[upto - 1], models[upto - 1]));
        law_data_reads_back(items[upto - 1], again[upto - 1], depth, used);
    }
}

proof fn lemma_fields_read_back(
    properties: Seq<ScriptProperty>,
    again: Seq<ScriptProperty>,
    upto: int,
    depth: nat,
    budget: BudgetModel,
)
    requires
        properties.len() == again.len(),
        0 <= upto <= properties.len(),
        data_of_fields(properties.take(upto), depth, budget) is Ok,
        forall|i: int|
            0 <= i < upto ==> {
                let model = data_of_fields(properties.take(upto), depth, budget)->Ok_0.0[i];
                &&& (#[trigger] again[i]).key@ == model.0
                &&& !again[i].accessor
                &&& shows(again[i].value, model.1)
            },
    ensures
        data_of_fields(again.take(upto), depth, budget) == data_of_fields(
            properties.take(upto),
            depth,
            budget,
        ),
    decreases properties, upto,
{
    if upto > 0 {
        let models = data_of_fields(properties.take(upto), depth, budget)->Ok_0.0;
        assert(properties.take(upto).drop_last() =~= properties.take(upto - 1));
        assert(again.take(upto).drop_last() =~= again.take(upto - 1));
        let (fewer, used) = data_of_fields(properties.take(upto - 1), depth, budget)->Ok_0;
        lemma_field_count(properties.take(upto - 1), depth, budget);
        assert forall|i: int| 0 <= i < upto - 1 implies {
            &&& (#[trigger] again[i]).key@ == fewer[i].0
            &&& !again[i].accessor
            &&& shows(again[i].value, fewer[i].1)
        } by {
            assert(models[i] == fewer[i]);
        }
        lemma_fields_read_back(properties, again, upto - 1, depth, budget);
        let property = properties[upto - 1];
        assert(again[upto - 1].key@ == models[upto - 1].0);
        law_data_reads_back(
            property.value,
            again[upto - 1].value,
            depth,
            BudgetModel {
                keys: used.keys + 1,
                string_bytes: used.string_bytes + text::byte_len(property.key@),
                ..used
            },
        );
    }
}

/// How many values data is made of.
pub open spec fn node_count(model: DataModel) -> nat
    decreases model,
{
    match model {
        DataModel::Array(items) => 1 + item_nodes(items),
        DataModel::Object(fields) => 1 + field_nodes(fields),
        _ => 1,
    }
}

/// How many values the items of an array are made of.
pub open spec fn item_nodes(items: Seq<DataModel>) -> nat
    decreases items,
{
    if items.len() == 0 {
        0
    } else {
        item_nodes(items.drop_last()) + node_count(items.last())
    }
}

/// How many values the fields of an object are made of.
pub open spec fn field_nodes(fields: Seq<(Seq<char>, DataModel)>) -> nat
    decreases fields,
{
    if fields.len() == 0 {
        0
    } else {
        field_nodes(fields.drop_last()) + node_count(fields.last().1)
    }
}

/// How many bytes the texts and keys of data take.
pub open spec fn byte_count(model: DataModel) -> nat
    decreases model,
{
    match model {
        DataModel::String(string) => text::byte_len(string),
        DataModel::Array(items) => item_bytes(items),
        DataModel::Object(fields) => field_bytes(fields),
        _ => 0,
    }
}

/// How many bytes the texts and keys of an array's items take.
pub open spec fn item_bytes(items: Seq<DataModel>) -> nat
    decreases items,
{
    if items.len() == 0 {
        0
    } else {
        item_bytes(items.drop_last()) + byte_count(items.last())
    }
}

/// How many bytes the texts and keys of an object's fields take.
pub open spec fn field_bytes(fields: Seq<(Seq<char>, DataModel)>) -> nat
    decreases fields,
{
    if fields.len() == 0 {
        0
    } else {
        field_bytes(fields.drop_last()) + text::byte_len(fields.last().0) + byte_count(
            fields.last().1,
        )
    }
}

/// How many keys data has.
pub open spec fn key_count(model: DataModel) -> nat
    decreases model,
{
    match model {
        DataModel::Array(items) => item_keys(items),
        DataModel::Object(fields) => field_keys(fields),
        _ => 0,
    }
}

/// How many keys an array's items have.
pub open spec fn item_keys(items: Seq<DataModel>) -> nat
    decreases items,
{
    if items.len() == 0 {
        0
    } else {
        item_keys(items.drop_last()) + key_count(items.last())
    }
}

/// How many keys an object's fields have, their own among them.
pub open spec fn field_keys(fields: Seq<(Seq<char>, DataModel)>) -> nat
    decreases fields,
{
    if fields.len() == 0 {
        0
    } else {
        field_keys(fields.drop_last()) + 1 + key_count(fields.last().1)
    }
}

/// Whether data nests no deeper than so many levels, and is plain: its numbers are finite, and none
/// of its keys names a handle of the shell.
pub open spec fn plain_within(model: DataModel, levels: int) -> bool
    decreases model,
{
    &&& levels >= 0
    &&& match model {
        DataModel::Number(number) => number::wide_finite(number.wide),
        DataModel::Array(items) => items_plain_within(items, levels - 1),
        DataModel::Object(fields) => fields_plain_within(fields, levels - 1),
        _ => true,
    }
}

/// Whether the items of an array are plain and nest no deeper than so many levels.
pub open spec fn items_plain_within(items: Seq<DataModel>, levels: int) -> bool
    decreases items,
{
    items.len() == 0 || (items_plain_within(items.drop_last(), levels) && plain_within(
        items.last(),
        levels,
    ))
}

/// Whether the fields of an object are plain and nest no deeper than so many levels.
pub open spec fn fields_plain_within(fields: Seq<(Seq<char>, DataModel)>, levels: int) -> bool
    decreases fields,
{
    fields.len() == 0 || (fields_plain_within(fields.drop_last(), levels) && !reserved_key(
        fields.last().0,
    ) && plain_within(fields.last().1, levels))
}

proof fn lemma_data_bounded(value: ScriptValue, depth: nat, budget: BudgetModel)
    requires
        budget.string_bytes <= MAX_COMPONENT_DATA_STRING_BYTES,
        budget.keys <= MAX_COMPONENT_DATA_OBJECT_KEYS,
    ensures
        data_of(value, depth, budget) matches Ok((model, after)) ==> {
            &&& after.nodes == budget.nodes + node_count(model)
            &&& after.nodes <= MAX_COMPONENT_DATA_NODES
            &&& after.string_bytes <= MAX_COMPONENT_DATA_STRING_BYTES
            &&& after.keys <= MAX_COMPONENT_DATA_OBJECT_KEYS
            &&& plain_within(model, MAX_COMPONENT_DATA_DEPTH - depth)
        },
    decreases value,
{
    let counted = BudgetModel { nodes: budget.nodes + 1, ..budget };
    if counted.nodes <= MAX_COMPONENT_DATA_NODES {
        match value {
            ScriptValue::Array { slot, items } => {
                lemma_items_bounded(items@, depth + 1, counted);
            },
            ScriptValue::Object(object) => {
                lemma_fields_bounded(object.properties@, depth + 1, counted);
            },
            _ => {},
        }
    }
}

proof fn lemma_items_bounded(items: Seq<ScriptValue>, depth: nat, budget: BudgetModel)
    requires
        budget.nodes <= MAX_COMPONENT_DATA_NODES,
        budget.string_bytes <= MAX_COMPONENT_DATA_STRING_BYTES,
        budget.keys <= MAX_COMPONENT_DATA_OBJECT_KEYS,
    ensures
        data_of_items(items, depth, budget) matches Ok((models, after)) ==> {
            &&& after.nodes == budget.nodes + item_nodes(models)
            &&& after.nodes <= MAX_COMPONENT_DATA_NODES
            &&& after.string_bytes <= MAX_COMPONENT_DATA_STRING_BYTES
            &&& after.keys <= MAX_COMPONENT_DATA_OBJECT_KEYS
            &&& items_plain_within(models, MAX_COMPONENT_DATA_DEPTH - depth)
        },
    decreases items,
{
    if items.len() > 0 {
        lemma_items_bounded(items.drop_last(), depth, budget);
        if let Ok((models, used)) = data_of_items(items.drop_last(), depth, budget) {
            lemma_data_bounded(items.last(), depth, used);
            if let Ok((model, after)) = data_of(items.last(), depth, used) {
                assert(models.push(model).drop_last() =~= models);
                assert(models.push(model).last() == model);
            }
        }
    }
}

proof fn lemma_fields_bounded(properties: Seq<ScriptProperty>, depth: nat, budget: BudgetModel)
    requires
        budget.nodes <= MAX_COMPONENT_DATA_NODES,
        budget.string_bytes <= MAX_COMPONENT_DATA_STRING_BYTES,
        budget.keys <= MAX_COMPONENT_DATA_OBJECT_KEYS,
    ensures
        data_of_fields(properties, depth, budget) matches Ok((models, after)) ==> {
            &&& after.nodes == budget.nodes + field_nodes(models)
            &&& after.nodes <= MAX_COMPONENT_DATA_NODES
            &&& after.string_bytes <= MAX_COMPONENT_DATA_STRING_BYTES
            &&& after.keys <= MAX_COMPONENT_DATA_OBJECT_KEYS
            &&& fields_plain_within(models, MAX_COMPONENT_DATA_DEPTH - depth)
        },
    decreases properties,
{
    if properties.len() > 0 {
        lemma_fields_bounded(properties.drop_last(), depth, budget);
        if let Ok((models, used)) = data_of_fields(properties.drop_last(), depth, budget) {
            let property = properties.last();
            let keys = used.keys + 1;
            let grown = used.string_bytes + text::byte_len(property.key@);
            let next = BudgetModel { keys, string_bytes: grown, ..used };
            if keys <= MAX_COMPONENT_DATA_OBJECT_KEYS && grown <= MAX_COMPONENT_DATA_STRING_BYTES {
                lemma_data_bounded(properties.last().value, depth, next);
                if let Ok((model, after)) = data_of(properties.last().value, depth, next) {
                    let field = (property.key@, model);
                    assert(models.push(field).drop_last() =~= models);
                    assert(models.push(field).last() == field);
                }
            }
        }
    }
}

/// What a component gets of a script value is bounded, however large the value is: so many values,
/// so many bytes of text, so many keys and so many levels. It is plain: all numbers are finite, and
/// no key names a handle of the shell.
pub proof fn law_data_is_plain_and_bounded(value: ScriptValue)
    ensures
        data_of(value, 0, BudgetModel { nodes: 0, string_bytes: 0, keys: 0 }) matches Ok((model, used))
            ==> {
            &&& node_count(model) <= MAX_COMPONENT_DATA_NODES
            &&& used.string_bytes <= MAX_COMPONENT_DATA_STRING_BYTES
            &&& used.keys <= MAX_COMPONENT_DATA_OBJECT_KEYS
            &&& plain_within(model, MAX_COMPONENT_DATA_DEPTH as int)
        },
{
    lemma_data_bounded(value, 0, BudgetModel { nodes: 0, string_bytes: 0, keys: 0 });
}

/// Whether a script value is data, at every level: nothing for nothing, the same truth value,
/// number or text, an array's items one by one, and an ordinary or bare object's properties one by
/// one under their own keys.
pub open spec fn offers(value: ScriptValue, model: DataModel) -> bool
    decreases model,
{
    match (value, model) {
        (ScriptValue::Undefined, DataModel::Null) => true,
        (ScriptValue::Null, DataModel::Null) => true,
        (ScriptValue::Boolean(given), DataModel::Boolean(read)) => read == given,
        (ScriptValue::Number(given), DataModel::Number(read)) => read == given,
        (ScriptValue::Text(given), DataModel::String(read)) => read == given@,
        (ScriptValue::Array { slot, items }, DataModel::Array(models)) => {
            &&& models.len() == items@.len()
            &&& forall|i: int| 0 <= i < models.len() ==> offers(#[trigger] items@[i], models[i])
        },
        (ScriptValue::Object(object), DataModel::Object(models)) => {
            &&& !object.promise
            &&& !(object.prototype is Foreign)
            &&& !object.symbols
            &&& models.len() == object.properties@.len()
            &&& forall|i: int|
                0 <= i < models.len() ==> {
                    &&& (#[trigger] object.properties@[i]).key@ == models[i].0
                    &&& !object.properties@[i].accessor
                    &&& offers(object.properties@[i].value, models[i].1)
                }
        },
        _ => false,
    }
}

/// Data that is accepted has the shape of the script value it was read from, at every level: an
/// array has as many items, in their order, and an object, ordinary or bare, has as many fields as
/// the script's has properties, with the same keys in the same order, each holding what its
/// property's value is read as.
pub proof fn law_data_has_the_shape_of_its_value(value: ScriptValue, depth: nat, budget: BudgetModel)
    ensures
        data_of(value, depth, budget) matches Ok((model, after)) ==> offers(value, model),
    decreases value,
{
    let counted = BudgetModel { nodes: budget.nodes + 1, ..budget };
    match value {
        ScriptValue::Array { slot, items } => {
            lemma_items_have_shape(items@, depth + 1, counted);
        },
        ScriptValue::Object(object) => {
            lemma_fields_have_shape(object.properties@, depth + 1, counted);
        },
        _ => {},
    }
}

proof fn lemma_items_have_shape(items: Seq<ScriptValue>, depth: nat, budget: BudgetModel)
    ensures
        data_of_items(items, depth, budget) matches Ok((models, after)) ==> models.len()
            == items.len() && forall|i: int|
            0 <= i < models.len() ==> offers(#[trigger] items[i], models[i]),
    decreases items,
{
    if items.len() > 0 {
        let front = items.drop_last();
        lemma_items_have_shape(front, depth, budget);
        if let Ok((models, used)) = data_of_items(front, depth, budget) {
            law_data_has_the_shape_of_its_value(items.last(), depth, used);
            if let Ok((all, after)) = data_of_items(items, depth, budget) {
                assert forall|i: int| 0 <= i < all.len() implies offers(
                    #[trigger] items[i],
                    all[i],
                ) by {
                    if i < front.len() {
                        assert(front[i] == items[i]);
                        assert(all[i] == models[i]);
                    }
                }
            }
        }
    }
}

proof fn lemma_fields_have_shape(properties: Seq<ScriptProperty>, depth: nat, budget: BudgetModel)
    ensures
        data_of_fields(properties, depth, budget) matches Ok((models, after)) ==> models.len()
            == properties.len() && forall|i: int|
            0 <= i < models.len() ==> {
                &&& (#[trigger] properties[i]).key@ == models[i].0
                &&& !properties[i].accessor
                &&& offers(properties[i].value, models[i].1)
            },
    decreases properties,
{
    if properties.len() > 0 {
        let front = properties.drop_last();
        lemma_fields_have_shape(front, depth, budget);
        if let Ok((models, used)) = data_of_fields(front, depth, budget) {
            let property = properties.last();
            let next = BudgetModel {
                keys: used.keys + 1,
                string_bytes: used.string_bytes + text::byte_len(property.key@),
                ..used
            };
            law_data_has_the_shape_of_its_value(properties.last().value, depth, next);
            if let Ok((all, after)) = data_of_fields(properties, depth, budget) {
                assert forall|i: int| 0 <= i < all.len() implies {
                    &&& (#[trigger] properties[i]).key@ == all[i].0
                    &&& !properties[i].accessor
                    &&& offers(properties[i].value, all[i].1)
                } by {
                    if i < front.len() {
                        assert(front[i] == properties[i]);
                        assert(all[i] == models[i]);
                    }
                }
            }
        }
    }
}

/// A script value that is plain data within the limits is accepted, and read as that data.
pub proof fn law_plain_data_is_accepted(
    value: ScriptValue,
    model: DataModel,
    depth: nat,
    budget: BudgetModel,
)
    requires
        offers(value, model),
        plain_within(model, MAX_COMPONENT_DATA_DEPTH - depth),
        affords(budget, node_count(model), byte_count(model), key_count(model)),
    ensures
        data_of(value, depth, budget) == Ok::<(DataModel, BudgetModel), ScriptError<Seq<char>>>(
            (model, spent(budget, node_count(model), byte_count(model), key_count(model))),
        ),
    decreases model,
{
    let counted = BudgetModel { nodes: budget.nodes + 1, ..budget };
    match (value, model) {
        (ScriptValue::Array { slot, items }, DataModel::Array(models)) => {
            lemma_items_accepted(models, items@, depth + 1, counted);
        },
        (ScriptValue::Object(object), DataModel::Object(models)) => {
            lemma_fields_accepted(models, object.properties@, depth + 1, counted);
        },
        _ => {},
    }
}

proof fn lemma_items_accepted(
    models: Seq<DataModel>,
    items: Seq<ScriptValue>,
    depth: nat,
    budget: BudgetModel,
)
    requires
        items.len() == models.len(),
        forall|i: int| 0 <= i < models.len() ==> offers(#[trigger] items[i], models[i]),
        items_plain_within(models, MAX_COMPONENT_DATA_DEPTH - depth),
        affords(budget, item_nodes(models), item_bytes(models), item_keys(models)),
    ensures
        data_of_items(items, depth, budget) == Ok::<
            (Seq<DataModel>, BudgetModel),
            ScriptError<Seq<char>>,
        >((models, spent(budget, item_nodes(models), item_bytes(models), item_keys(models)))),
    decreases models,
{
    if models.len() > 0 {
        let front = models.drop_last();
        let before = items.drop_last();
        assert forall|i: int| 0 <= i < front.len() implies offers(
            #[trigger] before[i],
            front[i],
        ) by {
            assert(offers(items[i], models[i]));
        }
        lemma_items_accepted(front, before, depth, budget);
        assert(offers(items[items.len() - 1], models[models.len() - 1]));
        law_plain_data_is_accepted(
            items.last(),
            models.last(),
            depth,
            spent(budget, item_nodes(front), item_bytes(front), item_keys(front)),
        );
        assert(front.push(models.last()) =~= models);
    } else {
        assert(models =~= Seq::empty());
    }
}

proof fn lemma_fields_accepted(
    models: Seq<(Seq<char>, DataModel)>,
    properties: Seq<ScriptProperty>,
    depth: nat,
    budget: BudgetModel,
)
    requires
        properties.len() == models.len(),
        forall|i: int|
            0 <= i < models.len() ==> {
                &&& (#[trigger] properties[i]).key@ == models[i].0
                &&& !properties[i].accessor
                &&& offers(properties[i].value, models[i].1)
            },
        fields_plain_within(models, MAX_COMPONENT_DATA_DEPTH - depth),
        affords(budget, field_nodes(models), field_bytes(models), field_keys(models)),
    ensures
        data_of_fields(properties, depth, budget) == Ok::<
            (Seq<(Seq<char>, DataModel)>, BudgetModel),
            ScriptError<Seq<char>>,
        >((models, spent(budget, field_nodes(models), field_bytes(models), field_keys(models)))),
    decreases models,
{
    if models.len() > 0 {
        let front = models.drop_last();
        let before = properties.drop_last();
        assert forall|i: int| 0 <= i < front.len() implies {
            &&& (#[trigger] before[i]).key@ == front[i].0
            &&& !before[i].accessor
            &&& offers(before[i].value, front[i].1)
        } by {
            assert(properties[i].key@ == models[i].0);
        }
        lemma_fields_accepted(front, before, depth, budget);
        let last = models.last();
        let property = properties[properties.len() - 1];
        assert(property.key@ == models[models.len() - 1].0);
        let used = spent(budget, field_nodes(front), field_bytes(front), field_keys(front));
        law_plain_data_is_accepted(
            property.value,
            last.1,
            depth,
            BudgetModel {
                keys: used.keys + 1,
                string_bytes: used.string_bytes + text::byte_len(property.key@),
                ..used
            },
        );
        assert(front.push(last) =~= models);
    } else {
        assert(models =~= Seq::empty());
    }
}

/// Data nests sixteen levels deep and holds four thousand and ninety-six values at most; the
/// strings and keys read so far leave room up to a mebibyte, and the keys up to one thousand and
/// twenty-four.
pub proof fn law_data_ends_at_its_limits(value: ScriptValue, depth: nat, budget: BudgetModel)
    requires
        budget.string_bytes <= 1_048_576,
        budget.keys <= 1024,
    ensures
        depth > 16 ==> data_of(value, depth, budget) is Err,
        budget.nodes >= 4096 ==> data_of(value, depth, budget) is Err,
        data_of(value, depth, budget) matches Ok((model, after)) ==> after.nodes <= 4096
            && after.string_bytes <= 1_048_576 && after.keys <= 1024,
{
    lemma_data_bounded(value, depth, budget);
}

/// A value that is refused on its own account is refused for what it is: a number that is not
/// finite, a function, a promise, an object with another prototype or with symbols, a value that
/// could not be read, or one that is no data at all.
pub proof fn law_a_value_is_refused_for_what_it_is(
    value: ScriptValue,
    depth: nat,
    budget: BudgetModel,
)
    requires
        depth <= 16,
        budget.nodes < 4096,
        budget.string_bytes <= 1_048_576,
    ensures
        match data_of(value, depth, budget) {
            Ok(_) => true,
            Err(error) => match value {
                ScriptValue::Undefined | ScriptValue::Null | ScriptValue::Boolean(_) => false,
                ScriptValue::Number(number) => error == ScriptError::<Seq<char>>::Fixed(
                    Fault::DataNumber,
                ) && number.wide % 0x8000_0000_0000_0000 >= 0x7FF0_0000_0000_0000,
                ScriptValue::Text(string) => error == ScriptError::<Seq<char>>::Fixed(
                    Fault::DataBytes,
                ) && budget.string_bytes + text::byte_len(string@) > 1_048_576,
                ScriptValue::Function(_) => error == ScriptError::<Seq<char>>::Fixed(
                    Fault::DataFunction,
                ),
                ScriptValue::Array { slot, items } => items@.len() > 0,
                ScriptValue::Object(object) => {
                    ||| object.promise && error == ScriptError::<Seq<char>>::Fixed(
                        Fault::DataPromise,
                    )
                    ||| !object.promise && object.prototype is Foreign && error == ScriptError::<
                        Seq<char>,
                    >::Fixed(Fault::DataPrototype)
                    ||| !object.promise && !(object.prototype is Foreign) && object.symbols && error
                        == ScriptError::<Seq<char>>::Fixed(Fault::DataSymbol)
                    ||| !object.promise && !(object.prototype is Foreign) && !object.symbols
                        && object.properties@.len() > 0
                },
                ScriptValue::Broken(message) => error == (ScriptError::<Seq<char>>::Raised {
                    message: message@,
                }),
                ScriptValue::TooLong(message) => error == (ScriptError::<Seq<char>>::Raised {
                    message: message@,
                }),
                ScriptValue::Raised(message) => error == (ScriptError::<Seq<char>>::Raised {
                    message: message@,
                }),
                ScriptValue::Other => error == ScriptError::<Seq<char>>::Fixed(Fault::DataPlain),
            },
        },
{
    match value {
        ScriptValue::Number(number) => {
            number::law_extents_are_read_off_their_bits(number.wide);
        },
        _ => {},
    }
}

/// A property that is refused on its own account is refused for what it is: one key too many, a key
/// that does not fit, an accessor, a handle of the shell or a value that could not be reached; the
/// properties before it were accepted. No handle of the shell is ever read as data.
pub proof fn law_a_property_is_refused_for_what_it_is(
    front: Seq<ScriptProperty>,
    property: ScriptProperty,
    depth: nat,
    budget: BudgetModel,
)
    ensures
        data_of_fields(front, depth, budget) is Err ==> data_of_fields(
            front.push(property),
            depth,
            budget,
        ) == data_of_fields(front, depth, budget),
        data_of_fields(front, depth, budget) matches Ok((models, used)) ==> {
            let answer = data_of_fields(front.push(property), depth, budget);
            &&& property.accessor ==> answer is Err
            &&& property.key@ == "__id"@ || property.key@ == "__handle"@ || property.key@
                == "__componentStateHandle"@ ==> answer is Err
            &&& used.keys >= 1024 ==> answer == Err::<
                (Seq<(Seq<char>, DataModel)>, BudgetModel),
                ScriptError<Seq<char>>,
            >(ScriptError::Fixed(Fault::DataKeys))
            &&& used.keys < 1024 && used.string_bytes + text::byte_len(property.key@) <= 1_048_576
                ==> {
                &&& property.accessor ==> answer == Err::<
                    (Seq<(Seq<char>, DataModel)>, BudgetModel),
                    ScriptError<Seq<char>>,
                >(ScriptError::Fixed(Fault::DataAccessor))
                &&& !property.accessor && (property.key@ == "__id"@ || property.key@ == "__handle"@
                    || property.key@ == "__componentStateHandle"@) ==> answer == Err::<
                    (Seq<(Seq<char>, DataModel)>, BudgetModel),
                    ScriptError<Seq<char>>,
                >(ScriptError::Fixed(Fault::DataHandle))
            }
        },
{
    assert(front.push(property).drop_last() =~= front);
    assert(front.push(property).last() == property);
}

} // verus!
