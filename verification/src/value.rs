//! Script values, as far as the rules look into them.
use crate::number::Number;
use vstd::prelude::*;

verus! {

/// What an object's special properties say it stands for. A field is empty where the property is
/// missing or has another type.
pub struct ScriptMarks {
    /// The template parameter it is a placeholder for.
    pub slot: Option<Number>,
    /// The element it describes.
    pub element: Option<u32>,
    /// Whether it is a handle to a retained view.
    pub entity: bool,
    /// The token of the retained view it is a handle to, or why it cannot be read.
    pub token: Result<u32, String>,
    /// The retained entity it is a handle to.
    pub handle: Option<u64>,
    /// The retained component state it is a handle to.
    pub state_handle: Option<u64>,
    /// The proof that the handle to a component state was made by this runtime.
    pub state_proof: Option<String>,
}

/// Where an object inherits from.
#[derive(Clone, Copy, PartialEq, Eq, Structural, Debug)]
pub enum Prototype {
    Ordinary,
    Null,
    Foreign,
}

/// An own, enumerable property of an object. `accessor` tells that it has a getter or a setter.
pub struct ScriptProperty {
    pub key: String,
    pub accessor: bool,
    pub value: ScriptValue,
}

/// An object that is neither an array nor a function.
pub struct ScriptObject {
    pub marks: ScriptMarks,
    pub promise: bool,
    pub prototype: Prototype,
    pub symbols: bool,
    pub properties: Vec<ScriptProperty>,
}

/// A script value. Functions are named by the number under which the embedding application keeps
/// them.
pub enum ScriptValue {
    Undefined,
    Null,
    Boolean(bool),
    Number(Number),
    Text(String),
    Function(u64),
    Array { slot: Option<Number>, items: Vec<ScriptValue> },
    Object(ScriptObject),
    /// A string that holds no text. It holds the text of the exception that reading it raises.
    Broken(String),
    /// An array with more items than are ever copied. It holds the text of the exception that
    /// copying it raises.
    TooLong(String),
    /// A value that could not be reached: reading the property threw. It holds the text of the
    /// exception.
    Raised(String),
    /// Anything else, such as a symbol.
    Other,
}

} // verus!
