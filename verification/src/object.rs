//! The runtime value model: `Null`, integers, booleans, and the return
//! envelope that carries a `return`'s value out of nested blocks, together
//! with the coarse type tags the evaluator dispatches on.

use vstd::prelude::*;

use crate::text::{bool_str, bool_to_string, i64_dec_str, i64_to_string};

verus! {

/// The coarse runtime types.
#[derive(Debug, Eq, PartialEq, Clone, Copy, Hash, Structural)]
pub enum ObjectKind {
    Null,
    Integer,
    Boolean,
    ReturnValue,
}

/// A runtime type tag, as the object system hands it out.
#[derive(Debug, Eq, PartialEq, Clone, Copy, Hash, Structural)]
pub struct ObjectType {
    kind: ObjectKind,
}

/// The display name of a runtime type.
pub open spec fn object_type_name(k: ObjectKind) -> Seq<char> {
    match k {
        ObjectKind::Null => "NULL"@,
        ObjectKind::Integer => "INTEGER"@,
        ObjectKind::Boolean => "BOOLEAN"@,
        ObjectKind::ReturnValue => "RETURN_VALUE"@,
    }
}

impl ObjectType {
    /// The tag's kind.
    pub closed spec fn spec_kind(&self) -> ObjectKind {
        self.kind
    }

    /// The tag of integer values.
    pub fn integer_object_type() -> (r: Self)
        ensures
            r.spec_kind() == ObjectKind::Integer,
    {
        ObjectType { kind: ObjectKind::Integer }
    }

    /// The tag of boolean values.
    pub fn boolean_object_type() -> (r: Self)
        ensures
            r.spec_kind() == ObjectKind::Boolean,
    {
        ObjectType { kind: ObjectKind::Boolean }
    }

    /// The tag of the null value.
    pub fn null_object_type() -> (r: Self)
        ensures
            r.spec_kind() == ObjectKind::Null,
    {
        ObjectType { kind: ObjectKind::Null }
    }

    /// The tag of return envelopes.
    pub fn return_value_object_type() -> (r: Self)
        ensures
            r.spec_kind() == ObjectKind::ReturnValue,
    {
        ObjectType { kind: ObjectKind::ReturnValue }
    }

    /// Whether this is the integer tag.
    pub fn is_integer(&self) -> (r: bool)
        ensures
            r == (self.spec_kind() == ObjectKind::Integer),
    {
        self.kind == ObjectKind::Integer
    }

    /// Whether this is the boolean tag.
    pub fn is_boolean(&self) -> (r: bool)
        ensures
            r == (self.spec_kind() == ObjectKind::Boolean),
    {
        self.kind == ObjectKind::Boolean
    }

    /// Whether this is the null tag.
    pub fn is_null(&self) -> (r: bool)
        ensures
            r == (self.spec_kind() == ObjectKind::Null),
    {
        self.kind == ObjectKind::Null
    }

    /// Whether this is the return-envelope tag.
    pub fn is_return_value(&self) -> (r: bool)
        ensures
            r == (self.spec_kind() == ObjectKind::ReturnValue),
    {
        self.kind == ObjectKind::ReturnValue
    }

    /// The tag's display name.
    pub fn to_string(&self) -> (r: String)
        ensures
            r@ == object_type_name(self.spec_kind()),
    {
        match self.kind {
            ObjectKind::Null => "NULL".to_owned(),
            ObjectKind::Integer => "INTEGER".to_owned(),
            ObjectKind::Boolean => "BOOLEAN".to_owned(),
            ObjectKind::ReturnValue => "RETURN_VALUE".to_owned(),
        }
    }
}

/// A runtime value. `ReturnValue` is the envelope that unwinds nested block
/// evaluation; the evaluator never wraps it twice (an envelope's payload is
/// itself no envelope: `crate::evaluator::lemma_envelope_never_doubly_wrapped`).
#[derive(Debug, PartialEq, Hash)]
pub enum Object {
    Null,
    Integer { value: i64 },
    Boolean { value: bool },
    ReturnValue { value: Box<Object> },
}

impl Clone for Object {
    /// Copies the value, envelopes included.
    fn clone(&self) -> (r: Self)
        ensures
            r == *self,
        decreases *self,
    {
        match self {
            Object::Null => Object::Null,
            Object::Integer { value } => Object::Integer { value: *value },
            Object::Boolean { value } => Object::Boolean { value: *value },
            Object::ReturnValue { value } => Object::ReturnValue {
                value: Box::new((&**value).clone()),
            },
        }
    }
}

/// The coarse type of a value.
pub open spec fn obj_kind(o: Object) -> ObjectKind {
    match o {
        Object::Null => ObjectKind::Null,
        Object::Integer { .. } => ObjectKind::Integer,
        Object::Boolean { .. } => ObjectKind::Boolean,
        Object::ReturnValue { .. } => ObjectKind::ReturnValue,
    }
}

/// Truthiness: `Null` is falsy, a boolean mirrors itself, every other value
/// is truthy.
pub open spec fn spec_truthy(o: Object) -> bool {
    match o {
        Object::Null => false,
        Object::Boolean { value } => value,
        _ => true,
    }
}

/// What `inspect` prints: the integer in decimal, the boolean word, `null`,
/// and an envelope as the value it carries.
pub open spec fn inspect_str(o: Object) -> Seq<char>
    decreases o,
{
    match o {
        Object::Null => "null"@,
        Object::Integer { value } => i64_dec_str(value as int),
        Object::Boolean { value } => bool_str(value),
        Object::ReturnValue { value } => inspect_str(*value),
    }
}

impl Object {
    /// The value's runtime type tag.
    pub fn get_type(&self) -> (r: ObjectType)
        ensures
            r.spec_kind() == obj_kind(*self),
    {
        match self {
            Object::Null => ObjectType::null_object_type(),
            Object::Integer { .. } => ObjectType::integer_object_type(),
            Object::Boolean { .. } => ObjectType::boolean_object_type(),
            Object::ReturnValue { .. } => ObjectType::return_value_object_type(),
        }
    }

    /// Renders the value for display.
    pub fn inspect(&self) -> (r: String)
        ensures
            r@ == inspect_str(*self),
        decreases *self,
    {
        match self {
            Object::Null => "null".to_owned(),
            Object::Integer { value } => i64_to_string(*value),
            Object::Boolean { value } => bool_to_string(*value),
            Object::ReturnValue { value } => value.inspect(),
        }
    }

    /// Whether the value counts as true when branching.
    pub fn is_truthy(&self) -> (r: bool)
        ensures
            r == spec_truthy(*self),
    {
        match self {
            Object::Null => false,
            Object::Boolean { value } => *value,
            _ => true,
        }
    }
}

} // verus!
