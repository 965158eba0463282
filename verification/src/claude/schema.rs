//! Recursive tool-input schemas: the shape of the JSON object a tool accepts.

use vstd::prelude::*;
use crate::strings::str_eq;

verus! {

/// A tool-input schema.  An `Object` lists its properties as ordered
/// `(name, schema)` pairs with the required property names alongside.
#[derive(Debug, PartialEq)]
pub enum Schema {
    Object { properties: Vec<(String, Schema)>, required: Vec<String> },
    String { description: String },
    Integer { description: String },
    Number { description: String },
    Array { description: String, items: Box<Schema> },
}

/// The entries of `props` whose name is not `name`, in order.
pub open spec fn remove_key(props: Seq<(String, Schema)>, name: Seq<char>) -> Seq<
    (String, Schema),
>
    decreases props.len(),
{
    if props.len() == 0 {
        Seq::empty()
    } else if props[0].0@ == name {
        remove_key(props.drop_first(), name)
    } else {
        seq![props[0]] + remove_key(props.drop_first(), name)
    }
}

/// The default schema is an empty `Schema::Object`.
impl Default for Schema {
    fn default() -> (r: Schema)
        ensures
            r matches Schema::Object { properties, required } && properties@ == Seq::<(
                String,
                Schema,
            )>::empty() && required@ == Seq::<String>::empty(),
    {
        Schema::Object { properties: Vec::new(), required: Vec::new() }
    }
}

impl Schema {
    /// Create a new `Schema::String`.
    pub fn string(description: String) -> (r: Schema)
        ensures
            r == (Schema::String { description }),
    {
        Schema::String { description }
    }

    /// Create a new `Schema::Integer`.
    pub fn integer(description: String) -> (r: Schema)
        ensures
            r == (Schema::Integer { description }),
    {
        Schema::Integer { description }
    }

    /// Create a new `Schema::Number`.
    pub fn number(description: String) -> (r: Schema)
        ensures
            r == (Schema::Number { description }),
    {
        Schema::Number { description }
    }

    /// Create a new `Schema::Array` of `items`.
    pub fn array(description: String, items: Schema) -> (r: Schema)
        ensures
            r matches Schema::Array { description: d, items: i } && d == description && *i
                == items,
    {
        Schema::Array { description, items: Box::new(items) }
    }

    /// Create a new empty `Schema::Object`.
    pub fn object() -> (r: Schema)
        ensures
            r matches Schema::Object { properties, required } && properties@ == Seq::<(
                String,
                Schema,
            )>::empty() && required@ == Seq::<String>::empty(),
    {
        Schema::default()
    }

    /// Add a property to a `Schema::Object`: an entry of the same name is
    /// replaced, and the name is recorded as required when asked.  On any
    /// other schema kind this returns the schema unchanged.
    pub fn with_property(self, name: String, schema: Schema, is_required: bool) -> (r: Schema)
        ensures
            !(self is Object) ==> r == self,
            self matches Schema::Object { properties, required } ==> {
                &&& r matches Schema::Object { properties: p2, required: r2 }
                &&& p2@.len() == remove_key(properties@, name@).len() + 1
                &&& p2@.drop_last() == remove_key(properties@, name@)
                &&& p2@.last().0@ == name@
                &&& p2@.last().1 == schema
                &&& (is_required ==> r2@.len() == required@.len() + 1 && r2@.drop_last()
                    == required@ && r2@.last()@ == name@)
                &&& (!is_required ==> r2@ == required@)
            },
    {
        match self {
            Schema::Object { mut properties, mut required } => {
                let ghost req_pre = required@;
                if is_required {
                    required.push(name.clone());
                    proof {
                        assert(required@.drop_last() =~= req_pre);
                    }
                }
                let ghost orig = properties@;
                let mut kept: Vec<(String, Schema)> = Vec::new();
                while properties.len() > 0
                    invariant
                        remove_key(orig, name@) =~= kept@ + remove_key(properties@, name@),
                    decreases properties.len(),
                {
                    let ghost p_pre = properties@;
                    let ghost kept_pre = kept@;
                    let e = properties.remove(0);
                    proof {
                        assert(properties@ =~= p_pre.drop_first());
                    }
                    if str_eq(e.0.as_str(), name.as_str()) {
                        proof {
                            assert(remove_key(p_pre, name@) == remove_key(
                                p_pre.drop_first(),
                                name@,
                            ));
                            assert(remove_key(orig, name@) =~= kept@ + remove_key(
                                properties@,
                                name@,
                            ));
                        }
                    } else {
                        kept.push(e);
                        proof {
                            assert(remove_key(p_pre, name@) == seq![p_pre[0]] + remove_key(
                                p_pre.drop_first(),
                                name@,
                            ));
                            assert(remove_key(orig, name@) =~= kept@ + remove_key(
                                properties@,
                                name@,
                            ));
                        }
                    }
                }
                proof {
                    assert(remove_key(orig, name@) =~= kept@);
                }
                let ghost kept_final = kept@;
                kept.push((name, schema));
                proof {
                    assert(kept@.drop_last() =~= kept_final);
                }
                Schema::Object { properties: kept, required }
            },
            other => other,
        }
    }
}

} // verus!
