//! Descriptors for tools and prompts, and the lenient parsers that read
//! them out of registration input. Malformed registration input degrades to
//! an empty schema or an empty argument list; it never fails a registration.

use vstd::prelude::*;

use crate::json::{arr_items_v, obj_fields_v, obj_get, obj_lookup_v, copy_json, Json, JsonV};

verus! {

/// A tool's input schema: the names its callers must supply, and a
/// JSON-schema-like property map.
#[derive(Debug, PartialEq, Eq)]
pub struct ToolInputSchema {
    pub required: Vec<String>,
    /// Property name to its (object-valued) schema fragment.
    pub properties: Vec<(String, Json)>,
}

/// The mathematical shape of a tool input schema.
#[verifier::ext_equal]
pub struct ToolInputSchemaV {
    pub required: Seq<Seq<char>>,
    pub properties: Seq<(Seq<char>, JsonV)>,
}

impl View for ToolInputSchema {
    type V = ToolInputSchemaV;

    open spec fn view(&self) -> ToolInputSchemaV {
        ToolInputSchemaV {
            required: self.required.deep_view(),
            properties: obj_fields_v(self.properties@),
        }
    }
}

/// A tool as the registry describes it to clients.
#[derive(Debug, PartialEq, Eq)]
pub struct ToolDescriptor {
    pub name: String,
    pub description: Option<String>,
    pub input_schema: ToolInputSchema,
}

/// The mathematical shape of a tool descriptor.
#[verifier::ext_equal]
pub struct ToolDescriptorV {
    pub name: Seq<char>,
    pub description: Option<Seq<char>>,
    pub input_schema: ToolInputSchemaV,
}

impl View for ToolDescriptor {
    type V = ToolDescriptorV;

    open spec fn view(&self) -> ToolDescriptorV {
        ToolDescriptorV {
            name: self.name@,
            description: self.description.deep_view(),
            input_schema: self.input_schema@,
        }
    }
}

/// One argument a prompt template accepts.
#[derive(Debug, PartialEq, Eq)]
pub struct PromptArgument {
    pub name: String,
    pub description: Option<String>,
    pub required: Option<bool>,
    pub title: Option<String>,
}

/// The mathematical shape of a prompt argument.
#[verifier::ext_equal]
pub struct PromptArgumentV {
    pub name: Seq<char>,
    pub description: Option<Seq<char>>,
    pub required: Option<bool>,
    pub title: Option<Seq<char>>,
}

impl View for PromptArgument {
    type V = PromptArgumentV;

    open spec fn view(&self) -> PromptArgumentV {
        PromptArgumentV {
            name: self.name@,
            description: self.description.deep_view(),
            required: self.required,
            title: self.title.deep_view(),
        }
    }
}

impl DeepView for PromptArgument {
    type V = PromptArgumentV;

    open spec fn deep_view(&self) -> PromptArgumentV {
        self.view()
    }
}

/// A prompt as the registry describes it to clients.
#[derive(Debug, PartialEq, Eq)]
pub struct PromptDescriptor {
    pub name: String,
    pub description: Option<String>,
    pub arguments: Vec<PromptArgument>,
}

/// The mathematical shape of a prompt descriptor.
#[verifier::ext_equal]
pub struct PromptDescriptorV {
    pub name: Seq<char>,
    pub description: Option<Seq<char>>,
    pub arguments: Seq<PromptArgumentV>,
}

impl View for PromptDescriptor {
    type V = PromptDescriptorV;

    open spec fn view(&self) -> PromptDescriptorV {
        PromptDescriptorV {
            name: self.name@,
            description: self.description.deep_view(),
            arguments: self.arguments.deep_view(),
        }
    }
}

/// Copy of an optional string.
pub fn copy_opt_string(o: &Option<String>) -> (r: Option<String>)
    ensures
        r.deep_view() == o.deep_view(),
{
    match o {
        Some(s) => Some(s.clone()),
        None => None,
    }
}

/// Copy of a string list.
#[verifier::loop_isolation(false)]
fn copy_strings(v: &Vec<String>) -> (r: Vec<String>)
    ensures
        r.deep_view() == v.deep_view(),
{
    let mut out: Vec<String> = Vec::new();
    let mut i: usize = 0;
    while i < v.len()
        invariant
            i <= v@.len(),
            out@.len() == i,
            forall|k: int| 0 <= k < i ==> #[trigger] out@[k]@ == v@[k]@,
        decreases v@.len() - i,
    {
        out.push(v[i].clone());
        i = i + 1;
    }
    proof {
        assert(out.deep_view() =~= v.deep_view());
    }
    out
}

/// Copy of an object field list.
#[verifier::loop_isolation(false)]
fn copy_fields(v: &Vec<(String, Json)>) -> (r: Vec<(String, Json)>)
    ensures
        obj_fields_v(r@) == obj_fields_v(v@),
{
    let mut out: Vec<(String, Json)> = Vec::new();
    let mut i: usize = 0;
    while i < v.len()
        invariant
            i <= v@.len(),
            out@.len() == i,
            forall|k: int|
                0 <= k < i ==> (#[trigger] out@[k]).0@ == v@[k].0@ && out@[k].1.v() == v@[k].1.v(),
        decreases v@.len() - i,
    {
        let (k, val) = &v[i];
        out.push((k.clone(), copy_json(val)));
        i = i + 1;
    }
    proof {
        assert(obj_fields_v(out@) =~= obj_fields_v(v@));
    }
    out
}

/// Snapshot copy of a tool descriptor.
pub fn copy_tool_descriptor(d: &ToolDescriptor) -> (r: ToolDescriptor)
    ensures
        r@ == d@,
{
    let r = ToolDescriptor {
        name: d.name.clone(),
        description: copy_opt_string(&d.description),
        input_schema: ToolInputSchema {
            required: copy_strings(&d.input_schema.required),
            properties: copy_fields(&d.input_schema.properties),
        },
    };
    proof {
        assert(r@ =~~= d@);
    }
    r
}

/// Snapshot copy of a prompt descriptor.
#[verifier::loop_isolation(false)]
pub fn copy_prompt_descriptor(d: &PromptDescriptor) -> (r: PromptDescriptor)
    ensures
        r@ == d@,
{
    let mut arguments: Vec<PromptArgument> = Vec::new();
    let mut i: usize = 0;
    while i < d.arguments.len()
        invariant
            i <= d.arguments@.len(),
            arguments@.len() == i,
            forall|k: int| 0 <= k < i ==> #[trigger] arguments@[k]@ == d.arguments@[k]@,
        decreases d.arguments@.len() - i,
    {
        let a = &d.arguments[i];
        arguments.push(
            PromptArgument {
                name: a.name.clone(),
                description: copy_opt_string(&a.description),
                required: a.required,
                title: copy_opt_string(&a.title),
            },
        );
        i = i + 1;
    }
    let r = PromptDescriptor {
        name: d.name.clone(),
        description: copy_opt_string(&d.description),
        arguments,
    };
    proof {
        assert(r@.arguments =~= d@.arguments);
        assert(r@ =~~= d@);
    }
    r
}

/// The strings among an array's items, in order; other items are dropped.
pub open spec fn str_items(items: Seq<JsonV>) -> Seq<Seq<char>>
    decreases items.len(),
{
    if items.len() == 0 {
        Seq::empty()
    } else {
        str_items(items.drop_last()) + (if items.last() is Str {
            seq![items.last()->Str_0]
        } else {
            Seq::empty()
        })
    }
}

/// The object-valued entries of an object's field list, in order; entries
/// with any other value are dropped.
pub open spec fn obj_items(fields: Seq<(Seq<char>, JsonV)>) -> Seq<(Seq<char>, JsonV)>
    decreases fields.len(),
{
    if fields.len() == 0 {
        Seq::empty()
    } else {
        obj_items(fields.drop_last()) + (if fields.last().1 is Obj {
            seq![fields.last()]
        } else {
            Seq::empty()
        })
    }
}

/// What `parse_tool_input_schema` reads as the required-name list.
pub open spec fn required_of(v: JsonV) -> Seq<Seq<char>> {
    match v {
        JsonV::Obj(fields) => match obj_lookup_v(fields, "required"@) {
            Some(JsonV::Arr(items)) => str_items(items),
            _ => Seq::empty(),
        },
        _ => Seq::empty(),
    }
}

/// What `parse_tool_input_schema` reads as the property map.
pub open spec fn properties_of(v: JsonV) -> Seq<(Seq<char>, JsonV)> {
    match v {
        JsonV::Obj(fields) => match obj_lookup_v(fields, "properties"@) {
            Some(JsonV::Obj(props)) => obj_items(props),
            _ => Seq::empty(),
        },
        _ => Seq::empty(),
    }
}

/// Reads a tool input schema out of registration input: the top-level
/// `required` array keeps its string items, the top-level `properties`
/// object keeps its object-valued entries, and any other shape — including
/// non-object input — yields the empty schema.
#[verifier::loop_isolation(false)]
pub fn parse_tool_input_schema(j: &Json) -> (r: ToolInputSchema)
    ensures
        r@.required == required_of(j@),
        r@.properties == properties_of(j@),
{
    let empty = ToolInputSchema { required: Vec::new(), properties: Vec::new() };
    proof {
        assert(empty@.required =~= Seq::<Seq<char>>::empty());
        assert(empty@.properties =~= Seq::<(Seq<char>, JsonV)>::empty());
    }
    match j {
        Json::Obj(fields) => {
            proof {
                assert(j@->Obj_0 =~= obj_fields_v(fields@));
            }
            let required = parse_required(fields);
            let properties = parse_properties(fields);
            let r = ToolInputSchema { required, properties };
            proof {
                assert(r@.required =~= required_of(j@));
                assert(r@.properties =~= properties_of(j@));
            }
            r
        },
        _ => empty,
    }
}

/// The required-name list under an object's `required` key.
fn parse_required(fields: &Vec<(String, Json)>) -> (r: Vec<String>)
    ensures
        r.deep_view() == match obj_lookup_v(obj_fields_v(fields@), "required"@) {
            Some(JsonV::Arr(items)) => str_items(items),
            _ => Seq::<Seq<char>>::empty(),
        },
{
    match obj_get(fields, "required") {
        Some(v) => match v {
            Json::Arr(items) => {
                proof {
                    assert(v@->Arr_0 =~= arr_items_v(items@));
                }
                collect_strings(items)
            },
            _ => {
                let out: Vec<String> = Vec::new();
                proof {
                    assert(out.deep_view() =~= Seq::<Seq<char>>::empty());
                }
                out
            },
        },
        None => {
            let out: Vec<String> = Vec::new();
            proof {
                assert(out.deep_view() =~= Seq::<Seq<char>>::empty());
            }
            out
        },
    }
}

/// The property map under an object's `properties` key.
fn parse_properties(fields: &Vec<(String, Json)>) -> (r: Vec<(String, Json)>)
    ensures
        obj_fields_v(r@) == match obj_lookup_v(obj_fields_v(fields@), "properties"@) {
            Some(JsonV::Obj(props)) => obj_items(props),
            _ => Seq::<(Seq<char>, JsonV)>::empty(),
        },
{
    match obj_get(fields, "properties") {
        Some(v) => match v {
            Json::Obj(props) => {
                proof {
                    assert(v@->Obj_0 =~= obj_fields_v(props@));
                }
                collect_objects(props)
            },
            _ => {
                let out: Vec<(String, Json)> = Vec::new();
                proof {
                    assert(obj_fields_v(out@) =~= Seq::<(Seq<char>, JsonV)>::empty());
                }
                out
            },
        },
        None => {
            let out: Vec<(String, Json)> = Vec::new();
            proof {
                assert(obj_fields_v(out@) =~= Seq::<(Seq<char>, JsonV)>::empty());
            }
            out
        },
    }
}

/// The string items of an array, cloned in order.
#[verifier::loop_isolation(false)]
fn collect_strings(items: &Vec<Json>) -> (r: Vec<String>)
    ensures
        r.deep_view() == str_items(arr_items_v(items@)),
{
    let ghost t = arr_items_v(items@);
    let mut out: Vec<String> = Vec::new();
    let mut i: usize = 0;
    while i < items.len()
        invariant
            i <= items@.len(),
            out.deep_view() == str_items(t.take(i as int)),
        decreases items@.len() - i,
    {
        proof {
            assert(t.take(i as int + 1).drop_last() =~= t.take(i as int));
            assert(t.take(i as int + 1).last() == t[i as int]);
        }
        match &items[i] {
            Json::Str(s) => {
                out.push(s.clone());
                proof {
                    assert(out.deep_view() =~= str_items(t.take(i as int + 1)));
                }
            },
            _ => {
                proof {
                    assert(out.deep_view() =~= str_items(t.take(i as int + 1)));
                }
            },
        }
        i = i + 1;
    }
    proof {
        assert(t.take(t.len() as int) =~= t);
    }
    out
}

/// The object-valued entries of an object's field list, cloned in order.
#[verifier::loop_isolation(false)]
fn collect_objects(fields: &Vec<(String, Json)>) -> (r: Vec<(String, Json)>)
    ensures
        obj_fields_v(r@) == obj_items(obj_fields_v(fields@)),
{
    let ghost t = obj_fields_v(fields@);
    let mut out: Vec<(String, Json)> = Vec::new();
    let mut i: usize = 0;
    while i < fields.len()
        invariant
            i <= fields@.len(),
            obj_fields_v(out@) == obj_items(t.take(i as int)),
        decreases fields@.len() - i,
    {
        proof {
            assert(t.take(i as int + 1).drop_last() =~= t.take(i as int));
            assert(t.take(i as int + 1).last() == t[i as int]);
        }
        let keep = match &fields[i].1 {
            Json::Obj(_) => true,
            _ => false,
        };
        if keep {
            let (k, v) = &fields[i];
            out.push((k.clone(), copy_json(v)));
        }
        proof {
            assert(obj_fields_v(out@) =~= obj_items(t.take(i as int + 1)));
        }
        i = i + 1;
    }
    proof {
        assert(t.take(t.len() as int) =~= t);
    }
    out
}

/// What one array item contributes to a prompt's argument list: an object
/// with a string `name` yields an argument; anything else is dropped. The
/// optional fields keep only values of the right shape.
pub open spec fn prompt_arg_of(v: JsonV) -> Option<PromptArgumentV> {
    match v {
        JsonV::Obj(fields) => match obj_lookup_v(fields, "name"@) {
            Some(JsonV::Str(n)) => Some(
                PromptArgumentV {
                    name: n,
                    description: match obj_lookup_v(fields, "description"@) {
                        Some(JsonV::Str(d)) => Some(d),
                        _ => None,
                    },
                    required: match obj_lookup_v(fields, "required"@) {
                        Some(JsonV::Bool(b)) => Some(b),
                        _ => None,
                    },
                    title: match obj_lookup_v(fields, "title"@) {
                        Some(JsonV::Str(t)) => Some(t),
                        _ => None,
                    },
                },
            ),
            _ => None,
        },
        _ => None,
    }
}

/// The arguments an array of items contributes, in order.
pub open spec fn prompt_args_of(items: Seq<JsonV>) -> Seq<PromptArgumentV>
    decreases items.len(),
{
    if items.len() == 0 {
        Seq::empty()
    } else {
        prompt_args_of(items.drop_last()) + (match prompt_arg_of(items.last()) {
            Some(a) => seq![a],
            None => Seq::empty(),
        })
    }
}

/// What `parse_prompt_arguments` reads out of registration input.
pub open spec fn prompt_arguments_of(v: JsonV) -> Seq<PromptArgumentV> {
    match v {
        JsonV::Arr(items) => prompt_args_of(items),
        _ => Seq::empty(),
    }
}

/// Reads a prompt's argument descriptors out of registration input: an
/// array of objects, where an item without a string `name` is dropped
/// silently, and non-array input yields the empty list.
#[verifier::loop_isolation(false)]
pub fn parse_prompt_arguments(j: &Json) -> (r: Vec<PromptArgument>)
    ensures
        r.deep_view() == prompt_arguments_of(j@),
{
    match j {
        Json::Arr(items) => {
            proof {
                assert(j@->Arr_0 =~= arr_items_v(items@));
            }
            let ghost t = arr_items_v(items@);
            let mut out: Vec<PromptArgument> = Vec::new();
            let mut i: usize = 0;
            while i < items.len()
                invariant
                    i <= items@.len(),
                    out.deep_view() == prompt_args_of(t.take(i as int)),
                decreases items@.len() - i,
            {
                proof {
                    assert(t.take(i as int + 1).drop_last() =~= t.take(i as int));
                    assert(t.take(i as int + 1).last() == t[i as int]);
                }
                match &items[i] {
                    Json::Obj(fields) => {
                        proof {
                            assert(t[i as int]->Obj_0 =~= obj_fields_v(fields@));
                        }
                        match obj_get(fields, "name") {
                            Some(Json::Str(n)) => {
                                let description = match obj_get(fields, "description") {
                                    Some(Json::Str(d)) => Some(d.clone()),
                                    _ => None,
                                };
                                let required = match obj_get(fields, "required") {
                                    Some(Json::Bool(b)) => Some(*b),
                                    _ => None,
                                };
                                let title = match obj_get(fields, "title") {
                                    Some(Json::Str(s)) => Some(s.clone()),
                                    _ => None,
                                };
                                out.push(
                                    PromptArgument { name: n.clone(), description, required, title },
                                );
                            },
                            _ => {},
                        }
                    },
                    _ => {},
                }
                proof {
                    assert(out.deep_view() =~= prompt_args_of(t.take(i as int + 1)));
                }
                i = i + 1;
            }
            proof {
                assert(t.take(t.len() as int) =~= t);
            }
            out
        },
        _ => {
            let out: Vec<PromptArgument> = Vec::new();
            proof {
                assert(out.deep_view() =~= Seq::<PromptArgumentV>::empty());
            }
            out
        },
    }
}

} // verus!
