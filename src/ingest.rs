use vstd::prelude::*;
use crate::error::NwtError;
use crate::metadata::{
    add_var_attr_spec, add_var_spec, names_distinct, AttrList, JsonData, VarList,
};

verus! {

/// The value of a dense-source attribute, as far as ingestion reads it.
#[derive(Debug, Clone)]
pub enum AttrValue {
    /// A single string.
    Str(String),
    /// A sequence of strings; its first element is used.
    Strs(Vec<String>),
    /// Any other type of value.
    Other,
}

/// The text that an attribute value contributes, if it is of a supported
/// type.
pub open spec fn attr_text(v: AttrValue) -> Option<Seq<char>> {
    match v {
        AttrValue::Str(s) => Some(s@),
        AttrValue::Strs(l) => if l@.len() > 0 {
            Some(l@[0]@)
        } else {
            None
        },
        AttrValue::Other => None,
    }
}

pub open spec fn text_of(v: AttrValue) -> Seq<char> {
    match attr_text(v) {
        Some(s) => s,
        None => Seq::empty(),
    }
}

/// The name of the variable attribute that holds the fill value; it is not
/// harvested.
pub open spec fn fill_value_name() -> Seq<char> {
    seq!['_', 'F', 'i', 'l', 'l', 'V', 'a', 'l', 'u', 'e']
}

/// Every global attribute has a supported type.
pub open spec fn globals_supported(g: Seq<(String, AttrValue)>) -> bool {
    forall|i: int| 0 <= i < g.len() ==> (#[trigger] attr_text(g[i].1)) is Some
}

/// Every variable attribute but the fill value has a supported type.
pub open spec fn vars_supported(vs: Seq<(String, Vec<(String, AttrValue)>)>) -> bool {
    forall|i: int, j: int|
        0 <= i < vs.len() && 0 <= j < vs[i].1@.len() && vs[i].1@[j].0@ != fill_value_name()
            ==> (#[trigger] attr_text(vs[i].1@[j].1)) is Some
}

/// The global attributes as harvested: name and text, in order.
pub open spec fn harvested_globals(g: Seq<(String, AttrValue)>) -> AttrList {
    g.map_values(|p: (String, AttrValue)| (p.0@, text_of(p.1)))
}

/// The store's variables after the first `j` attributes of variable `name`
/// are added, the fill value skipped.
pub open spec fn apply_attrs(m: VarList, name: Seq<char>, attrs: Seq<(String, AttrValue)>, j: int) -> VarList
    decreases j,
{
    if j <= 0 {
        m
    } else {
        let prev = apply_attrs(m, name, attrs, j - 1);
        let a = attrs[j - 1];
        if a.0@ == fill_value_name() {
            prev
        } else {
            add_var_attr_spec(prev, name, a.0@, text_of(a.1))
        }
    }
}

/// The store's variables after the first `i` source variables are
/// registered with their attributes.
pub open spec fn harvested_vars(vs: Seq<(String, Vec<(String, AttrValue)>)>, i: int) -> VarList
    decreases i,
{
    if i <= 0 {
        Seq::empty()
    } else {
        let name = vs[i - 1].0@;
        let m = add_var_spec(harvested_vars(vs, i - 1), name);
        apply_attrs(m, name, vs[i - 1].1@, vs[i - 1].1@.len() as int)
    }
}

/// The text of an attribute value: a string, or the first of a sequence of
/// strings; `None` for any other value.
pub fn attr_string(v: &AttrValue) -> (r: Option<String>)
    ensures
        match attr_text(*v) {
            Some(s) => r matches Some(x) && x@ == s,
            None => r is None,
        },
{
    match v {
        AttrValue::Str(s) => Some(s.clone()),
        AttrValue::Strs(l) => {
            if l.len() > 0 {
                Some(l[0].clone())
            } else {
                None
            }
        },
        AttrValue::Other => None,
    }
}

/// Whether `name` is the fill-value attribute's name.
pub fn is_fill_name(name: &String) -> (r: bool)
    ensures
        r == (name@ == fill_value_name()),
{
    let fill: String = "_FillValue".to_owned();
    proof {
        reveal_strlit("_FillValue");
        assert(fill@ =~= fill_value_name());
    }
    *name == fill
}

/// Fills a metadata store from the source's global and variable attributes.
/// Fails with `UnsupportedAttributeType`, keeping nothing, when an attribute
/// other than a variable's fill value is neither a string nor a non-empty
/// sequence of strings.
pub fn harvest_attributes(
    global_attrs: &Vec<(String, AttrValue)>,
    variables: &Vec<(String, Vec<(String, AttrValue)>)>,
) -> (r: Result<JsonData, NwtError>)
    ensures
        match r {
            Ok(j) => {
                &&& globals_supported(global_attrs@)
                &&& vars_supported(variables@)
                &&& j.globals() == harvested_globals(global_attrs@)
                &&& j.variables() == harvested_vars(variables@, variables@.len() as int)
                &&& names_distinct(j.variables())
                &&& j.polyid_list() == Seq::<Seq<char>>::empty()
            },
            Err(e) => {
                &&& e == NwtError::UnsupportedAttributeType
                &&& !(globals_supported(global_attrs@) && vars_supported(variables@))
            },
        },
{
    let mut json = JsonData::new();
    let mut i: usize = 0;
    while i < global_attrs.len()
        invariant
            i <= global_attrs@.len(),
            json.globals() == harvested_globals(global_attrs@.take(i as int)),
            json.variables() == Seq::<(Seq<char>, AttrList)>::empty(),
            json.polyid_list() == Seq::<Seq<char>>::empty(),
            forall|k: int| 0 <= k < i ==> (#[trigger] attr_text(global_attrs@[k].1)) is Some,
        decreases global_attrs@.len() - i,
    {
        let (name, value) = (&global_attrs[i].0, &global_attrs[i].1);
        match attr_string(value) {
            Some(text) => {
                json.add_global_attr(name.clone(), text);
                assert(harvested_globals(global_attrs@.take(i + 1)) =~= harvested_globals(
                    global_attrs@.take(i as int),
                ).push((name@, text_of(*value))));
            },
            None => {
                return Err(NwtError::UnsupportedAttributeType);
            },
        }
        i = i + 1;
    }
    assert(global_attrs@.take(global_attrs@.len() as int) =~= global_attrs@);
    let ghost g = json.globals();
    let mut v: usize = 0;
    while v < variables.len()
        invariant
            v <= variables@.len(),
            globals_supported(global_attrs@),
            json.globals() == g,
            g == harvested_globals(global_attrs@),
            json.polyid_list() == Seq::<Seq<char>>::empty(),
            json.variables() == harvested_vars(variables@, v as int),
            names_distinct(json.variables()),
            forall|a: int, b: int|
                0 <= a < v && 0 <= b < variables@[a].1@.len() && variables@[a].1@[b].0@
                    != fill_value_name() ==> (#[trigger] attr_text(variables@[a].1@[b].1)) is Some,
        decreases variables@.len() - v,
    {
        let var_name = &variables[v].0;
        let attrs = &variables[v].1;
        json.add_variable(var_name);
        let ghost m = json.variables();
        let mut k: usize = 0;
        while k < attrs.len()
            invariant
                v < variables@.len(),
                var_name == variables@[v as int].0,
                attrs == variables@[v as int].1,
                k <= attrs@.len(),
                json.globals() == g,
                json.polyid_list() == Seq::<Seq<char>>::empty(),
                json.variables() == apply_attrs(m, var_name@, attrs@, k as int),
                names_distinct(json.variables()),
                forall|b: int|
                    0 <= b < k && attrs@[b].0@ != fill_value_name() ==> (#[trigger] attr_text(
                        attrs@[b].1,
                    )) is Some,
            decreases attrs@.len() - k,
        {
            let (key, value) = (&attrs[k].0, &attrs[k].1);
            if !is_fill_name(key) {
                match attr_string(value) {
                    Some(text) => {
                        json.add_variable_attr(var_name, key.clone(), text);
                    },
                    None => {
                        return Err(NwtError::UnsupportedAttributeType);
                    },
                }
            }
            k = k + 1;
        }
        v = v + 1;
    }
    Ok(json)
}

} // verus!
