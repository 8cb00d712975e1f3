//! A function declaration: the schema of a capability that the assistant
//! may invoke instead of replying with text, and its wire encoding.
//!
//! The external API mandates the presence of the `parameters` field even
//! though it documents it as optional: when a declaration carries none, the
//! encoder emits the minimal valid placeholder
//! `{"type":"object","properties":{}}`.

use vstd::prelude::*;

use crate::text::{append_quoted_list, comma_join, lemma_comma_join_push, quoted_items};

verus! {

/// One parameter of a declared function.
#[derive(Clone, Debug, PartialEq)]
pub struct Property {
    pub type_: String,
    pub description: Option<String>,
    /// The allowed literal values, in presentation order.
    pub enum_: Option<Vec<String>>,
}

/// The JSON-Schema-like shape of a declared function's parameters; the
/// properties keep their insertion order and their names are expected to be
/// unique.
#[derive(Clone, Debug, PartialEq)]
pub struct Parameters {
    pub type_: String,
    pub properties: Vec<(String, Property)>,
    pub required: Vec<String>,
}

/// A callable-function declaration advertised to the assistant.
#[derive(Clone, Debug, PartialEq)]
pub struct FunctionSpecification {
    pub name: String,
    pub description: Option<String>,
    pub parameters: Option<Parameters>,
}

/// The mathematical model of a `Property`.
pub ghost struct PropertyView {
    pub type_: Seq<char>,
    pub description: Option<Seq<char>>,
    pub enum_: Option<Seq<Seq<char>>>,
}

/// The mathematical model of a `Parameters`.
pub ghost struct ParametersView {
    pub type_: Seq<char>,
    pub properties: Seq<(Seq<char>, PropertyView)>,
    pub required: Seq<Seq<char>>,
}

/// The mathematical model of a `FunctionSpecification`.
pub ghost struct FunctionSpecificationView {
    pub name: Seq<char>,
    pub description: Option<Seq<char>>,
    pub parameters: Option<ParametersView>,
}

impl View for Property {
    type V = PropertyView;

    open spec fn view(&self) -> PropertyView {
        PropertyView {
            type_: self.type_@,
            description: self.description.deep_view(),
            enum_: self.enum_.deep_view(),
        }
    }
}

impl View for Parameters {
    type V = ParametersView;

    open spec fn view(&self) -> ParametersView {
        ParametersView {
            type_: self.type_@,
            properties: Seq::new(
                self.properties@.len(),
                |i: int| (self.properties@[i].0@, self.properties@[i].1@),
            ),
            required: self.required.deep_view(),
        }
    }
}

impl View for FunctionSpecification {
    type V = FunctionSpecificationView;

    open spec fn view(&self) -> FunctionSpecificationView {
        FunctionSpecificationView {
            name: self.name@,
            description: self.description.deep_view(),
            parameters: match self.parameters {
                Some(p) => Some(p@),
                None => None,
            },
        }
    }
}

impl DeepView for Property {
    type V = PropertyView;

    open spec fn deep_view(&self) -> PropertyView {
        self.view()
    }
}

impl DeepView for Parameters {
    type V = ParametersView;

    open spec fn deep_view(&self) -> ParametersView {
        self.view()
    }
}

impl DeepView for FunctionSpecification {
    type V = FunctionSpecificationView;

    open spec fn deep_view(&self) -> FunctionSpecificationView {
        self.view()
    }
}

/// The `description` segment of a property's wire form, empty when absent.
pub open spec fn prop_desc_part(p: PropertyView) -> Seq<char> {
    match p.description {
        Some(d) => (",\"description\":\"")@ + d + ("\"")@,
        None => Seq::empty(),
    }
}

/// The `enum` segment of a property's wire form, empty when absent.
pub open spec fn prop_enum_part(p: PropertyView) -> Seq<char> {
    match p.enum_ {
        Some(es) => (",\"enum\":[")@ + comma_join(quoted_items(es)) + ("]")@,
        None => Seq::empty(),
    }
}

/// The wire form of one property.
pub open spec fn property_wire(p: PropertyView) -> Seq<char> {
    ("{\"type\":\"")@ + p.type_ + ("\"")@ + prop_desc_part(p) + prop_enum_part(p) + ("}")@
}

/// The rendered `"name":{property}` members of the `properties` object.
pub open spec fn property_items(ps: Seq<(Seq<char>, PropertyView)>) -> Seq<Seq<char>> {
    ps.map_values(|kv: (Seq<char>, PropertyView)| ("\"")@ + kv.0 + ("\":")@ + property_wire(kv.1))
}

/// The `properties` segment of a parameters object, omitted when empty.
pub open spec fn params_props_part(p: ParametersView) -> Seq<char> {
    if p.properties.len() == 0 {
        Seq::empty()
    } else {
        (",\"properties\":{")@ + comma_join(property_items(p.properties)) + ("}")@
    }
}

/// The `required` segment of a parameters object, omitted when empty.
pub open spec fn params_req_part(p: ParametersView) -> Seq<char> {
    if p.required.len() == 0 {
        Seq::empty()
    } else {
        (",\"required\":[")@ + comma_join(quoted_items(p.required)) + ("]")@
    }
}

/// The wire form of a parameters object.
pub open spec fn parameters_wire(p: ParametersView) -> Seq<char> {
    ("{\"type\":\"")@ + p.type_ + ("\"")@ + params_props_part(p) + params_req_part(p) + ("}")@
}

/// The `description` segment of a declaration's wire form, empty when
/// absent.
pub open spec fn fs_desc_part(f: FunctionSpecificationView) -> Seq<char> {
    match f.description {
        Some(d) => (",\"description\":\"")@ + d + ("\"")@,
        None => Seq::empty(),
    }
}

/// The `parameters` segment of a declaration's wire form: the parameters
/// when present, the mandatory minimal placeholder when absent.
pub open spec fn fs_params_part(f: FunctionSpecificationView) -> Seq<char> {
    match f.parameters {
        Some(p) => (",\"parameters\":")@ + parameters_wire(p),
        None => (",\"parameters\":{\"type\":\"object\",\"properties\":{}}")@,
    }
}

/// The wire form of a whole function declaration.
pub open spec fn function_specification_wire(f: FunctionSpecificationView) -> Seq<char> {
    ("{\"name\":\"")@ + f.name + ("\"")@ + fs_desc_part(f) + fs_params_part(f) + ("}")@
}

/// A declaration without parameters is encoded with the minimal valid
/// placeholder object: the `parameters` key is never absent from the wire
/// form.
pub proof fn lemma_encode_no_parameters(f: FunctionSpecificationView)
    requires
        f.parameters is None,
    ensures
        function_specification_wire(f) == ("{\"name\":\"")@ + f.name + ("\"")@ + fs_desc_part(
            f,
        ) + (",\"parameters\":{\"type\":\"object\",\"properties\":{}}")@ + ("}")@,
{
}

impl Property {
    /// Emit the wire form: `type` always, then `description` and `enum`
    /// only when set, the enumeration keeping its order.
    pub fn encode_for_wire(&self) -> (r: String)
        ensures
            r@ == property_wire(self@),
    {
        let mut out = String::from_str("{\"type\":\"");
        out.append(self.type_.as_str());
        out.append("\"");
        match &self.description {
            Some(d) => {
                out.append(",\"description\":\"");
                out.append(d.as_str());
                out.append("\"");
            },
            None => {},
        }
        match &self.enum_ {
            Some(es) => {
                out.append(",\"enum\":[");
                append_quoted_list(&mut out, es);
                out.append("]");
            },
            None => {},
        }
        out.append("}");
        proof {
            assert(out@ =~= property_wire(self@));
        }
        out
    }
}

impl Parameters {
    /// Emit the wire form: `type` always; `properties` and `required` only
    /// when non-empty, each keeping its order.
    pub fn encode_for_wire(&self) -> (r: String)
        ensures
            r@ == parameters_wire(self@),
    {
        let mut out = String::from_str("{\"type\":\"");
        out.append(self.type_.as_str());
        out.append("\"");
        if self.properties.len() > 0 {
            out.append(",\"properties\":{");
            let ghost pre = out@;
            let ghost items = property_items(self@.properties);
            let mut i: usize = 0;
            proof {
                assert(items.take(0int) =~= Seq::<Seq<char>>::empty());
                assert(out@ =~= pre + comma_join(items.take(0int)));
            }
            while i < self.properties.len()
                invariant
                    i <= self.properties.len(),
                    items == property_items(self@.properties),
                    items.len() == self.properties@.len(),
                    forall|j: int|
                        0 <= j < self.properties@.len() ==> items[j] == ("\"")@
                            + self.properties@[j].0@ + ("\":")@ + property_wire(
                            self.properties@[j].1@,
                        ),
                    out@ == pre + comma_join(items.take(i as int)),
                decreases self.properties.len() - i,
            {
                if i > 0 {
                    out.append(",");
                }
                out.append("\"");
                out.append(self.properties[i].0.as_str());
                out.append("\":");
                let e = self.properties[i].1.encode_for_wire();
                out.append(e.as_str());
                proof {
                    reveal_strlit(",");
                    assert(items.take(i + 1) =~= items.take(i as int).push(items[i as int]));
                    lemma_comma_join_push(items.take(i as int), items[i as int]);
                    assert(out@ =~= pre + comma_join(items.take(i + 1)));
                }
                i = i + 1;
            }
            proof {
                assert(items.take(self.properties@.len() as int) =~= items);
            }
            out.append("}");
        }
        if self.required.len() > 0 {
            out.append(",\"required\":[");
            append_quoted_list(&mut out, &self.required);
            out.append("]");
        }
        out.append("}");
        proof {
            assert(out@ =~= parameters_wire(self@));
        }
        out
    }
}

impl FunctionSpecification {
    /// Construct a declaration from its name and optional description and
    /// parameters.
    pub fn new(name: String, description: Option<String>, parameters: Option<Parameters>) -> (r:
        FunctionSpecification)
        ensures
            r.name == name,
            r.description == description,
            r.parameters == parameters,
    {
        FunctionSpecification { name, description, parameters }
    }

    /// Emit the wire form: `name` always; `description` only when set;
    /// `parameters` always, the minimal placeholder standing in when absent.
    pub fn encode_for_wire(&self) -> (r: String)
        ensures
            r@ == function_specification_wire(self@),
    {
        let mut out = String::from_str("{\"name\":\"");
        out.append(self.name.as_str());
        out.append("\"");
        match &self.description {
            Some(d) => {
                out.append(",\"description\":\"");
                out.append(d.as_str());
                out.append("\"");
            },
            None => {},
        }
        match &self.parameters {
            Some(p) => {
                out.append(",\"parameters\":");
                let e = p.encode_for_wire();
                out.append(e.as_str());
            },
            None => {
                out.append(",\"parameters\":{\"type\":\"object\",\"properties\":{}}");
            },
        }
        out.append("}");
        proof {
            assert(out@ =~= function_specification_wire(self@));
        }
        out
    }
}

} // verus!
