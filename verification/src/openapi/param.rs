//! A request parameter of an endpoint, and how it is written for HTTPie.

use vstd::prelude::*;
use vstd::string::*;
use crate::openapi::document::{
    clone_opt_text, opt_text, Parameter, ParameterKind, Property, PropertySchema, Schema,
    SchemaKind,
};
use crate::text::{among, contains_text, same_text, texts};

verus! {

/// Where a parameter travels in a request.
#[derive(Debug, Clone, Copy, PartialEq, Eq, Structural)]
pub enum ParamSource {
    Query,
    Body,
    Path,
    Header,
    Form,
}

/// What `str::to_lowercase` makes of a string.
pub uninterp spec fn lowercase(s: Seq<char>) -> Seq<char>;

/// `str::to_lowercase` returns the lowercase equivalent of the string as a
/// new `String`; it depends on the string alone. Its result is named
/// `lowercase`.
pub assume_specification[ str::to_lowercase ](s: &str) -> (r: String)
    ensures
        r@ == lowercase(s@),
;

impl ParamSource {
    /// The operator that HTTPie puts between a parameter's name and value.
    pub open spec fn operator(self) -> Seq<char> {
        match self {
            ParamSource::Body | ParamSource::Form | ParamSource::Path => "="@,
            ParamSource::Query => "=="@,
            ParamSource::Header => ":"@,
        }
    }

    /// What is written before a parameter's name.
    pub open spec fn prefix(self) -> Seq<char> {
        match self {
            ParamSource::Path => ":"@,
            _ => ""@,
        }
    }

    /// The source with the given lower-case name.
    pub open spec fn with_name(name: Seq<char>) -> Option<ParamSource> {
        if name == "query"@ {
            Some(ParamSource::Query)
        } else if name == "body"@ {
            Some(ParamSource::Body)
        } else if name == "path"@ {
            Some(ParamSource::Path)
        } else if name == "header"@ {
            Some(ParamSource::Header)
        } else if name == "form"@ {
            Some(ParamSource::Form)
        } else {
            None
        }
    }

    /// The operator that HTTPie puts between a parameter's name and value:
    /// `==` for a query parameter, `:` for a header, `=` for the others.
    pub fn httpie_operator(&self) -> (r: &'static str)
        ensures
            r@ == self.operator(),
    {
        match self {
            ParamSource::Body | ParamSource::Form | ParamSource::Path => "=",
            ParamSource::Query => "==",
            ParamSource::Header => ":",
        }
    }

    /// What is written before a parameter's name: `:` for a path parameter,
    /// nothing for the others.
    pub fn httpie_param_prefix(&self) -> (r: &'static str)
        ensures
            r@ == self.prefix(),
    {
        match self {
            ParamSource::Path => ":",
            _ => "",
        }
    }

    /// The source whose name is exactly `name`, which is already in lower
    /// case.
    pub fn from_lower_name(name: &str) -> (r: Option<ParamSource>)
        ensures
            r == ParamSource::with_name(name@),
    {
        if same_text(name, "query") {
            Some(ParamSource::Query)
        } else if same_text(name, "body") {
            Some(ParamSource::Body)
        } else if same_text(name, "path") {
            Some(ParamSource::Path)
        } else if same_text(name, "header") {
            Some(ParamSource::Header)
        } else if same_text(name, "form") {
            Some(ParamSource::Form)
        } else {
            None
        }
    }

    /// The source named by `name`, whatever its letter case; `None` for a
    /// name that is no supported source.
    pub fn from_name(name: &str) -> (r: Option<ParamSource>)
        ensures
            r == ParamSource::with_name(lowercase(name@)),
    {
        let lower = name.to_lowercase();
        ParamSource::from_lower_name(lower.as_str())
    }
}

/// A request parameter of an endpoint.
#[derive(Debug)]
pub struct Param {
    pub name: String,
    pub required: bool,
    pub source: ParamSource,
    pub description: Option<String>,
}

/// The mathematical value of a [`Param`].
pub struct ParamView {
    pub name: Seq<char>,
    pub required: bool,
    pub source: ParamSource,
    pub description: Option<Seq<char>>,
}

impl View for Param {
    type V = ParamView;

    open spec fn view(&self) -> ParamView {
        ParamView {
            name: self.name@,
            required: self.required,
            source: self.source,
            description: opt_text(self.description),
        }
    }
}

impl Clone for Param {
    fn clone(&self) -> (r: Param)
        ensures
            r@ == self@,
    {
        Param {
            name: self.name.clone(),
            required: self.required,
            source: self.source,
            description: clone_opt_text(&self.description),
        }
    }
}

/// Why no parameter could be made of a document element.
#[derive(Debug, Clone, Copy, PartialEq, Eq, Structural)]
pub enum ParamError {
    /// A cookie parameter: HTTPie has no syntax for it.
    UnsupportedCookie,
    /// A schema that is no object type has no properties to offer.
    NotAnObject,
}

impl ParamError {
    /// The error in words.
    pub open spec fn text(self) -> Seq<char> {
        match self {
            ParamError::UnsupportedCookie => "unsupported Cookie param"@,
            ParamError::NotAnObject => "Schema must be an object type"@,
        }
    }

    /// The error in words.
    pub fn message(&self) -> (r: String)
        ensures
            r@ == self.text(),
    {
        match self {
            ParamError::UnsupportedCookie => String::from_str("unsupported Cookie param"),
            ParamError::NotAnObject => String::from_str("Schema must be an object type"),
        }
    }
}

impl ParamView {
    /// The parameter as HTTPie takes it: prefix, name, operator.
    pub open spec fn httpie_form(self) -> Seq<char> {
        self.source.prefix() + self.name + self.source.operator()
    }

    /// What is shown beside the parameter: its description, or its name
    /// where it has none; in square brackets where the parameter is optional.
    pub open spec fn shown_description(self) -> Seq<char> {
        let text = match self.description {
            Some(d) => d,
            None => self.name,
        };
        if self.required {
            text
        } else {
            "["@ + text + "]"@
        }
    }

    /// The completion candidate of the parameter: its HTTPie form, a tab,
    /// and what is shown beside it.
    pub open spec fn completion_line(self) -> Seq<char> {
        self.httpie_form() + "\t"@ + self.shown_description()
    }
}

/// The parameter that a declared parameter gives: a cookie parameter gives
/// none.
pub open spec fn param_of_parameter(parameter: Parameter) -> Result<ParamView, ParamError> {
    match parameter.kind {
        ParameterKind::Cookie => Err(ParamError::UnsupportedCookie),
        kind => Ok(
            ParamView {
                name: parameter.name@,
                required: parameter.required,
                source: match kind {
                    ParameterKind::Query => ParamSource::Query,
                    ParameterKind::Header => ParamSource::Header,
                    _ => ParamSource::Path,
                },
                description: opt_text(parameter.description),
            },
        ),
    }
}

/// The body parameter that one property of an object schema gives: required
/// where its name is among `required`, described where its schema is given
/// in place with a description.
pub open spec fn param_of_property(property: Property, required: Seq<String>) -> ParamView {
    ParamView {
        name: property.name@,
        required: among(texts(required), property.name@),
        source: ParamSource::Body,
        description: match property.schema {
            PropertySchema::Item { description } => opt_text(description),
            PropertySchema::Reference { .. } => None,
        },
    }
}

/// The body parameters that a schema gives: one for each direct property of
/// an object type, in order; none can be made of any other schema.
pub open spec fn params_of_schema(schema: Schema) -> Result<Seq<ParamView>, ParamError> {
    match schema.kind {
        SchemaKind::Object { properties, required } => Ok(
            Seq::new(properties@.len(), |i: int| param_of_property(properties@[i], required@)),
        ),
        SchemaKind::Other => Err(ParamError::NotAnObject),
    }
}

/// The values of a list of parameters.
pub open spec fn param_views(params: Seq<Param>) -> Seq<ParamView> {
    params.map_values(|p: Param| p@)
}

impl Param {
    /// The completion candidate of the parameter.
    pub fn fish_complete_format(&self) -> (r: String)
        ensures
            r@ == self@.completion_line(),
    {
        let mut line = self.httpie_param_format();
        line.append("\t");
        let text: &str = match &self.description {
            Some(d) => d.as_str(),
            None => self.name.as_str(),
        };
        if self.required {
            line.append(text);
        } else {
            line.append("[");
            line.append(text);
            line.append("]");
        }
        assert(line@ =~= self@.completion_line());
        line
    }

    /// The parameter as HTTPie takes it: prefix, name, operator.
    pub fn httpie_param_format(&self) -> (r: String)
        ensures
            r@ == self@.httpie_form(),
    {
        let mut form = String::from_str(self.source.httpie_param_prefix());
        form.append(self.name.as_str());
        form.append(self.source.httpie_operator());
        form
    }

    /// The completion candidate of the parameter.
    pub fn to_string(&self) -> (r: String)
        ensures
            r@ == self@.completion_line(),
    {
        self.fish_complete_format()
    }

    /// The parameter that a declared parameter gives: its name, whether it
    /// is required and its description are kept. A cookie parameter gives
    /// none.
    pub fn try_from(parameter: &Parameter) -> (r: Result<Param, ParamError>)
        ensures
            match r {
                Ok(param) => param_of_parameter(*parameter) == Ok::<ParamView, ParamError>(param@),
                Err(e) => param_of_parameter(*parameter) == Err::<ParamView, ParamError>(e),
            },
    {
        let source = match parameter.kind {
            ParameterKind::Query => ParamSource::Query,
            ParameterKind::Header => ParamSource::Header,
            ParameterKind::Path => ParamSource::Path,
            ParameterKind::Cookie => {
                return Err(ParamError::UnsupportedCookie);
            },
        };
        Ok(
            Param {
                name: parameter.name.clone(),
                required: parameter.required,
                source,
                description: clone_opt_text(&parameter.description),
            },
        )
    }

    /// The body parameters that a schema gives: one for each direct property
    /// of an object type, in order. Any other schema gives an error.
    pub fn try_from_schema(schema: &Schema) -> (r: Result<Vec<Param>, ParamError>)
        ensures
            match r {
                Ok(params) => params_of_schema(*schema) == Ok::<Seq<ParamView>, ParamError>(
                    param_views(params@),
                ),
                Err(e) => params_of_schema(*schema) == Err::<Seq<ParamView>, ParamError>(e),
            },
    {
        match &schema.kind {
            SchemaKind::Object { properties, required } => {
                let mut params: Vec<Param> = Vec::new();
                let mut i: usize = 0;
                while i < properties.len()
                    invariant
                        i <= properties.len(),
                        params@.len() == i,
                        forall|j: int|
                            0 <= j < i ==> (#[trigger] params@[j])@ == param_of_property(
                                properties@[j],
                                required@,
                            ),
                    decreases properties.len() - i,
                {
                    let property = &properties[i];
                    let is_required = contains_text(required, property.name.as_str());
                    let description = match &property.schema {
                        PropertySchema::Item { description } => clone_opt_text(description),
                        PropertySchema::Reference { .. } => None,
                    };
                    params.push(
                        Param {
                            name: property.name.clone(),
                            required: is_required,
                            source: ParamSource::Body,
                            description,
                        },
                    );
                    i = i + 1;
                }
                assert(param_views(params@) =~= Seq::new(
                    properties@.len(),
                    |i: int| param_of_property(properties@[i], required@),
                ));
                Ok(params)
            },
            SchemaKind::Other => Err(ParamError::NotAnObject),
        }
    }
}

} // verus!
