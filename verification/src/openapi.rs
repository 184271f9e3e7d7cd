//! The description of the service: what the document at the root of the
//! service says, as plain text and numbers. Writing it out as JSON is left
//! to the caller.

use vstd::prelude::*;
use vstd::string::*;
use crate::encode::{MAX_SCALE, MIN_SCALE};
use crate::request::DEFAULT_SCALE;

verus! {

/// Who to write to about the service.
#[derive(Clone, Debug)]
pub struct Contact {
    pub name: String,
    pub email: String,
    pub url: String,
}

/// What the service is called and which version it is.
#[derive(Clone, Debug)]
pub struct Info {
    pub title: String,
    pub description: String,
    pub version: String,
    pub contact: Contact,
}

/// One address under which the service answers.
#[derive(Clone, Debug)]
pub struct Server {
    pub url: String,
    pub description: String,
}

/// The shape of a value: a reference to a named shape, a list, or a plain
/// value with its bounds.
#[derive(Debug)]
pub enum Schema {
    Reference { reference: String },
    ArraySchema { schema_type: String, items: Box<Schema> },
    ObjectSchema {
        schema_type: String,
        format: Option<String>,
        default: Option<i64>,
        minimum: Option<i32>,
        maximum: Option<i32>,
        min_length: Option<i32>,
        max_length: Option<i32>,
        read_only: Option<bool>,
        description: Option<String>,
        properties: Option<Vec<(String, Box<Schema>)>>,
        required: Vec<String>,
    },
}

/// One parameter of a route.
#[derive(Debug)]
pub struct Parameter {
    pub name: String,
    pub location: String,
    pub description: String,
    pub required: bool,
    pub schema: Schema,
}

/// What a route does for one method.
#[derive(Debug)]
pub struct Operation {
    pub summary: String,
    pub description: String,
    pub operation_id: String,
    pub parameters: Vec<Parameter>,
}

/// What a route does.
#[derive(Debug)]
pub struct PathItem {
    pub get: Option<Operation>,
}

/// The whole description: the service, its addresses, and its routes, each
/// under its path.
#[derive(Debug)]
pub struct OpenApiDocument {
    pub openapi: String,
    pub info: Info,
    pub servers: Vec<Server>,
    pub paths: Vec<(String, PathItem)>,
}

/// Number of parameters of the icon route.
pub const PARAMETER_COUNT: usize = 7;

/// True for the shape of a plain value of the given type with the given
/// default and bounds, and nothing else said of it.
pub open spec fn is_plain_schema(
    schema: Schema,
    schema_type: Seq<char>,
    default: Option<i64>,
    minimum: Option<i32>,
    maximum: Option<i32>,
) -> bool {
    &&& schema matches Schema::ObjectSchema {
        schema_type: t,
        format,
        default: d,
        minimum: lo,
        maximum: hi,
        min_length,
        max_length,
        read_only,
        description,
        properties,
        required,
    }
    &&& t@ == schema_type
    &&& d == default
    &&& lo == minimum
    &&& hi == maximum
    &&& format is None
    &&& min_length is None
    &&& max_length is None
    &&& read_only is None
    &&& description is None
    &&& properties is None
    &&& required@.len() == 0
}

/// True for a parameter that takes an identifier as text and has neither a
/// default nor bounds.
pub open spec fn is_text_parameter(
    p: Parameter,
    name: Seq<char>,
    location: Seq<char>,
    description: Seq<char>,
    required: bool,
) -> bool {
    &&& p.name@ == name
    &&& p.location@ == location
    &&& p.description@ == description
    &&& p.required == required
    &&& is_plain_schema(p.schema, "string"@, None, None, None)
}

/// True for the scale parameter: a whole number in the query, from the
/// smallest to the largest scale, 1 where it is left out.
pub open spec fn is_scale_parameter(p: Parameter) -> bool {
    &&& p.name@ == "scale"@
    &&& p.location@ == "query"@
    &&& p.description@ == "Optional integer value to scale the image by."@
    &&& !p.required
    &&& is_plain_schema(
        p.schema,
        "integer"@,
        Some(DEFAULT_SCALE as i64),
        Some(MIN_SCALE as i32),
        Some(MAX_SCALE as i32),
    )
}

/// True for the parameters of the icon route: the identifier of the icon in
/// the path, which is required, then the scale and the five layers in the
/// query, which are optional.
pub open spec fn are_icon_parameters(list: Seq<Parameter>) -> bool {
    &&& list.len() == PARAMETER_COUNT
    &&& is_text_parameter(
        list[0],
        "icon_id"@,
        "path"@,
        "Icon ID as decimal or hex, absolute or relative."@,
        true,
    )
    &&& is_scale_parameter(list[1])
    &&& is_text_parameter(
        list[2],
        "background"@,
        "query"@,
        "Optional background: an icon ID as decimal or hex, absolute or relative, a name, or random."@,
        false,
    )
    &&& is_text_parameter(
        list[3],
        "underlay"@,
        "query"@,
        "Optional underlay icon ID as decimal or hex, absolute or relative."@,
        false,
    )
    &&& is_text_parameter(
        list[4],
        "overlay"@,
        "query"@,
        "Optional overlay icon ID as decimal or hex, absolute or relative."@,
        false,
    )
    &&& is_text_parameter(
        list[5],
        "overlay2"@,
        "query"@,
        "Optional overlay2 icon ID as decimal or hex, absolute or relative."@,
        false,
    )
    &&& is_text_parameter(
        list[6],
        "ui_effect"@,
        "query"@,
        "Optional UIEffect: an icon ID as decimal or hex, absolute or relative, a name, or random."@,
        false,
    )
}

/// True for the title, version and contact of the service.
pub open spec fn is_service_info(info: Info) -> bool {
    &&& info.title@ == "ACDatService API"@
    &&& info.description@ == "API for the ACDatService"@
    &&& info.version@ == "0.1.0"@
    &&& info.contact.name@ == "Contact Info"@
    &&& info.contact.email@ == "petridish@gmail.com"@
    &&& info.contact.url@ == "https://github.com/amoeba/acdatservice"@
}

/// True for the addresses under which the service answers.
pub open spec fn are_service_servers(servers: Seq<Server>) -> bool {
    &&& servers.len() == 1
    &&& servers[0].url@ == "https://dats.treestats.net/"@
    &&& servers[0].description@ == "Main ACDatService Server"@
}

/// True for the description of the icon route.
pub open spec fn is_icon_operation(operation: Operation) -> bool {
    &&& operation.summary@ == "Get an icon"@
    &&& operation.description@
        == "Returns a PNG icon with optional scaling applied. Example https://dats.treestats.net/icons/26967?scale=2."@
    &&& operation.operation_id@ == "icons_get"@
    &&& are_icon_parameters(operation.parameters@)
}

/// True for the description of the service: one route, the icon route.
pub open spec fn is_service_document(document: OpenApiDocument) -> bool {
    &&& document.openapi@ == "3.1.1"@
    &&& is_service_info(document.info)
    &&& are_service_servers(document.servers@)
    &&& document.paths@.len() == 1
    &&& document.paths@[0].0@ == "/icons/:icon_id"@
    &&& document.paths@[0].1.get matches Some(operation)
    &&& is_icon_operation(operation)
}

/// The title, version and contact of the service.
pub fn service_info() -> (info: Info)
    ensures
        is_service_info(info),
{
    Info {
        title: String::from_str("ACDatService API"),
        description: String::from_str("API for the ACDatService"),
        version: String::from_str("0.1.0"),
        contact: Contact {
            name: String::from_str("Contact Info"),
            email: String::from_str("petridish@gmail.com"),
            url: String::from_str("https://github.com/amoeba/acdatservice"),
        },
    }
}

/// The addresses under which the service answers.
pub fn service_servers() -> (servers: Vec<Server>)
    ensures
        are_service_servers(servers@),
{
    let mut servers: Vec<Server> = Vec::new();
    servers.push(
        Server {
            url: String::from_str("https://dats.treestats.net/"),
            description: String::from_str("Main ACDatService Server"),
        },
    );
    servers
}

/// The shape of a plain value.
fn plain_schema(
    schema_type: &str,
    default: Option<i64>,
    minimum: Option<i32>,
    maximum: Option<i32>,
) -> (schema: Schema)
    ensures
        is_plain_schema(schema, schema_type@, default, minimum, maximum),
{
    Schema::ObjectSchema {
        schema_type: String::from_str(schema_type),
        format: None,
        default,
        minimum,
        maximum,
        min_length: None,
        max_length: None,
        read_only: None,
        description: None,
        properties: None,
        required: Vec::new(),
    }
}

/// A parameter that takes an identifier as text.
fn text_parameter(name: &str, location: &str, description: &str, required: bool) -> (p: Parameter)
    ensures
        is_text_parameter(p, name@, location@, description@, required),
{
    Parameter {
        name: String::from_str(name),
        location: String::from_str(location),
        description: String::from_str(description),
        required,
        schema: plain_schema("string", None, None, None),
    }
}

/// The parameters of the icon route: the identifier of the icon in the
/// path, then the scale and the five optional layers in the query.
pub fn icon_parameters() -> (list: Vec<Parameter>)
    ensures
        are_icon_parameters(list@),
{
    let mut list: Vec<Parameter> = Vec::with_capacity(PARAMETER_COUNT);
    list.push(
        text_parameter("icon_id", "path", "Icon ID as decimal or hex, absolute or relative.", true),
    );
    list.push(
        Parameter {
            name: String::from_str("scale"),
            location: String::from_str("query"),
            description: String::from_str("Optional integer value to scale the image by."),
            required: false,
            schema: plain_schema(
                "integer",
                Some(DEFAULT_SCALE as i64),
                Some(MIN_SCALE as i32),
                Some(MAX_SCALE as i32),
            ),
        },
    );
    list.push(
        text_parameter(
            "background",
            "query",
            "Optional background: an icon ID as decimal or hex, absolute or relative, a name, or random.",
            false,
        ),
    );
    list.push(
        text_parameter(
            "underlay",
            "query",
            "Optional underlay icon ID as decimal or hex, absolute or relative.",
            false,
        ),
    );
    list.push(
        text_parameter(
            "overlay",
            "query",
            "Optional overlay icon ID as decimal or hex, absolute or relative.",
            false,
        ),
    );
    list.push(
        text_parameter(
            "overlay2",
            "query",
            "Optional overlay2 icon ID as decimal or hex, absolute or relative.",
            false,
        ),
    );
    list.push(
        text_parameter(
            "ui_effect",
            "query",
            "Optional UIEffect: an icon ID as decimal or hex, absolute or relative, a name, or random.",
            false,
        ),
    );
    list
}

/// The description of the service, as the route at its root hands it out.
pub fn service_document() -> (document: OpenApiDocument)
    ensures
        is_service_document(document),
{
    let operation = Operation {
        summary: String::from_str("Get an icon"),
        description: String::from_str(
            "Returns a PNG icon with optional scaling applied. Example https://dats.treestats.net/icons/26967?scale=2.",
        ),
        operation_id: String::from_str("icons_get"),
        parameters: icon_parameters(),
    };
    let mut paths: Vec<(String, PathItem)> = Vec::new();
    paths.push((String::from_str("/icons/:icon_id"), PathItem { get: Some(operation) }));
    OpenApiDocument {
        openapi: String::from_str("3.1.1"),
        info: service_info(),
        servers: service_servers(),
        paths,
    }
}

} // verus!
