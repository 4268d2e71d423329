//! The OpenAPI 3.0 document of the G.A.N.E NAV HTTP API, and the Swagger UI page.
use vstd::prelude::*;
use vstd::string::StrSliceExecFns;
use crate::text::str_eq;

verus! {

/// Contact information of the API owner.
#[derive(Debug, Clone)]
pub struct Contact {
    pub name: Option<String>,
    pub url: Option<String>,
    pub email: Option<String>,
}

/// General information about the API.
#[derive(Debug, Clone)]
pub struct Info {
    pub title: String,
    pub description: String,
    pub version: String,
    pub contact: Option<Contact>,
    pub license: Option<License>,
}

/// License of the API.
#[derive(Debug, Clone)]
pub struct License {
    pub name: String,
    pub url: Option<String>,
}

/// A server that hosts the API.
#[derive(Debug, Clone)]
pub struct Server {
    pub url: String,
    pub description: Option<String>,
}

#[verifier::external_type_specification]
#[verifier::external_body]
pub struct ExJsonValue(serde_json::Value);

/// The OpenAPI document: paths and schemas are kept in ascending order of their names.
#[derive(Debug, Clone)]
pub struct ApiDocument {
    pub openapi: String,
    pub info: Info,
    pub servers: Vec<Server>,
    pub paths: Vec<(String, PathItem)>,
    pub components: Option<Components>,
}

/// The operations on one path.
#[derive(Debug, Clone)]
pub struct PathItem {
    pub get: Option<Operation>,
    pub post: Option<Operation>,
    pub put: Option<Operation>,
    pub delete: Option<Operation>,
}

/// One operation: its description, identifier, tags and responses by status code.
#[derive(Debug, Clone)]
pub struct Operation {
    pub summary: String,
    pub description: Option<String>,
    pub operation_id: String,
    pub tags: Vec<String>,
    pub responses: Vec<(String, Response)>,
}

/// A response: its description and its content by media type.
#[derive(Debug, Clone)]
pub struct Response {
    pub description: String,
    pub content: Option<Vec<(String, MediaType)>>,
}

/// The schema of a media type's content.
#[derive(Debug, Clone)]
pub struct MediaType {
    pub schema: SchemaRef,
}

/// A schema given by reference to the components, or inline.
#[derive(Debug, Clone)]
pub enum SchemaRef {
    Ref { reference: String },
    Inline(Schema),
}

/// A schema: its type, properties by name, required properties and description.
#[derive(Debug, Clone)]
pub struct Schema {
    pub schema_type: String,
    pub properties: Option<Vec<(String, SchemaProperty)>>,
    pub required: Option<Vec<String>>,
    pub description: Option<String>,
}

/// One property of a schema.
#[derive(Debug, Clone)]
pub struct SchemaProperty {
    pub prop_type: String,
    pub description: Option<String>,
    pub format: Option<String>,
    pub example: Option<serde_json::Value>,
}

/// The reusable schemas, by name.
#[derive(Debug, Clone)]
pub struct Components {
    pub schemas: Vec<(String, Schema)>,
}

/// The characters of some strings.
pub open spec fn strs(s: Seq<String>) -> Seq<Seq<char>> {
    s.map_values(|t: String| t@)
}

/// An optional string, as characters.
pub open spec fn opt_str(o: Option<String>) -> Option<Seq<char>> {
    match o {
        Some(t) => Some(t@),
        None => None,
    }
}

/// The reference to the component schema `name`.
pub open spec fn schema_ref(name: Seq<char>) -> Seq<char> {
    "#/components/schemas/"@ + name
}

/// The format that goes with a property type: `int64` for integers, `double` for
/// numbers, none otherwise.
pub open spec fn format_for(t: Seq<char>) -> Option<Seq<char>> {
    if t == "integer"@ {
        Some("int64"@)
    } else if t == "number"@ {
        Some("double"@)
    } else {
        None
    }
}

/// The names of a document's paths, in order.
pub open spec fn path_names(d: ApiDocument) -> Seq<Seq<char>> {
    d.paths@.map_values(|e: (String, PathItem)| e.0@)
}

/// The document's component schemas (none without components).
pub open spec fn doc_schemas(d: ApiDocument) -> Seq<(String, Schema)> {
    match d.components {
        Some(c) => c.schemas@,
        None => Seq::empty(),
    }
}

/// The names of the document's component schemas, in order.
pub open spec fn schema_names(d: ApiDocument) -> Seq<Seq<char>> {
    doc_schemas(d).map_values(|e: (String, Schema)| e.0@)
}

/// A path item has a `get` operation and no other.
pub open spec fn get_only(p: PathItem) -> bool {
    &&& p.get is Some
    &&& p.post is None
    &&& p.put is None
    &&& p.delete is None
}

/// The operation identifiers of the paths' `get` operations, in path order.
pub open spec fn operation_ids(d: ApiDocument) -> Seq<Seq<char>> {
    d.paths@.map_values(|e: (String, PathItem)| e.1.get->0.operation_id@)
}

/// The tags of the paths' `get` operations, in path order.
pub open spec fn operation_tags(d: ApiDocument) -> Seq<Seq<Seq<char>>> {
    d.paths@.map_values(|e: (String, PathItem)| strs(e.1.get->0.tags@))
}

/// The response status codes of the paths' `get` operations, in path order.
pub open spec fn response_codes(d: ApiDocument) -> Seq<Seq<Seq<char>>> {
    d.paths@.map_values(
        |e: (String, PathItem)| e.1.get->0.responses@.map_values(|r: (String, Response)| r.0@),
    )
}

/// The properties of a schema (none when it has no properties).
pub open spec fn schema_props(s: Schema) -> Seq<(String, SchemaProperty)> {
    match s.properties {
        Some(p) => p@,
        None => Seq::empty(),
    }
}

/// The names and types of a schema's properties, in order.
pub open spec fn schema_fields(s: Schema) -> Seq<(Seq<char>, Seq<char>)> {
    schema_props(s).map_values(|p: (String, SchemaProperty)| (p.0@, p.1.prop_type@))
}

/// The names of a schema's required properties (none when it lists none).
pub open spec fn schema_required(s: Schema) -> Seq<Seq<char>> {
    match s.required {
        Some(r) => strs(r@),
        None => Seq::empty(),
    }
}

/// Some field has this name.
pub open spec fn has_field(fields: Seq<(Seq<char>, Seq<char>)>, name: Seq<char>) -> bool {
    exists|i: int| 0 <= i < fields.len() && (#[trigger] fields[i]).0 == name
}

/// Every required property of the schema is among its properties.
pub open spec fn required_among_properties(s: Schema) -> bool {
    forall|r: int|
        0 <= r < schema_required(s).len() ==> has_field(schema_fields(s), #[trigger] schema_required(s)[r])
}

/// Every property of the schema has the format that goes with its type, and no example.
pub open spec fn formats_follow_types(s: Schema) -> bool {
    forall|i: int|
        0 <= i < schema_props(s).len() ==> opt_str((#[trigger] schema_props(s)[i]).1.format)
            == format_for(schema_props(s)[i].1.prop_type@) && schema_props(s)[i].1.example is None
}

/// A schema reference names one of `names` (inline schemas need no name).
pub open spec fn ref_resolves(names: Seq<Seq<char>>, r: SchemaRef) -> bool {
    match r {
        SchemaRef::Ref { reference } => exists|k: int|
            0 <= k < names.len() && reference@ == schema_ref(#[trigger] names[k]),
        SchemaRef::Inline(_) => true,
    }
}

/// Every schema reference of a response's content names one of `names`.
pub open spec fn response_resolves(names: Seq<Seq<char>>, r: Response) -> bool {
    match r.content {
        Some(c) => forall|m: int| 0 <= m < c@.len() ==> ref_resolves(names, (#[trigger] c@[m]).1.schema),
        None => true,
    }
}

/// Every schema reference of an operation's responses names one of `names`.
pub open spec fn operation_resolves(names: Seq<Seq<char>>, o: Option<Operation>) -> bool {
    match o {
        Some(op) => forall|j: int|
            0 <= j < op.responses@.len() ==> response_resolves(names, (#[trigger] op.responses@[j]).1),
        None => true,
    }
}

/// Every schema reference of a path item names one of `names`.
pub open spec fn path_resolves(names: Seq<Seq<char>>, p: PathItem) -> bool {
    &&& operation_resolves(names, p.get)
    &&& operation_resolves(names, p.post)
    &&& operation_resolves(names, p.put)
    &&& operation_resolves(names, p.delete)
}

/// The paths of the API, in ascending order.
pub open spec fn api_paths() -> Seq<Seq<char>> {
    seq![
        "/constellation"@,
        "/health"@,
        "/integrity"@,
        "/liveness"@,
        "/metrics"@,
        "/position"@,
        "/readiness"@,
        "/status"@,
        "/telemetry"@,
    ]
}

/// The component schemas of the API, in ascending order.
pub open spec fn api_schemas() -> Seq<Seq<char>> {
    seq![
        "ConstellationResponse"@,
        "HealthResponse"@,
        "IntegrityResponse"@,
        "PositionResponse"@,
        "ProbeResponse"@,
        "SystemStatusResponse"@,
        "TelemetryResponse"@,
    ]
}

/// The response's only content is JSON that refers to component schema `schema`.
pub open spec fn json_content_of(r: Response, schema: Seq<char>) -> bool {
    match r.content {
        Some(c) => c@.len() == 1 && c@[0].0@ == "application/json"@ && match c@[0].1.schema {
            SchemaRef::Ref { reference } => reference@ == schema_ref(schema),
            SchemaRef::Inline(_) => false,
        },
        None => false,
    }
}

/// A single response under `status` whose JSON content refers to component schema `schema`.
fn json_response(status: &str, desc: &str, schema: &str) -> (r: Vec<(String, Response)>)
    ensures
        r@.len() == 1,
        r@[0].0@ == status@,
        r@[0].1.description@ == desc@,
        json_content_of(r@[0].1, schema@),
{
    let mut reference = "#/components/schemas/".to_owned();
    reference.append(schema);
    let mut content: Vec<(String, MediaType)> = Vec::new();
    content.push(("application/json".to_owned(), MediaType { schema: SchemaRef::Ref { reference } }));
    let mut r: Vec<(String, Response)> = Vec::new();
    r.push((status.to_owned(), Response { description: desc.to_owned(), content: Some(content) }));
    r
}

/// A JSON response under `ok_status`, then an error response without content under
/// `err_status`.
fn json_response_with_error(
    ok_status: &str,
    ok_desc: &str,
    schema: &str,
    err_status: &str,
    err_desc: &str,
) -> (r: Vec<(String, Response)>)
    ensures
        r@.len() == 2,
        r@[0].0@ == ok_status@,
        r@[0].1.description@ == ok_desc@,
        json_content_of(r@[0].1, schema@),
        r@[1].0@ == err_status@,
        r@[1].1.description@ == err_desc@,
        r@[1].1.content is None,
{
    let mut r = json_response(ok_status, ok_desc, schema);
    r.push((err_status.to_owned(), Response { description: err_desc.to_owned(), content: None }));
    r
}

/// The properties given as (name, type, description), each with the format of its type.
fn build_properties(fields: &Vec<(&str, &str, &str)>) -> (r: Vec<(String, SchemaProperty)>)
    ensures
        r@.len() == fields@.len(),
        forall|i: int|
            0 <= i < fields@.len() ==> {
                let p = #[trigger] r@[i];
                &&& p.0@ == fields@[i].0@
                &&& p.1.prop_type@ == fields@[i].1@
                &&& opt_str(p.1.description) == Some(fields@[i].2@)
                &&& opt_str(p.1.format) == format_for(fields@[i].1@)
                &&& p.1.example is None
            },
{
    let mut r: Vec<(String, SchemaProperty)> = Vec::new();
    let mut i: usize = 0;
    while i < fields.len()
        invariant
            i <= fields@.len(),
            r@.len() == i,
            forall|j: int|
                0 <= j < i ==> {
                    let p = #[trigger] r@[j];
                    &&& p.0@ == fields@[j].0@
                    &&& p.1.prop_type@ == fields@[j].1@
                    &&& opt_str(p.1.description) == Some(fields@[j].2@)
                    &&& opt_str(p.1.format) == format_for(fields@[j].1@)
                    &&& p.1.example is None
                },
        decreases fields@.len() - i,
    {
        let (name, typ, desc) = fields[i];
        let format = if str_eq(typ, "integer") {
            Some("int64".to_owned())
        } else if str_eq(typ, "number") {
            Some("double".to_owned())
        } else {
            None
        };
        r.push(
            (
                name.to_owned(),
                SchemaProperty {
                    prop_type: typ.to_owned(),
                    description: Some(desc.to_owned()),
                    format,
                    example: None,
                },
            ),
        );
        i = i + 1;
    }
    r
}

/// The (name, type) pairs of property descriptions given as (name, type, description).
pub open spec fn field_pairs(fields: Seq<(&str, &str, &str)>) -> Seq<(Seq<char>, Seq<char>)> {
    fields.map_values(|f: (&str, &str, &str)| (f.0@, f.1@))
}

/// An object schema with the given properties and required properties.
fn object_schema(description: &str, fields: &Vec<(&str, &str, &str)>, required: &Vec<&str>) -> (s: Schema)
    requires
        forall|r: int| 0 <= r < required@.len() ==> has_field(field_pairs(fields@), (#[trigger] required@[r])@),
    ensures
        s.schema_type@ == "object"@,
        opt_str(s.description) == Some(description@),
        schema_fields(s) == field_pairs(fields@),
        schema_required(s) == required@.map_values(|q: &str| q@),
        prop_descriptions(s) == fields@.map_values(|f: (&str, &str, &str)| Some(f.2@)),
        required_among_properties(s),
        formats_follow_types(s),
{
    let props = build_properties(fields);
    let mut req: Vec<String> = Vec::new();
    let mut k: usize = 0;
    while k < required.len()
        invariant
            k <= required@.len(),
            req@.len() == k,
            forall|j: int| 0 <= j < k ==> (#[trigger] req@[j])@ == required@[j]@,
        decreases required@.len() - k,
    {
        req.push(required[k].to_owned());
        k = k + 1;
    }
    let s = Schema {
        schema_type: "object".to_owned(),
        properties: Some(props),
        required: Some(req),
        description: Some(description.to_owned()),
    };
    proof {
        assert(schema_fields(s) =~= field_pairs(fields@));
        assert(schema_required(s) =~= required@.map_values(|q: &str| q@));
        assert(prop_descriptions(s) =~= fields@.map_values(|f: (&str, &str, &str)| Some(f.2@)));
        assert forall|r: int| 0 <= r < schema_required(s).len() implies has_field(
            schema_fields(s),
            #[trigger] schema_required(s)[r],
        ) by {
            assert(schema_required(s)[r] == required@[r]@);
        }
    }
    s
}

/// A path item with only a `get` operation.
fn get_item(
    summary: &str,
    description: &str,
    operation_id: &str,
    tag: &str,
    responses: Vec<(String, Response)>,
) -> (p: PathItem)
    ensures
        get_only(p),
        p.get->0.summary@ == summary@,
        opt_str(p.get->0.description) == Some(description@),
        p.get->0.operation_id@ == operation_id@,
        strs(p.get->0.tags@) == seq![tag@],
        p.get->0.responses@ == responses@,
{
    let mut tags: Vec<String> = Vec::new();
    tags.push(tag.to_owned());
    assert(strs(tags@) =~= seq![tag@]);
    PathItem {
        get: Some(
            Operation {
                summary: summary.to_owned(),
                description: Some(description.to_owned()),
                operation_id: operation_id.to_owned(),
                tags,
                responses,
            },
        ),
        post: None,
        put: None,
        delete: None,
    }
}

/// The (name, type) pairs of the properties of each component schema, in schema order.
pub open spec fn api_schema_fields() -> Seq<Seq<(Seq<char>, Seq<char>)>> {
    seq![
        seq![("total_tracked"@, "integer"@), ("gps"@, "integer"@), ("galileo"@, "integer"@), ("glonass"@, "integer"@), ("beidou"@, "integer"@)],
        seq![("status"@, "string"@), ("version"@, "string"@), ("uptime_seconds"@, "integer"@), ("subsystems"@, "object"@)],
        seq![("level"@, "string"@), ("horizontal_protection_m"@, "number"@), ("vertical_protection_m"@, "number"@), ("alert_limit_m"@, "number"@), ("time_to_alert_s"@, "number"@)],
        seq![("latitude"@, "number"@), ("longitude"@, "number"@), ("altitude"@, "number"@), ("horizontal_uncertainty_m"@, "number"@), ("vertical_uncertainty_m"@, "number"@), ("timestamp"@, "string"@), ("source"@, "string"@)],
        seq![("status"@, "string"@), ("timestamp"@, "string"@)],
        seq![("status"@, "string"@), ("satellites_tracked"@, "integer"@), ("integrity_level"@, "string"@), ("continuity_mode"@, "string"@), ("event_count"@, "integer"@), ("telemetry_buffer_size"@, "integer"@)],
        seq![("buffer_size"@, "integer"@), ("total_recorded"@, "integer"@), ("sample_rate_hz"@, "number"@)],
    ]
}

/// The required properties of each component schema, in schema order.
pub open spec fn api_schema_required() -> Seq<Seq<Seq<char>>> {
    seq![
        seq!["total_tracked"@],
        seq!["status"@, "version"@],
        seq!["level"@],
        seq!["latitude"@, "longitude"@, "altitude"@, "timestamp"@],
        seq!["status"@],
        seq!["status"@],
        seq!["buffer_size"@],
    ]
}

/// The description of each component schema, in schema order.
pub open spec fn api_schema_descriptions() -> Seq<Seq<char>> {
    seq![
        "GNSS constellation tracking status."@,
        "Health status of the navigation system."@,
        "Navigation integrity monitoring status."@,
        "Fused navigation position."@,
        "Kubernetes health probe response."@,
        "Overall system status."@,
        "Telemetry data from the ring buffer."@,
    ]
}

/// The descriptions of each component schema's properties, in schema and property order.
pub open spec fn api_prop_descriptions() -> Seq<Seq<Option<Seq<char>>>> {
    seq![
        seq![Some("Total satellites tracked across all constellations"@), Some("GPS satellites tracked"@), Some("Galileo satellites tracked"@), Some("GLONASS satellites tracked"@), Some("BeiDou satellites tracked"@)],
        seq![Some("Overall health status (operational, degraded, critical)"@), Some("Application version"@), Some("Seconds since server start"@), Some("Per-subsystem health details"@)],
        seq![Some("Current integrity level"@), Some("Horizontal protection level in metres"@), Some("Vertical protection level in metres"@), Some("Alert limit in metres"@), Some("Time to alert in seconds"@)],
        seq![Some("Latitude in degrees (WGS84)"@), Some("Longitude in degrees (WGS84)"@), Some("Altitude in metres above WGS84 ellipsoid"@), Some("Horizontal uncertainty (1-sigma) in metres"@), Some("Vertical uncertainty (1-sigma) in metres"@), Some("ISO 8601 timestamp of the fix"@), Some("Position source (gnss, fused, dead_reckoning)"@)],
        seq![Some("Probe status (ok)"@), Some("ISO 8601 timestamp"@)],
        seq![Some("Overall system status"@), Some("Number of tracked GNSS satellites"@), Some("Current integrity level"@), Some("Current continuity mode"@), Some("Total events processed"@), Some("Number of buffered telemetry samples"@)],
        seq![Some("Number of samples in buffer"@), Some("Total samples recorded since start"@), Some("Current sample rate in Hz"@)],
    ]
}

/// The descriptions of a schema's properties, in order.
pub open spec fn prop_descriptions(s: Schema) -> Seq<Option<Seq<char>>> {
    schema_props(s).map_values(|p: (String, SchemaProperty)| opt_str(p.1.description))
}

/// The `ConstellationResponse` component schema.
fn constellation_schema() -> (s: Schema)
    ensures
        s.schema_type@ == "object"@,
        schema_fields(s) == api_schema_fields()[0],
        schema_required(s) == api_schema_required()[0],
        opt_str(s.description) == Some(api_schema_descriptions()[0]),
        prop_descriptions(s) == api_prop_descriptions()[0],
        required_among_properties(s),
        formats_follow_types(s),
{
    let fields = vec![
        ("total_tracked", "integer", "Total satellites tracked across all constellations"),
        ("gps", "integer", "GPS satellites tracked"),
        ("galileo", "integer", "Galileo satellites tracked"),
        ("glonass", "integer", "GLONASS satellites tracked"),
        ("beidou", "integer", "BeiDou satellites tracked"),
    ];
    let required = vec!["total_tracked"];
    proof {
        let fp = field_pairs(fields@);
        assert(fp[0].0 == "total_tracked"@);
        assert(fp =~= api_schema_fields()[0]);
        assert(required@.map_values(|q: &str| q@) =~= api_schema_required()[0]);
        assert(fields@.map_values(|f: (&str, &str, &str)| Some(f.2@)) =~= api_prop_descriptions()[0]);
    }
    object_schema("GNSS constellation tracking status.", &fields, &required)
}

/// The `HealthResponse` component schema.
fn health_schema() -> (s: Schema)
    ensures
        s.schema_type@ == "object"@,
        schema_fields(s) == api_schema_fields()[1],
        schema_required(s) == api_schema_required()[1],
        opt_str(s.description) == Some(api_schema_descriptions()[1]),
        prop_descriptions(s) == api_prop_descriptions()[1],
        required_among_properties(s),
        formats_follow_types(s),
{
    let fields = vec![
        ("status", "string", "Overall health status (operational, degraded, critical)"),
        ("version", "string", "Application version"),
        ("uptime_seconds", "integer", "Seconds since server start"),
        ("subsystems", "object", "Per-subsystem health details"),
    ];
    let required = vec!["status", "version"];
    proof {
        let fp = field_pairs(fields@);
        assert(fp[0].0 == "status"@);
        assert(fp[1].0 == "version"@);
        assert(fp =~= api_schema_fields()[1]);
        assert(required@.map_values(|q: &str| q@) =~= api_schema_required()[1]);
        assert(fields@.map_values(|f: (&str, &str, &str)| Some(f.2@)) =~= api_prop_descriptions()[1]);
    }
    object_schema("Health status of the navigation system.", &fields, &required)
}

/// The `IntegrityResponse` component schema.
fn integrity_schema() -> (s: Schema)
    ensures
        s.schema_type@ == "object"@,
        schema_fields(s) == api_schema_fields()[2],
        schema_required(s) == api_schema_required()[2],
        opt_str(s.description) == Some(api_schema_descriptions()[2]),
        prop_descriptions(s) == api_prop_descriptions()[2],
        required_among_properties(s),
        formats_follow_types(s),
{
    let fields = vec![
        ("level", "string", "Current integrity level"),
        ("horizontal_protection_m", "number", "Horizontal protection level in metres"),
        ("vertical_protection_m", "number", "Vertical protection level in metres"),
        ("alert_limit_m", "number", "Alert limit in metres"),
        ("time_to_alert_s", "number", "Time to alert in seconds"),
    ];
    let required = vec!["level"];
    proof {
        let fp = field_pairs(fields@);
        assert(fp[0].0 == "level"@);
        assert(fp =~= api_schema_fields()[2]);
        assert(required@.map_values(|q: &str| q@) =~= api_schema_required()[2]);
        assert(fields@.map_values(|f: (&str, &str, &str)| Some(f.2@)) =~= api_prop_descriptions()[2]);
    }
    object_schema("Navigation integrity monitoring status.", &fields, &required)
}

/// The `PositionResponse` component schema.
fn position_schema() -> (s: Schema)
    ensures
        s.schema_type@ == "object"@,
        schema_fields(s) == api_schema_fields()[3],
        schema_required(s) == api_schema_required()[3],
        opt_str(s.description) == Some(api_schema_descriptions()[3]),
        prop_descriptions(s) == api_prop_descriptions()[3],
        required_among_properties(s),
        formats_follow_types(s),
{
    let fields = vec![
        ("latitude", "number", "Latitude in degrees (WGS84)"),
        ("longitude", "number", "Longitude in degrees (WGS84)"),
        ("altitude", "number", "Altitude in metres above WGS84 ellipsoid"),
        ("horizontal_uncertainty_m", "number", "Horizontal uncertainty (1-sigma) in metres"),
        ("vertical_uncertainty_m", "number", "Vertical uncertainty (1-sigma) in metres"),
        ("timestamp", "string", "ISO 8601 timestamp of the fix"),
        ("source", "string", "Position source (gnss, fused, dead_reckoning)"),
    ];
    let required = vec!["latitude", "longitude", "altitude", "timestamp"];
    proof {
        let fp = field_pairs(fields@);
        assert(fp[0].0 == "latitude"@);
        assert(fp[1].0 == "longitude"@);
        assert(fp[2].0 == "altitude"@);
        assert(fp[5].0 == "timestamp"@);
        assert(fp =~= api_schema_fields()[3]);
        assert(required@.map_values(|q: &str| q@) =~= api_schema_required()[3]);
        assert(fields@.map_values(|f: (&str, &str, &str)| Some(f.2@)) =~= api_prop_descriptions()[3]);
    }
    object_schema("Fused navigation position.", &fields, &required)
}

/// The `ProbeResponse` component schema.
fn probe_schema() -> (s: Schema)
    ensures
        s.schema_type@ == "object"@,
        schema_fields(s) == api_schema_fields()[4],
        schema_required(s) == api_schema_required()[4],
        opt_str(s.description) == Some(api_schema_descriptions()[4]),
        prop_descriptions(s) == api_prop_descriptions()[4],
        required_among_properties(s),
        formats_follow_types(s),
{
    let fields = vec![
        ("status", "string", "Probe status (ok)"),
        ("timestamp", "string", "ISO 8601 timestamp"),
    ];
    let required = vec!["status"];
    proof {
        let fp = field_pairs(fields@);
        assert(fp[0].0 == "status"@);
        assert(fp =~= api_schema_fields()[4]);
        assert(required@.map_values(|q: &str| q@) =~= api_schema_required()[4]);
        assert(fields@.map_values(|f: (&str, &str, &str)| Some(f.2@)) =~= api_prop_descriptions()[4]);
    }
    object_schema("Kubernetes health probe response.", &fields, &required)
}

/// The `SystemStatusResponse` component schema.
fn system_status_schema() -> (s: Schema)
    ensures
        s.schema_type@ == "object"@,
        schema_fields(s) == api_schema_fields()[5],
        schema_required(s) == api_schema_required()[5],
        opt_str(s.description) == Some(api_schema_descriptions()[5]),
        prop_descriptions(s) == api_prop_descriptions()[5],
        required_among_properties(s),
        formats_follow_types(s),
{
    let fields = vec![
        ("status", "string", "Overall system status"),
        ("satellites_tracked", "integer", "Number of tracked GNSS satellites"),
        ("integrity_level", "string", "Current integrity level"),
        ("continuity_mode", "string", "Current continuity mode"),
        ("event_count", "integer", "Total events processed"),
        ("telemetry_buffer_size", "integer", "Number of buffered telemetry samples"),
    ];
    let required = vec!["status"];
    proof {
        let fp = field_pairs(fields@);
        assert(fp[0].0 == "status"@);
        assert(fp =~= api_schema_fields()[5]);
        assert(required@.map_values(|q: &str| q@) =~= api_schema_required()[5]);
        assert(fields@.map_values(|f: (&str, &str, &str)| Some(f.2@)) =~= api_prop_descriptions()[5]);
    }
    object_schema("Overall system status.", &fields, &required)
}

/// The `TelemetryResponse` component schema.
fn telemetry_schema() -> (s: Schema)
    ensures
        s.schema_type@ == "object"@,
        schema_fields(s) == api_schema_fields()[6],
        schema_required(s) == api_schema_required()[6],
        opt_str(s.description) == Some(api_schema_descriptions()[6]),
        prop_descriptions(s) == api_prop_descriptions()[6],
        required_among_properties(s),
        formats_follow_types(s),
{
    let fields = vec![
        ("buffer_size", "integer", "Number of samples in buffer"),
        ("total_recorded", "integer", "Total samples recorded since start"),
        ("sample_rate_hz", "number", "Current sample rate in Hz"),
    ];
    let required = vec!["buffer_size"];
    proof {
        let fp = field_pairs(fields@);
        assert(fp[0].0 == "buffer_size"@);
        assert(fp =~= api_schema_fields()[6]);
        assert(required@.map_values(|q: &str| q@) =~= api_schema_required()[6]);
        assert(fields@.map_values(|f: (&str, &str, &str)| Some(f.2@)) =~= api_prop_descriptions()[6]);
    }
    object_schema("Telemetry data from the ring buffer.", &fields, &required)
}

/// The summaries of the paths' `get` operations, in path order.
pub open spec fn operation_summaries(d: ApiDocument) -> Seq<Seq<char>> {
    d.paths@.map_values(|e: (String, PathItem)| e.1.get->0.summary@)
}

/// The descriptions of the paths' `get` operations, in path order.
pub open spec fn operation_descriptions(d: ApiDocument) -> Seq<Option<Seq<char>>> {
    d.paths@.map_values(|e: (String, PathItem)| opt_str(e.1.get->0.description))
}

/// The descriptions of the paths' first (`200`) responses, in path order.
pub open spec fn ok_descriptions(d: ApiDocument) -> Seq<Seq<char>> {
    d.paths@.map_values(|e: (String, PathItem)| e.1.get->0.responses@[0].1.description@)
}

/// The summary of each path's `get` operation, in path order.
pub open spec fn api_summaries() -> Seq<Seq<char>> {
    seq![
        "Constellation status"@,
        "Health check"@,
        "Integrity status"@,
        "Liveness probe"@,
        "Prometheus metrics"@,
        "Current position"@,
        "Readiness probe"@,
        "System status"@,
        "Telemetry data"@,
    ]
}

/// The description of each path's `get` operation, in path order.
pub open spec fn api_descriptions() -> Seq<Option<Seq<char>>> {
    seq![
        Some("Returns tracked GNSS constellations and satellite count."@),
        Some("Returns the current health status of all subsystems."@),
        Some("Returns current integrity monitoring level and protection limits."@),
        Some("Kubernetes liveness probe — returns 200 when the process is alive."@),
        Some("Returns all metrics in Prometheus text exposition format."@),
        Some("Returns the current fused position with uncertainty estimates."@),
        Some("Kubernetes readiness probe — returns 200 when ready to serve traffic."@),
        Some("Returns overall system status including all subsystem states."@),
        Some("Returns buffered telemetry samples for analysis and replay."@),
    ]
}

/// The description of each path's `200` response, in path order.
pub open spec fn api_ok_descriptions() -> Seq<Seq<char>> {
    seq![
        "Constellation data"@,
        "Health status"@,
        "Integrity status"@,
        "Alive"@,
        "Prometheus metrics"@,
        "Current fused position"@,
        "Ready"@,
        "System status"@,
        "Telemetry samples"@,
    ]
}

/// The component schema that each path's `200` JSON response refers to, in path order
/// (none for `/metrics`, which answers plain text).
pub open spec fn api_path_schemas() -> Seq<Option<Seq<char>>> {
    seq![
        Some("ConstellationResponse"@),
        Some("HealthResponse"@),
        Some("IntegrityResponse"@),
        Some("ProbeResponse"@),
        None,
        Some("PositionResponse"@),
        Some("ProbeResponse"@),
        Some("SystemStatusResponse"@),
        Some("TelemetryResponse"@),
    ]
}

/// The metrics path's `get` operation has a single `200` response whose only content is
/// plain text, described by an inline string schema.
pub open spec fn plain_text_only(p: PathItem) -> bool {
    match p.get {
        Some(op) => {
            &&& op.responses@.len() == 1
            &&& op.responses@[0].0@ == "200"@
            &&& match op.responses@[0].1.content {
                Some(c) => c@.len() == 1 && c@[0].0@ == "text/plain"@ && match c@[0].1.schema {
                    SchemaRef::Inline(sc) => sc.schema_type@ == "string"@ && sc.properties is None
                        && sc.required is None && opt_str(sc.description) == Some(
                        "Prometheus text exposition format"@,
                    ),
                    SchemaRef::Ref { .. } => false,
                },
                None => false,
            }
        },
        None => false,
    }
}

/// The status codes of an operation's responses.
pub open spec fn codes(op: Operation) -> Seq<Seq<char>> {
    op.responses@.map_values(|r: (String, Response)| r.0@)
}

/// A path whose `get` operation answers `200` with JSON described by component schema
/// `schema`.
fn json_get(
    summary: &str,
    description: &str,
    operation_id: &str,
    tag: &str,
    ok_desc: &str,
    schema: &str,
) -> (p: PathItem)
    requires
        api_schemas().contains(schema@),
    ensures
        get_only(p),
        p.get->0.summary@ == summary@,
        opt_str(p.get->0.description) == Some(description@),
        p.get->0.operation_id@ == operation_id@,
        strs(p.get->0.tags@) == seq![tag@],
        codes(p.get->0) == seq!["200"@],
        p.get->0.responses@[0].1.description@ == ok_desc@,
        json_content_of(p.get->0.responses@[0].1, schema@),
        path_resolves(api_schemas(), p),
{
    let responses = json_response("200", ok_desc, schema);
    let p = get_item(summary, description, operation_id, tag, responses);
    proof {
        let op = p.get->0;
        assert(codes(op) =~= seq!["200"@]);
        let k = choose|k: int| 0 <= k < api_schemas().len() && api_schemas()[k] == schema@;
        assert forall|j: int| 0 <= j < op.responses@.len() implies response_resolves(
            api_schemas(),
            (#[trigger] op.responses@[j]).1,
        ) by {
            let c = op.responses@[0].1.content->0;
            assert forall|m: int| 0 <= m < c@.len() implies ref_resolves(
                api_schemas(),
                (#[trigger] c@[m]).1.schema,
            ) by {
                assert(api_schemas()[k] == schema@);
            }
        }
    }
    p
}

/// The OpenAPI document of the G.A.N.E NAV API (version 0.1.0): nine read-only paths,
/// each with a `get` operation, and the seven component schemas their JSON responses
/// refer to.
pub fn build_spec() -> (d: ApiDocument)
    ensures
        d.openapi@ == "3.0.3"@,
        d.info.title@ == "G.A.N.E NAV API"@,
        d.info.version@ == "0.1.0"@,
        d.info.description@ == "Global Autonomous Navigation Ecosystem — Navigation, positioning, routing, fleet management, and smart city integration API."@,
        d.info.contact matches Some(c) && opt_str(c.name) == Some("G.A.N.E NAV Team"@)
            && c.url is None && c.email is None,
        d.info.license matches Some(l) && l.name@ == "Proprietary"@ && l.url is None,
        d.servers@.len() == 1,
        d.servers@[0].url@ == "http://localhost:3000"@,
        opt_str(d.servers@[0].description) == Some("Local development server"@),
        operation_summaries(d) == api_summaries(),
        operation_descriptions(d) == api_descriptions(),
        ok_descriptions(d) == api_ok_descriptions(),
        forall|i: int|
            #![trigger d.paths@[i]]
            0 <= i < d.paths@.len() && api_path_schemas()[i] is Some ==> json_content_of(
                d.paths@[i].1.get->0.responses@[0].1,
                api_path_schemas()[i]->0,
            ),
        d.paths@[5].1.get->0.responses@[1].1.description@ == "No GNSS fix available"@,
        d.paths@[5].1.get->0.responses@[1].1.content is None,
        path_names(d) == api_paths(),
        forall|i: int| 0 <= i < d.paths@.len() ==> get_only(#[trigger] d.paths@[i].1),
        operation_ids(d) == seq![
            "getConstellations"@,
            "getHealth"@,
            "getIntegrity"@,
            "getLiveness"@,
            "getMetrics"@,
            "getPosition"@,
            "getReadiness"@,
            "getStatus"@,
            "getTelemetry"@,
        ],
        operation_tags(d) == seq![
            seq!["Navigation"@],
            seq!["System"@],
            seq!["Navigation"@],
            seq!["System"@],
            seq!["System"@],
            seq!["Navigation"@],
            seq!["System"@],
            seq!["System"@],
            seq!["Telemetry"@],
        ],
        response_codes(d) == seq![
            seq!["200"@],
            seq!["200"@],
            seq!["200"@],
            seq!["200"@],
            seq!["200"@],
            seq!["200"@, "503"@],
            seq!["200"@],
            seq!["200"@],
            seq!["200"@],
        ],
        plain_text_only(d.paths@[4].1),
        d.components is Some,
        schema_names(d) == api_schemas(),
        forall|i: int| 0 <= i < d.paths@.len() ==> path_resolves(schema_names(d), #[trigger] d.paths@[i].1),
        doc_schemas(d).map_values(|e: (String, Schema)| schema_fields(e.1)) == api_schema_fields(),
        doc_schemas(d).map_values(|e: (String, Schema)| schema_required(e.1)) == api_schema_required(),
        doc_schemas(d).map_values(|e: (String, Schema)| opt_str(e.1.description))
            == api_schema_descriptions().map_values(|t: Seq<char>| Some(t)),
        doc_schemas(d).map_values(|e: (String, Schema)| prop_descriptions(e.1)) == api_prop_descriptions(),
        forall|k: int|
            0 <= k < doc_schemas(d).len() ==> required_among_properties(#[trigger] doc_schemas(d)[k].1)
                && formats_follow_types(doc_schemas(d)[k].1) && doc_schemas(d)[k].1.schema_type@
                == "object"@,
{
    proof {
        assert(api_schemas()[0] == "ConstellationResponse"@);
        assert(api_schemas()[1] == "HealthResponse"@);
        assert(api_schemas()[2] == "IntegrityResponse"@);
        assert(api_schemas()[3] == "PositionResponse"@);
        assert(api_schemas()[4] == "ProbeResponse"@);
        assert(api_schemas()[5] == "SystemStatusResponse"@);
        assert(api_schemas()[6] == "TelemetryResponse"@);
    }
    let constellation = json_get(
        "Constellation status",
        "Returns tracked GNSS constellations and satellite count.",
        "getConstellations",
        "Navigation",
        "Constellation data",
        "ConstellationResponse",
    );
    let health = json_get(
        "Health check",
        "Returns the current health status of all subsystems.",
        "getHealth",
        "System",
        "Health status",
        "HealthResponse",
    );
    let integrity = json_get(
        "Integrity status",
        "Returns current integrity monitoring level and protection limits.",
        "getIntegrity",
        "Navigation",
        "Integrity status",
        "IntegrityResponse",
    );
    let liveness = json_get(
        "Liveness probe",
        "Kubernetes liveness probe — returns 200 when the process is alive.",
        "getLiveness",
        "System",
        "Alive",
        "ProbeResponse",
    );
    let mut text: Vec<(String, MediaType)> = Vec::new();
    text.push(
        (
            "text/plain".to_owned(),
            MediaType {
                schema: SchemaRef::Inline(
                    Schema {
                        schema_type: "string".to_owned(),
                        properties: None,
                        required: None,
                        description: Some("Prometheus text exposition format".to_owned()),
                    },
                ),
            },
        ),
    );
    let mut metrics_responses: Vec<(String, Response)> = Vec::new();
    metrics_responses.push(
        ("200".to_owned(), Response { description: "Prometheus metrics".to_owned(), content: Some(text) }),
    );
    let metrics = get_item(
        "Prometheus metrics",
        "Returns all metrics in Prometheus text exposition format.",
        "getMetrics",
        "System",
        metrics_responses,
    );
    let position_responses = json_response_with_error(
        "200",
        "Current fused position",
        "PositionResponse",
        "503",
        "No GNSS fix available",
    );
    let position = get_item(
        "Current position",
        "Returns the current fused position with uncertainty estimates.",
        "getPosition",
        "Navigation",
        position_responses,
    );
    let readiness = json_get(
        "Readiness probe",
        "Kubernetes readiness probe — returns 200 when ready to serve traffic.",
        "getReadiness",
        "System",
        "Ready",
        "ProbeResponse",
    );
    let status = json_get(
        "System status",
        "Returns overall system status including all subsystem states.",
        "getStatus",
        "System",
        "System status",
        "SystemStatusResponse",
    );
    let telemetry = json_get(
        "Telemetry data",
        "Returns buffered telemetry samples for analysis and replay.",
        "getTelemetry",
        "Telemetry",
        "Telemetry samples",
        "TelemetryResponse",
    );
    proof {
        let op = metrics.get->0;
        assert(codes(op) =~= seq!["200"@]);
        assert(path_resolves(api_schemas(), metrics));
        let pop = position.get->0;
        assert(codes(pop) =~= seq!["200"@, "503"@]);
        assert forall|j: int| 0 <= j < pop.responses@.len() implies response_resolves(
            api_schemas(),
            (#[trigger] pop.responses@[j]).1,
        ) by {
            if j == 0 {
                let c = pop.responses@[0].1.content->0;
                assert forall|m: int| 0 <= m < c@.len() implies ref_resolves(
                    api_schemas(),
                    (#[trigger] c@[m]).1.schema,
                ) by {
                    assert(api_schemas()[3] == "PositionResponse"@);
                }
            }
        }
        assert(path_resolves(api_schemas(), position));
    }
    let paths = vec![
        ("/constellation".to_owned(), constellation),
        ("/health".to_owned(), health),
        ("/integrity".to_owned(), integrity),
        ("/liveness".to_owned(), liveness),
        ("/metrics".to_owned(), metrics),
        ("/position".to_owned(), position),
        ("/readiness".to_owned(), readiness),
        ("/status".to_owned(), status),
        ("/telemetry".to_owned(), telemetry),
    ];
    let schemas = vec![
        ("ConstellationResponse".to_owned(), constellation_schema()),
        ("HealthResponse".to_owned(), health_schema()),
        ("IntegrityResponse".to_owned(), integrity_schema()),
        ("PositionResponse".to_owned(), position_schema()),
        ("ProbeResponse".to_owned(), probe_schema()),
        ("SystemStatusResponse".to_owned(), system_status_schema()),
        ("TelemetryResponse".to_owned(), telemetry_schema()),
    ];
    let mut servers: Vec<Server> = Vec::new();
    servers.push(
        Server {
            url: "http://localhost:3000".to_owned(),
            description: Some("Local development server".to_owned()),
        },
    );
    let d = ApiDocument {
        openapi: "3.0.3".to_owned(),
        info: Info {
            title: "G.A.N.E NAV API".to_owned(),
            description: "Global Autonomous Navigation Ecosystem — Navigation, positioning, routing, fleet management, and smart city integration API.".to_owned(),
            version: "0.1.0".to_owned(),
            contact: Some(
                Contact { name: Some("G.A.N.E NAV Team".to_owned()), url: None, email: None },
            ),
            license: Some(License { name: "Proprietary".to_owned(), url: None }),
        },
        servers,
        paths,
        components: Some(Components { schemas }),
    };
    proof {
        let ps = d.paths@;
        assert(path_names(d) =~= api_paths());
        assert(operation_ids(d) =~= seq![
            "getConstellations"@,
            "getHealth"@,
            "getIntegrity"@,
            "getLiveness"@,
            "getMetrics"@,
            "getPosition"@,
            "getReadiness"@,
            "getStatus"@,
            "getTelemetry"@,
        ]);
        assert(operation_tags(d) =~= seq![
            seq!["Navigation"@],
            seq!["System"@],
            seq!["Navigation"@],
            seq!["System"@],
            seq!["System"@],
            seq!["Navigation"@],
            seq!["System"@],
            seq!["System"@],
            seq!["Telemetry"@],
        ]);
        assert(response_codes(d) =~= seq![
            seq!["200"@],
            seq!["200"@],
            seq!["200"@],
            seq!["200"@],
            seq!["200"@],
            seq!["200"@, "503"@],
            seq!["200"@],
            seq!["200"@],
            seq!["200"@],
        ]);
        assert(schema_names(d) =~= api_schemas());
        let ss = doc_schemas(d);
        assert(ss.map_values(|e: (String, Schema)| schema_fields(e.1)) =~= api_schema_fields());
        assert(ss.map_values(|e: (String, Schema)| schema_required(e.1)) =~= api_schema_required());
        assert(ss.map_values(|e: (String, Schema)| opt_str(e.1.description)) =~= api_schema_descriptions().map_values(|t: Seq<char>| Some(t)));
        assert(ss.map_values(|e: (String, Schema)| prop_descriptions(e.1)) =~= api_prop_descriptions());
        assert(operation_summaries(d) =~= api_summaries());
        assert(operation_descriptions(d) =~= api_descriptions());
        assert(ok_descriptions(d) =~= api_ok_descriptions());
    }
    d
}

/// The HTML page that renders the API documentation with Swagger UI, reading the
/// document from `/openapi.json`.
pub fn swagger_ui_html() -> (html: String)
    ensures
        html@ == r#"<!DOCTYPE html>
<html lang="en">
<head>
    <meta charset="UTF-8">
    <title>G.A.N.E NAV — API Documentation</title>
    <link rel="stylesheet" type="text/css" href="https://unpkg.com/swagger-ui-dist@5/swagger-ui.css" >
</head>
<body>
<div id="swagger-ui"></div>
<script src="https://unpkg.com/swagger-ui-dist@5/swagger-ui-bundle.js"> </script>
<script>
SwaggerUIBundle({
    url: "/openapi.json",
    dom_id: '#swagger-ui',
    deepLinking: true,
    presets: [
        SwaggerUIBundle.presets.apis,
        SwaggerUIBundle.SwaggerUIStandalonePreset
    ],
    layout: "StandaloneLayout"
})
</script>
</body>
</html>"#@,
{
    r#"<!DOCTYPE html>
<html lang="en">
<head>
    <meta charset="UTF-8">
    <title>G.A.N.E NAV — API Documentation</title>
    <link rel="stylesheet" type="text/css" href="https://unpkg.com/swagger-ui-dist@5/swagger-ui.css" >
</head>
<body>
<div id="swagger-ui"></div>
<script src="https://unpkg.com/swagger-ui-dist@5/swagger-ui-bundle.js"> </script>
<script>
SwaggerUIBundle({
    url: "/openapi.json",
    dom_id: '#swagger-ui',
    deepLinking: true,
    presets: [
        SwaggerUIBundle.presets.apis,
        SwaggerUIBundle.SwaggerUIStandalonePreset
    ],
    layout: "StandaloneLayout"
})
</script>
</body>
</html>"#.to_owned()
}

} // verus!
