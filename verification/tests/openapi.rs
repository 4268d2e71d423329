use gane::observability::openapi::{build_spec, ApiDocument, Operation, PathItem, Schema, SchemaRef};

fn path<'a>(spec: &'a ApiDocument, name: &str) -> Option<&'a PathItem> {
    spec.paths.iter().find(|(k, _)| k == name).map(|(_, p)| p)
}

fn schema<'a>(spec: &'a ApiDocument, name: &str) -> Option<&'a Schema> {
    spec.components.as_ref()?.schemas.iter().find(|(k, _)| k == name).map(|(_, s)| s)
}

fn has_response(op: &Operation, code: &str) -> bool {
    op.responses.iter().any(|(k, _)| k == code)
}

#[test]
fn build_spec_has_all_endpoints() {
    let spec = build_spec();
    assert_eq!(spec.openapi, "3.0.3");
    assert!(path(&spec, "/health").is_some());
    assert!(path(&spec, "/position").is_some());
    assert!(path(&spec, "/integrity").is_some());
    assert!(path(&spec, "/status").is_some());
    assert!(path(&spec, "/telemetry").is_some());
    assert!(path(&spec, "/constellation").is_some());
    assert!(path(&spec, "/metrics").is_some());
    assert!(path(&spec, "/readiness").is_some());
    assert!(path(&spec, "/liveness").is_some());
    assert_eq!(spec.paths.len(), 9);
}

#[test]
fn spec_has_all_schemas() {
    let spec = build_spec();
    let schemas = &spec.components.as_ref().unwrap().schemas;
    for name in [
        "HealthResponse",
        "PositionResponse",
        "IntegrityResponse",
        "SystemStatusResponse",
        "TelemetryResponse",
        "ConstellationResponse",
        "ProbeResponse",
    ] {
        assert!(schema(&spec, name).is_some(), "{name}");
    }
    assert_eq!(schemas.len(), 7);
}

#[test]
fn position_has_error_response() {
    let spec = build_spec();
    let get = path(&spec, "/position").unwrap().get.as_ref().unwrap();
    assert!(has_response(get, "200"));
    assert!(has_response(get, "503"));
}

#[test]
fn health_endpoint_tags() {
    let spec = build_spec();
    let get = path(&spec, "/health").unwrap().get.as_ref().unwrap();
    assert_eq!(get.tags, vec!["System"]);
    assert_eq!(get.operation_id, "getHealth");
}

#[test]
fn schema_properties_types() {
    let spec = build_spec();
    let pos = schema(&spec, "PositionResponse").unwrap();
    let props = pos.properties.as_ref().unwrap();
    let prop = |n: &str| &props.iter().find(|(k, _)| k == n).unwrap().1;
    assert_eq!(prop("latitude").prop_type, "number");
    assert_eq!(prop("latitude").format.as_ref().unwrap(), "double");
    assert_eq!(prop("timestamp").prop_type, "string");
}

#[test]
fn metrics_endpoint_returns_text() {
    let spec = build_spec();
    let get = path(&spec, "/metrics").unwrap().get.as_ref().unwrap();
    let response = &get.responses.iter().find(|(k, _)| k == "200").unwrap().1;
    let content = response.content.as_ref().unwrap();
    assert!(content.iter().any(|(k, _)| k == "text/plain"));
}

#[test]
fn references_name_component_schemas_and_paths_are_sorted() {
    let spec = build_spec();
    let names: Vec<&str> = spec.paths.iter().map(|(k, _)| k.as_str()).collect();
    let mut sorted = names.clone();
    sorted.sort();
    assert_eq!(names, sorted);
    for (_, item) in &spec.paths {
        let get = item.get.as_ref().unwrap();
        assert!(item.post.is_none() && item.put.is_none() && item.delete.is_none());
        for (_, r) in &get.responses {
            for (_, m) in r.content.iter().flatten() {
                if let SchemaRef::Ref { reference } = &m.schema {
                    let name = reference.strip_prefix("#/components/schemas/").unwrap();
                    assert!(schema(&spec, name).is_some());
                }
            }
        }
    }
    let health = schema(&spec, "HealthResponse").unwrap();
    assert_eq!(health.required.as_ref().unwrap(), &vec!["status".to_string(), "version".to_string()]);
    let uptime = &health.properties.as_ref().unwrap().iter().find(|(k, _)| k == "uptime_seconds").unwrap().1;
    assert_eq!(uptime.format.as_deref(), Some("int64"));
}
