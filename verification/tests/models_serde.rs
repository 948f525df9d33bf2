use juno::models::FolderInfo;
use serde_json::Value;

fn folder_info_to_value(f: &FolderInfo) -> Value {
    let mut m = serde_json::Map::new();
    m.insert("path".to_string(), Value::String(f.path.clone()));
    m.insert("name".to_string(), Value::String(f.name.clone()));
    m.insert("file_count".to_string(), Value::from(f.file_count));
    m.insert("included".to_string(), Value::Bool(f.included));
    Value::Object(m)
}

fn folder_info_from_value(v: &Value) -> FolderInfo {
    FolderInfo {
        path: v["path"].as_str().unwrap().to_string(),
        name: v["name"].as_str().unwrap().to_string(),
        file_count: v["file_count"].as_u64().unwrap() as u32,
        included: v["included"].as_bool().unwrap(),
    }
}

#[test]
fn folder_info_serde() {
    let f = FolderInfo {
        path: "/tmp/test".into(),
        name: "test".into(),
        file_count: 42,
        included: true,
    };
    let json = serde_json::to_string(&folder_info_to_value(&f)).unwrap();
    let parsed: Value = serde_json::from_str(&json).unwrap();
    let back = folder_info_from_value(&parsed);
    assert_eq!(back.name, "test");
    assert_eq!(back.file_count, 42);
}
