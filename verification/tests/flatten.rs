use evergreen_rs::flatten::digit_runs_short;
use evergreen_rs::flatten::to_flat_json;
use evergreen_rs::flatten::to_flat_json_int;
use evergreen_rs::tree::TreeValue;

#[test]
fn test_flat_json_array() {
    assert_eq! { to_flat_json(r#"["a","b"]"#).unwrap(),
r#"0:a
1:b
"#};
}

#[test]
fn test_flat_json_obj() {
    assert_eq! { to_flat_json(r#"{"a":"b", "n":42}"#).unwrap(),
r#"a:b
n:42
"#};
}

#[test]
fn test_flat_json_obj_nested() {
    assert_eq! { to_flat_json(r#"{"a": { "n":42 } }"#).unwrap(),
r#"a.n:42
"#};
}

#[test]
fn test_flat_json_array_obj_nested() {
    assert_eq! { to_flat_json(r#"[{"a": { "n":42 } }]"#).unwrap(),
r#"0.a.n:42
"#};
}

#[test]
fn test_flat_json_null_and_bool() {
    assert_eq!(
        to_flat_json(r#"{"x":null,"y":true,"z":false}"#).unwrap(),
        "x:null\ny:true\nz:false\n"
    );
}

#[test]
fn test_flat_json_empty_string_value() {
    assert_eq!(to_flat_json(r#"{"name":""}"#).unwrap(), "name:\n");
}

#[test]
fn test_flat_json_two_digit_indices() {
    let flat = to_flat_json(r#"[0,1,2,3,4,5,6,7,8,9,10,11]"#).unwrap();
    let lines: Vec<&str> = flat.lines().collect();
    assert_eq!(lines.len(), 12);
    assert_eq!(lines[9], "9:9");
    assert_eq!(lines[10], "10:10");
    assert_eq!(lines[11], "11:11");
}

#[test]
fn test_flat_json_empty_containers() {
    assert_eq!(to_flat_json("{}").unwrap(), "");
    assert_eq!(to_flat_json("[]").unwrap(), "");
    assert_eq!(to_flat_json(r#"{"a":{},"b":[]}"#).unwrap(), "");
}

#[test]
fn test_flat_json_scalar_document() {
    assert_eq!(to_flat_json("42").unwrap(), ":42\n");
}

#[test]
fn test_flat_json_invalid_document() {
    assert!(to_flat_json("{not json").is_none());
    assert!(to_flat_json("").is_none());
}

#[test]
fn test_flat_json_long_digit_run_rejected() {
    // A fraction with more digits than the decoder's 16-bit exponent can
    // count is refused up front rather than handed to the decoder.
    let mut doc = String::from("0.");
    for _ in 0..32769 {
        doc.push('0');
    }
    assert!(to_flat_json(&doc).is_none());
}

#[test]
fn test_flat_json_digit_run_at_limit_accepted() {
    let mut doc = String::from("0.");
    for _ in 0..32768 {
        doc.push('0');
    }
    assert!(to_flat_json(&doc).is_some());
}

#[test]
fn test_digit_runs_short() {
    assert!(digit_runs_short(""));
    assert!(digit_runs_short("abc123def456"));
    let long_run = "9".repeat(32769);
    assert!(!digit_runs_short(&long_run));
    let broken_up = "9".repeat(32768) + "x" + &"9".repeat(32768);
    assert!(digit_runs_short(&broken_up));
}

#[test]
fn test_flat_tree_with_prefix() {
    let tree = TreeValue::Object(vec![
        ("a".to_owned(), TreeValue::Text("b".to_owned())),
        ("n".to_owned(), TreeValue::Number("42".to_owned())),
    ]);
    let mut out = String::new();
    to_flat_json_int(&tree, "p", &mut out);
    assert_eq!(out, "p.a:b\np.n:42\n");
}

#[test]
fn test_flat_tree_scalar_at_root() {
    let mut out = String::new();
    to_flat_json_int(&TreeValue::Null, "root", &mut out);
    assert_eq!(out, "root:null\n");
}

#[test]
fn test_flat_json_host_record() {
    let doc = r#"{"host_id":"h1","host_url":"ec2.example.com","distro":{"distro_id":"ubuntu2204","provider":"ec2","image_id":"ami-1"},"provisioned":true,"started_by":"mark","host_type":"ec2","user":"mark","status":"running","user_host":true,"no_expiration":false,"instance_tags":[{"key":"expire","value":"never","can_be_modified":true}],"instance_type":"m5.xlarge","zone":"us-east-1a","display_name":"","home_volume_id":""}"#;
    let flat = to_flat_json(doc).unwrap();
    let expected = "host_id:h1\nhost_url:ec2.example.com\ndistro.distro_id:ubuntu2204\n\
                    distro.provider:ec2\ndistro.image_id:ami-1\nprovisioned:true\n\
                    started_by:mark\nhost_type:ec2\nuser:mark\nstatus:running\n\
                    user_host:true\nno_expiration:false\ninstance_tags.0.key:expire\n\
                    instance_tags.0.value:never\ninstance_tags.0.can_be_modified:true\n\
                    instance_type:m5.xlarge\nzone:us-east-1a\ndisplay_name:\nhome_volume_id:\n";
    assert_eq!(flat, expected);
    assert!(flat.lines().any(|line| line.contains("status")));
}
