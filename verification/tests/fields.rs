use evergreen_rs::output::{output_type_from_str, OutputType};
use evergreen_rs::paths::{make_name, EvgFields};
use evergreen_rs::records::{config_file_path, get_hosts_url, url_line, Distro, EvergreenConfig, Host, Tag};

fn sample_distro() -> Distro {
    Distro {
        distro_id: "ubuntu2204".to_owned(),
        provider: "ec2".to_owned(),
        image_id: "ami-1".to_owned(),
    }
}

fn sample_host() -> Host {
    Host {
        host_id: "h1".to_owned(),
        host_url: "ec2.example.com".to_owned(),
        distro: sample_distro(),
        provisioned: true,
        started_by: "mark".to_owned(),
        host_type: "ec2".to_owned(),
        user: "mark".to_owned(),
        status: "running".to_owned(),
        user_host: true,
        no_expiration: false,
        instance_tags: vec![Tag {
            key: "expire".to_owned(),
            value: "never".to_owned(),
            can_be_modified: true,
        }],
        instance_type: "m5.xlarge".to_owned(),
        zone: "us-east-1a".to_owned(),
        display_name: String::new(),
        home_volume_id: String::new(),
    }
}

#[test]
fn test_make_name_empty_prefix() {
    assert_eq!(make_name("", "host_id"), "host_id");
}

#[test]
fn test_make_name_nonempty_prefix() {
    assert_eq!(make_name("distro", "distro_id"), "distro.distro_id");
    assert_eq!(make_name("a.b", "c"), "a.b.c");
}

#[test]
fn test_distro_fields_no_prefix() {
    let fields = sample_distro().evg_fields();
    assert_eq!(fields, vec!["distro_id", "provider", "image_id"]);
}

#[test]
fn test_tag_fields_with_prefix() {
    let tag = Tag {
        key: "expire".to_owned(),
        value: "never".to_owned(),
        can_be_modified: false,
    };
    let mut out: Vec<String> = Vec::new();
    tag.evg_fields_nested("instance_tags.0", &mut out);
    assert_eq!(
        out,
        vec![
            "instance_tags.0.key",
            "instance_tags.0.value",
            "instance_tags.0.can_be_modified"
        ]
    );
}

#[test]
fn test_host_fields_in_declaration_order() {
    let fields = sample_host().evg_fields();
    assert_eq!(
        fields,
        vec![
            "host_id",
            "host_url",
            "distro",
            "provisioned",
            "started_by",
            "host_type",
            "user",
            "status",
            "user_host",
            "no_expiration",
            "instance_type",
            "zone",
            "display_name",
            "home_volume_id"
        ]
    );
}

#[test]
fn test_nested_fields_by_explicit_composition() {
    let host = sample_host();
    let mut out: Vec<String> = Vec::new();
    host.distro.evg_fields_nested("distro", &mut out);
    assert_eq!(
        out,
        vec!["distro.distro_id", "distro.provider", "distro.image_id"]
    );
}

#[test]
fn test_get_hosts_url() {
    let config = EvergreenConfig {
        api_server_host: "http://evergreen-api.mongodb.com:8080/api".to_owned(),
        ui_server_host: "https://evergreen.mongodb.com".to_owned(),
        api_key: "SECRET-REDACTED".to_owned(),
        user: "mark".to_owned(),
    };
    assert_eq!(
        get_hosts_url(&config, "mark"),
        "http://evergreen-api.mongodb.com:8080/api/rest/v2/users/mark/hosts"
    );
}

#[test]
fn test_config_file_path() {
    assert_eq!(config_file_path("/home/mark"), "/home/mark/.evergreen.yml");
}

#[test]
fn test_url_line() {
    assert_eq!(url_line("mark", "ec2.example.com"), "mark@ec2.example.com");
}

#[test]
fn test_output_type_from_str() {
    assert_eq!(output_type_from_str("flat"), Some(OutputType::Flat));
    assert_eq!(output_type_from_str("json"), Some(OutputType::Json));
    assert_eq!(output_type_from_str("yaml"), None);
    assert_eq!(output_type_from_str(""), None);
}
