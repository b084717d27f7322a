use vstd::prelude::*;

use crate::paths::{join_path, joined_paths, lemma_joined_paths, make_name, EvgFields};

verus! {

/// The settings read from the configuration file: the two server URLs and
/// the credentials sent with each request.
pub struct EvergreenConfig {
    pub api_server_host: String,
    pub ui_server_host: String,
    pub api_key: String,
    pub user: String,
}

/// The distro record nested in a host record.
pub struct Distro {
    pub distro_id: String,
    pub provider: String,
    pub image_id: String,
}

/// One user-set tag on a host.
pub struct Tag {
    pub key: String,
    pub value: String,
    pub can_be_modified: bool,
}

/// One spawn-host record as decoded from the hosts response.
pub struct Host {
    pub host_id: String,
    pub host_url: String,
    pub distro: Distro,
    pub provisioned: bool,
    pub started_by: String,
    pub host_type: String,
    pub user: String,
    pub status: String,
    pub user_host: bool,
    pub no_expiration: bool,
    pub instance_tags: Vec<Tag>,
    pub instance_type: String,
    pub zone: String,
    pub display_name: String,
    pub home_volume_id: String,
}

impl EvgFields for Distro {
    open spec fn field_names(&self) -> Seq<Seq<char>> {
        seq!["distro_id"@, "provider"@, "image_id"@]
    }

    fn evg_fields_nested(&self, prefix: &str, out: &mut Vec<String>) {
        out.push(make_name(prefix, "distro_id"));
        out.push(make_name(prefix, "provider"));
        out.push(make_name(prefix, "image_id"));
        proof {
            lemma_joined_paths(self.field_names(), prefix@);
            assert(out.deep_view() =~~= old(out).deep_view() + joined_paths(
                self.field_names(),
                prefix@,
            ));
        }
    }
}

impl EvgFields for Tag {
    open spec fn field_names(&self) -> Seq<Seq<char>> {
        seq!["key"@, "value"@, "can_be_modified"@]
    }

    fn evg_fields_nested(&self, prefix: &str, out: &mut Vec<String>) {
        out.push(make_name(prefix, "key"));
        out.push(make_name(prefix, "value"));
        out.push(make_name(prefix, "can_be_modified"));
        proof {
            lemma_joined_paths(self.field_names(), prefix@);
            assert(out.deep_view() =~~= old(out).deep_view() + joined_paths(
                self.field_names(),
                prefix@,
            ));
        }
    }
}

impl EvgFields for Host {
    // `instance_tags` is a sequence-typed field, so it contributes no path.
    open spec fn field_names(&self) -> Seq<Seq<char>> {
        seq![
            "host_id"@,
            "host_url"@,
            "distro"@,
            "provisioned"@,
            "started_by"@,
            "host_type"@,
            "user"@,
            "status"@,
            "user_host"@,
            "no_expiration"@,
            "instance_type"@,
            "zone"@,
            "display_name"@,
            "home_volume_id"@,
        ]
    }

    fn evg_fields_nested(&self, prefix: &str, out: &mut Vec<String>) {
        out.push(make_name(prefix, "host_id"));
        out.push(make_name(prefix, "host_url"));
        out.push(make_name(prefix, "distro"));
        out.push(make_name(prefix, "provisioned"));
        out.push(make_name(prefix, "started_by"));
        out.push(make_name(prefix, "host_type"));
        out.push(make_name(prefix, "user"));
        out.push(make_name(prefix, "status"));
        out.push(make_name(prefix, "user_host"));
        out.push(make_name(prefix, "no_expiration"));
        out.push(make_name(prefix, "instance_type"));
        out.push(make_name(prefix, "zone"));
        out.push(make_name(prefix, "display_name"));
        out.push(make_name(prefix, "home_volume_id"));
        proof {
            lemma_joined_paths(self.field_names(), prefix@);
            assert(out.deep_view() =~~= old(out).deep_view() + joined_paths(
                self.field_names(),
                prefix@,
            ));
        }
    }
}

/// The hosts endpoint for a user under the configured API server.
pub fn get_hosts_url(config: &EvergreenConfig, user: &str) -> (r: String)
    ensures
        r@ == config.api_server_host@ + "/rest/v2/users/"@ + user@ + "/hosts"@,
{
    let mut r = config.api_server_host.clone();
    r.append("/rest/v2/users/");
    r.append(user);
    r.append("/hosts");
    proof {
        assert(r@ =~= config.api_server_host@ + "/rest/v2/users/"@ + user@ + "/hosts"@);
    }
    r
}

/// The well-known configuration file under the user's home directory.
pub fn config_file_path(home: &str) -> (r: String)
    ensures
        r@ == home@ + "/.evergreen.yml"@,
{
    let mut r = home.to_owned();
    r.append("/.evergreen.yml");
    r
}

/// The `user@url` line printed for a host in URL-only output mode.
pub fn url_line(user: &str, host_url: &str) -> (r: String)
    ensures
        r@ == user@ + seq!['@'] + host_url@,
{
    let mut r = user.to_owned();
    r.append("@");
    r.append(host_url);
    proof {
        reveal_strlit("@");
        assert(r@ =~= user@ + seq!['@'] + host_url@);
    }
    r
}

} // verus!
