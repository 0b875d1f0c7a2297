use scamper::servers::{
    fixup_server_versions, FlatServer, FlatServers, NewServerDetails, Server, ServerInfo, Servers,
};
use scamper::tokens::Tokens;
use scamper::versions::{VersionEntry, Versions};

fn simple_details(ip: &str, version: &str) -> NewServerDetails {
    NewServerDetails {
        description: "a server".to_string(),
        ip: Some(ip.to_string()),
        version: Some(version.to_string()),
        endpoint: None,
    }
}

#[test]
fn added_servers_are_found_and_removed_by_id() {
    let mut servers = Servers::new();
    let id = servers.add_entry(simple_details("1.2.3.4:23000", "v1"));
    let entry = servers.get_entry(id).unwrap();
    assert_eq!(entry.description.as_deref(), Some("a server"));
    match &entry.info {
        ServerInfo::Simple { ip, version } => {
            assert_eq!(ip, "1.2.3.4:23000");
            assert_eq!(version, "v1");
        }
        other => panic!("unexpected info: {:?}", other),
    }
    servers.remove_entry(id);
    assert!(servers.get_entry(id).is_none());
}

#[test]
fn endpoint_servers_start_without_preferred_version() {
    let mut servers = Servers::new();
    let id = servers.add_entry(NewServerDetails {
        description: "api server".to_string(),
        ip: None,
        version: None,
        endpoint: Some("api.example.net".to_string()),
    });
    match &servers.get_entry(id).unwrap().info {
        ServerInfo::Endpoint { endpoint, preferred_version } => {
            assert_eq!(endpoint, "api.example.net");
            assert!(preferred_version.is_none());
        }
        other => panic!("unexpected info: {:?}", other),
    }
}

#[test]
fn update_replaces_matching_entry_or_fails() {
    let mut servers = Servers::new();
    let id = servers.add_entry(simple_details("1.1.1.1", "v1"));
    let updated = Server {
        uuid: id,
        description: Some("renamed".to_string()),
        info: ServerInfo::Simple { ip: "2.2.2.2".to_string(), version: "v2".to_string() },
    };
    assert!(servers.update_entry(updated).is_ok());
    assert_eq!(
        servers.get_entry(id).unwrap().description.as_deref(),
        Some("renamed")
    );
    let unknown = Server {
        uuid: id.wrapping_add(1),
        description: None,
        info: ServerInfo::Simple { ip: "3.3.3.3".to_string(), version: "v3".to_string() },
    };
    assert!(servers.update_entry(unknown).is_err());
}

#[test]
fn merge_adds_only_unknown_ids() {
    let mut ours = Servers::new();
    let kept = ours.add_entry(simple_details("1.1.1.1", "v1"));
    let mut theirs = Servers::new();
    let incoming = theirs.add_entry(simple_details("2.2.2.2", "v2"));
    // make one of theirs collide with ours
    let colliding = Server {
        uuid: kept,
        description: Some("duplicate".to_string()),
        info: ServerInfo::Simple { ip: "9.9.9.9".to_string(), version: "v9".to_string() },
    };
    theirs.add_entry(simple_details("3.3.3.3", "v3"));
    let _ = theirs.update_entry(colliding);
    let added = ours.merge(&theirs);
    assert_eq!(added, 2);
    assert!(ours.get_entry(incoming).is_some());
    // the colliding entry did not overwrite ours
    assert_eq!(
        ours.get_entry(kept).unwrap().description.as_deref(),
        Some("a server")
    );
}

#[test]
fn use_count_counts_plain_and_preferred_versions() {
    let uuid: u128 = 0x2a;
    let canonical = "00000000-0000-0000-0000-00000000002a";
    let mut servers = Servers::new();
    servers.add_entry(simple_details("1.1.1.1", canonical));
    servers.add_entry(simple_details("2.2.2.2", "some-other-version"));
    let e = servers.add_entry(NewServerDetails {
        description: "api".to_string(),
        ip: None,
        version: None,
        endpoint: Some("api.example.net".to_string()),
    });
    assert_eq!(servers.get_version_use_count(uuid), 1);
    // an endpoint server's preferred version counts too
    let preferring = Server {
        uuid: e,
        description: Some("api".to_string()),
        info: ServerInfo::Endpoint {
            endpoint: "api.example.net".to_string(),
            preferred_version: Some(canonical.to_string()),
        },
    };
    servers.update_entry(preferring).unwrap();
    assert_eq!(servers.get_version_use_count(uuid), 2);
    assert_eq!(servers.get_version_use_count(1), 0);
}

#[test]
fn fixup_rewrites_version_names_to_ids() {
    let mut catalog = Versions::new();
    catalog.add_entry(VersionEntry {
        uuid: 0x2a,
        name: Some("beta".to_string()),
        parent_uuid: None,
        asset_url: "http://a".to_string(),
        main_file_url: None,
    });
    let mut servers = Servers::new();
    let by_name = servers.add_entry(simple_details("1.1.1.1", "beta"));
    let untouched = servers.add_entry(simple_details("2.2.2.2", "unrelated"));
    fixup_server_versions(&mut servers, &catalog);
    match &servers.get_entry(by_name).unwrap().info {
        ServerInfo::Simple { version, .. } => {
            assert_eq!(version, "00000000-0000-0000-0000-00000000002a");
        }
        other => panic!("unexpected info: {:?}", other),
    }
    match &servers.get_entry(untouched).unwrap().info {
        ServerInfo::Simple { version, .. } => assert_eq!(version, "unrelated"),
        other => panic!("unexpected info: {:?}", other),
    }
}

#[test]
fn flat_round_trip_preserves_servers() {
    let mut servers = Servers::new();
    servers.add_entry(simple_details("1.1.1.1", "v1"));
    servers.add_entry(NewServerDetails {
        description: "api".to_string(),
        ip: None,
        version: None,
        endpoint: Some("api.example.net".to_string()),
    });
    let flat = servers.flatten();
    assert_eq!(flat.servers.len(), 2);
    assert_eq!(flat.servers[0].ip.as_deref(), Some("1.1.1.1"));
    assert_eq!(flat.servers[1].endpoint.as_deref(), Some("api.example.net"));
    let plain_id = flat.servers[0].uuid;
    let back = Servers::from_flat(flat).unwrap();
    match &back.get_entry(plain_id).unwrap().info {
        ServerInfo::Simple { ip, version } => {
            assert_eq!(ip, "1.1.1.1");
            assert_eq!(version, "v1");
        }
        other => panic!("unexpected info: {:?}", other),
    }
}

#[test]
fn malformed_flat_entries_are_rejected() {
    let broken = FlatServer {
        uuid: 1,
        description: None,
        ip: None,
        version: None,
        endpoint: None,
    };
    assert!(broken.clone().to_server().is_none());
    let flat = FlatServers { servers: vec![broken], favorites: Vec::new() };
    assert!(Servers::from_flat(flat).is_none());
}

#[test]
fn tokens_remember_overwrite_and_forget() {
    let mut tokens = Tokens::new();
    assert!(tokens.get_token(1).is_none());
    tokens.save_token(1, "SECRET-REDACTED");
    tokens.save_token(2, "other");
    assert_eq!(tokens.get_token(1).as_deref(), Some("SECRET-REDACTED"));
    // saving again overwrites
    tokens.save_token(1, "replacement");
    assert_eq!(tokens.get_token(1).as_deref(), Some("replacement"));
    tokens.remove_token(1);
    assert!(tokens.get_token(1).is_none());
    assert_eq!(tokens.get_token(2).as_deref(), Some("other"));
    tokens.clear();
    assert!(tokens.get_token(2).is_none());
}
