use cryocat::client::config::{ice_servers, IceServer};

#[test]
fn stun_comes_first_without_credentials_and_turn_second_with_them() {
    let servers = ice_servers("stun.example.org:3478", "turn.example.org:3478", "user", "SECRET-REDACTED");
    assert_eq!(
        servers,
        vec![
            IceServer {
                urls: vec!["stun:stun.example.org:3478".to_string()],
                username: String::new(),
                credential: String::new(),
            },
            IceServer {
                urls: vec!["turn:turn.example.org:3478".to_string()],
                username: "user".to_string(),
                credential: "SECRET-REDACTED".to_string(),
            },
        ]
    );
}

#[test]
fn empty_addresses_leave_the_bare_schemes() {
    let servers = ice_servers("", "", "", "");
    assert_eq!(servers.len(), 2);
    assert_eq!(servers[0].urls, vec!["stun:".to_string()]);
    assert_eq!(servers[1].urls, vec!["turn:".to_string()]);
}
