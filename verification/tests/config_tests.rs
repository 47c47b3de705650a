use remote_prover::config::{
    parse_bool, parse_network, EnvSettings, Network, ProverConfig,
};

fn no_env() -> EnvSettings {
    EnvSettings {
        listen_addr: None,
        listen_addr_valid: false,
        max_concurrent_proofs: None,
        network: None,
        enforce_program_editions: None,
        rest_endpoint_override: None,
    }
}

#[test]
fn network_base_urls() {
    assert_eq!(
        Network::Mainnet.base_url(),
        "https://api.explorer.provable.com/v2/mainnet"
    );
    assert_eq!(
        Network::Testnet.base_url(),
        "https://api.explorer.provable.com/v2/testnet"
    );
    assert_eq!(
        Network::Canary.base_url(),
        "https://api.explorer.provable.com/v2/canary"
    );
}

#[test]
fn network_names() {
    assert_eq!(Network::Mainnet.name(), "mainnet");
    assert_eq!(Network::Testnet.name(), "testnet");
    assert_eq!(Network::Canary.name(), "canary");
}

#[test]
fn endpoint_joins_with_single_slash() {
    assert_eq!(
        Network::Testnet.endpoint("transaction/broadcast"),
        "https://api.explorer.provable.com/v2/testnet/transaction/broadcast"
    );
    assert_eq!(
        Network::Testnet.endpoint("/transaction/broadcast"),
        "https://api.explorer.provable.com/v2/testnet/transaction/broadcast"
    );
    assert_eq!(
        Network::Mainnet.endpoint("///x"),
        "https://api.explorer.provable.com/v2/mainnet/x"
    );
}

#[test]
fn endpoint_with_empty_path_keeps_single_slash() {
    assert_eq!(
        Network::Testnet.endpoint(""),
        "https://api.explorer.provable.com/v2/testnet/"
    );
}

#[test]
fn broadcast_endpoint_is_under_base() {
    assert_eq!(
        Network::Canary.broadcast_endpoint(),
        "https://api.explorer.provable.com/v2/canary/transaction/broadcast"
    );
}

#[test]
fn rest_base_url_is_shared() {
    assert_eq!(
        Network::Mainnet.rest_base_url(),
        "https://api.explorer.provable.com"
    );
    assert_eq!(
        Network::Testnet.rest_base_url(),
        "https://api.explorer.provable.com"
    );
}

#[test]
fn parse_network_accepts_known_names() {
    assert_eq!(parse_network("mainnet"), Some(Network::Mainnet));
    assert_eq!(parse_network("Testnet"), Some(Network::Testnet));
    assert_eq!(parse_network("  CANARY\n"), Some(Network::Canary));
    assert_eq!(parse_network(""), None);
    assert_eq!(parse_network("devnet"), None);
}

#[test]
fn parse_bool_accepts_eight_tokens() {
    for yes in ["1", "true", "yes", "on", " TRUE ", "Yes"] {
        assert_eq!(parse_bool(yes), Some(true), "input {yes:?}");
    }
    for no in ["0", "false", "no", "off", "\tOFF\t", "False"] {
        assert_eq!(parse_bool(no), Some(false), "input {no:?}");
    }
    assert_eq!(parse_bool(""), None);
    assert_eq!(parse_bool("2"), None);
    assert_eq!(parse_bool("enable"), None);
}

#[test]
fn defaults_stand_without_environment() {
    let config = ProverConfig::from_env_values(no_env(), 8);
    assert_eq!(config.listen_addr(), "0.0.0.0:3030");
    assert_eq!(config.max_concurrent_proofs(), 8);
    assert_eq!(config.network(), Network::Testnet);
    assert!(config.enforce_program_editions());
    assert_eq!(
        config.rest_endpoint_for(Network::Testnet),
        "https://api.explorer.provable.com"
    );
}

#[test]
fn zero_parallelism_still_admits_one_proof() {
    let config = ProverConfig::new_default(0);
    assert_eq!(config.max_concurrent_proofs(), 1);
}

#[test]
fn environment_values_override_defaults() {
    let mut env = no_env();
    env.listen_addr = Some("127.0.0.1:9000".to_owned());
    env.listen_addr_valid = true;
    env.max_concurrent_proofs = Some("3".to_owned());
    env.network = Some("mainnet".to_owned());
    env.enforce_program_editions = Some("off".to_owned());
    env.rest_endpoint_override = Some("http://localhost:3033".to_owned());
    let config = ProverConfig::from_env_values(env, 8);
    assert_eq!(config.listen_addr(), "127.0.0.1:9000");
    assert_eq!(config.max_concurrent_proofs(), 3);
    assert_eq!(config.network(), Network::Mainnet);
    assert!(!config.enforce_program_editions());
    assert_eq!(
        config.rest_endpoint_for(Network::Mainnet),
        "http://localhost:3033"
    );
}

#[test]
fn invalid_environment_values_keep_defaults() {
    let mut env = no_env();
    env.listen_addr = Some("not an address".to_owned());
    env.listen_addr_valid = false;
    env.max_concurrent_proofs = Some("0".to_owned());
    env.network = Some("  ".to_owned());
    env.enforce_program_editions = Some("maybe".to_owned());
    env.rest_endpoint_override = Some("   ".to_owned());
    let config = ProverConfig::from_env_values(env, 4);
    assert_eq!(config.listen_addr(), "0.0.0.0:3030");
    assert_eq!(config.max_concurrent_proofs(), 4);
    assert_eq!(config.network(), Network::Testnet);
    assert!(config.enforce_program_editions());
    assert_eq!(
        config.rest_endpoint_for(Network::Testnet),
        "https://api.explorer.provable.com"
    );
}

#[test]
fn builders_adjust_single_fields() {
    let config = ProverConfig::new_default(2)
        .with_enforce_program_editions(false)
        .with_rest_endpoint_override("http://localhost:1".to_owned());
    assert!(!config.enforce_program_editions());
    assert_eq!(config.rest_endpoint_for(Network::Canary), "http://localhost:1");
    assert_eq!(config.max_concurrent_proofs(), 2);
}
