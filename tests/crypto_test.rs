use compiled_class::crypto::HashChain;
use compiled_class::felt::Felt;
use compiled_class::monitoring::{
    create_monitoring_endpoint, IpAddress, MonitoringEndpoint, MonitoringEndpointConfig,
};

#[test]
fn hash_chain_hashes_depend_on_order_and_size() {
    let one = Felt::from_u128(1);
    let two = Felt::from_u128(2);
    let a = HashChain::new().chain(&one).chain(&two);
    let b = HashChain::new().chain(&two).chain(&one);
    assert_ne!(a.get_pedersen_hash(), b.get_pedersen_hash());
    assert_ne!(a.get_poseidon_hash(), b.get_poseidon_hash());
    assert_ne!(a.get_pedersen_hash(), one);
    assert_ne!(a.get_poseidon_hash(), two);
    let c = HashChain::new().chain_iter(&[one, two]);
    assert_eq!(a.get_pedersen_hash(), c.get_pedersen_hash());
    let d = HashChain::new().chain(&one).extend(HashChain::new().chain(&two));
    assert_eq!(a.get_poseidon_hash(), d.get_poseidon_hash());
    let sized = HashChain::new().chain_size_and_elements(&[one, two]);
    let explicit = HashChain::new().chain(&two).chain(&one).chain(&two);
    assert_eq!(sized.get_poseidon_hash(), explicit.get_poseidon_hash());
    let skipped = HashChain::new().chain(&one).chain_if_fn(|| None).chain_if_fn(|| Some(two));
    assert_eq!(skipped.get_pedersen_hash(), a.get_pedersen_hash());
}

#[test]
fn monitoring_endpoint_holds_its_config() {
    let config = MonitoringEndpointConfig { ip: IpAddress::V4(127, 0, 0, 1), port: 8082 };
    let endpoint = create_monitoring_endpoint(config, "0.4.0");
    assert_eq!(endpoint, MonitoringEndpoint::new(config, "0.4.0"));
    assert_eq!(endpoint.config().port, 8082);
    assert_eq!(endpoint.version(), "0.4.0");
    assert_eq!(endpoint.alive_path(), "/monitoring/alive");
    assert_eq!(endpoint.ready_path(), "/monitoring/ready");
    assert_eq!(endpoint.version_path(), "/monitoring/nodeVersion");
}
