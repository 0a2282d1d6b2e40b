use blvm_fibre::wire::FibreConfig;

#[test]
fn test_fibre_config_edge_cases() {
    let config = FibreConfig {
        enabled: true,
        fec_parity_ratio: format!("{}", 0.0f64),
        chunk_timeout_secs: 1,
        max_retries: 1,
        max_assemblies: 1,
    };
    assert_eq!(config.fec_parity_ratio.parse::<f64>().unwrap(), 0.0);

    let config = FibreConfig {
        enabled: true,
        fec_parity_ratio: format!("{}", 1.0f64),
        chunk_timeout_secs: 100,
        max_retries: 10,
        max_assemblies: 100,
    };
    assert_eq!(config.fec_parity_ratio.parse::<f64>().unwrap(), 1.0);
}
