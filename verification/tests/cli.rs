use ln_dlc::cli::Opts;

fn opts(data_dir: Option<&'static str>) -> Opts<&'static str, &'static str, &'static str> {
    Opts {
        p2p_address: "0.0.0.0:19045",
        http_address: "0.0.0.0:18000",
        data_dir,
        orderbook: "http://localhost:8000",
    }
}

#[test]
fn data_goes_below_the_configured_directory() {
    let opts = opts(Some("/var/lib"));
    let dir = opts.data_dir();
    assert_eq!(dir.base, Some(&"/var/lib"));
    assert_eq!(dir.below, vec!["maker".to_string()]);
}

#[test]
fn data_goes_below_the_working_directory_by_default() {
    let opts = opts(None);
    let dir = opts.data_dir();
    assert_eq!(dir.base, None);
    assert_eq!(dir.below, vec!["maker".to_string()]);
}
