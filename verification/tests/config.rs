use euoni_converter::config::{AppError, Settings};

#[test]
fn settings_defaults_are_reasonable() {
    let settings = Settings::default();

    assert_eq!(settings.host, "0.0.0.0");
    assert_eq!(settings.port, 8080);
    assert_eq!(settings.max_workers, 2);
    assert_eq!(settings.job_retention_hours, 24);
    assert_eq!(settings.data_dir, "./data");
}

#[test]
fn absent_values_take_the_defaults() {
    let settings = Settings::from_values(None, None, None, None, None, None).unwrap();
    assert_eq!(settings.host, "0.0.0.0");
    assert_eq!(settings.port, 8080);
    assert_eq!(settings.max_upload_size, 2147483648);
    assert_eq!(settings.max_workers, 2);
    assert_eq!(settings.job_retention_hours, 24);
    assert_eq!(settings.data_dir, "./data");
}

#[test]
fn given_values_are_parsed() {
    let settings = Settings::from_values(
        Some("127.0.0.1"),
        Some("+9000"),
        Some("1024"),
        Some("007"),
        Some("48"),
        Some("/srv/data"),
    )
    .unwrap();
    assert_eq!(settings.host, "127.0.0.1");
    assert_eq!(settings.port, 9000);
    assert_eq!(settings.max_upload_size, 1024);
    assert_eq!(settings.max_workers, 7);
    assert_eq!(settings.job_retention_hours, 48);
    assert_eq!(settings.data_dir, "/srv/data");
}

#[test]
fn malformed_port_is_reported() {
    for bad in ["65536", "", "+", "-1", "80a", " 80"] {
        let err = Settings::from_values(None, Some(bad), None, None, None, None).unwrap_err();
        assert_eq!(err, AppError::Config("PORT must be a valid u16".to_string()));
    }
    assert_eq!(
        Settings::from_values(None, Some("65535"), None, None, None, None).unwrap().port,
        65535
    );
}

#[test]
fn each_malformed_number_is_reported_in_order() {
    let err = Settings::from_values(None, Some("x"), Some("y"), None, None, None).unwrap_err();
    assert_eq!(err.message(), "PORT must be a valid u16");
    let err = Settings::from_values(None, None, Some("18446744073709551616"), None, None, None)
        .unwrap_err();
    assert_eq!(err.message(), "MAX_UPLOAD_SIZE must be a valid u64");
    let err = Settings::from_values(None, None, None, Some("two"), None, None).unwrap_err();
    assert_eq!(err.message(), "MAX_WORKERS must be a valid usize");
    let err = Settings::from_values(None, None, None, None, Some("1.5"), None).unwrap_err();
    assert_eq!(err.message(), "JOB_RETENTION_HOURS must be a valid u64");
}

#[test]
fn bind_address_joins_host_and_port() {
    let settings = Settings::default();
    assert_eq!(settings.bind_address(), "0.0.0.0:8080");
    let settings = Settings::from_values(Some("::1"), Some("0"), None, None, None, None).unwrap();
    assert_eq!(settings.bind_address(), "::1:0");
}
