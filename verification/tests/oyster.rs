use oyster::oyster::MainConfig;

#[test]
fn configured_count_is_taken() {
    let config = MainConfig { worker_threads: Some(16) };
    assert_eq!(config.worker_count(Some(8)), 16);
    assert_eq!(config.worker_count(None), 16);
    let none = MainConfig { worker_threads: Some(0) };
    assert_eq!(none.worker_count(Some(8)), 0);
}

#[test]
fn machine_parallelism_is_the_default() {
    let config = MainConfig { worker_threads: None };
    assert_eq!(config.worker_count(Some(8)), 8);
}

#[test]
fn one_worker_where_nothing_is_known() {
    let config = MainConfig { worker_threads: None };
    assert_eq!(config.worker_count(None), 1);
}
