use firerunner::config::Configuration;
use firerunner::config::FunctionConfig;

fn func(name: &str, memory: usize, limit: usize) -> FunctionConfig {
    FunctionConfig {
        name: name.to_string(),
        runtimefs: format!("{}-rt.img", name),
        appfs: format!("{}-app.img", name),
        users: 1,
        vcpus: 1,
        memory,
        concurrency_limit: limit,
        load_dir: None,
    }
}

#[test]
fn empty_catalog() {
    let c = Configuration::new("rt".to_string(), "app".to_string());
    assert_eq!(c.num_func(), 0);
    assert!(!c.exist(&"f".to_string()));
    assert!(c.get(&"f".to_string()).is_none());
    assert!(c.resource_req(&"f".to_string()).is_none());
}

#[test]
fn insert_and_get_joins_paths() {
    let mut c = Configuration::new("rtdir".to_string(), "appdir".to_string());
    c.insert(func("echo", 256, 2));
    assert_eq!(c.num_func(), 1);
    assert!(c.exist(&"echo".to_string()));
    let got = c.get(&"echo".to_string()).unwrap();
    assert_eq!(got.name, "echo");
    assert_eq!(got.runtimefs, "rtdir/echo-rt.img");
    assert_eq!(got.appfs, "appdir/echo-app.img");
    assert_eq!(got.memory, 256);
    assert_eq!(got.concurrency_limit, 2);
}

#[test]
fn insert_replaces_same_name() {
    let mut c = Configuration::new("rt".to_string(), "app".to_string());
    c.insert(func("f", 128, 1));
    c.insert(func("g", 64, 1));
    let mut updated = func("f", 512, 9);
    updated.load_dir = Some("snap/f".to_string());
    c.insert(updated);
    assert_eq!(c.num_func(), 2);
    let got = c.get(&"f".to_string()).unwrap();
    assert_eq!(got.memory, 512);
    assert_eq!(got.concurrency_limit, 9);
    assert_eq!(got.load_dir, Some("snap/f".to_string()));
}

#[test]
fn resource_req_reports_cpu_and_mem() {
    let mut c = Configuration::new("rt".to_string(), "app".to_string());
    let mut f = func("f", 384, 4);
    f.vcpus = 3;
    c.insert(f);
    assert_eq!(c.resource_req(&"f".to_string()), Some((3, 384)));
    assert_eq!(c.resource_req(&"g".to_string()), None);
}
