use auto_bencher::config::{clone_names, Config, Jdk, Machines, System};

fn config(sequencer: Option<&str>) -> Config {
    Config {
        system: System { user_name: "bench".to_owned(), remote_work_dir: "/work".to_owned() },
        jdk: Jdk {
            use_custom_jdk: false,
            dir_name: "jdk".to_owned(),
            package_path: "pkg/jdk.tar.gz".to_owned(),
            jvm_args: "".to_owned(),
            package_filename: "".to_owned(),
            remote_java_bin: "".to_owned(),
        },
        machines: Machines {
            all: vec![],
            sequencer: sequencer.map(|ip| ip.to_owned()),
            servers: vec!["10.0.0.1".to_owned(), "10.0.0.2".to_owned()],
            clients: vec!["10.0.0.8".to_owned(), "10.0.0.1".to_owned()],
        },
    }
}

#[test]
fn all_machines_are_the_sequencer_the_servers_and_the_clients() {
    let mut with = config(Some("10.0.0.5"));
    with.generate_all_ips();
    assert_eq!(with.machines.all, vec!["10.0.0.5", "10.0.0.1", "10.0.0.2", "10.0.0.8", "10.0.0.1"]);
    assert_eq!(with.machines.servers, vec!["10.0.0.1", "10.0.0.2"]);
    assert_eq!(with.machines.sequencer, Some("10.0.0.5".to_owned()));
    let mut without = config(None);
    without.generate_all_ips();
    assert_eq!(without.machines.all, vec!["10.0.0.1", "10.0.0.2", "10.0.0.8", "10.0.0.1"]);
    // what is there already stays
    without.generate_all_ips();
    assert_eq!(without.machines.all.len(), 8);
}

#[test]
fn a_copy_of_the_settings_holds_the_same() {
    let first = config(Some("10.0.0.5"));
    let copy = first.clone();
    assert_eq!(copy.system.user_name, "bench");
    assert_eq!(copy.system.remote_work_dir, "/work");
    assert_eq!(copy.jdk.package_path, "pkg/jdk.tar.gz");
    assert_eq!(copy.machines.sequencer, first.machines.sequencer);
    assert_eq!(copy.machines.servers, first.machines.servers);
    assert_eq!(copy.machines.clients, first.machines.clients);
    assert_eq!(clone_names(&first.machines.clients), first.machines.clients);
}
