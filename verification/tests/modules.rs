use devterminal::modules::docker::parse_compose_line;
use devterminal::modules::git::parse_porcelain;
use devterminal::modules::packages::{clean, pms, Pm};
use devterminal::modules::servers::{
    is_dev_port, parse_netstat_line, parse_ss_line, parse_ssh_config,
};

fn pm(bin: &str) -> Pm {
    pms().into_iter().find(|p| p.bin == bin).unwrap()
}

#[test]
fn parses_compose_ls() {
    assert_eq!(parse_compose_line("NAME  STATUS  CONFIG FILES"), None);
    assert_eq!(
        parse_compose_line("myapp    running(3)    /home/x/compose.yaml"),
        Some(("myapp".into(), "running(3)".into(), "/home/x/compose.yaml".into()))
    );
    assert_eq!(
        parse_compose_line("other  exited(1)  /a/docker-compose.yml,/a/override.yml"),
        Some(("other".into(), "exited(1)".into(), "/a/docker-compose.yml".into()))
    );
}

#[test]
fn porcelain() {
    assert_eq!(parse_porcelain(" M src/main.rs"), Some((false, "src/main.rs".into())));
    assert_eq!(parse_porcelain("M  src/main.rs"), Some((true, "src/main.rs".into())));
    assert_eq!(parse_porcelain("?? new.txt"), Some((false, "new.txt".into())));
    assert_eq!(parse_porcelain("R  old.txt -> new.txt"), Some((true, "new.txt".into())));
    assert_eq!(parse_porcelain(""), None);
}

#[test]
fn cleans_winget_table() {
    let out = "Name      Id           Version  Available   Source\n\
               ----------------------------------------------------\n\
               Git       Git.Git      2.55.0   2.56.0      winget\n\
               7-Zip     7zip.7zip    24.09    25.00       winget\n\
               2 upgrades available.\n";
    let rows = clean(&pm("winget"), out);
    assert_eq!(rows.len(), 2);
    assert_eq!(rows[0].1, "Git");
}

#[test]
fn no_table_means_no_updates() {
    // With nothing to upgrade, winget prints no table (and no dashes row).
    assert!(clean(&pm("winget"), "No installed package found matching input criteria.\n").is_empty());
    // The "-" of the progress spinner is not a separator row.
    assert!(clean(&pm("winget"), "-\n\\\n|\n").is_empty());
}

#[test]
fn cleans_apt_and_dnf_noise() {
    let rows = clean(&pm("apt"), "Listing... Done\nvim/stable 2:9.1 amd64 [upgradable from: 2:9.0]\n");
    assert_eq!(rows.len(), 1);
    assert_eq!(rows[0].1, "vim/stable");

    let out = "Last metadata expiration check: 0:12:01 ago.\n\nkernel.x86_64   6.11.4-201   updates\n";
    let rows = clean(&pm("dnf"), out);
    assert_eq!(rows.len(), 1);
    assert_eq!(rows[0].1, "kernel.x86_64");
}

#[test]
fn filters_dev_ports() {
    for p in [3000, 5173, 5432, 5678, 8080, 8888, 9092, 11434] {
        assert!(is_dev_port(p), "{p} should be a dev port");
    }
    // spotify (4070/57621), cups (631), X11 (6000), random high port
    for p in [4070, 57621, 631, 6000, 45231] {
        assert!(!is_dev_port(p), "{p} should not be a dev port");
    }
}

#[test]
fn parses_hosts() {
    let cfg = "Host vps\n  HostName 1.2.3.4\nHost *\n  User root\nHost pi nas\n";
    assert_eq!(parse_ssh_config(cfg), vec!["vps", "pi", "nas"]);
}

#[test]
fn parses_ss_line() {
    let l = r#"LISTEN 0      511        127.0.0.1:3000       0.0.0.0:*    users:(("node",pid=12345,fd=20))"#;
    let (host, port, name, pid, exposed) = parse_ss_line(l).unwrap();
    assert_eq!(host, "localhost");
    assert_eq!(port, "3000");
    assert_eq!(name, "node");
    assert_eq!(pid, "12345");
    assert!(!exposed);
}

#[test]
fn parses_netstat_line() {
    // State column in Spanish: the parser doesn't look at it.
    let l = "  TCP    127.0.0.1:5173         0.0.0.0:0              ESCUCHANDO      4242";
    let (host, port, pid, exposed) = parse_netstat_line(l).unwrap();
    assert_eq!(
        (host.as_str(), port.as_str(), pid.as_str(), exposed),
        ("localhost", "5173", "4242", false)
    );

    let l = "  TCP    [::]:8080              [::]:0                 LISTENING       99";
    let (_, port, _, exposed) = parse_netstat_line(l).unwrap();
    assert_eq!(port, "8080");
    assert!(exposed);

    // Established connection (remote != :0) and UDP: out.
    assert!(parse_netstat_line("  TCP  10.0.0.2:52000  140.82.121.4:443  ESTABLISHED  7").is_none());
    assert!(parse_netstat_line("  UDP  0.0.0.0:5353    *:*                            8").is_none());
}

#[test]
fn detects_network_exposed() {
    let l = r#"LISTEN 0      128          0.0.0.0:8080       0.0.0.0:*    users:(("python3",pid=999,fd=5))"#;
    let (host, port, _, _, exposed) = parse_ss_line(l).unwrap();
    assert_eq!(host, "localhost");
    assert_eq!(port, "8080");
    assert!(exposed);
}
