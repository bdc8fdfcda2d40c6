use devterminal::config::{config_path, expand_home, home};
use devterminal::modules::dashboard::{
    dedup_disks, docker_line, host_line, load_line, uptime_text, DiskInfo,
};
use devterminal::modules::docker::Docker;
use devterminal::modules::github::GitHub;
use devterminal::modules::servers::{parse_netstat_line, parse_ssh_config, Servers};
use devterminal::ui::ListView;
use devterminal::modules::k8s::{kubectl, pod_status_color, split_id, K8s};
use devterminal::modules::logs::{unit_color, Logs};
use devterminal::modules::procs::Procs;
use devterminal::modules::{Action, Step};
use devterminal::platform;
use devterminal::runner::{
    candidates, clip_tool, notify_cmd, path_exts, run_cmd, run_out, split_command, BinCache,
    ProcOutput,
};
use devterminal::session::{captured, fill, footer_text, tab_label, Effect, Overlay, Session};
use devterminal::theme;
use devterminal::ui::Key;

fn strings(v: &[&str]) -> Vec<String> {
    v.iter().map(|s| s.to_string()).collect()
}

// --- session -------------------------------------------------------------

#[test]
fn tab_then_backtab_returns() {
    let mut s = Session::new(9);
    for start in 0..9 {
        while s.active() != start {
            s.global_key(Key::Tab);
        }
        s.global_key(Key::Tab);
        s.global_key(Key::BackTab);
        assert_eq!(s.active(), start);
        s.global_key(Key::BackTab);
        s.global_key(Key::Tab);
        assert_eq!(s.active(), start);
    }
}

#[test]
fn wraps_around_modules() {
    let mut s = Session::new(9);
    s.global_key(Key::BackTab);
    assert_eq!(s.active(), 8);
    s.global_key(Key::Char('d'));
    assert_eq!(s.active(), 0);
    s.global_key(Key::Char('A'));
    assert_eq!(s.active(), 8);
}

#[test]
fn digits_jump_to_modules() {
    let mut s = Session::new(3);
    s.take_pending_refresh();
    s.global_key(Key::Char('3'));
    assert_eq!(s.active(), 2);
    assert!(s.pending_refresh());
    s.take_pending_refresh();
    s.global_key(Key::Char('7'));
    assert_eq!(s.active(), 2);
    assert!(!s.pending_refresh());
    s.global_key(Key::Char('1'));
    assert_eq!(s.active(), 0);
}

#[test]
fn quit_and_copy_keys() {
    let mut s = Session::new(9);
    assert!(matches!(s.global_key(Key::Char('Q')), Effect::Quit));
    assert!(matches!(s.global_key(Key::Char('y')), Effect::Copy));
    s.take_pending_refresh();
    assert!(matches!(s.global_key(Key::Char('r')), Effect::Nothing));
    assert!(s.pending_refresh());
}

#[test]
fn confirm_then_cancel_runs_nothing() {
    let mut s = Session::new(9);
    let a = Action::Run {
        cmd: strings(&["docker", "rm", "-f", "abc"]),
        confirm: Some("Delete container abc?".into()),
        show: false,
    };
    assert!(matches!(s.on_action(a, Key::Char('k')), Effect::Nothing));
    assert!(matches!(s.overlay(), Some(Overlay::Confirm { .. })));
    assert!(matches!(s.overlay_key(Key::Char('x')), Effect::Nothing));
    assert!(s.overlay().is_some());
    assert!(matches!(s.overlay_key(Key::Char('n')), Effect::Nothing));
    assert!(s.overlay().is_none());
}

#[test]
fn confirm_then_accept_runs() {
    let mut s = Session::new(9);
    let a = Action::Run { cmd: strings(&["docker", "stop", "x"]), confirm: Some("?".into()), show: true };
    s.on_action(a, Key::Enter);
    match s.overlay_key(Key::Char('y')) {
        Effect::Exec { cmd, show } => {
            assert_eq!(cmd, strings(&["docker", "stop", "x"]));
            assert!(show);
        }
        _ => panic!("expected a run"),
    }
    assert!(s.overlay().is_none());
}

#[test]
fn prompt_fills_template() {
    let mut s = Session::new(9);
    let a = Action::Prompt {
        label: "Número de réplicas".into(),
        template: strings(&["kubectl", "scale", "deployment", "web", "--replicas={}"]),
        interactive: false,
        show: true,
    };
    s.on_action(a, Key::Char('c'));
    s.overlay_key(Key::Char('3'));
    s.overlay_key(Key::Char('9'));
    s.overlay_key(Key::Backspace);
    match s.overlay() {
        Some(Overlay::Prompt { input, .. }) => assert_eq!(input, "3"),
        _ => panic!("prompt expected"),
    }
    match s.overlay_key(Key::Enter) {
        Effect::Exec { cmd, show } => {
            assert_eq!(cmd, strings(&["kubectl", "scale", "deployment", "web", "--replicas=3"]));
            assert!(show);
        }
        _ => panic!("expected a run"),
    }
}

#[test]
fn empty_prompt_closes() {
    let mut s = Session::new(9);
    let a = Action::Prompt { label: "x".into(), template: strings(&["ping", "{}"]), interactive: true, show: false };
    s.on_action(a, Key::Char('p'));
    assert!(matches!(s.overlay_key(Key::Enter), Effect::Nothing));
    assert!(s.overlay().is_none());
}

#[test]
fn fill_replaces_every_placeholder() {
    assert_eq!(fill(&strings(&["a{}b{}", "{}", "none"]), "X"), strings(&["aXbX", "X", "none"]));
    assert_eq!(fill(&strings(&["renice", "{}", "-p", "42"]), "10"), strings(&["renice", "10", "-p", "42"]));
}

#[test]
fn pane_scroll_stops_at_last_line() {
    let mut s = Session::new(9);
    s.on_action(Action::Show { title: "t".into(), text: "a\nb\nc\n".into() }, Key::Enter);
    for _ in 0..5 {
        s.overlay_key(Key::Down);
    }
    match s.overlay() {
        Some(Overlay::Pane { scroll, .. }) => assert_eq!(*scroll, 3),
        _ => panic!(),
    }
    s.overlay_key(Key::PageUp);
    match s.overlay() {
        Some(Overlay::Pane { scroll, .. }) => assert_eq!(*scroll, 0),
        _ => panic!(),
    }
    s.overlay_key(Key::PageDown);
    match s.overlay() {
        Some(Overlay::Pane { scroll, .. }) => assert_eq!(*scroll, 3),
        _ => panic!(),
    }
    s.overlay_key(Key::Esc);
    assert!(s.overlay().is_none());
}

#[test]
fn exec_outcome_panes() {
    let cmd = strings(&["git", "pull"]);
    let mut s = Session::new(9);
    s.exec_done(&cmd, true, Ok("  \n".into()));
    match s.overlay() {
        Some(Overlay::Pane { title, text, scroll }) => {
            assert_eq!(title, "git pull");
            assert_eq!(text, "OK ✓");
            assert_eq!(*scroll, 0);
        }
        _ => panic!(),
    }
    let mut s = Session::new(9);
    s.exec_done(&cmd, false, Ok("done".into()));
    assert!(s.overlay().is_none());
    s.exec_done(&cmd, false, Err("boom".into()));
    match s.overlay() {
        Some(Overlay::Pane { title, text, .. }) => {
            assert_eq!(title, "Error · git pull");
            assert_eq!(text, "boom");
        }
        _ => panic!(),
    }
    let mut s = Session::new(9);
    s.interactive_failed("ssh", "not found");
    match s.overlay() {
        Some(Overlay::Pane { title, text, .. }) => {
            assert_eq!(title, "Error");
            assert_eq!(text, "ssh: not found");
        }
        _ => panic!(),
    }
}

#[test]
fn notices_and_footer() {
    let mut s = Session::new(9);
    s.copied("1234", Ok(()));
    assert_eq!(s.notice().as_deref(), Some("Copiado: 1234"));
    assert_eq!(footer_text(s.notice(), "x"), " Copiado: 1234");
    s.copied("1234", Err("no clipboard tool (install wl-clipboard or xclip)".into()));
    assert_eq!(
        s.notice().as_deref(),
        Some("Portapapeles: no clipboard tool (install wl-clipboard or xclip)")
    );
    s.clear_notice();
    assert_eq!(
        footer_text(&None, ""),
        " y copiar · Tab/A/D módulo · 1-9 saltar · R refrescar · Q salir"
    );
    assert_eq!(
        footer_text(&None, "k kill"),
        " k kill · y copiar · Tab/A/D módulo · 1-9 saltar · R refrescar · Q salir"
    );
    assert_eq!(tab_label(0, "Dashboard"), "1 Dashboard");
    assert_eq!(tab_label(9, "Extra"), "0 Extra");
}

#[test]
fn capture_shows_output_or_error() {
    match captured("logs x".into(), Err("failed".into())) {
        Action::Show { title, text } => {
            assert_eq!(title, "logs x");
            assert_eq!(text, "failed");
        }
        _ => panic!(),
    }
}

// --- runner ------------------------------------------------------------------

#[test]
fn run_cmd_outcomes() {
    let ok = ProcOutput { success: true, stdout: b"hello\n".to_vec(), stderr: b"warn".to_vec() };
    assert_eq!(run_cmd(Ok(ok)), Ok("hello\n".to_string()));
    let bad = ProcOutput { success: false, stdout: b"out  \n".to_vec(), stderr: b"err\n\n".to_vec() };
    assert_eq!(run_cmd(Ok(bad)), Err("out\nerr".to_string()));
    let lossy = ProcOutput { success: true, stdout: vec![b'a', 0xff, b'b'], stderr: vec![] };
    assert_eq!(run_cmd(Ok(lossy)), Ok("a\u{FFFD}b".to_string()));
    assert_eq!(run_cmd(Err("No such file or directory (os error 2)".into())), Err("No such file or directory (os error 2)".to_string()));
    let exit1 = ProcOutput { success: false, stdout: b"pkg 1.0\n".to_vec(), stderr: vec![] };
    assert_eq!(run_out(Ok(exit1)), Ok("pkg 1.0\n".to_string()));
}

#[test]
fn empty_command_is_an_error() {
    assert_eq!(split_command(&vec![]), Err("empty command".to_string()));
    assert_eq!(
        split_command(&strings(&["git", "status"])),
        Ok(("git".to_string(), strings(&["status"])))
    );
}

#[test]
fn bin_cache_remembers_first_answer() {
    let mut c = BinCache::new();
    assert_eq!(c.cached("gh"), None);
    assert_eq!(c.find_bin("gh", Some("/usr/bin/gh".into())), Some("/usr/bin/gh".to_string()));
    assert_eq!(c.find_bin("gh", None), Some("/usr/bin/gh".to_string()));
    assert_eq!(c.cached("gh"), Some(Some("/usr/bin/gh".to_string())));
    assert!(!c.has_bin("delta", None));
    assert!(!c.has_bin("delta", Some("/bin/delta".into())));
    assert_eq!(c.program("delta", None), "delta");
    assert_eq!(c.program("gh", None), "/usr/bin/gh");
}

#[test]
fn pathext_lowercased() {
    assert_eq!(path_exts(None, true), strings(&[".com", ".exe", ".bat", ".cmd"]));
    assert_eq!(path_exts(Some(".EXE;;.PS1;".into()), true), strings(&[".exe", ".ps1"]));
    assert!(path_exts(Some(".EXE".into()), false).is_empty());
}

#[test]
fn candidate_paths_in_order() {
    let dirs = strings(&["/usr/bin", "/bin/"]);
    assert_eq!(candidates("git", &dirs, &vec![], false), strings(&["/usr/bin/git", "/bin/git"]));
    let exts = strings(&[".exe", ".cmd"]);
    assert_eq!(
        candidates("scoop", &strings(&["C:\\bin"]), &exts, true),
        strings(&["C:\\bin\\scoop.exe", "C:\\bin\\scoop.cmd"])
    );
}

#[test]
fn clipboard_tool_choice() {
    assert_eq!(clip_tool(true, false, false, false), Ok(strings(&["clip"])));
    assert_eq!(clip_tool(false, false, true, true), Ok(strings(&["xclip", "-selection", "clipboard"])));
    assert_eq!(clip_tool(false, false, false, true), Ok(strings(&["xsel", "-ib"])));
    assert_eq!(
        clip_tool(false, false, false, false),
        Err("no clipboard tool (install wl-clipboard or xclip)".to_string())
    );
}

#[test]
fn notification_commands() {
    assert_eq!(notify_cmd("a", "b", false, false), None);
    assert_eq!(
        notify_cmd("Comando terminado", "git pull", false, true),
        Some(strings(&["notify-send", "-a", "DevTerminal", "Comando terminado", "git pull"]))
    );
    let w = notify_cmd("it's", "done", true, false).unwrap();
    assert_eq!(w[0], "powershell");
    assert!(w[4].contains("'DevTerminal', 'it''s: done', 'Info'"));
}

// --- modules -------------------------------------------------------------

#[test]
fn k8s_ids_and_commands() {
    assert_eq!(split_id("default web-1"), (Some("default".to_string()), "web-1".to_string()));
    assert_eq!(split_id("node-a"), (None, "node-a".to_string()));
    assert_eq!(
        kubectl("kube-system coredns", strings(&["logs", "--tail=300"])),
        strings(&["kubectl", "logs", "--tail=300", "coredns", "-n", "kube-system"])
    );
    let p = theme::init("nord");
    assert_eq!(pod_status_color("Running", &p), p.green);
    assert_eq!(pod_status_color("Pending", &p), p.yellow);
    assert_eq!(pod_status_color("CrashLoopBackOff", &p), p.red);
}

#[test]
fn k8s_rows_and_delete() {
    let p = theme::init("nord");
    let mut k = K8s::new();
    k.apply_output(Ok("default web-1 1/1 Running 0 3d\n\n".into()), &p);
    assert_eq!(k.list().selected_id(), Some("default web-1".to_string()));
    match k.on_key(Key::Char('k')) {
        Step::Act(Action::Run { cmd, confirm, show }) => {
            assert_eq!(cmd, strings(&["kubectl", "delete", "pods", "web-1", "-n", "default"]));
            assert_eq!(confirm.as_deref(), Some("¿Eliminar pods default web-1?"));
            assert!(show);
        }
        _ => panic!(),
    }
    k.apply_output(Ok(String::new()), &p);
    assert_eq!(k.list().row(0).text, "(vacío)");
}

#[test]
fn logs_start_at_bottom() {
    let p = theme::init("nord");
    let mut l = Logs::new();
    let text: String = (0..30).map(|i| format!("line {i}\n")).collect();
    l.apply_output(Ok(text), false, &p);
    assert_eq!(l.scroll(), 10);
    l.on_key(Key::PageDown, false);
    assert_eq!(l.scroll(), 30);
    l.on_key(Key::Up, false);
    assert_eq!(l.scroll(), 29);
    l.apply_output(Err("short".into()), false, &p);
    assert_eq!(l.scroll(), 0);
    assert_eq!(l.text(), "short");
    assert_eq!(unit_color("failed", "dead", &p), p.red);
    assert_eq!(unit_color("active", "running", &p), p.green);
    assert_eq!(unit_color("inactive", "dead", &p), theme::Color::DarkGray);
}

#[test]
fn procs_keep_four_hundred() {
    let mut pr = Procs::new();
    let rows: Vec<(String, String)> = (0..450).map(|i| (format!("p{i}"), i.to_string())).collect();
    pr.set_rows(rows);
    assert_eq!(pr.list().visible_indices().len(), 400);
    match pr.on_key(Key::Char('K'), false) {
        Step::Act(Action::Run { cmd, confirm, .. }) => {
            assert_eq!(cmd, strings(&["kill", "-9", "0"]));
            assert_eq!(confirm.as_deref(), Some("Force-kill process 0?"));
        }
        _ => panic!(),
    }
}

#[test]
fn disks_deduplicated() {
    let d = |name: &str, mount: &str, total: u64, avail: u64| DiskInfo {
        name: name.as_bytes().to_vec(),
        mount: mount.into(),
        total,
        available: avail,
    };
    let disks = vec![d("sda1", "/", 100, 40), d("sda1", "/home", 100, 40), d("sdb1", "/data", 50, 50)];
    assert_eq!(
        dedup_disks(&disks),
        vec![("/".to_string(), 60, 100), ("/data".to_string(), 0, 50)]
    );
}

#[test]
fn dashboard_texts() {
    assert_eq!(uptime_text(3 * 3600 + 25 * 60 + 7), "3 h 25 min");
    assert_eq!(docker_line(None), "not installed");
    assert_eq!(docker_line(Some(Ok("a\nb\n".into()))), "2 containers running");
    assert_eq!(docker_line(Some(Err("x".into()))), "daemon stopped");
    assert_eq!(host_line(Some("box".into()), Some("Arch".into()), None), "box (Arch )");
    assert_eq!(load_line("0.10 0.20 0.30".into(), true), "n/a on Windows");
}

#[test]
fn date_line_starts_with_a_day() {
    let now = platform::now();
    let days = ["Monday", "Tuesday", "Wednesday", "Thursday", "Friday", "Saturday", "Sunday"];
    assert!(days.iter().any(|d| now.starts_with(&format!("{d} "))));
    assert_eq!(platform::date_line(2, "03/02/2025  14:05"), "Wednesday 03/02/2025  14:05");
}

#[test]
fn config_paths() {
    assert_eq!(home(None, Some("C:\\Users\\x".into())), Some("C:\\Users\\x".to_string()));
    assert_eq!(
        config_path(None, None, Some("/home/x".into()), false),
        Some("/home/x/.config/devterminal/config.toml".to_string())
    );
    assert_eq!(
        config_path(None, Some("/xdg".into()), Some("/home/x".into()), false),
        Some("/xdg/devterminal/config.toml".to_string())
    );
    assert_eq!(
        config_path(Some("C:\\AppData".into()), None, None, true),
        Some("C:\\AppData\\devterminal\\config.toml".to_string())
    );
    assert_eq!(config_path(None, None, None, false), None);
    assert_eq!(expand_home("~/Projects", Some("/home/x"), false), "/home/x/Projects");
    assert_eq!(expand_home("/srv", Some("/home/x"), false), "/srv");
}

// --- laws on concrete values -------------------------------------------------

#[test]
fn clock_stamp_is_formatted() {
    let now = platform::now();
    assert!(!now.contains('%'));
}

#[test]
fn escape_closes_any_overlay() {
    let mut s = Session::new(9);
    s.on_action(Action::Show { title: "t".into(), text: "x".into() }, Key::Enter);
    assert!(matches!(s.overlay_key(Key::Esc), Effect::Nothing));
    assert!(s.overlay().is_none());
    let a = Action::Prompt { label: "l".into(), template: strings(&["a", "{}"]), interactive: false, show: true };
    s.on_action(a, Key::Char('c'));
    s.overlay_key(Key::Char('z'));
    assert!(matches!(s.overlay_key(Key::Esc), Effect::Nothing));
    assert!(s.overlay().is_none());
}

#[test]
fn list_moves_and_filters() {
    let mut l = ListView::new();
    l.set_items(vec![("alpha".into(), "a".into()), ("beta".into(), "b".into()), ("gamma".into(), "c".into())]);
    assert_eq!(l.selection(), Some(0));
    assert!(l.key(Key::Down));
    assert_eq!(l.selected_id(), Some("b".to_string()));
    assert!(l.key(Key::Up));
    assert_eq!(l.selected_id(), Some("a".to_string()));
    assert!(l.key(Key::Char('/')));
    assert!(l.key(Key::Char('G')));
    assert_eq!(l.visible_indices(), vec![2]);
    assert_eq!(l.selected_id(), Some("c".to_string()));
    assert!(l.key(Key::Esc));
    assert!(!l.is_filtering());
    assert_eq!(l.filter_text(), "");
    assert_eq!(l.visible_indices(), vec![0, 1, 2]);
    assert!(!l.key(Key::Char('x')));
    assert_eq!(l.clip(), Some("a".to_string()));
}

#[test]
fn docker_destructive_actions_confirm() {
    let p = theme::init("nord");
    let mut d = Docker::new();
    d.apply_output(Ok("abc123\tweb\tUp 2 hours\tnginx\n".into()), &p);
    match d.on_key(Key::Char('k')) {
        Step::Act(Action::Run { cmd, confirm, show }) => {
            assert_eq!(cmd, strings(&["docker", "rm", "-f", "abc123"]));
            assert_eq!(confirm.as_deref(), Some("Delete container abc123?"));
            assert!(!show);
        }
        _ => panic!(),
    }
    match d.on_key(Key::Char('P')) {
        Step::Act(Action::Run { confirm, .. }) => {
            assert_eq!(confirm.as_deref(), Some("Run docker system prune? Removes everything unused."))
        }
        _ => panic!(),
    }
    match d.on_key(Key::Char('x')) {
        Step::Act(Action::Run { cmd, confirm, .. }) => {
            assert_eq!(cmd, strings(&["docker", "stop", "abc123"]));
            assert!(confirm.is_none());
        }
        _ => panic!(),
    }
}

#[test]
fn ports_warn_and_filter() {
    let p = theme::init("nord");
    let mut s = Servers::new(vec![]);
    let es = vec![
        ("localhost".to_string(), "8080".to_string(), "node".to_string(), "12".to_string(), true),
        ("localhost".to_string(), "631".to_string(), "cupsd".to_string(), "7".to_string(), false),
    ];
    s.set_ports(Ok(es.clone()), &p);
    assert_eq!(s.list().visible_indices().len(), 1);
    assert!(s.list().row(0).text.ends_with("  ⚠ exposed to the network"));
    assert_eq!(s.list().selected_id(), Some("12\thttp://localhost:8080".to_string()));
    assert_eq!(s.clip(), Some("http://localhost:8080".to_string()));
    match s.on_key(Key::Char('k'), true, false) {
        Step::Act(Action::Run { cmd, confirm, .. }) => {
            assert_eq!(cmd, strings(&["kill", "12"]));
            assert_eq!(confirm.as_deref(), Some("Kill the process with pid 12?"));
        }
        _ => panic!(),
    }
    s.on_key(Key::Char('t'), true, false);
    assert!(s.show_all());
    s.set_ports(Ok(es), &p);
    assert_eq!(s.list().visible_indices().len(), 2);
}

#[test]
fn github_space_toggles_pin() {
    let mut g = GitHub::new();
    g.apply_output(Ok("owner/repo\tA repo\tpublic\n".into()));
    g.on_key(Key::Char(' '));
    assert_eq!(g.repo().as_deref(), Some("owner/repo"));
    assert_eq!(
        g.gh(strings(&["issue", "list"])),
        strings(&["gh", "issue", "list", "--repo", "owner/repo"])
    );
    g.on_key(Key::Char(' '));
    assert_eq!(g.repo(), &None);
}

// --- formulas and error rows ------------------------------------------------

#[test]
fn centered_rect() {
    let area = devterminal::ui::Rect { x: 0, y: 0, width: 100, height: 40 };
    let r = devterminal::ui::centered(area, 90, 85);
    assert_eq!((r.x, r.y, r.width, r.height), (5, 3, 90, 34));
}

#[test]
fn palette_colours() {
    assert_eq!(theme::rgb(0xbf616a), theme::Color::Rgb(0xbf, 0x61, 0x6a));
    let g = theme::init("gruvbox");
    assert_eq!(g.red, theme::Color::Rgb(0xfb, 0x49, 0x34));
    assert_eq!(theme::init("dark"), theme::default_palette());
    assert_eq!(theme::init("catppuccin").sel_bg, theme::Color::Rgb(0x31, 0x32, 0x44));
}

#[test]
fn github_error_hints_at_pinning() {
    let mut g = GitHub::new();
    g.on_key(Key::Char('v'));
    g.apply_output(Err("no git remotes found".into()));
    assert_eq!(g.list().row(0).text, "Error: no git remotes found");
    assert_eq!(
        g.list().row(2).text,
        "→ No context repo: go to the Repos view (v) and pin one with Space,"
    );
    let mut g = GitHub::new();
    g.apply_output(Err("auth".into()));
    assert_eq!(g.list().visible_indices().len(), 1);
    g.apply_output(Ok("\n".into()));
    assert_eq!(g.list().row(0).text, "No results");
}

#[test]
fn k8s_error_and_missing() {
    let p = theme::init("nord");
    let mut k = K8s::new();
    k.apply_output(Err("connection refused".into()), &p);
    assert_eq!(k.list().row(0).text, "Error: connection refused");
    k.set_missing();
    assert_eq!(k.list().row(0).text, "kubectl no está instalado");
    assert_eq!(
        k.refresh_cmd(),
        strings(&["kubectl", "get", "pods", "-A", "--no-headers"])
    );
}

#[test]
fn services_view_rows() {
    let p = theme::init("nord");
    let mut l = Logs::new();
    l.on_key(Key::Char('v'), false);
    assert_eq!(
        l.refresh_cmd(false),
        strings(&["systemctl", "list-units", "--type=service", "--no-legend", "--no-pager", "--plain"])
    );
    l.apply_output(
        Ok("sshd.service loaded active running OpenSSH\ncups.service loaded failed failed CUPS\n".into()),
        false,
        &p,
    );
    assert_eq!(l.list().selected_id(), Some("sshd.service".to_string()));
    match l.on_key(Key::Char('t'), false) {
        Step::Act(Action::Interactive(cmd)) => {
            assert_eq!(cmd, strings(&["sudo", "systemctl", "restart", "sshd.service"]))
        }
        _ => panic!(),
    }
    match l.on_key(Key::Enter, false) {
        Step::Capture { title, cmd } => {
            assert_eq!(cmd, strings(&["journalctl", "-u", "sshd.service", "-n", "200", "--no-pager"]));
            assert_eq!(title, "journalctl -u sshd.service -n 200 --no-pager");
        }
        _ => panic!(),
    }
    l.apply_output(Err("bus error".into()), false, &p);
    assert_eq!(l.list().row(0).text, "Error: bus error");
}

#[test]
fn windows_commands() {
    match Logs::new().refresh_cmd(true).as_slice() {
        [ps, a, b, c, script] => {
            assert_eq!((ps.as_str(), a.as_str(), b.as_str(), c.as_str()), ("powershell", "-NoProfile", "-NonInteractive", "-Command"));
            assert!(script.starts_with("[Console]::OutputEncoding=[System.Text.Encoding]::UTF8; Get-WinEvent -FilterHashtable @{LogName='System','Application'} -MaxEvents 400"));
        }
        _ => panic!(),
    }
    assert_eq!(
        platform::elevate(&["Restart-Service", "-Name", "'x'"], true)[3],
        "Start-Process powershell -Verb RunAs -ArgumentList '-NoProfile','-Command','Restart-Service -Name ''x'''"
    );
}

// --- tables, fresh modules and line-wise parsing -----------------------------

#[test]
fn manager_table_order() {
    let t = devterminal::modules::packages::pms();
    let bins: Vec<&str> = t.iter().map(|p| p.bin).collect();
    assert_eq!(bins, ["paru", "yay", "pacman", "apt", "dnf", "zypper", "apk", "winget", "scoop", "choco"]);
    let present = vec![false, true, true, false, false, false, false, false, false, false];
    let chosen = devterminal::modules::packages::first_available(t, &present).unwrap();
    assert_eq!(chosen.bin, "yay");
}

#[test]
fn fresh_docker_asks_before_prune() {
    let mut d = Docker::new();
    match d.on_key(Key::Char('P')) {
        Step::Act(Action::Run { cmd, confirm, show }) => {
            assert_eq!(cmd, strings(&["docker", "system", "prune", "-f"]));
            assert_eq!(confirm.as_deref(), Some("Run docker system prune? Removes everything unused."));
            assert!(show);
        }
        _ => panic!(),
    }
    let mut g = devterminal::modules::git::GitMod::new(vec![]);
    assert!(matches!(g.on_key(Key::Char('p'), false, false), devterminal::modules::git::GitStep::Step(Step::Act(Action::Ignored))));
    assert_eq!(g.footer(), "Enter open repo");
}

#[test]
fn empty_ports_row_has_no_id() {
    let p = theme::init("nord");
    let mut s = Servers::new(vec![]);
    s.set_ports(Ok(vec![]), &p);
    assert_eq!(s.list().row(0).text, "No development servers listening (t shows all ports)");
    assert_eq!(s.list().selected_id(), Some(String::new()));
    assert!(matches!(s.on_key(Key::Char('k'), true, false), Step::Act(Action::Ignored)));
}

#[test]
fn ssh_hosts_line_by_line() {
    let a = "Host a b*\r";
    let b = "host c\n  HostName x\n";
    let joined = format!("{a}\n{b}");
    let mut both = parse_ssh_config(a);
    both.extend(parse_ssh_config(b));
    assert_eq!(parse_ssh_config(&joined), both);
    assert_eq!(both, strings(&["a", "c"]));
}

#[test]
fn netstat_state_is_ignored() {
    let l = "  TCP    127.0.0.1:5173         0.0.0.0:0              LISTENING       4242";
    let l2 = "TCP 127.0.0.1:5173 0.0.0.0:0 ABHÖREN 4242";
    assert_eq!(parse_netstat_line(l), parse_netstat_line(l2));
}

#[test]
fn porcelain_rename_with_spaces() {
    assert_eq!(
        devterminal::modules::git::parse_porcelain("R  old name.txt -> new name.txt"),
        Some((true, "new name.txt".to_string()))
    );
}

#[test]
fn auto_refresh_rule() {
    let mut s = Session::new(9);
    assert!(!s.auto_refresh_due(2999));
    assert!(s.auto_refresh_due(3000));
    s.on_action(Action::Show { title: "t".into(), text: "x".into() }, Key::Enter);
    assert!(!s.auto_refresh_due(10_000));
}

// --- notification rule, filter case, clock shape -------------------------------

#[test]
fn notification_after_ten_seconds() {
    assert!(!devterminal::session::notify_due(10_000_000_000));
    assert!(devterminal::session::notify_due(10_000_000_001));
    assert!(!devterminal::session::notify_due(0));
}

#[test]
fn update_answer_takes_first_that_ran() {
    let f = devterminal::modules::packages::update_answer;
    assert_eq!(f(None), None);
    assert_eq!(f(Some(Err("spawn failed".into()))), None);
    assert_eq!(f(Some(Ok("vim 9.1\n".into()))), Some("vim 9.1\n".to_string()));
}

#[test]
fn filter_ignores_ascii_case() {
    let mut l = ListView::new();
    l.set_items(vec![("Git Status".into(), "a".into()), ("docker".into(), "b".into())]);
    l.key(Key::Char('/'));
    for c in "gIT s".chars() {
        l.key(Key::Char(c));
    }
    assert_eq!(l.visible_indices(), vec![0]);
}

#[test]
fn clock_stamp_shape() {
    let now = platform::now();
    let stamp = now.splitn(2, ' ').nth(1).unwrap();
    let b = stamp.as_bytes();
    assert_eq!(b[2], b'/');
    assert_eq!(b[5], b'/');
    assert!(stamp.contains("  "));
    assert_eq!(&stamp[stamp.len() - 3..stamp.len() - 2], ":");
}

#[test]
fn overlay_routing() {
    let mut s = Session::new(9);
    assert!(!s.routes_to_overlay());
    s.on_action(
        Action::Run { cmd: strings(&["docker", "system", "prune", "-f"]), confirm: Some("?".into()), show: true },
        Key::Char('P'),
    );
    assert!(s.routes_to_overlay());
    assert!(matches!(s.overlay_key(Key::Char('z')), Effect::Nothing));
    assert!(s.routes_to_overlay());
}
