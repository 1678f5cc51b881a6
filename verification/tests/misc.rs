use ngsite::apply::{CommandOutput, YesNo};
use ngsite::view::view_nginx_site;
use ngsite::activation::{FsEvent, IoFault};
use ngsite::defaults::{
    ng_default, place, FileMetaData, NgDefaults, PlaceAction, PlaceState, PlaceStep, Placed,
};
use ngsite::logs::{cli_pager, is_gzip, is_ignored, visible_lines};
use ngsite::menu::{is_root, ng_select, NgSelect, CHOICES};

#[test]
fn file_meta_data_joins_directory_and_name() {
    let f = FileMetaData::new("/etc/nginx", "nginx.conf", b"events {}");
    assert_eq!(f.file_name, "nginx.conf");
    assert_eq!(f.file_path, "/etc/nginx/nginx.conf");
    assert_eq!(f.default_file, b"events {}");
    let g = FileMetaData::new("/etc/nginx/", "a", b"");
    assert_eq!(g.file_path, "/etc/nginx/a");
    let h = FileMetaData::new("/etc/nginx", "/abs/name", b"");
    assert_eq!(h.file_path, "/abs/name");
}

#[test]
fn starter_files_go_to_their_places() {
    let cases = vec![
        (NgDefaults::NginxConf, "/etc/nginx/nginx.conf"),
        (NgDefaults::DefaultServer, "/etc/nginx/sites-available/default_server"),
        (NgDefaults::ExampleCom, "/etc/nginx/sites-available/example.com"),
        (NgDefaults::ProxyCom, "/etc/nginx/sites-available/proxy.com"),
        (NgDefaults::GeneralConf, "/etc/nginx/nginxconfig.io/general.conf"),
        (NgDefaults::LetsencryptConf, "/etc/nginx/nginxconfig.io/letsencrypt.conf"),
        (NgDefaults::ProxyConf, "/etc/nginx/nginxconfig.io/proxy.conf"),
        (NgDefaults::SecurityConf, "/etc/nginx/nginxconfig.io/security.conf"),
    ];
    for (kind, path) in cases {
        let f = ng_default(kind, None, b"x");
        assert_eq!(f.file_path, path);
        assert_eq!(f.file_name, kind.name());
        assert_eq!(f.default_file, b"x");
    }
}

#[test]
fn sites_are_written_under_their_domain() {
    let f = ng_default(NgDefaults::ExampleCom, Some("shop.test"), b"server {}");
    assert_eq!(f.file_name, "shop.test");
    assert_eq!(f.file_path, "/etc/nginx/sites-available/shop.test");
    let g = ng_default(NgDefaults::ProxyCom, Some("api.test"), b"");
    assert_eq!(g.file_path, "/etc/nginx/sites-available/api.test");
    let h = ng_default(NgDefaults::NginxConf, Some("shop.test"), b"");
    assert_eq!(h.file_path, "/etc/nginx/nginx.conf");
    assert!(NgDefaults::ExampleCom.asks_for_domain());
    assert!(NgDefaults::ProxyCom.asks_for_domain());
    assert!(!NgDefaults::SecurityConf.asks_for_domain());
}

#[test]
fn menu_lists_the_choices_in_order() {
    let labels: Vec<&str> = NgSelect::choices().iter().map(|c| c.label()).collect();
    assert_eq!(
        labels,
        vec![
            "Create Default",
            "Enable Site",
            "Disable Site",
            "View Site",
            "View Log",
            "Edit Site",
            "Test Nginx",
            "Reload Nginx",
            "Exit",
        ]
    );
    assert_eq!(CHOICES, 9);
    assert_eq!(ng_select(0), NgSelect::NgDefault);
    assert_eq!(ng_select(1), NgSelect::Enable);
    assert_eq!(ng_select(5), NgSelect::Edit);
    assert_eq!(ng_select(8), NgSelect::Exit);
    for i in 0..CHOICES {
        assert_eq!(ng_select(i), NgSelect::choices()[i]);
    }
}

fn strings(items: &[&str]) -> Vec<String> {
    items.iter().map(|s| s.to_string()).collect()
}

#[test]
fn log_is_shown_backwards_without_ignored_lines() {
    let log = "GET / 200\nGET /favicon.ico 404\nGET /a 200\r\nGET /robots.txt 200\nGET /b 500\n";
    let shown = cli_pager(log, &strings(&["favicon.ico", "robots.txt"]));
    assert_eq!(shown, strings(&["GET /b 500", "GET /a 200", "GET / 200"]));
    assert_eq!(cli_pager(log, &Vec::new()).len(), 5);
    assert_eq!(cli_pager("", &Vec::new()), Vec::<String>::new());
    assert_eq!(cli_pager("one", &strings(&["two"])), strings(&["one"]));
    assert_eq!(cli_pager("one\ntwo", &strings(&[""])), Vec::<String>::new());
}

#[test]
fn visible_lines_filter_given_lines() {
    let lines = strings(&["a", "b x", "c", "x"]);
    assert_eq!(visible_lines(&lines, &strings(&["x"])), strings(&["c", "a"]));
    assert_eq!(visible_lines(&lines, &strings(&["q", "c"])), strings(&["x", "b x", "a"]));
    assert!(is_ignored("abc", &strings(&["zz", "bc"])));
    assert!(!is_ignored("abc", &strings(&["zz", "cb"])));
    assert!(!is_ignored("abc", &strings(&["abcd"])));
    assert!(!is_ignored("abc", &Vec::new()));
}

#[test]
fn gzip_report_is_read_by_the_word_not() {
    let plain = CommandOutput { success: false, stderr: b"gzip: access.log: NOT in gzip format\n".to_vec() };
    assert!(!is_gzip(&plain));
    let packed = CommandOutput { success: true, stderr: b"access.log.2.gz:\t OK\n".to_vec() };
    assert!(is_gzip(&packed));
    let silent = CommandOutput { success: true, stderr: Vec::new() };
    assert!(is_gzip(&silent));
    let lower = CommandOutput { success: false, stderr: b"not in gzip format".to_vec() };
    assert!(is_gzip(&lower));
}

#[test]
fn only_uid_zero_is_root() {
    assert!(is_root(0));
    assert!(!is_root(1));
    assert!(!is_root(1000));
    assert!(!is_root(u32::MAX));
}

#[test]
fn starter_files_are_offered_in_order() {
    let labels: Vec<&str> = NgDefaults::choices().iter().map(|k| k.label()).collect();
    assert_eq!(
        labels,
        vec![
            "default server",
            "nginx.conf",
            "example.com",
            "proxy.com",
            "general.conf",
            "letsencrypt.conf",
            "proxy.conf",
            "security.conf",
        ]
    );
    assert_eq!(NgDefaults::DefaultServer.name(), "default_server");
    assert_eq!(NgDefaults::DefaultServer.dir(), "/etc/nginx/sites-available");
}

#[test]
fn yes_comes_before_no() {
    assert_eq!(YesNo::choices(), vec![YesNo::Yes, YesNo::No]);
    assert_eq!(YesNo::Yes.label(), "Yes");
    assert_eq!(YesNo::No.label(), "No");
}

#[test]
fn site_is_shown_between_two_banners() {
    let lines = view_nginx_site("a.com", "server {}\n".to_string());
    assert_eq!(
        lines,
        vec![
            "---------------------- Start of a.com ----------------------".to_string(),
            "server {}\n".to_string(),
            "---------------------- End of a.com ----------------------".to_string(),
        ]
    );
    let empty = view_nginx_site("", String::new());
    assert_eq!(empty[0], "---------------------- Start of  ----------------------");
    assert_eq!(empty[1], "");
    assert_eq!(empty[2], "---------------------- End of  ----------------------");
}

#[test]
fn lines_are_cut_at_line_endings() {
    let none: Vec<String> = Vec::new();
    assert_eq!(cli_pager("", &none), none);
    assert_eq!(cli_pager("\n", &none), strings(&[""]));
    assert_eq!(cli_pager("\r\n", &none), strings(&[""]));
    assert_eq!(cli_pager("\r", &none), strings(&["\r"]));
    assert_eq!(cli_pager("a\r", &none), strings(&["a\r"]));
    assert_eq!(cli_pager("a\r\n", &none), strings(&["a"]));
    assert_eq!(cli_pager("a\r\r\n", &none), strings(&["a\r"]));
    assert_eq!(cli_pager("a\rb\n", &none), strings(&["a\rb"]));
    assert_eq!(cli_pager("x\n\ny", &none), strings(&["y", "", "x"]));
    assert_eq!(cli_pager("x\n\n", &none), strings(&["", "x"]));
    assert_eq!(cli_pager("a\n\r", &none), strings(&["\r", "a"]));
    assert_eq!(cli_pager("a\r\nb\r\n", &none), strings(&["b", "a"]));
}

/// Places a file at a path that is taken or free; says how that ended and
/// what was asked for.
fn run_place(taken: bool) -> (Placed, Vec<PlaceAction>) {
    let mut asked = Vec::new();
    let mut step = place();
    loop {
        match step {
            PlaceStep::Finished(placed) => return (placed, asked),
            PlaceStep::Next(state, action) => {
                asked.push(action);
                let event = match action {
                    PlaceAction::Probe => FsEvent::Exists(taken),
                    PlaceAction::CreateDir | PlaceAction::Write => FsEvent::Done,
                };
                step = state.resume(event);
            }
        }
    }
}

#[test]
fn starter_file_is_written_where_the_path_is_free() {
    let (placed, asked) = run_place(false);
    assert_eq!(placed, Placed::Written);
    assert_eq!(asked, vec![PlaceAction::Probe, PlaceAction::CreateDir, PlaceAction::Write]);
    assert!(!placed.is_failure());
}

#[test]
fn existing_file_is_kept_and_is_no_failure() {
    let (placed, asked) = run_place(true);
    assert_eq!(placed, Placed::Kept);
    assert_eq!(asked, vec![PlaceAction::Probe]);
    assert!(!placed.is_failure());
}

#[test]
fn placing_reports_failures() {
    let fault = IoFault { already_exists: false, message: "Permission denied (os error 13)".to_string() };
    let step = PlaceState::CreatingDir.resume(FsEvent::Failed(fault));
    assert_eq!(step, PlaceStep::Finished(Placed::Failed("Permission denied (os error 13)".to_string())));
    assert!(Placed::Failed(String::new()).is_failure());
    assert!(Placed::OutOfTurn.is_failure());
    let late = IoFault { already_exists: true, message: "File exists (os error 17)".to_string() };
    assert_eq!(
        PlaceState::Writing.resume(FsEvent::Failed(late)),
        PlaceStep::Finished(Placed::Failed("File exists (os error 17)".to_string()))
    );
    assert_eq!(PlaceState::Probing.resume(FsEvent::Done), PlaceStep::Finished(Placed::OutOfTurn));
    assert_eq!(
        PlaceState::Writing.resume(FsEvent::Exists(false)),
        PlaceStep::Finished(Placed::OutOfTurn)
    );
    assert_eq!(
        PlaceState::CreatingDir.resume(FsEvent::Exists(true)),
        PlaceStep::Finished(Placed::OutOfTurn)
    );
    assert_eq!(place(), PlaceStep::Next(PlaceState::Probing, PlaceAction::Probe));
}
