use blkc::cli::{plan, Action, Mode, Step};
use blkc::config::{config_path, list_path, parse_setting, public_key_path, ssh_key_from_config};
use blkc::remote::{password_from_output, passkey_command, password_line, sudo_command, userpass_command};
use blkc::report::{
    details_result_text, get_colors, help_text, result_text, root_result_text, server_details,
    version_text, HelpEntry, MAIN_COLOR_PREFIX, MAIN_COLOR_SUFFIX, ROOT_COLOR_PREFIX,
};
use blkc::server::{
    connection_address, server_to_connect, servers_labelled, servers_named, servers_to_list,
    servers_to_show, Server,
};
use blkc::text::{find_char, is_space, same_text, trim};

fn server(id: i32, label: &str, name: &str, user: &str, address: &str, sshport: &str) -> Server {
    Server {
        id,
        label: label.to_string(),
        name: name.to_string(),
        user: user.to_string(),
        address: address.to_string(),
        sshport: sshport.to_string(),
    }
}

/// The list of the README's template, with two more servers.
fn sample_list() -> Vec<Server> {
    vec![
        server(0, "Server label for group commands", "Server Name", "User Name", "IP Address or WAN", "SSH connection port"),
        server(1, "Example", "Example-Name", "example-user", "0.0.0.0", "22"),
        server(2, "web", "alpha", "root", "10.0.0.2", "2222"),
        server(3, "web", "beta", "admin", "10.0.0.3", "22"),
        server(4, "db", "alpha", "dba", "10.0.0.4", "22"),
        server(-1, "Label not found", "No server with that name was found.", "No user found.", "No ", "Could not use port"),
    ]
}

fn args(v: &[&str]) -> Vec<String> {
    v.iter().map(|s| s.to_string()).collect()
}

/// The configuration parse as written with `BufRead::lines`, `splitn` and `trim`.
fn reference_ssh_key(config: &str) -> String {
    let mut key_path = String::new();
    for line in std::io::BufRead::lines(config.as_bytes()) {
        let line = line.unwrap();
        let parts: Vec<&str> = line.splitn(2, '=').collect();
        if parts.len() == 2 {
            let key = parts[0].trim();
            let value = parts[1].trim();
            if key == "ssh_key" {
                key_path = value.to_string();
            }
        }
    }
    key_path
}

#[test]
fn new_server_is_placeholder() {
    let s = Server::new();
    assert_eq!(s.id, -2);
    assert_eq!(s.label, "None");
    assert_eq!(s.name, "None");
    assert_eq!(s.user, "None");
    assert_eq!(s.address, "None");
    assert_eq!(s.sshport, "None");
}

#[test]
fn colors_default() {
    let c = get_colors(args(&["blkc", "run", "-n", "x"]));
    assert_eq!(c, vec!["\x1b[33m".to_string(), "\x1b[32m".to_string(), "\x1b[0m".to_string()]);
    assert_eq!(c, vec![ROOT_COLOR_PREFIX.to_string(), MAIN_COLOR_PREFIX.to_string(), MAIN_COLOR_SUFFIX.to_string()]);
}

#[test]
fn colors_off_short_flag() {
    let c = get_colors(args(&["blkc", "-C", "run"]));
    assert_eq!(c, vec![String::new(), String::new(), String::new()]);
}

#[test]
fn colors_off_long_flag() {
    let c = get_colors(args(&["blkc", "show", "--nocolor"]));
    assert_eq!(c, vec![String::new(), String::new(), String::new()]);
}

#[test]
fn colors_flag_must_match_whole_argument() {
    let c = get_colors(args(&["-CC", "--nocolors", "C"]));
    assert_eq!(c[0], ROOT_COLOR_PREFIX);
    let none = get_colors(Vec::new());
    assert_eq!(none.len(), 3);
    assert_eq!(none[2], MAIN_COLOR_SUFFIX);
}

#[test]
fn trim_matches_std() {
    let cases = [
        "", " ", "abc", "  abc  ", "\t\n a b \r\n", "\u{3000}x\u{3000}", "\u{85}y\u{a0}",
        "\u{2009}z\u{200b}", "\u{1680}\u{2028}\u{2029}\u{202f}\u{205f}", "a\u{000b}\u{000c}",
    ];
    for c in cases.iter() {
        assert_eq!(trim(c), c.trim(), "trimming {:?}", c);
    }
}

#[test]
fn is_space_matches_std() {
    for code in 0u32..0x3100 {
        if let Some(c) = char::from_u32(code) {
            assert_eq!(is_space(c), c.is_whitespace(), "char {:x}", code);
        }
    }
}

#[test]
fn text_compare_and_search() {
    assert!(same_text("alpha", "alpha"));
    assert!(!same_text("alpha", "alph"));
    assert!(!same_text("alpha", "alphb"));
    assert!(same_text("", ""));
    assert_eq!(find_char("a=b=c", '='), Some(1));
    assert_eq!(find_char("abc", '='), None);
    assert_eq!(find_char("é=x", '='), Some(1));
}

#[test]
fn name_selection() {
    let list = sample_list();
    assert_eq!(servers_named(&list, "alpha"), vec![2, 4]);
    assert_eq!(servers_named(&list, "beta"), vec![3]);
    assert_eq!(servers_named(&list, "gamma"), Vec::<usize>::new());
    assert_eq!(servers_named(&list, "web"), Vec::<usize>::new());
}

#[test]
fn label_selection() {
    let list = sample_list();
    assert_eq!(servers_labelled(&list, "web"), vec![2, 3]);
    assert_eq!(servers_labelled(&list, "db"), vec![4]);
    assert_eq!(servers_labelled(&list, "alpha"), Vec::<usize>::new());
}

#[test]
fn show_selection() {
    let list = sample_list();
    assert_eq!(servers_to_show(&list, "all"), vec![1, 2, 3, 4]);
    assert_eq!(servers_to_show(&list, "web"), vec![2, 3]);
    assert_eq!(servers_to_show(&list, "alpha"), vec![2, 4]);
    assert_eq!(servers_to_show(&list, "db"), vec![4]);
    assert_eq!(servers_to_show(&list, "none"), Vec::<usize>::new());
}

#[test]
fn list_selection() {
    let list = sample_list();
    assert_eq!(servers_to_list(&list, ""), vec![1, 2, 3, 4]);
    assert_eq!(servers_to_list(&list, "alpha"), vec![2, 4]);
    assert_eq!(servers_to_list(&list, "web"), Vec::<usize>::new());
}

#[test]
fn connection_target() {
    let list = sample_list();
    let s = server_to_connect(&list, "alpha");
    assert_eq!(s.id, 4);
    assert_eq!(s.user, "dba");
    let b = server_to_connect(&list, "beta");
    assert_eq!(b.address, "10.0.0.3");
    let missing = server_to_connect(&list, "gamma");
    assert_eq!(missing.id, -2);
    assert_eq!(missing.name, "None");
    assert_eq!(connection_address(&list[2]), "10.0.0.2:2222");
}

#[test]
fn config_key_simple() {
    assert_eq!(ssh_key_from_config("ssh_key=/home/u/.ssh/id_ed25519\n"), "/home/u/.ssh/id_ed25519");
    assert_eq!(ssh_key_from_config("  ssh_key  =  /k  "), "/k");
    assert_eq!(ssh_key_from_config(""), "");
    assert_eq!(ssh_key_from_config("other=1\nkey=2\n"), "");
}

#[test]
fn config_key_last_wins() {
    let text = "ssh_key=/first\nuser=me\nssh_key = /second\nport=22\n";
    assert_eq!(ssh_key_from_config(text), "/second");
}

#[test]
fn config_key_value_keeps_later_equals() {
    assert_eq!(ssh_key_from_config("ssh_key=a=b\n"), "a=b");
    assert_eq!(ssh_key_from_config("ssh_key==x"), "=x");
    assert_eq!(ssh_key_from_config("ssh_key=\r\n"), "");
}

#[test]
fn config_key_matches_line_parse() {
    let cases = [
        "", "\n", "ssh_key", "ssh_key=", "ssh_key=a\r\nssh_key=b\r\n", "x=1\nssh_key=k\n\n\n",
        "ssh_keys=no\nssh_key =yes", " ssh_key\t=\t/p q \nfoo", "ssh_key=1\nssh_key\n",
        "=\n=\nssh_key=\u{3000}v\u{3000}", "SSH_KEY=upper\nssh_key=lower",
    ];
    for c in cases.iter() {
        assert_eq!(ssh_key_from_config(c), reference_ssh_key(c), "config {:?}", c);
    }
}

#[test]
fn appended_key_line_wins() {
    let base = "ssh_key=/old\nname=x";
    let appended = format!("{}\n{}", base, "ssh_key = /new");
    assert_eq!(ssh_key_from_config(&appended), "/new");
    let other = format!("{}\n{}", base, "user = y");
    assert_eq!(ssh_key_from_config(&other), ssh_key_from_config(base));
}

#[test]
fn setting_parse() {
    let (k, v) = parse_setting(" a = b = c ").unwrap();
    assert_eq!(k, "a");
    assert_eq!(v, "b = c");
    assert!(parse_setting("no setting").is_none());
}

#[test]
fn file_paths() {
    assert_eq!(config_path("/home/u"), "/home/u/.config/blkc/blkc.conf");
    assert_eq!(list_path("/root"), "/root/.config/blkc/list.json");
    assert_eq!(public_key_path("/home/u/.ssh/id"), "/home/u/.ssh/id.pub");
}

#[test]
fn password_store_commands() {
    assert_eq!(passkey_command("alpha"), "pass alpha-key");
    assert_eq!(userpass_command("alpha"), "pass alpha");
    assert_eq!(sudo_command("apt update"), "sudo apt update");
    assert_eq!(password_line("secret"), "secret\n");
}

#[test]
fn password_output() {
    assert_eq!(password_from_output(true, "  hunter2\n", "exit status: 0"), Ok("hunter2".to_string()));
    assert_eq!(
        password_from_output(false, "ignored", "exit status: 1"),
        Err("Failed to get password. exit status: 1".to_string())
    );
}

#[test]
fn result_reports() {
    let colors = vec!["R".to_string(), "M".to_string(), "S".to_string()];
    assert_eq!(
        root_result_text(&colors, "alpha", "ls", "out"),
        "\nR Label: S alpha -> R Command: S ls\nR-------------------------S\nout\n"
    );
    assert_eq!(
        result_text(&colors, "alpha", "ls", "out"),
        "\nM Label: S alpha -> M Command: S ls\nM-------------------------S\nout\n"
    );
    let plain = get_colors(args(&["-C"]));
    assert_eq!(
        result_text(&plain, "b", "c", ""),
        format!("\n{} Label: {} {} -> {} Command: {} {}\n{}-------------------------{}\n{}\n", "", "", "b", "", "", "c", "", "", "")
    );
}

#[test]
fn detail_reports() {
    let list = sample_list();
    let colors = vec!["R".to_string(), "M".to_string(), "S".to_string()];
    assert_eq!(
        details_result_text(&colors, &list[2]),
        "MName:S alpha\nMUser:S root\nMAddress:S 10.0.0.2\nMSSH Port:S 2222\nMLabel:S web\n--------------------\n"
    );
    assert_eq!(
        server_details(&list[3]),
        "Name: beta\nUser: admin\nAddress: 10.0.0.3\nSSH Port: 22\nLabel: web\n--------------------\n"
    );
    let plain = get_colors(args(&["--nocolor"]));
    for s in list.iter() {
        assert_eq!(details_result_text(&plain, s), server_details(s));
    }
}

#[test]
fn version_report() {
    let colors = vec!["R".to_string(), "M".to_string(), "S".to_string()];
    assert_eq!(version_text(&colors), "Mblkc:S v0.2.2\n");
}

#[test]
fn help_report() {
    let colors = vec!["R".to_string(), "M".to_string(), "S".to_string()];
    let entries = vec![
        HelpEntry { name: "--run".to_string(), option: "--name".to_string(), description: "Run a command".to_string() },
        HelpEntry { name: "--help".to_string(), option: String::new(), description: "Show this".to_string() },
    ];
    let expected = "MUsage:\n-------------------------S\n\
Rblkc [S--run|srunR] [S--name|labelR]S name|label R[Scommand R[Sargument...R]]S\n\n\
R--run --name [ target ]:S\n \tRun a command\n\n\
R--help: S\n \tShow this\n\n\
R-C:S\tDisable color output\n\n\
`--srun` and `--run` cannot be used at the same time.\nThe same goes for `--name` and `--label`.\n\n";
    assert_eq!(help_text(&colors, &entries), expected);
}

fn steps(actions: &[Action]) -> Vec<(Step, String)> {
    actions.iter().map(|a| (a.step, a.target.clone())).collect()
}

#[test]
fn command_line_plans() {
    let some = |s: &str| Some(s.to_string());
    assert_eq!(steps(&plan(Mode::Run, &some("alpha"), &None)), vec![(Step::RunOnName, "alpha".to_string())]);
    assert_eq!(steps(&plan(Mode::Run, &None, &some("web"))), vec![(Step::RunOnLabel, "web".to_string())]);
    assert_eq!(
        steps(&plan(Mode::Exec, &some("a"), &some("b"))),
        vec![(Step::ExecOnName, "a".to_string()), (Step::ExecOnLabel, "b".to_string())]
    );
    assert_eq!(steps(&plan(Mode::Show, &None, &some("all"))), vec![(Step::ShowDetails, "all".to_string())]);
    assert!(plan(Mode::Run, &some(""), &None).is_empty());
    assert!(plan(Mode::Exec, &None, &None).is_empty());
}
