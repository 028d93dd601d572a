use action_cli::command::{need_of, parse_key_val, respond, trim_white_space, CliError, Command, Need};
use action_cli::encode::{decimal_string, issue, issue_command, log_command};
use action_cli::escape::{escape_data, escape_property};
use action_cli::event::comment_url;

fn props(pairs: &[(&str, &str)]) -> Vec<(String, String)> {
    pairs.iter().map(|(k, v)| (k.to_string(), v.to_string())).collect()
}

fn unescape(s: &str) -> String {
    s.replace("%0A", "\n").replace("%0D", "\r").replace("%3A", ":").replace("%2C", ",").replace("%25", "%")
}

#[test]
fn set_env_line_escapes_newline() {
    let line = issue_command("set-env", "hello\nworld", props(&[("name", "FOO")]));
    assert_eq!(line, "::set-env name=FOO::hello%0Aworld");
}

#[test]
fn warning_line_with_two_properties() {
    let line = issue_command("warning", "bad thing", props(&[("file", "a.txt"), ("line", "3")]));
    assert_eq!(line, "::warning file=a.txt,line=3::bad thing");
}

#[test]
fn message_keeps_comma_and_colon() {
    assert_eq!(issue_command("add-mask", "secret,val", vec![]), "::add-mask::secret,val");
    assert_eq!(issue("add-mask", "a:b"), "::add-mask::a:b");
}

#[test]
fn empty_properties_give_no_block() {
    assert_eq!(issue_command("group", "build", vec![]), "::group::build");
    assert_eq!(issue("endgroup", ""), "::endgroup::");
}

#[test]
fn data_escape_order() {
    assert_eq!(escape_data("%"), "%25");
    assert_eq!(escape_data("\r"), "%0D");
    assert_eq!(escape_data("\n"), "%0A");
    assert_eq!(escape_data("%\r\n%"), "%25%0D%0A%25");
    assert_eq!(escape_data("100%\nok"), "100%25%0Aok");
    assert_eq!(escape_data("a,b:c"), "a,b:c");
    assert_eq!(escape_data(""), "");
}

#[test]
fn data_escape_round_trip() {
    for s in ["plain", "a%b", "line\r\nnext", "%%\n\r%", "ünïcödé\n"] {
        assert_eq!(unescape(&escape_data(s)), s);
    }
}

#[test]
fn property_escape_colon_comma_percent() {
    assert_eq!(escape_property("a:b,c"), "a%3Ab%2Cc");
    assert_eq!(escape_property("%:,"), "%25%3A%2C");
    assert_eq!(escape_property("C:\\dir,x\n"), "C%3A\\dir%2Cx%0A");
    for s in ["%3A", ":,%\n", "k=v,w:z"] {
        assert_eq!(unescape(&escape_property(s)), s);
    }
}

#[test]
fn property_values_escaped_in_line() {
    let line = issue_command("error", "x: y", props(&[("file", "C:/a,b.rs"), ("title", "50%")]));
    assert_eq!(line, "::error file=C%3A/a%2Cb.rs,title=50%25::x: y");
}

#[test]
fn log_lines_with_locations() {
    assert_eq!(
        log_command("warning", "bad thing", Some("a.txt".to_string()), Some(3), None),
        "::warning file=a.txt,line=3::bad thing"
    );
    assert_eq!(log_command("debug", "m", None, Some(120), Some(7)), "::debug line=120,col=7::m");
    assert_eq!(log_command("error", "m", None, None, None), "::error::m");
}

#[test]
fn decimal_numbers() {
    assert_eq!(decimal_string(0), "0");
    assert_eq!(decimal_string(9), "9");
    assert_eq!(decimal_string(10), "10");
    assert_eq!(decimal_string(u64::MAX), "18446744073709551615");
}

#[test]
fn key_val_parsing() {
    assert_eq!(parse_key_val("name=FOO"), Ok(("name".to_string(), "FOO".to_string())));
    assert_eq!(parse_key_val("a=b=c"), Ok(("a".to_string(), "b=c".to_string())));
    assert_eq!(parse_key_val("=v"), Ok(("".to_string(), "v".to_string())));
    assert_eq!(parse_key_val("k="), Ok(("k".to_string(), "".to_string())));
    assert_eq!(
        parse_key_val("novalue"),
        Err("invalid KEY=value: no `=` found in `novalue`".to_string())
    );
}

fn variable(n: Need) -> String {
    match n {
        Need::Variable(k) => k,
        other => panic!("expected a variable, got {:?}", other),
    }
}

#[test]
fn get_input_key_and_trim() {
    let cmd = Command::GetInput { name: "my name".to_string(), required: false };
    assert_eq!(variable(need_of(&cmd)), "INPUT_MY_NAME");
    assert_eq!(respond(cmd.clone(), Some("  value \n".to_string())), Ok("value".to_string()));
    assert_eq!(respond(cmd, None), Ok("".to_string()));
    let req = Command::GetInput { name: "my name".to_string(), required: true };
    assert_eq!(respond(req, None), Err(CliError::MissingRequiredValue));
}

#[test]
fn get_state_key_and_absent() {
    let cmd = Command::GetState { name: "X".to_string() };
    assert_eq!(variable(need_of(&cmd)), "STATE_X");
    assert_eq!(respond(cmd.clone(), Some(" kept ".to_string())), Ok(" kept ".to_string()));
    assert_eq!(respond(cmd, None), Ok("".to_string()));
}

#[test]
fn directives_that_need_nothing() {
    let cases = vec![
        (Command::SetEnv { key: "FOO".into(), value: "hello\nworld".into() }, "::set-env name=FOO::hello%0Aworld"),
        (Command::SetOutput { name: "out".into(), value: "v".into() }, "::set-output name=out::v"),
        (Command::AddMask { value: "secret,val".into() }, "::add-mask::secret,val"),
        (Command::StopCommands { endtoken: "tok".into() }, "::stop-commands::tok"),
        (Command::StartGroup { name: "build".into() }, "::group::build"),
        (Command::EndGroup, "::endgroup::"),
        (Command::SaveState { name: "s".into(), value: "1".into() }, "::save-state name=s::1"),
        (Command::Info { message: "as is %\n".into() }, "as is %\n"),
        (
            Command::IssueCommand { properties: props(&[("a", "b:c")]), command: "x".into(), message: None },
            "::x a=b%3Ac::",
        ),
        (
            Command::Warning { file: Some("a.txt".into()), line: Some(3), col: None, message: "bad thing".into() },
            "::warning file=a.txt,line=3::bad thing",
        ),
    ];
    for (cmd, want) in cases {
        assert!(matches!(need_of(&cmd), Need::Nothing));
        assert_eq!(respond(cmd, None), Ok(want.to_string()));
    }
}

#[test]
fn export_and_debug_flag() {
    let cmd = Command::Export { key: "HOME".to_string() };
    assert_eq!(variable(need_of(&cmd)), "HOME");
    assert_eq!(respond(cmd.clone(), Some("/root".to_string())), Ok("::set-env name=HOME::/root".to_string()));
    assert_eq!(respond(cmd, None), Err(CliError::MissingRequiredValue));
    assert_eq!(variable(need_of(&Command::IsDebug)), "RUNNER_DEBUG");
    assert_eq!(respond(Command::IsDebug, Some("1".to_string())), Ok("1".to_string()));
    assert_eq!(respond(Command::IsDebug, None), Err(CliError::MissingRequiredValue));
}

#[test]
fn add_path_and_comment() {
    let cmd = Command::AddPath { path: "bin".to_string() };
    assert!(matches!(need_of(&cmd), Need::CanonicalPath(ref p) if p == "bin"));
    assert_eq!(respond(cmd.clone(), Some("/w/bin".to_string())), Ok("::add-path::/w/bin".to_string()));
    assert_eq!(respond(cmd, None), Err(CliError::UnresolvableResource));
    let post = Command::PostComment { message: "hi".to_string(), secret: "GITHUB_TOKEN".to_string() };
    assert!(matches!(need_of(&post), Need::CommentPost));
    assert_eq!(respond(post.clone(), Some(String::new())), Ok("::post-comment::success".to_string()));
    assert_eq!(respond(post, None), Err(CliError::UnresolvableResource));
}

#[test]
fn comment_url_from_event() {
    let event = r#"{"pull_request": {"comments_url": "https://example.test/c/1"}}"#;
    assert_eq!(comment_url(event), Ok("https://example.test/c/1".to_string()));
    assert_eq!(comment_url("{\"pull_request\": {}}"), Err(CliError::UnresolvableResource));
    assert_eq!(comment_url("not json"), Err(CliError::UnresolvableResource));
    let number = r#"{"pull_request": {"comments_url": 7}}"#;
    assert_eq!(comment_url(number), Err(CliError::UnresolvableResource));
}

#[test]
fn trimming_unicode_white_space() {
    assert_eq!(trim_white_space("\t a b \r\n"), "a b");
    assert_eq!(trim_white_space("\u{3000}\u{a0}x\u{85}\u{2009}"), "x");
    assert_eq!(trim_white_space("\u{200b}x\u{200b}"), "\u{200b}x\u{200b}");
    assert_eq!(trim_white_space(" \u{b} "), "");
    assert_eq!(trim_white_space(""), "");
    for s in ["  in  side ", "\u{1680}q", "none"] {
        assert_eq!(trim_white_space(s), s.trim());
    }
}
