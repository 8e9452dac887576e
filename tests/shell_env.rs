use codex_bridge::shell_env::{login_env_command, parse_login_environment};

fn sorted(mut v: Vec<(String, String)>) -> Vec<(String, String)> {
    v.sort();
    v
}

fn pair(k: &str, v: &str) -> (String, String) {
    (k.to_string(), v.to_string())
}

#[test]
fn parses_dump_after_marker() {
    let out = b"motd noise\n__CODEX_LOGIN_ENV_START__\0PATH=/bin\0HOME=/home/me\0=nokey\0NOEQUALS\0\0PATH=/usr/bin:/bin\0EMPTY=\0".to_vec();
    let vars = parse_login_environment(&out).expect("variables");
    assert_eq!(
        sorted(vars),
        vec![pair("EMPTY", ""), pair("HOME", "/home/me"), pair("PATH", "/usr/bin:/bin")]
    );
}

#[test]
fn value_keeps_later_equals_signs() {
    let out = b"__CODEX_LOGIN_ENV_START__\0OPTS=a=b=c".to_vec();
    assert_eq!(parse_login_environment(&out), Some(vec![pair("OPTS", "a=b=c")]));
}

#[test]
fn invalid_utf8_is_replaced() {
    let out = b"__CODEX_LOGIN_ENV_START__\0NAME=\xff\0".to_vec();
    assert_eq!(parse_login_environment(&out), Some(vec![pair("NAME", "\u{FFFD}")]));
}

#[test]
fn no_marker_or_no_variables() {
    assert_eq!(parse_login_environment(&b"PATH=/bin\0".to_vec()), None);
    assert_eq!(parse_login_environment(&b"__CODEX_LOGIN_ENV_START__PATH=/bin".to_vec()), None);
    assert_eq!(parse_login_environment(&b"__CODEX_LOGIN_ENV_START__\0\0=x\0".to_vec()), None);
    assert_eq!(parse_login_environment(&Vec::new()), None);
}

#[test]
fn first_marker_counts() {
    let out = b"__CODEX_LOGIN_ENV_START__\0A=1\0__CODEX_LOGIN_ENV_START__\0B=2\0".to_vec();
    let vars = parse_login_environment(&out).expect("variables");
    assert_eq!(sorted(vars), vec![pair("A", "1"), pair("B", "2")]);
}

#[test]
fn commands() {
    assert_eq!(
        login_env_command(Some("/repo/it's")),
        "cd '/repo/it'\\''s' && printf '__CODEX_LOGIN_ENV_START__\\0' && env -0"
    );
    assert_eq!(login_env_command(None), "printf '__CODEX_LOGIN_ENV_START__\\0'; env -0");
}
