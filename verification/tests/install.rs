use cbc::install::{choose_server_binary, render_newsyslog_conf, render_plist, InstallConfig};
use std::path::PathBuf;

#[test]
fn choose_server_binary_prefers_sibling_then_path_then_errors() {
    let sibling = PathBuf::from("/x/chatbotchat-server");
    let on_path = PathBuf::from("/usr/local/bin/chatbotchat-server");

    assert_eq!(
        choose_server_binary(Some(sibling.clone()), Some(on_path.clone())).unwrap(),
        sibling
    );
    assert_eq!(
        choose_server_binary(None, Some(on_path.clone())).unwrap(),
        on_path
    );
    assert!(
        choose_server_binary(None, None).is_err(),
        "with no binary found anywhere, install must error rather than bake an unrunnable path"
    );
}

#[test]
fn render_plist_escapes_xml_special_chars_in_paths() {
    let config = InstallConfig {
        server_binary: "/opt/A & B/<svc>/chatbotchat-server".to_string(),
        port: 8484,
        log_dir: "/tmp/cbc-home/Logs".to_string(),
        plist_dir: "/tmp/cbc-home/LA".to_string(),
    };
    let contents = render_plist(&config);
    assert!(
        contents.contains("/opt/A &amp; B/&lt;svc&gt;/chatbotchat-server"),
        "binary path must be XML-escaped:\n{contents}"
    );
    assert!(
        !contents.contains("A & B"),
        "a raw, unescaped ampersand must not reach the plist:\n{contents}"
    );
}

#[test]
fn newsyslog_conf_names_both_log_paths_with_a_rotation_rule() {
    let config = InstallConfig {
        server_binary: "/opt/bin/chatbotchat-server".to_string(),
        port: 8484,
        log_dir: "/tmp/cbc-home/Logs".to_string(),
        plist_dir: "/tmp/cbc-home/LA".to_string(),
    };
    let conf = render_newsyslog_conf(&config);
    assert!(conf.contains("/tmp/cbc-home/Logs/chatbotchat.log"), "conf must name the stdout log:\n{conf}");
    assert!(
        conf.contains("/tmp/cbc-home/Logs/chatbotchat.err.log"),
        "conf must name the stderr log:\n{conf}"
    );
    assert!(
        conf.lines()
            .any(|l| l.contains("chatbotchat.log") && l.contains("644") && l.contains("5120")),
        "conf must carry a rotation rule (mode + size) for the log:\n{conf}"
    );
}
