//! `cbc install-daemon`: the launchd agent that keeps the daemon always on,
//! and the `newsyslog(8)` rule that bounds its logs. Rendering is pure; the
//! writes and the `launchctl` load are the application's.
use vstd::prelude::*;
use crate::num::{decimal, push_decimal};

verus! {

#[verifier::external_type_specification]
#[verifier::external_body]
pub struct ExPathBuf(std::path::PathBuf);

/// The launchd label; `<label>.plist` is the agent's file name.
pub const LABEL: &'static str = "com.chatbotchat.server";

/// Inputs for rendering and placing the launchd agent, as path texts.
#[derive(Debug, Clone, PartialEq, Eq)]
pub struct InstallConfig {
    pub server_binary: String,
    pub port: u16,
    pub log_dir: String,
    pub plist_dir: String,
}

/// Why no daemon binary could be chosen.
#[derive(Debug, Clone, Copy, PartialEq, Eq)]
pub enum InstallError {
    /// Neither a sibling of `cbc` nor a `chatbotchat-server` on `PATH` exists.
    ServerBinaryNotFound,
}

impl InstallError {
    /// The message shown to the user.
    pub fn message(&self) -> (r: &'static str)
        ensures
            r@ == "could not locate the chatbotchat-server binary next to cbc or on PATH; install it (cargo install --path bins/chatbotchat-server) or put it on PATH first"@,
    {
        match self {
            InstallError::ServerBinaryNotFound => "could not locate the chatbotchat-server binary next to cbc or on PATH; install it (cargo install --path bins/chatbotchat-server) or put it on PATH first",
        }
    }
}

/// Pick the daemon path: the sibling of the running `cbc` first, then the
/// one on `PATH`; with neither, an error rather than a bare name launchd
/// could not run.
pub fn choose_server_binary(
    beside: Option<std::path::PathBuf>,
    on_path: Option<std::path::PathBuf>,
) -> (r: Result<std::path::PathBuf, InstallError>)
    ensures
        r == match beside {
            Some(b) => Ok(b),
            None => match on_path {
                Some(p) => Ok(p),
                None => Err(InstallError::ServerBinaryNotFound),
            },
        },
{
    match beside {
        Some(b) => Ok(b),
        None => match on_path {
            Some(p) => Ok(p),
            None => Err(InstallError::ServerBinaryNotFound),
        },
    }
}

/// The escape of one character of XML text content.
pub open spec fn xml_escape_char(c: char) -> Seq<char> {
    if c == '&' {
        "&amp;"@
    } else if c == '<' {
        "&lt;"@
    } else if c == '>' {
        "&gt;"@
    } else {
        seq![c]
    }
}

/// XML text content: `&`, `<` and `>` escaped, everything else kept.
pub open spec fn spec_xml_escape(s: Seq<char>) -> Seq<char>
    decreases s.len(),
{
    if s.len() == 0 {
        Seq::empty()
    } else {
        spec_xml_escape(s.drop_last()) + xml_escape_char(s.last())
    }
}

/// Escape the characters that break XML text content.
pub fn xml_escape(s: &str) -> (r: String)
    ensures
        r@ == spec_xml_escape(s@),
{
    let mut out = String::new();
    let mut i: usize = 0;
    let n = s.unicode_len();
    assert(s@.take(0) =~= Seq::<char>::empty());
    while i < n
        invariant
            n == s@.len(),
            i <= n,
            out@ == spec_xml_escape(s@.take(i as int)),
        decreases n - i,
    {
        let c = s.get_char(i);
        if c == '&' {
            out.append("&amp;");
        } else if c == '<' {
            out.append("&lt;");
        } else if c == '>' {
            out.append("&gt;");
        } else {
            let one = s.substring_char(i, i + 1);
            assert(one@ =~= seq![c]);
            out.append(one);
        }
        assert(s@.take(i + 1).drop_last() =~= s@.take(i as int));
        i = i + 1;
    }
    assert(s@.take(n as int) =~= s@);
    out
}

/// Escaped text holds no raw `<` or `>`.
pub proof fn law_xml_escape_leaves_no_markup(s: Seq<char>)
    ensures
        forall|i: int| 0 <= i < spec_xml_escape(s).len() ==> spec_xml_escape(s)[i] != '<' && spec_xml_escape(s)[i] != '>',
    decreases s.len(),
{
    reveal_strlit("&amp;");
    reveal_strlit("&lt;");
    reveal_strlit("&gt;");
    if s.len() > 0 {
        law_xml_escape_leaves_no_markup(s.drop_last());
        let a = spec_xml_escape(s.drop_last());
        let b = xml_escape_char(s.last());
        assert forall|i: int| 0 <= i < (a + b).len() implies (a + b)[i] != '<' && (a + b)[i] != '>' by {
            if i >= a.len() {
                assert((a + b)[i] == b[i - a.len()]);
            }
        }
    }
}

/// `base` joined with a relative name: a `/` is put between them unless
/// `base` is empty or already ends with one.
pub open spec fn spec_path_join(base: Seq<char>, name: Seq<char>) -> Seq<char> {
    if base.len() == 0 || base.last() == '/' {
        base + name
    } else {
        base + "/"@ + name
    }
}

/// Join a relative file name onto a directory path.
pub fn path_join(base: &str, name: &str) -> (r: String)
    ensures
        r@ == spec_path_join(base@, name@),
{
    let mut s = String::from_str(base);
    let n = base.unicode_len();
    if n > 0 && base.get_char(n - 1) != '/' {
        s.append("/");
    }
    s.append(name);
    s
}

/// The daemon's stdout log.
pub fn stdout_log(config: &InstallConfig) -> (r: String)
    ensures
        r@ == spec_path_join(config.log_dir@, "chatbotchat.log"@),
{
    path_join(config.log_dir.as_str(), "chatbotchat.log")
}

/// The daemon's stderr log.
pub fn stderr_log(config: &InstallConfig) -> (r: String)
    ensures
        r@ == spec_path_join(config.log_dir@, "chatbotchat.err.log"@),
{
    path_join(config.log_dir.as_str(), "chatbotchat.err.log")
}

/// Where the agent is written: `<plist_dir>/<label>.plist`.
pub fn plist_path(config: &InstallConfig) -> (r: String)
    ensures
        r@ == spec_path_join(config.plist_dir@, "com.chatbotchat.server.plist"@),
{
    path_join(config.plist_dir.as_str(), "com.chatbotchat.server.plist")
}

/// Where the log-rotation rule set is staged: `<log_dir>/chatbotchat.newsyslog.conf`.
pub fn newsyslog_staging_path(config: &InstallConfig) -> (r: String)
    ensures
        r@ == spec_path_join(config.log_dir@, "chatbotchat.newsyslog.conf"@),
{
    path_join(config.log_dir.as_str(), "chatbotchat.newsyslog.conf")
}

/// The launchd agent: restart-on-crash and at-boot, logs under the log
/// directory, a 25 s exit grace window; every path XML-escaped.
pub open spec fn spec_render_plist(config: InstallConfig) -> Seq<char> {
    "<?xml version=\"1.0\" encoding=\"UTF-8\"?>\n<!DOCTYPE plist PUBLIC \"-//Apple//DTD PLIST 1.0//EN\" \"http://www.apple.com/DTDs/PropertyList-1.0.dtd\">\n<plist version=\"1.0\">\n<dict>\n    <key>Label</key>\n    <string>"@ + LABEL@ + "</string>\n\n    <key>ProgramArguments</key>\n    <array>\n        <string>"@ + spec_xml_escape(config.server_binary@) + "</string>\n        <string>--port</string>\n        <string>"@ + decimal(config.port as nat)
        + "</string>\n    </array>\n\n    <key>RunAtLoad</key>\n    <true/>\n\n    <key>KeepAlive</key>\n    <true/>\n\n    <key>ProcessType</key>\n    <string>Background</string>\n\n    <key>ExitTimeOut</key>\n    <integer>25</integer>\n\n    <key>StandardOutPath</key>\n    <string>"@ + spec_xml_escape(spec_path_join(config.log_dir@, "chatbotchat.log"@)) + "</string>\n\n    <key>StandardErrorPath</key>\n    <string>"@
        + spec_xml_escape(spec_path_join(config.log_dir@, "chatbotchat.err.log"@)) + "</string>\n</dict>\n</plist>\n"@
}

/// `w` occurs in `s` at some position.
pub open spec fn occurs_in(w: Seq<char>, s: Seq<char>) -> bool {
    exists|i: int| 0 <= i && i + w.len() <= s.len() && #[trigger] s.subrange(i, i + w.len()) == w
}

/// The launchd agent is always on: whatever the configuration, the rendered
/// plist starts the daemon at load (`RunAtLoad` true) and restarts it when it
/// exits (`KeepAlive` true).
pub proof fn law_plist_keeps_the_daemon_always_on(config: InstallConfig)
    ensures
        occurs_in("<key>RunAtLoad</key>\n    <true/>"@, spec_render_plist(config)),
        occurs_in("<key>KeepAlive</key>\n    <true/>"@, spec_render_plist(config)),
{
    let head = "<?xml version=\"1.0\" encoding=\"UTF-8\"?>\n<!DOCTYPE plist PUBLIC \"-//Apple//DTD PLIST 1.0//EN\" \"http://www.apple.com/DTDs/PropertyList-1.0.dtd\">\n<plist version=\"1.0\">\n<dict>\n    <key>Label</key>\n    <string>"@ + LABEL@ + "</string>\n\n    <key>ProgramArguments</key>\n    <array>\n        <string>"@ + spec_xml_escape(config.server_binary@) + "</string>\n        <string>--port</string>\n        <string>"@ + decimal(config.port as nat);
    let mid = "</string>\n    </array>\n\n    <key>RunAtLoad</key>\n    <true/>\n\n    <key>KeepAlive</key>\n    <true/>\n\n    <key>ProcessType</key>\n    <string>Background</string>\n\n    <key>ExitTimeOut</key>\n    <integer>25</integer>\n\n    <key>StandardOutPath</key>\n    <string>"@;
    let tail = spec_xml_escape(spec_path_join(config.log_dir@, "chatbotchat.log"@)) + "</string>\n\n    <key>StandardErrorPath</key>\n    <string>"@
        + spec_xml_escape(spec_path_join(config.log_dir@, "chatbotchat.err.log"@)) + "</string>\n</dict>\n</plist>\n"@;
    let s = spec_render_plist(config);
    assert(s =~= head + mid + tail);
    let run = "<key>RunAtLoad</key>\n    <true/>"@;
    let keep = "<key>KeepAlive</key>\n    <true/>"@;
    reveal_strlit("</string>\n    </array>\n\n    <key>RunAtLoad</key>\n    <true/>\n\n    <key>KeepAlive</key>\n    <true/>\n\n    <key>ProcessType</key>\n    <string>Background</string>\n\n    <key>ExitTimeOut</key>\n    <integer>25</integer>\n\n    <key>StandardOutPath</key>\n    <string>");
    reveal_strlit("<key>RunAtLoad</key>\n    <true/>");
    reveal_strlit("<key>KeepAlive</key>\n    <true/>");
    let a: int = head.len() as int + 28;
    let b: int = head.len() as int + 66;
    let rl: int = run.len() as int;
    let kl: int = keep.len() as int;
    assert(mid.subrange(28, 28 + rl) =~= run);
    assert(mid.subrange(66, 66 + kl) =~= keep);
    assert(s.subrange(a, a + rl) =~= mid.subrange(28, 28 + rl));
    assert(s.subrange(b, b + kl) =~= mid.subrange(66, 66 + kl));
}

/// Render the launchd agent (see `spec_render_plist`).
pub fn render_plist(config: &InstallConfig) -> (r: String)
    ensures
        r@ == spec_render_plist(*config),
{
    let binary = xml_escape(config.server_binary.as_str());
    let out_log = stdout_log(config);
    let err_log = stderr_log(config);
    let out = xml_escape(out_log.as_str());
    let err = xml_escape(err_log.as_str());
    let mut s = String::from_str("<?xml version=\"1.0\" encoding=\"UTF-8\"?>\n<!DOCTYPE plist PUBLIC \"-//Apple//DTD PLIST 1.0//EN\" \"http://www.apple.com/DTDs/PropertyList-1.0.dtd\">\n<plist version=\"1.0\">\n<dict>\n    <key>Label</key>\n    <string>");
    s.append(LABEL);
    s.append("</string>\n\n    <key>ProgramArguments</key>\n    <array>\n        <string>");
    s.append(binary.as_str());
    s.append("</string>\n        <string>--port</string>\n        <string>");
    push_decimal(&mut s, config.port as u64);
    s.append("</string>\n    </array>\n\n    <key>RunAtLoad</key>\n    <true/>\n\n    <key>KeepAlive</key>\n    <true/>\n\n    <key>ProcessType</key>\n    <string>Background</string>\n\n    <key>ExitTimeOut</key>\n    <integer>25</integer>\n\n    <key>StandardOutPath</key>\n    <string>");
    s.append(out.as_str());
    s.append("</string>\n\n    <key>StandardErrorPath</key>\n    <string>");
    s.append(err.as_str());
    s.append("</string>\n</dict>\n</plist>\n");
    s
}

/// The `newsyslog(8)` rule set: rotate each log at ~5 MB, keep 5 archives.
pub open spec fn spec_render_newsyslog_conf(config: InstallConfig) -> Seq<char> {
    "# chatbotchat log rotation for newsyslog(8).\n# Install: sudo cp this file to /etc/newsyslog.d/chatbotchat.conf\n# Fields: logfilename mode count size(KB) when\n"@
        + spec_path_join(config.log_dir@, "chatbotchat.log"@) + "\t644\t5\t5120\t*\n"@ + spec_path_join(
        config.log_dir@,
        "chatbotchat.err.log"@,
    ) + "\t644\t5\t5120\t*\n"@
}

/// Render the log-rotation rule set (see `spec_render_newsyslog_conf`).
pub fn render_newsyslog_conf(config: &InstallConfig) -> (r: String)
    ensures
        r@ == spec_render_newsyslog_conf(*config),
{
    let out = stdout_log(config);
    let err = stderr_log(config);
    let mut s = String::from_str(
        "# chatbotchat log rotation for newsyslog(8).\n# Install: sudo cp this file to /etc/newsyslog.d/chatbotchat.conf\n# Fields: logfilename mode count size(KB) when\n",
    );
    s.append(out.as_str());
    s.append("\t644\t5\t5120\t*\n");
    s.append(err.as_str());
    s.append("\t644\t5\t5120\t*\n");
    s
}

/// What `install-daemon` prints once the agent is loaded: where everything
/// went, how to register the MCP tools, auto-approve the bus, enable log
/// rotation, and verify or stop the agent.
pub open spec fn spec_next_steps(config: InstallConfig, plist: Seq<char>, newsyslog_conf: Seq<char>) -> Seq<char> {
    let port = decimal(config.port as nat);
    "Installed launchd agent: "@ + plist + "\n"@ + "Daemon: "@ + config.server_binary@ + " --port "@
        + port + "\n"@ + "Logs:   "@ + spec_path_join(config.log_dir@, "chatbotchat.log"@) + "\n"@
        + "        "@ + spec_path_join(config.log_dir@, "chatbotchat.err.log"@) + "\n"@ + "\n"@
        + "Register the MCP tools globally with your agent host (one time, all sessions):\n"@
        + "  an MCP server named chatbotchat that runs `cbc mcp` with CBC_SERVER=http://127.0.0.1:"@
        + port + "\n"@ + "\n"@
        + "Auto-approve the bus so cbc_send doesn't stall for per-call approval:\n"@
        + "  cbc allow-tools\n"@ + "\n"@ + "Enable log rotation (needs sudo; one time):\n"@
        + "  sudo cp "@ + newsyslog_conf + " /etc/newsyslog.d/chatbotchat.conf\n"@ + "\n"@
        + "Verify:  launchctl list | grep "@ + LABEL@ + "\n"@ + "Stop:    launchctl unload "@ + plist
        + "\n"@
}

/// The after-install instructions (see `spec_next_steps`).
pub fn next_steps(config: &InstallConfig, plist: &str, newsyslog_conf: &str) -> (r: String)
    ensures
        r@ == spec_next_steps(*config, plist@, newsyslog_conf@),
{
    let out = stdout_log(config);
    let err = stderr_log(config);
    let mut s = String::from_str("Installed launchd agent: ");
    s.append(plist);
    s.append("\n");
    s.append("Daemon: ");
    s.append(config.server_binary.as_str());
    s.append(" --port ");
    push_decimal(&mut s, config.port as u64);
    s.append("\n");
    s.append("Logs:   ");
    s.append(out.as_str());
    s.append("\n");
    s.append("        ");
    s.append(err.as_str());
    s.append("\n");
    s.append("\n");
    let ghost a = s@;
    s.append("Register the MCP tools globally with your agent host (one time, all sessions):\n");
    s.append("  an MCP server named chatbotchat that runs `cbc mcp` with CBC_SERVER=http://127.0.0.1:");
    push_decimal(&mut s, config.port as u64);
    s.append("\n");
    s.append("\n");
    s.append("Auto-approve the bus so cbc_send doesn't stall for per-call approval:\n");
    s.append("  cbc allow-tools\n");
    s.append("\n");
    s.append("Enable log rotation (needs sudo; one time):\n");
    s.append("  sudo cp ");
    s.append(newsyslog_conf);
    s.append(" /etc/newsyslog.d/chatbotchat.conf\n");
    s.append("\n");
    s.append("Verify:  launchctl list | grep ");
    s.append(LABEL);
    s.append("\n");
    s.append("Stop:    launchctl unload ");
    s.append(plist);
    s.append("\n");
    assert(s@ =~= spec_next_steps(*config, plist@, newsyslog_conf@));
    s
}

} // verus!
