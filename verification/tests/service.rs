use diffodil::assets::{asset_path, embedded_response, EmbeddedResponse};
use diffodil::service::{
    gui_domain, install, log_path, plist_path, render_plist, restart, service_target,
    uninstall, unsupported_message, xml_escape, ServiceAction,
};

#[test]
fn escaping_xml() {
    assert_eq!(xml_escape("a&b<c>d\"e'f"), "a&amp;b&lt;c&gt;d&quot;e&apos;f");
    assert_eq!(xml_escape("plain/path"), "plain/path");
    assert_eq!(xml_escape(""), "");
}

#[test]
fn service_paths() {
    assert_eq!(
        plist_path(Some("/Users/me")).as_deref(),
        Some("/Users/me/Library/LaunchAgents/com.diffodil.server.plist")
    );
    assert_eq!(plist_path(Some("/")).as_deref(), Some("/Library/LaunchAgents/com.diffodil.server.plist"));
    assert_eq!(plist_path(Some("")), None);
    assert_eq!(plist_path(None), None);
    assert_eq!(log_path(Some("/h/")).as_deref(), Some("/h/Library/Logs/diffodil.log"));
    assert_eq!(gui_domain(501), "gui/501");
    assert_eq!(service_target(501), "gui/501/com.diffodil.server");
}

#[test]
fn plist_text() {
    let p = render_plist("/bin/diffodil", "/src & co", 8765, Some("/Users/me"));
    let expected = "<?xml version=\"1.0\" encoding=\"UTF-8\"?>
<!DOCTYPE plist PUBLIC \"-//Apple//DTD PLIST 1.0//EN\" \"http://www.apple.com/DTDs/PropertyList-1.0.dtd\">
<plist version=\"1.0\">
<dict>
    <key>Label</key>
    <string>com.diffodil.server</string>
    <key>ProgramArguments</key>
    <array>
        <string>/bin/diffodil</string>
        <string>/src &amp; co</string>
        <string>--port</string>
        <string>8765</string>
    </array>
    <key>RunAtLoad</key>
    <true/>
    <key>KeepAlive</key>
    <true/>
    <key>StandardOutPath</key>
    <string>/Users/me/Library/Logs/diffodil.log</string>
    <key>StandardErrorPath</key>
    <string>/Users/me/Library/Logs/diffodil.log</string>
</dict>
</plist>
";
    assert_eq!(p, expected);
    let q = render_plist("/x", "/y", 1, None);
    assert!(q.contains("<string>/tmp/diffodil.log</string>"));
}

#[test]
fn unsupported_platform() {
    let msg = unsupported_message("linux");
    assert_eq!(
        msg,
        "installing diffodil as a service is not supported on linux yet (only macOS). Run diffodil directly, or under your platform's service manager."
    );
    for acts in [
        install("linux", "/r", Ok("/r".into()), Ok("/bin/d".into()), 8765, false, Some("/h"), 1),
        uninstall("linux", Some("/h"), 1),
        restart("linux", 1),
    ] {
        assert_eq!(acts.len(), 1);
        match &acts[0] {
            ServiceAction::Fail { message } => assert_eq!(message, &msg),
            _ => panic!("expected a failure"),
        }
    }
}

#[test]
fn install_on_macos() {
    let acts = install("macos", "r", Ok("/r".into()), Ok("/p/target/release/diffodil".into()), 9000, false, Some("/Users/me"), 501);
    assert_eq!(acts.len(), 8);
    assert!(matches!(&acts[0], ServiceAction::Warn { .. }));
    match &acts[1] {
        ServiceAction::CreateDir { path } => assert_eq!(path, "/Users/me/Library/LaunchAgents"),
        _ => panic!("expected a directory"),
    }
    match &acts[6] {
        ServiceAction::Launchctl { args, failure } => {
            assert_eq!(args[0], "bootstrap");
            assert_eq!(args[1], "gui/501");
            assert!(failure.is_some());
        }
        _ => panic!("expected bootstrap"),
    }
    match &acts[7] {
        ServiceAction::Print { text } => {
            assert!(text.starts_with("diffodil service installed and started.\n\nIt is now running at http://0.0.0.0:9000"));
            assert!(text.contains("\nStatus:  launchctl print gui/501/com.diffodil.server\n"));
        }
        _ => panic!("expected the final message"),
    }
    let printed = install("macos", "r", Ok("/r".into()), Ok("/bin/d".into()), 1, true, None, 0);
    assert!(matches!(&printed[0], ServiceAction::PrintRaw { .. }));
    let bad = install("macos", "nowhere", Err("No such file".into()), Ok("/bin/d".into()), 1, false, None, 0);
    match &bad[0] {
        ServiceAction::Fail { message } => assert_eq!(message, "cannot resolve root path 'nowhere': No such file"),
        _ => panic!("expected a failure"),
    }
    let no_home = install("macos", "r", Ok("/r".into()), Ok("/bin/d".into()), 1, false, None, 0);
    assert_eq!(no_home.len(), 1);
    let un = uninstall("macos", Some("/h"), 3);
    assert_eq!(un.len(), 3);
    assert!(matches!(&un[1], ServiceAction::RemoveFile { .. }));
    let re = restart("macos", 3);
    assert_eq!(re.len(), 2);
}

#[test]
fn embedded_assets() {
    assert_eq!(asset_path(""), "index.html");
    assert_eq!(asset_path("/"), "index.html");
    assert_eq!(asset_path("/app.js"), "app.js");
    assert_eq!(asset_path("css/x.css"), "css/x.css");
    match embedded_response("app.js", Some(vec![1, 2]), None) {
        EmbeddedResponse::Found { content_type, data } => {
            assert_eq!(content_type, "text/javascript");
            assert_eq!(data, vec![1, 2]);
        }
        EmbeddedResponse::NotFound => panic!("expected the file"),
    }
    match embedded_response("x.unknownext", Some(vec![]), None) {
        EmbeddedResponse::Found { content_type, .. } => assert_eq!(content_type, "application/octet-stream"),
        EmbeddedResponse::NotFound => panic!("expected the file"),
    }
    match embedded_response("route", None, Some(vec![9])) {
        EmbeddedResponse::Found { content_type, data } => {
            assert_eq!(content_type, "text/html");
            assert_eq!(data, vec![9]);
        }
        EmbeddedResponse::NotFound => panic!("expected index.html"),
    }
    assert!(matches!(embedded_response("x", None, None), EmbeddedResponse::NotFound));
}
