//! The launchd service definition: its plist, where it lives, and the
//! `launchctl` steps that install, remove and restart it.
use vstd::prelude::*;
use crate::git::{opt_view, strings_view};
use crate::text::{decimal, ends_with, ends_with_exec, starts_with, push_all, push_decimal, push_str, string_from_chars, to_chars};

verus! {

/// The launchd label of the service.
pub open spec fn label() -> Seq<char> {
    "com.diffodil.server"@
}

// ---------------------------------------------------------------------------
// XML escaping
// ---------------------------------------------------------------------------

pub open spec fn amp_entity() -> Seq<char> {
    seq!['&', 'a', 'm', 'p', ';']
}

pub open spec fn lt_entity() -> Seq<char> {
    seq!['&', 'l', 't', ';']
}

pub open spec fn gt_entity() -> Seq<char> {
    seq!['&', 'g', 't', ';']
}

pub open spec fn quot_entity() -> Seq<char> {
    seq!['&', 'q', 'u', 'o', 't', ';']
}

pub open spec fn apos_entity() -> Seq<char> {
    seq!['&', 'a', 'p', 'o', 's', ';']
}

/// The XML text for one character.
pub open spec fn escape_char(c: char) -> Seq<char> {
    if c == '&' {
        amp_entity()
    } else if c == '<' {
        lt_entity()
    } else if c == '>' {
        gt_entity()
    } else if c == '"' {
        quot_entity()
    } else if c == '\'' {
        apos_entity()
    } else {
        seq![c]
    }
}

/// `s` with `&`, `<`, `>`, `"` and `'` written as XML entities.
pub open spec fn xml_escape_model(s: Seq<char>) -> Seq<char>
    decreases s.len(),
{
    if s.len() == 0 {
        seq![]
    } else {
        escape_char(s[0]) + xml_escape_model(s.drop_first())
    }
}

pub proof fn lemma_escape_push(s: Seq<char>, c: char)
    ensures
        xml_escape_model(s.push(c)) == xml_escape_model(s) + escape_char(c),
    decreases s.len(),
{
    if s.len() == 0 {
        assert(s.push(c).drop_first() =~= Seq::<char>::empty());
        assert(xml_escape_model(s.push(c).drop_first()) == Seq::<char>::empty());
        assert(s =~= Seq::<char>::empty());
        assert(xml_escape_model(s) == Seq::<char>::empty());
        assert(xml_escape_model(s.push(c)) =~= escape_char(c) + Seq::<char>::empty());
    } else {
        assert(s.push(c).drop_first() =~= s.drop_first().push(c));
        lemma_escape_push(s.drop_first(), c);
        assert(xml_escape_model(s.push(c)) =~= escape_char(s[0]) + (xml_escape_model(s.drop_first())
            + escape_char(c)));
    }
}

/// XML text with the five entities read back as characters.
pub open spec fn xml_unescape_model(s: Seq<char>) -> Seq<char>
    decreases s.len(),
{
    if s.len() == 0 {
        seq![]
    } else if starts_with(s, amp_entity()) {
        seq!['&'] + xml_unescape_model(s.skip(5))
    } else if starts_with(s, lt_entity()) {
        seq!['<'] + xml_unescape_model(s.skip(4))
    } else if starts_with(s, gt_entity()) {
        seq!['>'] + xml_unescape_model(s.skip(4))
    } else if starts_with(s, quot_entity()) {
        seq!['"'] + xml_unescape_model(s.skip(6))
    } else if starts_with(s, apos_entity()) {
        seq!['\''] + xml_unescape_model(s.skip(6))
    } else {
        seq![s[0]] + xml_unescape_model(s.drop_first())
    }
}

proof fn lemma_not_prefix(x: Seq<char>, p: Seq<char>, i: int)
    requires
        0 <= i < p.len(),
        i < x.len(),
        x[i] != p[i],
    ensures
        !starts_with(x, p),
{
    if starts_with(x, p) {
        assert(x.take(p.len() as int)[i] == x[i]);
    }
}

/// Reading the escaped text back gives the text that was escaped: escaping loses
/// nothing and no two texts escape alike.
pub proof fn law_xml_escape_roundtrip(s: Seq<char>)
    ensures
        xml_unescape_model(xml_escape_model(s)) == s,
    decreases s.len(),
{
    if s.len() > 0 {
        let c = s[0];
        let rest = s.drop_first();
        law_xml_escape_roundtrip(rest);
        let r = xml_escape_model(rest);
        let e = escape_char(c);
        let x = e + r;
        assert(xml_escape_model(s) == x);
        if c == '&' {
            assert(x.take(5) =~= amp_entity());
            assert(x.skip(5) =~= r);
        } else if c == '<' {
            lemma_not_prefix(x, amp_entity(), 1);
            assert(x.take(4) =~= lt_entity());
            assert(x.skip(4) =~= r);
        } else if c == '>' {
            lemma_not_prefix(x, amp_entity(), 1);
            lemma_not_prefix(x, lt_entity(), 1);
            assert(x.take(4) =~= gt_entity());
            assert(x.skip(4) =~= r);
        } else if c == '"' {
            lemma_not_prefix(x, amp_entity(), 1);
            lemma_not_prefix(x, lt_entity(), 1);
            lemma_not_prefix(x, gt_entity(), 1);
            assert(x.take(6) =~= quot_entity());
            assert(x.skip(6) =~= r);
        } else if c == '\'' {
            lemma_not_prefix(x, amp_entity(), 2);
            lemma_not_prefix(x, lt_entity(), 1);
            lemma_not_prefix(x, gt_entity(), 1);
            lemma_not_prefix(x, quot_entity(), 1);
            assert(x.take(6) =~= apos_entity());
            assert(x.skip(6) =~= r);
        } else {
            lemma_not_prefix(x, amp_entity(), 0);
            lemma_not_prefix(x, lt_entity(), 0);
            lemma_not_prefix(x, gt_entity(), 0);
            lemma_not_prefix(x, quot_entity(), 0);
            lemma_not_prefix(x, apos_entity(), 0);
            assert(x.drop_first() =~= r);
        }
        assert(seq![c] + rest =~= s);
    }
}

fn push_escaped_char(v: &mut Vec<char>, c: char)
    ensures
        final(v)@ == old(v)@ + escape_char(c),
{
    if c == '&' {
        push_all(v, ['&', 'a', 'm', 'p', ';'].as_slice());
    } else if c == '<' {
        push_all(v, ['&', 'l', 't', ';'].as_slice());
    } else if c == '>' {
        push_all(v, ['&', 'g', 't', ';'].as_slice());
    } else if c == '"' {
        push_all(v, ['&', 'q', 'u', 'o', 't', ';'].as_slice());
    } else if c == '\'' {
        push_all(v, ['&', 'a', 'p', 'o', 's', ';'].as_slice());
    } else {
        v.push(c);
    }
}

fn push_escaped(v: &mut Vec<char>, s: &str)
    ensures
        final(v)@ == old(v)@ + xml_escape_model(s@),
{
    let cs = to_chars(s);
    let mut i: usize = 0;
    assert(cs@.take(0) =~= Seq::<char>::empty());
    while i < cs.len()
        invariant
            i <= cs@.len(),
            cs@ == s@,
            v@ == old(v)@ + xml_escape_model(cs@.take(i as int)),
        decreases cs@.len() - i,
    {
        proof {
            lemma_escape_push(cs@.take(i as int), cs@[i as int]);
            assert(cs@.take(i + 1) =~= cs@.take(i as int).push(cs@[i as int]));
        }
        push_escaped_char(v, cs[i]);
        i = i + 1;
    }
    assert(cs@.take(i as int) =~= cs@);
}

/// `s` with the XML special characters written as entities.
pub fn xml_escape(s: &str) -> (r: String)
    ensures
        r@ == xml_escape_model(s@),
{
    let mut v: Vec<char> = Vec::new();
    push_escaped(&mut v, s);
    assert(v@ =~= xml_escape_model(s@));
    string_from_chars(v.as_slice())
}

// ---------------------------------------------------------------------------
// Paths
// ---------------------------------------------------------------------------

/// The home directory, when the variable is set and not empty.
pub open spec fn home_model(raw: Option<Seq<char>>) -> Option<Seq<char>> {
    match raw {
        Some(h) => if h.len() > 0 {
            Some(h)
        } else {
            None
        },
        None => None,
    }
}

/// `base` joined with the relative path `part` (`Path::join`).
pub open spec fn path_join(base: Seq<char>, part: Seq<char>) -> Seq<char> {
    if base.len() == 0 || ends_with(base, seq!['/']) {
        base + part
    } else {
        base + seq!['/'] + part
    }
}

pub open spec fn plist_path_model(raw_home: Option<Seq<char>>) -> Option<Seq<char>> {
    match home_model(raw_home) {
        Some(h) => Some(
            path_join(path_join(path_join(h, "Library"@), "LaunchAgents"@), label() + ".plist"@),
        ),
        None => None,
    }
}

pub open spec fn log_path_model(raw_home: Option<Seq<char>>) -> Option<Seq<char>> {
    match home_model(raw_home) {
        Some(h) => Some(path_join(path_join(path_join(h, "Library"@), "Logs"@), "diffodil.log"@)),
        None => None,
    }
}

fn push_join(v: &mut Vec<char>, part: &str)
    ensures
        final(v)@ == path_join(old(v)@, part@),
{
    let slash = ['/'];
    assert(slash@ == seq!['/']);
    if v.len() == 0 || ends_with_exec(v.as_slice(), slash.as_slice()) {
        push_str(v, part);
    } else {
        v.push('/');
        push_str(v, part);
        assert(v@ =~= old(v)@ + seq!['/'] + part@);
    }
}

fn home_chars(home: Option<&str>) -> (r: Option<Vec<char>>)
    ensures
        match r {
            Some(v) => home_model(crate::commands::opt_str_view(home)) == Some(v@),
            None => home_model(crate::commands::opt_str_view(home)) is None,
        },
{
    match home {
        Some(h) => {
            let v = to_chars(h);
            if v.len() > 0 {
                Some(v)
            } else {
                None
            }
        },
        None => None,
    }
}

/// `~/Library/LaunchAgents/com.diffodil.server.plist`, from the value of
/// `HOME`.
pub fn plist_path(home: Option<&str>) -> (r: Option<String>)
    ensures
        opt_view(r) == plist_path_model(crate::commands::opt_str_view(home)),
{
    match home_chars(home) {
        Some(mut v) => {
            push_join(&mut v, "Library");
            push_join(&mut v, "LaunchAgents");
            push_join(&mut v, "com.diffodil.server.plist");
            assert("com.diffodil.server.plist"@ =~= label() + ".plist"@) by {
                reveal_strlit("com.diffodil.server.plist");
                reveal_strlit("com.diffodil.server");
                reveal_strlit(".plist");
            }
            Some(string_from_chars(v.as_slice()))
        },
        None => None,
    }
}

/// `~/Library/Logs/diffodil.log`, from the value of `HOME`.
pub fn log_path(home: Option<&str>) -> (r: Option<String>)
    ensures
        opt_view(r) == log_path_model(crate::commands::opt_str_view(home)),
{
    match home_chars(home) {
        Some(mut v) => {
            push_join(&mut v, "Library");
            push_join(&mut v, "Logs");
            push_join(&mut v, "diffodil.log");
            Some(string_from_chars(v.as_slice()))
        },
        None => None,
    }
}

// ---------------------------------------------------------------------------
// The plist
// ---------------------------------------------------------------------------

pub open spec fn plist_head() -> Seq<char> {
    "<?xml version=\"1.0\" encoding=\"UTF-8\"?>\n<!DOCTYPE plist PUBLIC \"-//Apple//DTD PLIST 1.0//EN\" \"http://www.apple.com/DTDs/PropertyList-1.0.dtd\">\n<plist version=\"1.0\">\n<dict>\n    <key>Label</key>\n    <string>"@
}

pub open spec fn plist_after_label() -> Seq<char> {
    "</string>\n    <key>ProgramArguments</key>\n    <array>\n        <string>"@
}

pub open spec fn plist_between_args() -> Seq<char> {
    "</string>\n        <string>"@
}

pub open spec fn plist_before_port() -> Seq<char> {
    "</string>\n        <string>--port</string>\n        <string>"@
}

pub open spec fn plist_after_port() -> Seq<char> {
    "</string>\n    </array>\n    <key>RunAtLoad</key>\n    <true/>\n    <key>KeepAlive</key>\n    <true/>\n    <key>StandardOutPath</key>\n    <string>"@
}

pub open spec fn plist_between_logs() -> Seq<char> {
    "</string>\n    <key>StandardErrorPath</key>\n    <string>"@
}

pub open spec fn plist_tail() -> Seq<char> {
    "</string>\n</dict>\n</plist>\n"@
}

/// The log file: `~/Library/Logs/diffodil.log`, or `/tmp/diffodil.log`
/// without a home directory.
pub open spec fn plist_log_model(raw_home: Option<Seq<char>>) -> Seq<char> {
    match log_path_model(raw_home) {
        Some(p) => p,
        None => "/tmp/diffodil.log"@,
    }
}

/// The launchd plist that runs `exe root --port port` at login and keeps it
/// running, logging to the log file.
pub open spec fn plist_model(exe: Seq<char>, root: Seq<char>, port: u16, raw_home: Option<Seq<char>>) -> Seq<char> {
    let log = xml_escape_model(plist_log_model(raw_home));
    plist_head() + label() + plist_after_label() + xml_escape_model(exe) + plist_between_args()
        + xml_escape_model(root) + plist_before_port() + decimal(port as nat) + plist_after_port()
        + log + plist_between_logs() + log + plist_tail()
}

/// The launchd plist of the service.
pub fn render_plist(exe: &str, root: &str, port: u16, home: Option<&str>) -> (r: String)
    ensures
        r@ == plist_model(exe@, root@, port, crate::commands::opt_str_view(home)),
{
    let log = match log_path(home) {
        Some(p) => p,
        None => "/tmp/diffodil.log".to_owned(),
    };
    let mut v: Vec<char> = Vec::new();
    push_str(&mut v, "<?xml version=\"1.0\" encoding=\"UTF-8\"?>\n<!DOCTYPE plist PUBLIC \"-//Apple//DTD PLIST 1.0//EN\" \"http://www.apple.com/DTDs/PropertyList-1.0.dtd\">\n<plist version=\"1.0\">\n<dict>\n    <key>Label</key>\n    <string>");
    push_str(&mut v, "com.diffodil.server");
    push_str(&mut v, "</string>\n    <key>ProgramArguments</key>\n    <array>\n        <string>");
    push_escaped(&mut v, exe);
    push_str(&mut v, "</string>\n        <string>");
    push_escaped(&mut v, root);
    push_str(&mut v, "</string>\n        <string>--port</string>\n        <string>");
    push_decimal(&mut v, port as u64);
    push_str(&mut v, "</string>\n    </array>\n    <key>RunAtLoad</key>\n    <true/>\n    <key>KeepAlive</key>\n    <true/>\n    <key>StandardOutPath</key>\n    <string>");
    push_escaped(&mut v, log.as_str());
    push_str(&mut v, "</string>\n    <key>StandardErrorPath</key>\n    <string>");
    push_escaped(&mut v, log.as_str());
    push_str(&mut v, "</string>\n</dict>\n</plist>\n");
    assert(v@ =~= plist_model(exe@, root@, port, crate::commands::opt_str_view(home)));
    string_from_chars(v.as_slice())
}

// ---------------------------------------------------------------------------
// launchctl
// ---------------------------------------------------------------------------

/// `gui/<uid>`, the launchd domain of the user's session.
pub open spec fn gui_domain_model(uid: u32) -> Seq<char> {
    "gui/"@ + decimal(uid as nat)
}

/// `gui/<uid>/com.diffodil.server`.
pub open spec fn service_target_model(uid: u32) -> Seq<char> {
    gui_domain_model(uid) + "/"@ + label()
}

pub fn gui_domain(uid: u32) -> (r: String)
    ensures
        r@ == gui_domain_model(uid),
{
    crate::commands::str_with_number("gui/", uid)
}

pub fn service_target(uid: u32) -> (r: String)
    ensures
        r@ == service_target_model(uid),
{
    let mut v: Vec<char> = Vec::new();
    push_str(&mut v, "gui/");
    push_decimal(&mut v, uid as u64);
    push_str(&mut v, "/");
    push_str(&mut v, "com.diffodil.server");
    assert(v@ =~= service_target_model(uid));
    string_from_chars(v.as_slice())
}

/// The message for a platform without launchd support.
pub open spec fn unsupported_message_model(os: Seq<char>) -> Seq<char> {
    "installing diffodil as a service is not supported on "@ + os
        + " yet (only macOS). Run diffodil directly, or under your platform's service manager."@
}

pub fn unsupported_message(os: &str) -> (r: String)
    ensures
        r@ == unsupported_message_model(os@),
{
    let mut v: Vec<char> = Vec::new();
    push_str(&mut v, "installing diffodil as a service is not supported on ");
    push_str(&mut v, os);
    push_str(&mut v, " yet (only macOS). Run diffodil directly, or under your platform's service manager.");
    assert(v@ =~= unsupported_message_model(os@));
    string_from_chars(v.as_slice())
}

// ---------------------------------------------------------------------------
// Installing, removing and restarting the service
// ---------------------------------------------------------------------------

/// One thing to do on the way to installing, removing or restarting the
/// service.
pub enum ServiceAction {
    /// Print `diffodil: <message>` to stderr and exit with status 1.
    Fail { message: String },
    /// Print the text and a newline to stdout.
    Print { text: String },
    /// Print the text to stdout as it is.
    PrintRaw { text: String },
    /// Print the text and a newline to stderr.
    Warn { text: String },
    /// Create the directory and its parents.
    CreateDir { path: String },
    /// Write the file.
    WriteFile { path: String, contents: String },
    /// Run `launchctl` with the arguments; when it fails, report its error
    /// output and fail with `failure`, or go on when there is none.
    Launchctl { args: Vec<String>, failure: Option<String> },
    /// Remove the plist, saying whether it was there.
    RemoveFile { path: String },
}

pub enum ActionModel {
    Fail { message: Seq<char> },
    Print { text: Seq<char> },
    PrintRaw { text: Seq<char> },
    Warn { text: Seq<char> },
    CreateDir { path: Seq<char> },
    WriteFile { path: Seq<char>, contents: Seq<char> },
    Launchctl { args: Seq<Seq<char>>, failure: Option<Seq<char>> },
    RemoveFile { path: Seq<char> },
}

impl View for ServiceAction {
    type V = ActionModel;

    open spec fn view(&self) -> ActionModel {
        match self {
            ServiceAction::Fail { message } => ActionModel::Fail { message: message@ },
            ServiceAction::Print { text } => ActionModel::Print { text: text@ },
            ServiceAction::PrintRaw { text } => ActionModel::PrintRaw { text: text@ },
            ServiceAction::Warn { text } => ActionModel::Warn { text: text@ },
            ServiceAction::CreateDir { path } => ActionModel::CreateDir { path: path@ },
            ServiceAction::WriteFile { path, contents } => ActionModel::WriteFile {
                path: path@,
                contents: contents@,
            },
            ServiceAction::Launchctl { args, failure } => ActionModel::Launchctl {
                args: strings_view(args@),
                failure: opt_view(*failure),
            },
            ServiceAction::RemoveFile { path } => ActionModel::RemoveFile { path: path@ },
        }
    }
}

pub open spec fn actions_view(v: Seq<ServiceAction>) -> Seq<ActionModel> {
    v.map_values(|a: ServiceAction| a@)
}

/// Only macOS has launchd.
pub open spec fn supported_os(os: Seq<char>) -> bool {
    os == "macos"@
}

pub open spec fn no_home_message() -> Seq<char> {
    "cannot resolve ~/Library/LaunchAgents (is $HOME set?)"@
}

/// `~/Library/LaunchAgents`.
pub open spec fn agents_dir_model(raw_home: Option<Seq<char>>) -> Option<Seq<char>> {
    match home_model(raw_home) {
        Some(h) => Some(path_join(path_join(h, "Library"@), "LaunchAgents"@)),
        None => None,
    }
}

/// A path with a `target` component is a build artifact of cargo.
pub open spec fn in_build_dir(exe: Seq<char>) -> bool {
    crate::text::split(exe, seq!['/']).contains("target"@)
}

pub open spec fn build_dir_warning(exe: Seq<char>) -> Seq<char> {
    "warning: installing from a build-artifact path:\n  "@ + exe
        + "\nA `cargo clean` or rebuild will break the service. Consider running\n`just install` first to put the binary in ~/.cargo/bin.\n"@
}

pub open spec fn installed_message(port: u16, root: Seq<char>, uid: u32, raw_home: Option<Seq<char>>) -> Seq<char> {
    "diffodil service installed and started.\n\nIt is now running at http://0.0.0.0:"@ + decimal(
        port as nat,
    ) + " and will start at login.\nWatching: "@ + root + "\n\nStatus:  launchctl print "@
        + service_target_model(uid) + "\nLogs:    tail -f "@ + match log_path_model(raw_home) {
        Some(p) => p,
        None => seq![],
    } + "\nStop:    diffodil uninstall\n"@
}

pub open spec fn result_view(r: Result<String, String>) -> Result<Seq<char>, Seq<char>> {
    match r {
        Ok(s) => Ok(s@),
        Err(e) => Err(e@),
    }
}

/// What installing the service does: on macOS, with the resolved binary and
/// root, either print the plist or write it to `~/Library/LaunchAgents`
/// and load it with `launchctl`, warning first about a binary in a cargo
/// build directory.
pub open spec fn install_model(
    os: Seq<char>,
    root_arg: Seq<char>,
    root: Result<Seq<char>, Seq<char>>,
    exe: Result<Seq<char>, Seq<char>>,
    port: u16,
    print: bool,
    raw_home: Option<Seq<char>>,
    uid: u32,
) -> Seq<ActionModel> {
    if !supported_os(os) {
        seq![ActionModel::Fail { message: unsupported_message_model(os) }]
    } else {
        match exe {
            Err(e) => seq![
                ActionModel::Fail { message: "cannot resolve the diffodil binary path: "@ + e },
            ],
            Ok(x) => match root {
                Err(e) => seq![
                    ActionModel::Fail {
                        message: "cannot resolve root path '"@ + root_arg + "': "@ + e,
                    },
                ],
                Ok(r) => {
                    let plist = plist_model(x, r, port, raw_home);
                    if print {
                        seq![ActionModel::PrintRaw { text: plist }]
                    } else {
                        let warn = if in_build_dir(x) {
                            seq![ActionModel::Warn { text: build_dir_warning(x) }]
                        } else {
                            seq![]
                        };
                        match (plist_path_model(raw_home), agents_dir_model(raw_home)) {
                            (Some(p), Some(d)) => warn + seq![
                                ActionModel::CreateDir { path: d },
                                ActionModel::WriteFile { path: p, contents: plist },
                                ActionModel::Print { text: "wrote "@ + p },
                                ActionModel::Launchctl {
                                    args: seq!["bootout"@, service_target_model(uid)],
                                    failure: None,
                                },
                                ActionModel::Launchctl {
                                    args: seq!["enable"@, service_target_model(uid)],
                                    failure: None,
                                },
                                ActionModel::Launchctl {
                                    args: seq!["bootstrap"@, gui_domain_model(uid), p],
                                    failure: Some("launchctl bootstrap failed (see output above)"@),
                                },
                                ActionModel::Print {
                                    text: installed_message(port, r, uid, raw_home),
                                },
                            ],
                            _ => warn + seq![ActionModel::Fail { message: no_home_message() }],
                        }
                    }
                },
            },
        }
    }
}

/// What removing the service does: on macOS, stop it and remove its plist.
pub open spec fn uninstall_model(os: Seq<char>, raw_home: Option<Seq<char>>, uid: u32) -> Seq<
    ActionModel,
> {
    if !supported_os(os) {
        seq![ActionModel::Fail { message: unsupported_message_model(os) }]
    } else {
        match plist_path_model(raw_home) {
            None => seq![ActionModel::Fail { message: no_home_message() }],
            Some(p) => seq![
                ActionModel::Launchctl {
                    args: seq!["bootout"@, service_target_model(uid)],
                    failure: None,
                },
                ActionModel::RemoveFile { path: p },
                ActionModel::Print { text: "diffodil service uninstalled."@ },
            ],
        }
    }
}

/// What restarting the service does: on macOS, kill and start it again.
pub open spec fn restart_model(os: Seq<char>, uid: u32) -> Seq<ActionModel> {
    if !supported_os(os) {
        seq![ActionModel::Fail { message: unsupported_message_model(os) }]
    } else {
        seq![
            ActionModel::Launchctl {
                args: seq!["kickstart"@, "-k"@, service_target_model(uid)],
                failure: Some("failed to restart the diffodil service — is it installed?"@),
            },
            ActionModel::Print { text: "diffodil service restarted."@ },
        ]
    }
}

fn is_supported_os(os: &str) -> (r: bool)
    ensures
        r == supported_os(os@),
{
    let a = os.to_owned();
    let b = "macos".to_owned();
    a == b
}

fn strings2(a: &str, b: String) -> (r: Vec<String>)
    ensures
        strings_view(r@) == seq![a@, b@],
{
    let mut v: Vec<String> = Vec::new();
    v.push(a.to_owned());
    v.push(b);
    assert(strings_view(v@) =~= seq![a@, v@[1]@]);
    v
}

fn strings3(a: &str, b: String, c: String) -> (r: Vec<String>)
    ensures
        strings_view(r@) == seq![a@, b@, c@],
{
    let mut v: Vec<String> = Vec::new();
    v.push(a.to_owned());
    v.push(b);
    v.push(c);
    assert(strings_view(v@) =~= seq![a@, v@[1]@, v@[2]@]);
    v
}

fn push_action(v: &mut Vec<ServiceAction>, a: ServiceAction)
    ensures
        actions_view(final(v)@) == actions_view(old(v)@).push(a@),
{
    let ghost av = a@;
    v.push(a);
    assert(actions_view(v@) =~= actions_view(old(v)@).push(av));
}

fn only(a: ServiceAction) -> (r: Vec<ServiceAction>)
    ensures
        actions_view(r@) == seq![a@],
{
    let mut v: Vec<ServiceAction> = Vec::new();
    push_action(&mut v, a);
    assert(actions_view(v@) =~= seq![a@]);
    v
}

fn has_target_component(exe: &str) -> (r: bool)
    ensures
        r == in_build_dir(exe@),
{
    let cs = to_chars(exe);
    let slash = ['/'];
    assert(slash@ == seq!['/']);
    let segs = crate::text::split_exec(cs.as_slice(), slash.as_slice());
    let target = to_chars("target");
    let mut i: usize = 0;
    while i < segs.len()
        invariant
            i <= segs@.len(),
            target@ == "target"@,
            crate::text::views(segs@) == crate::text::split(exe@, seq!['/']),
            forall|k: int| 0 <= k < i ==> crate::text::views(segs@)[k] != "target"@,
        decreases segs@.len() - i,
    {
        assert(crate::text::views(segs@)[i as int] == segs@[i as int]@);
        if crate::text::starts_with_exec(segs[i].as_slice(), target.as_slice()) && segs[i].len()
            == target.len() {
            assert(segs@[i as int]@ =~= "target"@);
            assert(crate::text::split(exe@, seq!['/'])[i as int] == "target"@);
            return true;
        }
        proof {
            if segs@[i as int]@ == "target"@ {
                assert(segs@[i as int]@.take(target@.len() as int) =~= segs@[i as int]@);
            }
        }
        i = i + 1;
    }
    false
}

fn install_message(port: u16, root: &str, uid: u32, home: Option<&str>) -> (r: String)
    ensures
        r@ == installed_message(port, root@, uid, crate::commands::opt_str_view(home)),
{
    let log = match log_path(home) {
        Some(p) => p,
        None => String::new(),
    };
    let mut v: Vec<char> = Vec::new();
    push_str(&mut v, "diffodil service installed and started.\n\nIt is now running at http://0.0.0.0:");
    push_decimal(&mut v, port as u64);
    push_str(&mut v, " and will start at login.\nWatching: ");
    push_str(&mut v, root);
    push_str(&mut v, "\n\nStatus:  launchctl print ");
    let target = service_target(uid);
    push_str(&mut v, target.as_str());
    push_str(&mut v, "\nLogs:    tail -f ");
    push_str(&mut v, log.as_str());
    push_str(&mut v, "\nStop:    diffodil uninstall\n");
    assert(v@ =~= installed_message(port, root@, uid, crate::commands::opt_str_view(home)));
    string_from_chars(v.as_slice())
}

fn agents_dir(home: Option<&str>) -> (r: Option<String>)
    ensures
        opt_view(r) == agents_dir_model(crate::commands::opt_str_view(home)),
{
    match home_chars(home) {
        Some(mut v) => {
            push_join(&mut v, "Library");
            push_join(&mut v, "LaunchAgents");
            Some(string_from_chars(v.as_slice()))
        },
        None => None,
    }
}

/// What installing the service does, given the platform (`std::env::consts::OS`),
/// the root as given and as resolved, the resolved binary, the port, whether
/// to print the plist only, `HOME` and the user id.
pub fn install(
    os: &str,
    root_arg: &str,
    root: Result<String, String>,
    exe: Result<String, String>,
    port: u16,
    print: bool,
    home: Option<&str>,
    uid: u32,
) -> (r: Vec<ServiceAction>)
    ensures
        actions_view(r@) == install_model(
            os@,
            root_arg@,
            result_view(root),
            result_view(exe),
            port,
            print,
            crate::commands::opt_str_view(home),
            uid,
        ),
{
    if !is_supported_os(os) {
        return only(ServiceAction::Fail { message: unsupported_message(os) });
    }
    let exe = match exe {
        Err(e) => {
            let mut v: Vec<char> = Vec::new();
            push_str(&mut v, "cannot resolve the diffodil binary path: ");
            push_str(&mut v, e.as_str());
            return only(ServiceAction::Fail { message: string_from_chars(v.as_slice()) });
        },
        Ok(x) => x,
    };
    let root = match root {
        Err(e) => {
            let mut v: Vec<char> = Vec::new();
            push_str(&mut v, "cannot resolve root path '");
            push_str(&mut v, root_arg);
            push_str(&mut v, "': ");
            push_str(&mut v, e.as_str());
            assert(v@ =~= "cannot resolve root path '"@ + root_arg@ + "': "@ + e@);
            return only(ServiceAction::Fail { message: string_from_chars(v.as_slice()) });
        },
        Ok(r) => r,
    };
    let plist = render_plist(exe.as_str(), root.as_str(), port, home);
    if print {
        return only(ServiceAction::PrintRaw { text: plist });
    }
    let mut acts: Vec<ServiceAction> = Vec::new();
    if has_target_component(exe.as_str()) {
        let mut v: Vec<char> = Vec::new();
        push_str(&mut v, "warning: installing from a build-artifact path:\n  ");
        push_str(&mut v, exe.as_str());
        push_str(&mut v, "\nA `cargo clean` or rebuild will break the service. Consider running\n`just install` first to put the binary in ~/.cargo/bin.\n");
        assert(v@ =~= build_dir_warning(exe@));
        push_action(&mut acts, ServiceAction::Warn { text: string_from_chars(v.as_slice()) });
    }
    let ghost warn = actions_view(acts@);
    assert(warn =~= (if in_build_dir(exe@) {
        seq![ActionModel::Warn { text: build_dir_warning(exe@) }]
    } else {
        seq![]
    }));
    match (plist_path(home), agents_dir(home)) {
        (Some(p), Some(d)) => {
            push_action(&mut acts, ServiceAction::CreateDir { path: d });
            let wrote = {
                let mut v: Vec<char> = Vec::new();
                push_str(&mut v, "wrote ");
                push_str(&mut v, p.as_str());
                string_from_chars(v.as_slice())
            };
            let target = service_target(uid);
            let boot = strings3("bootstrap", gui_domain(uid), p.clone());
            push_action(&mut acts, ServiceAction::WriteFile { path: p, contents: plist });
            push_action(&mut acts, ServiceAction::Print { text: wrote });
            push_action(
                &mut acts,
                ServiceAction::Launchctl { args: strings2("bootout", target.clone()), failure: None },
            );
            push_action(
                &mut acts,
                ServiceAction::Launchctl { args: strings2("enable", target), failure: None },
            );
            push_action(
                &mut acts,
                ServiceAction::Launchctl {
                    args: boot,
                    failure: Some("launchctl bootstrap failed (see output above)".to_owned()),
                },
            );
            push_action(
                &mut acts,
                ServiceAction::Print { text: install_message(port, root.as_str(), uid, home) },
            );
        },
        _ => {
            push_action(&mut acts, ServiceAction::Fail { message: no_home().to_owned() });
        },
    }
    assert(actions_view(acts@) =~= install_model(
        os@,
        root_arg@,
        Ok(root@),
        Ok(exe@),
        port,
        print,
        crate::commands::opt_str_view(home),
        uid,
    ));
    acts
}

fn no_home() -> (s: &'static str)
    ensures
        s@ == no_home_message(),
{
    "cannot resolve ~/Library/LaunchAgents (is $HOME set?)"
}

/// What removing the service does, given the platform, `HOME` and the user id.
pub fn uninstall(os: &str, home: Option<&str>, uid: u32) -> (r: Vec<ServiceAction>)
    ensures
        actions_view(r@) == uninstall_model(os@, crate::commands::opt_str_view(home), uid),
{
    if !is_supported_os(os) {
        return only(ServiceAction::Fail { message: unsupported_message(os) });
    }
    match plist_path(home) {
        None => only(ServiceAction::Fail { message: no_home().to_owned() }),
        Some(p) => {
            let mut acts: Vec<ServiceAction> = Vec::new();
            push_action(
                &mut acts,
                ServiceAction::Launchctl { args: strings2("bootout", service_target(uid)), failure: None },
            );
            push_action(&mut acts, ServiceAction::RemoveFile { path: p });
            push_action(
                &mut acts,
                ServiceAction::Print { text: "diffodil service uninstalled.".to_owned() },
            );
            assert(actions_view(acts@) =~= uninstall_model(
                os@,
                crate::commands::opt_str_view(home),
                uid,
            ));
            acts
        },
    }
}

/// What restarting the service does, given the platform and the user id.
pub fn restart(os: &str, uid: u32) -> (r: Vec<ServiceAction>)
    ensures
        actions_view(r@) == restart_model(os@, uid),
{
    if !is_supported_os(os) {
        return only(ServiceAction::Fail { message: unsupported_message(os) });
    }
    let mut acts: Vec<ServiceAction> = Vec::new();
    push_action(
        &mut acts,
        ServiceAction::Launchctl {
            args: strings3("kickstart", "-k".to_owned(), service_target(uid)),
            failure: Some("failed to restart the diffodil service — is it installed?".to_owned()),
        },
    );
    push_action(&mut acts, ServiceAction::Print { text: "diffodil service restarted.".to_owned() });
    assert(actions_view(acts@) =~= restart_model(os@, uid));
    acts
}

} // verus!
