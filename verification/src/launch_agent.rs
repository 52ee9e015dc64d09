//! The per-user LaunchAgent that runs a read-only Smart Scan on a schedule.
use vstd::prelude::*;

use crate::path::{is_absolute_path, join_path, path_has_root, path_join};
use crate::text::{chars_of, concat_str, string_of};

verus! {

/// The label of the scheduled Smart Scan agent.
pub const DEFAULT_LAUNCH_AGENT_LABEL: &'static str = "com.cnxdev.dxtr-cleaner.smart-scan";

/// The shortest schedule allowed, in seconds.
pub const MIN_START_INTERVAL_SECONDS: u64 = 15 * 60;

/// A LaunchAgent that runs the cleaner's scan on a schedule.
#[derive(Debug, Clone, PartialEq, Eq)]
pub struct LaunchAgentConfig {
    pub label: String,
    pub executable: String,
    pub start_interval_seconds: u64,
    pub stdout_path: String,
    pub stderr_path: String,
}

/// The directory the agent logs to, under `home`.
pub open spec fn log_dir(home: Seq<char>) -> Seq<char> {
    path_join(home, "Library/Logs/DxtrCleaner"@)
}

/// Where the property list of the agent labelled `label` lives, under `home`.
pub open spec fn spec_plist_path(home: Seq<char>, label: Seq<char>) -> Seq<char> {
    path_join(path_join(home, "Library/LaunchAgents"@), label + ".plist"@)
}

/// The first rule a configuration breaks, if any: a label, an absolute
/// executable, a schedule no more frequent than the minimum, absolute log paths.
pub open spec fn spec_validate(config: LaunchAgentConfig) -> Result<(), Seq<char>> {
    if config.label@.len() == 0 {
        Err("LaunchAgent label must not be empty"@)
    } else if !path_has_root(config.executable@) {
        Err("scheduled cleaner executable path must be absolute"@)
    } else if config.start_interval_seconds < MIN_START_INTERVAL_SECONDS {
        Err("scheduled scan interval must be at least 900 seconds"@)
    } else if !path_has_root(config.stdout_path@) || !path_has_root(config.stderr_path@) {
        Err("LaunchAgent log paths must be absolute"@)
    } else {
        Ok(())
    }
}

/// The model of a unit result with a text error.
pub open spec fn text_result_view(r: Result<(), String>) -> Result<(), Seq<char>> {
    match r {
        Ok(()) => Ok(()),
        Err(e) => Err(e@),
    }
}

/// The path of the property list of the agent labelled `label`, under `home`.
pub fn plist_path_for_label(home: &str, label: &str) -> (r: String)
    ensures
        r@ == spec_plist_path(home@, label@),
{
    let dir = join_path(home, "Library/LaunchAgents");
    let file = concat_str(label, ".plist");
    join_path(dir.as_str(), file.as_str())
}

impl LaunchAgentConfig {
    /// The Smart Scan agent for the user whose home is `home`, logging under
    /// `~/Library/Logs/DxtrCleaner`.
    pub fn smart_scan(home: &str, executable: String, start_interval_seconds: u64) -> (config: Self)
        ensures
            config.label@ == DEFAULT_LAUNCH_AGENT_LABEL@,
            config.executable == executable,
            config.start_interval_seconds == start_interval_seconds,
            config.stdout_path@ == path_join(log_dir(home@), "scheduled-scan.log"@),
            config.stderr_path@ == path_join(log_dir(home@), "scheduled-scan.error.log"@),
    {
        let dir = join_path(home, "Library/Logs/DxtrCleaner");
        LaunchAgentConfig {
            label: DEFAULT_LAUNCH_AGENT_LABEL.to_owned(),
            executable,
            start_interval_seconds,
            stdout_path: join_path(dir.as_str(), "scheduled-scan.log"),
            stderr_path: join_path(dir.as_str(), "scheduled-scan.error.log"),
        }
    }

    /// Refuses a configuration that breaks a rule, with the message of the first.
    pub fn validate(&self) -> (r: Result<(), String>)
        ensures
            text_result_view(r) == spec_validate(*self),
    {
        if self.label.as_str().unicode_len() == 0 {
            return Err("LaunchAgent label must not be empty".to_owned());
        }
        if !is_absolute_path(self.executable.as_str()) {
            return Err("scheduled cleaner executable path must be absolute".to_owned());
        }
        if self.start_interval_seconds < MIN_START_INTERVAL_SECONDS {
            return Err("scheduled scan interval must be at least 900 seconds".to_owned());
        }
        if !is_absolute_path(self.stdout_path.as_str()) || !is_absolute_path(
            self.stderr_path.as_str(),
        ) {
            return Err("LaunchAgent log paths must be absolute".to_owned());
        }
        Ok(())
    }

    /// Where the agent's property list lives, under `home`.
    pub fn plist_path(&self, home: &str) -> (r: String)
        ensures
            r@ == spec_plist_path(home@, self.label@),
    {
        plist_path_for_label(home, self.label.as_str())
    }
}

/// The XML entity for a character that must be escaped, or the character itself.
pub open spec fn escape_char(c: char) -> Seq<char> {
    if c == '&' {
        seq!['&', 'a', 'm', 'p', ';']
    } else if c == '<' {
        seq!['&', 'l', 't', ';']
    } else if c == '>' {
        seq!['&', 'g', 't', ';']
    } else if c == '"' {
        seq!['&', 'q', 'u', 'o', 't', ';']
    } else if c == '\'' {
        seq!['&', 'a', 'p', 'o', 's', ';']
    } else {
        seq![c]
    }
}

/// A text with `&`, `<`, `>`, `"` and `'` replaced by their XML entities.
pub open spec fn xml_escaped(s: Seq<char>) -> Seq<char>
    decreases s.len(),
{
    if s.len() == 0 {
        Seq::empty()
    } else {
        xml_escaped(s.drop_last()) + escape_char(s.last())
    }
}

/// Whether a character is markup in XML text or attribute values.
pub open spec fn is_xml_markup(c: char) -> bool {
    c == '<' || c == '>' || c == '"' || c == '\''
}

proof fn lemma_escaped_has_no_markup(s: Seq<char>)
    ensures
        forall|i: int| 0 <= i < xml_escaped(s).len() ==> !is_xml_markup(#[trigger] xml_escaped(s)[i]),
    decreases s.len(),
{
    if s.len() > 0 {
        lemma_escaped_has_no_markup(s.drop_last());
        let a = xml_escaped(s.drop_last());
        let b = escape_char(s.last());
        assert forall|i: int| 0 <= i < xml_escaped(s).len() implies !is_xml_markup(
            #[trigger] xml_escaped(s)[i],
        ) by {
            if i < a.len() {
                assert(xml_escaped(s)[i] == a[i]);
            } else {
                assert(xml_escaped(s)[i] == b[i - a.len()]);
            }
        }
    }
}

/// Escapes a text for an XML property list. The result holds no `<`, `>`, `"` or
/// `'`.
pub fn xml_escape(value: &str) -> (r: String)
    ensures
        r@ == xml_escaped(value@),
        forall|i: int| 0 <= i < r@.len() ==> !is_xml_markup(#[trigger] r@[i]),
{
    let cs = chars_of(value);
    let mut out: Vec<char> = Vec::new();
    let mut i: usize = 0;
    while i < cs.len()
        invariant
            i <= cs@.len(),
            cs@ == value@,
            out@ == xml_escaped(cs@.take(i as int)),
        decreases cs@.len() - i,
    {
        let c = cs[i];
        assert(cs@.take(i + 1).drop_last() =~= cs@.take(i as int));
        let ghost before = out@;
        if c == '&' {
            out.push('&');
            out.push('a');
            out.push('m');
            out.push('p');
            out.push(';');
        } else if c == '<' {
            out.push('&');
            out.push('l');
            out.push('t');
            out.push(';');
        } else if c == '>' {
            out.push('&');
            out.push('g');
            out.push('t');
            out.push(';');
        } else if c == '"' {
            out.push('&');
            out.push('q');
            out.push('u');
            out.push('o');
            out.push('t');
            out.push(';');
        } else if c == '\'' {
            out.push('&');
            out.push('a');
            out.push('p');
            out.push('o');
            out.push('s');
            out.push(';');
        } else {
            out.push(c);
        }
        assert(out@ =~= before + escape_char(c));
        i = i + 1;
    }
    assert(cs@.take(cs@.len() as int) =~= cs@);
    proof {
        lemma_escaped_has_no_markup(value@);
    }
    string_of(out.as_slice())
}

/// The decimal digit for `d`, below ten.
pub open spec fn digit_char(d: nat) -> char {
    if d == 0 {
        '0'
    } else if d == 1 {
        '1'
    } else if d == 2 {
        '2'
    } else if d == 3 {
        '3'
    } else if d == 4 {
        '4'
    } else if d == 5 {
        '5'
    } else if d == 6 {
        '6'
    } else if d == 7 {
        '7'
    } else if d == 8 {
        '8'
    } else {
        '9'
    }
}

/// The decimal form of a number, without leading zeros.
pub open spec fn decimal(n: nat) -> Seq<char>
    decreases n,
{
    if n < 10 {
        seq![digit_char(n)]
    } else {
        decimal(n / 10).push(digit_char(n % 10))
    }
}

fn digit_exec(d: u64) -> (c: char)
    requires
        d < 10,
    ensures
        c == digit_char(d as nat),
{
    if d == 0 {
        '0'
    } else if d == 1 {
        '1'
    } else if d == 2 {
        '2'
    } else if d == 3 {
        '3'
    } else if d == 4 {
        '4'
    } else if d == 5 {
        '5'
    } else if d == 6 {
        '6'
    } else if d == 7 {
        '7'
    } else if d == 8 {
        '8'
    } else {
        '9'
    }
}

/// The decimal digits of `n`.
pub fn decimal_chars(n: u64) -> (r: Vec<char>)
    ensures
        r@ == decimal(n as nat),
    decreases n,
{
    if n < 10 {
        vec![digit_exec(n)]
    } else {
        let mut v = decimal_chars(n / 10);
        v.push(digit_exec(n % 10));
        v
    }
}

/// The text of the agent's property list, for a valid configuration: it runs
/// `<executable> scan --category user` every interval, not at load, with its
/// output and errors logged; every configured text is XML-escaped.
pub open spec fn plist_text(config: LaunchAgentConfig) -> Seq<char> {
    "<?xml version=\"1.0\" encoding=\"UTF-8\"?>\n<!DOCTYPE plist PUBLIC \"-//Apple//DTD PLIST 1.0//EN\" \"http://www.apple.com/DTDs/PropertyList-1.0.dtd\">\n<plist version=\"1.0\">\n<dict>\n    <key>Label</key>\n    <string>"@
        + xml_escaped(config.label@)
        + "</string>\n    <key>ProgramArguments</key>\n    <array>\n        <string>"@
        + xml_escaped(config.executable@)
        + "</string>\n        <string>scan</string>\n        <string>--category</string>\n        <string>user</string>\n    </array>\n    <key>StartInterval</key>\n    <integer>"@
        + decimal(config.start_interval_seconds as nat)
        + "</integer>\n    <key>RunAtLoad</key>\n    <false/>\n    <key>StandardOutPath</key>\n    <string>"@
        + xml_escaped(config.stdout_path@)
        + "</string>\n    <key>StandardErrorPath</key>\n    <string>"@
        + xml_escaped(config.stderr_path@)
        + "</string>\n</dict>\n</plist>\n"@
}

/// Renders the agent's property list; refused, with the validation message, for
/// an invalid configuration.
pub fn render_launch_agent_plist(config: &LaunchAgentConfig) -> (r: Result<String, String>)
    ensures
        match spec_validate(*config) {
            Err(m) => r is Err && r->Err_0@ == m,
            Ok(()) => r is Ok && r->Ok_0@ == plist_text(*config),
        },
{
    match config.validate() {
        Err(e) => {
            return Err(e);
        },
        Ok(()) => {},
    }
    let interval = decimal_chars(config.start_interval_seconds);
    let interval = string_of(interval.as_slice());
    let mut text = "<?xml version=\"1.0\" encoding=\"UTF-8\"?>\n<!DOCTYPE plist PUBLIC \"-//Apple//DTD PLIST 1.0//EN\" \"http://www.apple.com/DTDs/PropertyList-1.0.dtd\">\n<plist version=\"1.0\">\n<dict>\n    <key>Label</key>\n    <string>".to_owned();
    text = concat_str(text.as_str(), xml_escape(config.label.as_str()).as_str());
    text = concat_str(
        text.as_str(),
        "</string>\n    <key>ProgramArguments</key>\n    <array>\n        <string>",
    );
    text = concat_str(text.as_str(), xml_escape(config.executable.as_str()).as_str());
    text = concat_str(
        text.as_str(),
        "</string>\n        <string>scan</string>\n        <string>--category</string>\n        <string>user</string>\n    </array>\n    <key>StartInterval</key>\n    <integer>",
    );
    text = concat_str(text.as_str(), interval.as_str());
    text = concat_str(
        text.as_str(),
        "</integer>\n    <key>RunAtLoad</key>\n    <false/>\n    <key>StandardOutPath</key>\n    <string>",
    );
    text = concat_str(text.as_str(), xml_escape(config.stdout_path.as_str()).as_str());
    text = concat_str(text.as_str(), "</string>\n    <key>StandardErrorPath</key>\n    <string>");
    text = concat_str(text.as_str(), xml_escape(config.stderr_path.as_str()).as_str());
    text = concat_str(text.as_str(), "</string>\n</dict>\n</plist>\n");
    Ok(text)
}

/// The error of a failed bootstrap: its message, and the failure to roll the
/// property list back where that failed too.
pub fn format_bootstrap_error(message: String, rollback: Result<(), String>) -> (r: String)
    ensures
        match rollback {
            Ok(()) => r@ == message@,
            Err(e) => r@ == message@ + "; additionally failed to roll back plist: "@ + e@,
        },
{
    match rollback {
        Ok(()) => message,
        Err(rollback_error) => {
            let t = concat_str(message.as_str(), "; additionally failed to roll back plist: ");
            concat_str(t.as_str(), rollback_error.as_str())
        },
    }
}

} // verus!
