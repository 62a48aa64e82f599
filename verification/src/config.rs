//! Settings, where things are kept, and how the user is told that a task is done.

use vstd::prelude::*;
use vstd::string::StringExecFns;

use crate::num::{self, digits_text, parse_int};
use crate::paths::{self, join};
use crate::text::{self, lines, replace, str_eq, strip_prefix, trim};

verus! {

/// The settings.
#[derive(Debug)]
pub struct Config {
    /// Whether sessions are started with `--remote`.
    pub remote_enabled: bool,
    /// Whether the program brings itself up to date before it opens.
    pub auto_update: bool,
    pub notifications: NotificationConfig,
    /// The layout of a new session's terminals; a shell beside the assistant where there is none.
    pub layout: Option<LayoutConfig>,
    pub review_loop: ReviewLoopConfig,
    pub permissions: RecommendedPermissions,
    pub claude: ClaudeConfig,
    pub sync: SyncConfig,
    pub rtk: RtkConfig,
    pub board: BoardConfig,
}

/// The columns of the sprint board. Open issues that no label places are in the first, closed ones
/// in the last.
#[derive(Debug)]
pub struct BoardConfig {
    pub columns: Vec<BoardColumn>,
}

/// A column of the sprint board.
#[derive(Debug)]
pub struct BoardColumn {
    pub name: String,
    /// The labels that place an issue in this column, in letters of either case.
    pub labels: Vec<String>,
}

/// A column as a mathematical value.
#[verifier::ext_equal]
pub struct ColumnView {
    pub name: Seq<char>,
    pub labels: Seq<Seq<char>>,
}

impl View for BoardColumn {
    type V = ColumnView;

    open spec fn view(&self) -> ColumnView {
        ColumnView { name: self.name@, labels: text::texts(self.labels@) }
    }
}

/// Columns as mathematical values.
pub open spec fn columns_view(v: Seq<BoardColumn>) -> Seq<ColumnView> {
    v.map_values(|c: BoardColumn| c@)
}

/// The model of the assistant and how hard it thinks.
#[derive(Debug)]
pub struct ClaudeConfig {
    /// The model that was set, if one was.
    pub model: Option<String>,
    pub effort: String,
}

/// Settings of what is kept in step with other machines.
#[derive(Debug)]
pub struct SyncConfig {
    /// Whether changes of tasks are pushed on their own.
    pub auto_push: bool,
}

/// Settings of the tool `rtk`.
#[derive(Debug)]
pub struct RtkConfig {
    pub enabled: bool,
}

/// The permissions that the assistant is recommended to have.
#[derive(Debug)]
pub struct RecommendedPermissions {
    pub allow: Vec<String>,
    pub deny: Vec<String>,
    pub ask: Vec<String>,
}

/// A layout of terminals: one pane, or two layouts that share the room.
#[derive(Debug)]
pub enum LayoutConfig {
    Pane { pane: String },
    Split {
        /// `vertical` for one above the other; side by side for anything else.
        direction: String,
        /// How many percent of the room the first one gets; half where there is none.
        ratio: Option<u16>,
        first: Box<LayoutConfig>,
        second: Box<LayoutConfig>,
    },
}

/// How the user is told that a task is done.
#[derive(Debug)]
pub struct NotificationConfig {
    /// Whether a command is run.
    pub enabled: bool,
    /// Whether a banner is shown.
    pub system: bool,
    /// The command.
    pub command: String,
    /// What is said, with `{task}` for the task's title.
    pub template: String,
    /// The voice, for the command `say`.
    pub voice: Option<String>,
    /// Words per minute, for the command `say`.
    pub rate: Option<u32>,
}

/// How reviews are waited for.
#[derive(Debug)]
pub struct ReviewLoopConfig {
    /// Seconds between two looks.
    pub poll_interval_secs: u64,
    /// What the assistant is told in place of what it is told otherwise.
    pub prompt: Option<String>,
}

/// The columns of a board that nobody has set up.
pub open spec fn default_columns() -> Seq<ColumnView> {
    seq![
        ColumnView { name: "Backlog"@, labels: Seq::empty() },
        ColumnView { name: "In Progress"@, labels: seq!["in progress"@, "wip"@] },
        ColumnView { name: "In Review"@, labels: seq!["in review"@, "review"@] },
        ColumnView { name: "Done"@, labels: Seq::empty() },
    ]
}

/// The columns of a board that nobody has set up.
pub fn default_board_columns() -> (r: Vec<BoardColumn>)
    ensures
        columns_view(r@) == default_columns(),
{
    let r = vec![
        BoardColumn { name: "Backlog".to_owned(), labels: Vec::new() },
        BoardColumn {
            name: "In Progress".to_owned(),
            labels: vec!["in progress".to_owned(), "wip".to_owned()],
        },
        BoardColumn {
            name: "In Review".to_owned(),
            labels: vec!["in review".to_owned(), "review".to_owned()],
        },
        BoardColumn { name: "Done".to_owned(), labels: Vec::new() },
    ];
    proof {
        let d = default_columns();
        assert(r@[0]@ =~= d[0]);
        assert(r@[1]@.labels =~= d[1].labels);
        assert(r@[2]@.labels =~= d[2].labels);
        assert(r@[3]@ =~= d[3]);
        assert(columns_view(r@) =~= d);
    }
    r
}

impl Default for BoardConfig {
    fn default() -> (r: BoardConfig)
        ensures
            columns_view(r.columns@) == default_columns(),
    {
        BoardConfig { columns: default_board_columns() }
    }
}

/// Names and labels as mathematical values.
pub open spec fn label_views(v: Seq<(String, Vec<String>)>) -> Seq<ColumnView> {
    v.map_values(|c: (String, Vec<String>)| ColumnView { name: c.0@, labels: text::texts(c.1@) })
}

/// Copies texts.
fn copy_texts(v: &Vec<String>) -> (r: Vec<String>)
    ensures
        text::texts(r@) == text::texts(v@),
{
    let mut r: Vec<String> = Vec::new();
    let mut i: usize = 0;
    while i < v.len()
        invariant
            i <= v.len(),
            r.len() == i,
            forall|k: int| 0 <= k < i ==> (#[trigger] r@[k])@ == v@[k]@,
        decreases v.len() - i,
    {
        r.push(v[i].clone());
        i += 1;
    }
    proof {
        assert(text::texts(r@) =~= text::texts(v@));
    }
    r
}

impl BoardConfig {
    /// The name and the labels of each column, in order.
    pub fn column_labels(&self) -> (r: Vec<(String, Vec<String>)>)
        ensures
            label_views(r@) == columns_view(self.columns@),
    {
        let mut r: Vec<(String, Vec<String>)> = Vec::new();
        let mut i: usize = 0;
        while i < self.columns.len()
            invariant
                i <= self.columns.len(),
                r.len() == i,
                forall|k: int|
                    0 <= k < i ==> (#[trigger] r@[k]).0@ == self.columns@[k].name@ && text::texts(
                        r@[k].1@,
                    ) == text::texts(self.columns@[k].labels@),
            decreases self.columns.len() - i,
        {
            let labels = copy_texts(&self.columns[i].labels);
            r.push((self.columns[i].name.clone(), labels));
            i += 1;
        }
        proof {
            assert(label_views(r@) =~= columns_view(self.columns@));
        }
        r
    }
}

/// The model of an assistant where none is set.
pub open spec fn usual_model(assistant: Seq<char>) -> Seq<char> {
    assistant + "-opus-4-6"@
}

/// The model of an assistant where none is set.
pub fn default_claude_model(assistant: &str) -> (r: String)
    ensures
        r@ == usual_model(assistant@),
{
    assistant.to_owned().concat("-opus-4-6")
}

/// How hard the assistant thinks where it is not set.
pub fn default_claude_effort() -> (r: String)
    ensures
        r@ == "max"@,
{
    "max".to_owned()
}

impl Default for ClaudeConfig {
    fn default() -> (r: ClaudeConfig)
        ensures
            r.model is None,
            r.effort@ == "max"@,
    {
        ClaudeConfig { model: None, effort: default_claude_effort() }
    }
}

impl ClaudeConfig {
    /// The model that an assistant is run with: the one that was set, or the usual one.
    pub fn model_name(&self, assistant: &str) -> (r: String)
        ensures
            r@ == (match text::opt_text(self.model) {
                Some(m) => m,
                None => usual_model(assistant@),
            }),
    {
        match &self.model {
            Some(m) => m.clone(),
            None => default_claude_model(assistant),
        }
    }
}

impl Default for SyncConfig {
    fn default() -> (r: SyncConfig)
        ensures
            !r.auto_push,
    {
        SyncConfig { auto_push: false }
    }
}

/// What is on unless it is turned off.
pub fn default_true() -> (r: bool)
    ensures
        r,
{
    true
}

impl Default for RtkConfig {
    fn default() -> (r: RtkConfig)
        ensures
            r.enabled,
    {
        RtkConfig { enabled: default_true() }
    }
}

/// What the assistant may do without asking.
pub open spec fn allow_list() -> Seq<Seq<char>> {
    seq![
        "Bash"@,
        "Glob(*)"@,
        "Grep(*)"@,
        "Read(*)"@,
        "Edit(*)"@,
        "MultiEdit(*)"@,
        "Write(*)"@,
        "NotebookEdit(*)"@,
        "TodoWrite(*)"@,
        "BashOutput(*)"@,
    ]
}

/// What the assistant may do without asking.
pub fn default_allow() -> (r: Vec<String>)
    ensures
        text::texts(r@) == allow_list(),
{
    let r = vec![
        "Bash".to_owned(),
        "Glob(*)".to_owned(),
        "Grep(*)".to_owned(),
        "Read(*)".to_owned(),
        "Edit(*)".to_owned(),
        "MultiEdit(*)".to_owned(),
        "Write(*)".to_owned(),
        "NotebookEdit(*)".to_owned(),
        "TodoWrite(*)".to_owned(),
        "BashOutput(*)".to_owned(),
    ];
    proof {
        assert(text::texts(r@) =~= allow_list());
    }
    r
}

/// What the assistant may never do.
pub open spec fn deny_list() -> Seq<Seq<char>> {
    seq![
        "Bash(git push*main*)"@,
        "Bash(git push --force*)"@,
        "Bash(git push*--force*)"@,
    ]
}

/// What the assistant may never do.
pub fn default_deny() -> (r: Vec<String>)
    ensures
        text::texts(r@) == deny_list(),
{
    let r = vec![
        "Bash(git push*main*)".to_owned(),
        "Bash(git push --force*)".to_owned(),
        "Bash(git push*--force*)".to_owned(),
    ];
    proof {
        assert(text::texts(r@) =~= deny_list());
    }
    r
}

/// What the assistant must ask for.
pub open spec fn ask_list() -> Seq<Seq<char>> {
    seq![
        "Bash(rm:*)"@,
    ]
}

/// What the assistant must ask for.
pub fn default_ask() -> (r: Vec<String>)
    ensures
        text::texts(r@) == ask_list(),
{
    let r = vec![
        "Bash(rm:*)".to_owned(),
    ];
    proof {
        assert(text::texts(r@) =~= ask_list());
    }
    r
}

impl Default for RecommendedPermissions {
    fn default() -> (r: RecommendedPermissions)
        ensures
            text::texts(r.allow@) == allow_list(),
            text::texts(r.deny@) == deny_list(),
            text::texts(r.ask@) == ask_list(),
    {
        RecommendedPermissions {
            allow: default_allow(),
            deny: default_deny(),
            ask: default_ask(),
        }
    }
}

/// Seconds between two looks for reviews where they are not set.
pub fn default_review_loop_interval() -> (r: u64)
    ensures
        r == 120,
{
    120
}

impl Default for ReviewLoopConfig {
    fn default() -> (r: ReviewLoopConfig)
        ensures
            r.poll_interval_secs == 120,
            r.prompt is None,
    {
        ReviewLoopConfig { poll_interval_secs: default_review_loop_interval(), prompt: None }
    }
}

/// The command that is run where none is set.
pub fn default_notification_command() -> (r: String)
    ensures
        r@ == "say"@,
{
    "say".to_owned()
}

/// What is said where it is not set.
pub fn default_notification_template() -> (r: String)
    ensures
        r@ == "completed {task}"@,
{
    "completed {task}".to_owned()
}

impl Default for NotificationConfig {
    fn default() -> (r: NotificationConfig)
        ensures
            r.enabled,
            r.system,
            r.command@ == "say"@,
            r.template@ == "completed {task}"@,
            r.voice is None,
            r.rate is None,
    {
        NotificationConfig {
            enabled: default_true(),
            system: default_true(),
            command: default_notification_command(),
            template: default_notification_template(),
            voice: None,
            rate: None,
        }
    }
}

impl Default for Config {
    fn default() -> (r: Config)
        ensures
            !r.remote_enabled,
            !r.auto_update,
            r.notifications.enabled && r.notifications.system,
            r.notifications.command@ == "say"@,
            r.notifications.template@ == "completed {task}"@,
            r.notifications.voice is None && r.notifications.rate is None,
            r.layout is None,
            r.review_loop.poll_interval_secs == 120 && r.review_loop.prompt is None,
            text::texts(r.permissions.allow@) == allow_list(),
            text::texts(r.permissions.deny@) == deny_list(),
            text::texts(r.permissions.ask@) == ask_list(),
            r.claude.model is None && r.claude.effort@ == "max"@,
            !r.sync.auto_push,
            r.rtk.enabled,
            columns_view(r.board.columns@) == default_columns(),
    {
        Config {
            remote_enabled: false,
            auto_update: false,
            notifications: NotificationConfig::default(),
            layout: None,
            review_loop: ReviewLoopConfig::default(),
            permissions: RecommendedPermissions::default(),
            claude: ClaudeConfig::default(),
            sync: SyncConfig::default(),
            rtk: RtkConfig::default(),
            board: BoardConfig::default(),
        }
    }
}

/// A command: a program and its arguments.
#[derive(Debug)]
pub struct CommandLine {
    pub program: String,
    pub args: Vec<String>,
}

/// A command as a mathematical value.
#[verifier::ext_equal]
pub struct CommandView {
    pub program: Seq<char>,
    pub args: Seq<Seq<char>>,
}

impl View for CommandLine {
    type V = CommandView;

    open spec fn view(&self) -> CommandView {
        CommandView { program: self.program@, args: text::texts(self.args@) }
    }
}

/// Commands as mathematical values.
pub open spec fn commands_view(v: Seq<CommandLine>) -> Seq<CommandView> {
    v.map_values(|c: CommandLine| c@)
}

/// What the banner calls the terminal program that a name from the environment stands for.
pub open spec fn bundle_of(term: Option<Seq<char>>) -> Seq<char> {
    if term == Some("iTerm.app"@) {
        "com.googlecode.iterm2"@
    } else if term == Some("kitty"@) {
        "net.kovidgoyal.kitty"@
    } else if term == Some("Alacritty"@) {
        "org.alacritty"@
    } else if term == Some("WezTerm"@) {
        "com.github.wez.wezterm"@
    } else if term == Some("ghostty"@) {
        "com.mitchellh.ghostty"@
    } else {
        "com.apple.Terminal"@
    }
}

/// A text as it stands between double quotes in a script.
pub open spec fn script_text(s: Seq<char>) -> Seq<char> {
    text::replaced(text::replaced(s, "\\"@, "\\\\"@), "\""@, "\\\""@)
}

impl NotificationConfig {
    /// What is said of a task.
    pub open spec fn message_text(self, title: Seq<char>) -> Seq<char> {
        text::replaced(self.template@, "{task}"@, title)
    }

    /// What is said of a task.
    pub fn message(&self, task_title: &str) -> (r: String)
        ensures
            r@ == self.message_text(task_title@),
    {
        proof {
            reveal_strlit("{task}");
        }
        replace(self.template.as_str(), "{task}", task_title)
    }

    /// The options of the command: those of `say` only where that is the command.
    pub open spec fn options(self) -> Seq<Seq<char>> {
        if self.command@ == "say"@ {
            (match text::opt_text(self.voice) {
                Some(v) => seq!["-v"@, v],
                None => Seq::empty(),
            }) + (match self.rate {
                Some(n) => seq!["-r"@, num::digits(n as nat)],
                None => Seq::empty(),
            })
        } else {
            Seq::empty()
        }
    }

    /// The command that is run for a task, if any is.
    pub fn command_for(&self, task_title: &str) -> (r: Option<CommandLine>)
        ensures
            self.enabled ==> (r matches Some(c) && c@ == (CommandView {
                program: self.command@,
                args: self.options().push(self.message_text(task_title@)),
            })),
            !self.enabled ==> r is None,
    {
        if !self.enabled {
            return None;
        }
        let mut args: Vec<String> = Vec::new();
        if str_eq(self.command.as_str(), "say") {
            if let Some(v) = &self.voice {
                args.push("-v".to_owned());
                args.push(v.clone());
            }
            if let Some(n) = self.rate {
                args.push("-r".to_owned());
                args.push(digits_text(n as u128));
            }
        }
        proof {
            assert(text::texts(args@) =~= self.options());
        }
        let ghost before = args@;
        args.push(self.message(task_title));
        proof {
            assert(text::texts(args@) =~= text::texts(before).push(
                self.message_text(task_title@),
            ));
        }
        Some(CommandLine { program: self.command.clone(), args })
    }

    /// What the banner calls the terminal program that a name from the environment stands for.
    pub fn detect_terminal_bundle_id(term: Option<&str>) -> (r: String)
        ensures
            r@ == bundle_of(text::opt_str(term)),
    {
        if let Some(t) = term {
            if str_eq(t, "iTerm.app") {
                return "com.googlecode.iterm2".to_owned();
            }
            if str_eq(t, "kitty") {
                return "net.kovidgoyal.kitty".to_owned();
            }
            if str_eq(t, "Alacritty") {
                return "org.alacritty".to_owned();
            }
            if str_eq(t, "WezTerm") {
                return "com.github.wez.wezterm".to_owned();
            }
            if str_eq(t, "ghostty") {
                return "com.mitchellh.ghostty".to_owned();
            }
        }
        "com.apple.Terminal".to_owned()
    }
}

/// The command that shows a banner with an icon. A click on it opens the pull request, or the
/// terminal where there is none.
pub open spec fn notifier_command(
    title: Seq<char>,
    message: Seq<char>,
    icon: Seq<char>,
    pr_url: Option<Seq<char>>,
    term: Option<Seq<char>>,
) -> CommandView {
    CommandView {
        program: "terminal-notifier"@,
        args: seq![
            "-title"@,
            "claustre"@,
            "-subtitle"@,
            title,
            "-message"@,
            message,
            "-appIcon"@,
            icon,
        ] + (match pr_url {
            Some(u) => seq!["-open"@, u],
            None => seq!["-activate"@, bundle_of(term)],
        }),
    }
}

/// The command that shows a banner by a script.
pub open spec fn script_command(title: Seq<char>, message: Seq<char>) -> CommandView {
    CommandView {
        program: "osascript"@,
        args: seq![
            "-e"@,
            "display notification \""@ + script_text(message)
                + "\" with title \"claustre\" subtitle \""@ + script_text(title) + "\""@,
        ],
    }
}

/// A text as it stands between double quotes in a script.
fn escape(s: &str) -> (r: String)
    ensures
        r@ == script_text(s@),
{
    proof {
        reveal_strlit("\\");
        reveal_strlit("\"");
    }
    let slashes = replace(s, "\\", "\\\\");
    replace(slashes.as_str(), "\"", "\\\"")
}

/// The commands that show a banner, in the order in which they are tried until one starts.
/// `icon` is where the icon is, if it is anywhere; `term` names the terminal program.
pub fn system_notify(
    task_title: &str,
    message: &str,
    icon: Option<&str>,
    pr_url: Option<&str>,
    term: Option<&str>,
) -> (r: Vec<CommandLine>)
    ensures
        commands_view(r@) == (match text::opt_str(icon) {
            Some(i) => seq![
                notifier_command(
                    task_title@,
                    message@,
                    i,
                    text::opt_str(pr_url),
                    text::opt_str(term),
                ),
                script_command(task_title@, message@),
            ],
            None => seq![script_command(task_title@, message@)],
        }),
{
    let mut r: Vec<CommandLine> = Vec::new();
    if let Some(i) = icon {
        let mut args = vec![
            "-title".to_owned(),
            "claustre".to_owned(),
            "-subtitle".to_owned(),
            task_title.to_owned(),
            "-message".to_owned(),
            message.to_owned(),
            "-appIcon".to_owned(),
            i.to_owned(),
        ];
        match pr_url {
            Some(u) => {
                args.push("-open".to_owned());
                args.push(u.to_owned());
            },
            None => {
                args.push("-activate".to_owned());
                args.push(NotificationConfig::detect_terminal_bundle_id(term));
            },
        }
        let c = CommandLine { program: "terminal-notifier".to_owned(), args };
        proof {
            let want = notifier_command(
                task_title@,
                message@,
                i@,
                text::opt_str(pr_url),
                text::opt_str(term),
            );
            assert(c@.args =~= want.args);
            assert(c@ == want);
        }
        r.push(c);
    }
    let mut script = "display notification \"".to_owned();
    script.append(escape(message).as_str());
    script.append("\" with title \"claustre\" subtitle \"");
    script.append(escape(task_title).as_str());
    script.append("\"");
    let c = CommandLine {
        program: "osascript".to_owned(),
        args: vec!["-e".to_owned(), script],
    };
    proof {
        let want = script_command(task_title@, message@);
        assert(c@.args =~= want.args);
        assert(c@ == want);
    }
    let ghost before = r@;
    r.push(c);
    proof {
        assert(commands_view(r@) =~= commands_view(before).push(c@));
    }
    r
}

/// Why a place on disk cannot be told.
#[derive(Debug, PartialEq, Eq)]
pub enum ConfigError {
    NoHome,
}

impl ConfigError {
    /// The error in words.
    pub open spec fn text(self) -> Seq<char> {
        match self {
            ConfigError::NoHome => "could not determine home directory"@,
        }
    }

    /// The error in words.
    pub fn message(&self) -> (r: String)
        ensures
            r@ == self.text(),
    {
        "could not determine home directory".to_owned()
    }
}

/// Calls `dirs::home_dir`; a path that is no Unicode counts as none. The home directory depends on
/// the environment.
#[verifier::external_body]
fn home_dir() -> (r: Option<String>) {
    match dirs::home_dir() {
        Some(p) => p.into_os_string().into_string().ok(),
        None => None,
    }
}

/// The directory that everything is kept in, under a home directory.
pub open spec fn base_in(home: Seq<char>) -> Seq<char> {
    paths::joined(home, ".claustre"@)
}

/// The directory that everything is kept in, given the home directory if there is one.
pub fn base_dir_from(home: Option<&str>) -> (r: Result<String, ConfigError>)
    ensures
        match text::opt_str(home) {
            Some(h) => r matches Ok(b) && b@ == base_in(h),
            None => r matches Err(ConfigError::NoHome),
        },
{
    match home {
        Some(h) => Ok(join(h, ".claustre")),
        None => Err(ConfigError::NoHome),
    }
}

/// The directory that everything is kept in, under the user's home directory.
pub fn base_dir() -> (r: Result<String, ConfigError>)
    ensures
        match r {
            Ok(b) => exists|home: Seq<char>| b@ == #[trigger] base_in(home),
            Err(e) => e is NoHome,
        },
{
    match home_dir() {
        Some(h) => base_dir_from(Some(h.as_str())),
        None => base_dir_from(None),
    }
}

/// Where the database is.
pub open spec fn db_file(base: Seq<char>) -> Seq<char> {
    paths::joined(base, "claustre.db"@)
}

/// Where the database is.
pub fn db_path_in(base: &str) -> (r: String)
    ensures
        r@ == db_file(base@),
{
    join(base, "claustre.db")
}

/// Where the database is, given the home directory if there is one.
pub fn db_path_from(home: Option<&str>) -> (r: Result<String, ConfigError>)
    ensures
        match text::opt_str(home) {
            Some(h) => r matches Ok(p) && p@ == db_file(base_in(h)),
            None => r matches Err(ConfigError::NoHome),
        },
{
    match base_dir_from(home) {
        Ok(base) => Ok(db_path_in(base.as_str())),
        Err(e) => Err(e),
    }
}

/// Where the database is.
pub fn db_path() -> (r: Result<String, ConfigError>)
    ensures
        match r {
            Ok(p) => exists|home: Seq<char>| p@ == db_file(#[trigger] base_in(home)),
            Err(e) => e is NoHome,
        },
{
    match home_dir() {
        Some(h) => db_path_from(Some(h.as_str())),
        None => db_path_from(None),
    }
}

/// Where the user's own notes for the assistant are.
pub open spec fn global_notes(base: Seq<char>, assistant: Seq<char>) -> Seq<char> {
    paths::joined(base, assistant + ".md"@)
}

/// Where the user's own notes for the assistant are.
pub fn global_claude_md_path_in(base: &str, assistant: &str) -> (r: String)
    ensures
        r@ == global_notes(base@, assistant@),
{
    join(base, assistant.to_owned().concat(".md").as_str())
}

/// Where the user's own notes for the assistant are, given the home directory if there is one.
pub fn global_claude_md_path_from(home: Option<&str>, assistant: &str) -> (r: Result<
    String,
    ConfigError,
>)
    ensures
        match text::opt_str(home) {
            Some(h) => r matches Ok(p) && p@ == global_notes(base_in(h), assistant@),
            None => r matches Err(ConfigError::NoHome),
        },
{
    match base_dir_from(home) {
        Ok(base) => Ok(global_claude_md_path_in(base.as_str(), assistant)),
        Err(e) => Err(e),
    }
}

/// Where the user's own notes for the assistant are.
pub fn global_claude_md_path(assistant: &str) -> (r: Result<String, ConfigError>)
    ensures
        match r {
            Ok(p) => exists|home: Seq<char>|
                p@ == global_notes(#[trigger] base_in(home), assistant@),
            Err(e) => e is NoHome,
        },
{
    match home_dir() {
        Some(h) => global_claude_md_path_from(Some(h.as_str()), assistant),
        None => global_claude_md_path_from(None, assistant),
    }
}

/// Where the user's own hooks are.
pub open spec fn hooks_of(base: Seq<char>) -> Seq<char> {
    paths::joined(base, "hooks"@)
}

/// Where the user's own hooks are.
pub fn global_hooks_dir_in(base: &str) -> (r: String)
    ensures
        r@ == hooks_of(base@),
{
    join(base, "hooks")
}

/// Where the user's own hooks are, given the home directory if there is one.
pub fn global_hooks_dir_from(home: Option<&str>) -> (r: Result<String, ConfigError>)
    ensures
        match text::opt_str(home) {
            Some(h) => r matches Ok(p) && p@ == hooks_of(base_in(h)),
            None => r matches Err(ConfigError::NoHome),
        },
{
    match base_dir_from(home) {
        Ok(base) => Ok(global_hooks_dir_in(base.as_str())),
        Err(e) => Err(e),
    }
}

/// Where the user's own hooks are.
pub fn global_hooks_dir() -> (r: Result<String, ConfigError>)
    ensures
        match r {
            Ok(p) => exists|home: Seq<char>| p@ == hooks_of(#[trigger] base_in(home)),
            Err(e) => e is NoHome,
        },
{
    match home_dir() {
        Some(h) => global_hooks_dir_from(Some(h.as_str())),
        None => global_hooks_dir_from(None),
    }
}

/// Where worktrees are.
pub open spec fn worktrees_of(base: Seq<char>) -> Seq<char> {
    paths::joined(base, "worktrees"@)
}

/// Where worktrees are.
pub fn worktree_base_dir_in(base: &str) -> (r: String)
    ensures
        r@ == worktrees_of(base@),
{
    join(base, "worktrees")
}

/// Where worktrees are, given the home directory if there is one.
pub fn worktree_base_dir_from(home: Option<&str>) -> (r: Result<String, ConfigError>)
    ensures
        match text::opt_str(home) {
            Some(h) => r matches Ok(p) && p@ == worktrees_of(base_in(h)),
            None => r matches Err(ConfigError::NoHome),
        },
{
    match base_dir_from(home) {
        Ok(base) => Ok(worktree_base_dir_in(base.as_str())),
        Err(e) => Err(e),
    }
}

/// Where worktrees are.
pub fn worktree_base_dir() -> (r: Result<String, ConfigError>)
    ensures
        match r {
            Ok(p) => exists|home: Seq<char>| p@ == worktrees_of(#[trigger] base_in(home)),
            Err(e) => e is NoHome,
        },
{
    match home_dir() {
        Some(h) => worktree_base_dir_from(Some(h.as_str())),
        None => worktree_base_dir_from(None),
    }
}

/// Where the progress of a session is.
pub open spec fn progress_dir_of(base: Seq<char>, session_id: Seq<char>) -> Seq<char> {
    paths::joined(paths::joined(base, "tmp"@), session_id)
}

/// Where the progress of a session is.
pub fn session_progress_dir_in(base: &str, session_id: &str) -> (r: String)
    ensures
        r@ == progress_dir_of(base@, session_id@),
{
    join(join(base, "tmp").as_str(), session_id)
}

/// Where the progress of a session is, given the home directory if there is one.
pub fn session_progress_dir_from(home: Option<&str>, session_id: &str) -> (r: Result<
    String,
    ConfigError,
>)
    ensures
        match text::opt_str(home) {
            Some(h) => r matches Ok(p) && p@ == progress_dir_of(base_in(h), session_id@),
            None => r matches Err(ConfigError::NoHome),
        },
{
    match base_dir_from(home) {
        Ok(base) => Ok(session_progress_dir_in(base.as_str(), session_id)),
        Err(e) => Err(e),
    }
}

/// Where the progress of a session is.
pub fn session_progress_dir(session_id: &str) -> (r: Result<String, ConfigError>)
    ensures
        match r {
            Ok(p) => exists|home: Seq<char>| p@ == progress_dir_of(#[trigger] base_in(home), session_id@),
            Err(e) => e is NoHome,
        },
{
    match home_dir() {
        Some(h) => session_progress_dir_from(Some(h.as_str()), session_id),
        None => session_progress_dir_from(None, session_id),
    }
}

/// The file with the progress of a session.
pub open spec fn progress_file_of(base: Seq<char>, session_id: Seq<char>) -> Seq<char> {
    paths::joined(progress_dir_of(base, session_id), "progress.json"@)
}

/// The file with the progress of a session.
pub fn session_progress_file_in(base: &str, session_id: &str) -> (r: String)
    ensures
        r@ == progress_file_of(base@, session_id@),
{
    join(session_progress_dir_in(base, session_id).as_str(), "progress.json")
}

/// The file with the progress of a session, given the home directory if there is one.
pub fn session_progress_file_from(home: Option<&str>, session_id: &str) -> (r: Result<
    String,
    ConfigError,
>)
    ensures
        match text::opt_str(home) {
            Some(h) => r matches Ok(p) && p@ == progress_file_of(base_in(h), session_id@),
            None => r matches Err(ConfigError::NoHome),
        },
{
    match base_dir_from(home) {
        Ok(base) => Ok(session_progress_file_in(base.as_str(), session_id)),
        Err(e) => Err(e),
    }
}

/// The file with the progress of a session.
pub fn session_progress_file(session_id: &str) -> (r: Result<String, ConfigError>)
    ensures
        match r {
            Ok(p) => exists|home: Seq<char>| p@ == progress_file_of(#[trigger] base_in(home), session_id@),
            Err(e) => e is NoHome,
        },
{
    match home_dir() {
        Some(h) => session_progress_file_from(Some(h.as_str()), session_id),
        None => session_progress_file_from(None, session_id),
    }
}

/// Where the sockets of hosts are.
pub open spec fn sockets_of(base: Seq<char>) -> Seq<char> {
    paths::joined(base, "sockets"@)
}

/// Where the sockets of hosts are.
pub fn sockets_dir_in(base: &str) -> (r: String)
    ensures
        r@ == sockets_of(base@),
{
    join(base, "sockets")
}

/// Where the sockets of hosts are, given the home directory if there is one.
pub fn sockets_dir_from(home: Option<&str>) -> (r: Result<String, ConfigError>)
    ensures
        match text::opt_str(home) {
            Some(h) => r matches Ok(p) && p@ == sockets_of(base_in(h)),
            None => r matches Err(ConfigError::NoHome),
        },
{
    match base_dir_from(home) {
        Ok(base) => Ok(sockets_dir_in(base.as_str())),
        Err(e) => Err(e),
    }
}

/// Where the sockets of hosts are.
pub fn sockets_dir() -> (r: Result<String, ConfigError>)
    ensures
        match r {
            Ok(p) => exists|home: Seq<char>| p@ == sockets_of(#[trigger] base_in(home)),
            Err(e) => e is NoHome,
        },
{
    match home_dir() {
        Some(h) => sockets_dir_from(Some(h.as_str())),
        None => sockets_dir_from(None),
    }
}

/// The socket of a session's host.
pub open spec fn socket_of(base: Seq<char>, session_id: Seq<char>) -> Seq<char> {
    paths::joined(sockets_of(base), session_id + ".sock"@)
}

/// The socket of a session's host.
pub fn session_socket_path_in(base: &str, session_id: &str) -> (r: String)
    ensures
        r@ == socket_of(base@, session_id@),
{
    join(sockets_dir_in(base).as_str(), session_id.to_owned().concat(".sock").as_str())
}

/// The socket of a session's host, given the home directory if there is one.
pub fn session_socket_path_from(home: Option<&str>, session_id: &str) -> (r: Result<
    String,
    ConfigError,
>)
    ensures
        match text::opt_str(home) {
            Some(h) => r matches Ok(p) && p@ == socket_of(base_in(h), session_id@),
            None => r matches Err(ConfigError::NoHome),
        },
{
    match base_dir_from(home) {
        Ok(base) => Ok(session_socket_path_in(base.as_str(), session_id)),
        Err(e) => Err(e),
    }
}

/// The socket of a session's host.
pub fn session_socket_path(session_id: &str) -> (r: Result<String, ConfigError>)
    ensures
        match r {
            Ok(p) => exists|home: Seq<char>| p@ == socket_of(#[trigger] base_in(home), session_id@),
            Err(e) => e is NoHome,
        },
{
    match home_dir() {
        Some(h) => session_socket_path_from(Some(h.as_str()), session_id),
        None => session_socket_path_from(None, session_id),
    }
}

/// Where the process numbers of hosts are.
pub open spec fn pids_of(base: Seq<char>) -> Seq<char> {
    paths::joined(base, "pids"@)
}

/// Where the process numbers of hosts are.
pub fn pids_dir_in(base: &str) -> (r: String)
    ensures
        r@ == pids_of(base@),
{
    join(base, "pids")
}

/// Where the process numbers of hosts are, given the home directory if there is one.
pub fn pids_dir_from(home: Option<&str>) -> (r: Result<String, ConfigError>)
    ensures
        match text::opt_str(home) {
            Some(h) => r matches Ok(p) && p@ == pids_of(base_in(h)),
            None => r matches Err(ConfigError::NoHome),
        },
{
    match base_dir_from(home) {
        Ok(base) => Ok(pids_dir_in(base.as_str())),
        Err(e) => Err(e),
    }
}

/// Where the process numbers of hosts are.
pub fn pids_dir() -> (r: Result<String, ConfigError>)
    ensures
        match r {
            Ok(p) => exists|home: Seq<char>| p@ == pids_of(#[trigger] base_in(home)),
            Err(e) => e is NoHome,
        },
{
    match home_dir() {
        Some(h) => pids_dir_from(Some(h.as_str())),
        None => pids_dir_from(None),
    }
}

/// The file with the process number of a session's host.
pub open spec fn pid_file_of(base: Seq<char>, session_id: Seq<char>) -> Seq<char> {
    paths::joined(pids_of(base), session_id + ".pid"@)
}

/// The file with the process number of a session's host.
pub fn session_pid_path_in(base: &str, session_id: &str) -> (r: String)
    ensures
        r@ == pid_file_of(base@, session_id@),
{
    join(pids_dir_in(base).as_str(), session_id.to_owned().concat(".pid").as_str())
}

/// The file with the process number of a session's host, given the home directory if there is one.
pub fn session_pid_path_from(home: Option<&str>, session_id: &str) -> (r: Result<
    String,
    ConfigError,
>)
    ensures
        match text::opt_str(home) {
            Some(h) => r matches Ok(p) && p@ == pid_file_of(base_in(h), session_id@),
            None => r matches Err(ConfigError::NoHome),
        },
{
    match base_dir_from(home) {
        Ok(base) => Ok(session_pid_path_in(base.as_str(), session_id)),
        Err(e) => Err(e),
    }
}

/// The file with the process number of a session's host.
pub fn session_pid_path(session_id: &str) -> (r: Result<String, ConfigError>)
    ensures
        match r {
            Ok(p) => exists|home: Seq<char>| p@ == pid_file_of(#[trigger] base_in(home), session_id@),
            Err(e) => e is NoHome,
        },
{
    match home_dir() {
        Some(h) => session_pid_path_from(Some(h.as_str()), session_id),
        None => session_pid_path_from(None, session_id),
    }
}

/// Where what is kept in step with other machines is.
pub open spec fn sync_of(base: Seq<char>) -> Seq<char> {
    paths::joined(base, "sync"@)
}

/// Where what is kept in step with other machines is.
pub fn sync_dir_in(base: &str) -> (r: String)
    ensures
        r@ == sync_of(base@),
{
    join(base, "sync")
}

/// Where what is kept in step with other machines is, given the home directory if there is one.
pub fn sync_dir_from(home: Option<&str>) -> (r: Result<String, ConfigError>)
    ensures
        match text::opt_str(home) {
            Some(h) => r matches Ok(p) && p@ == sync_of(base_in(h)),
            None => r matches Err(ConfigError::NoHome),
        },
{
    match base_dir_from(home) {
        Ok(base) => Ok(sync_dir_in(base.as_str())),
        Err(e) => Err(e),
    }
}

/// Where what is kept in step with other machines is.
pub fn sync_dir() -> (r: Result<String, ConfigError>)
    ensures
        match r {
            Ok(p) => exists|home: Seq<char>| p@ == sync_of(#[trigger] base_in(home)),
            Err(e) => e is NoHome,
        },
{
    match home_dir() {
        Some(h) => sync_dir_from(Some(h.as_str())),
        None => sync_dir_from(None),
    }
}

/// The directories that must be there, under the one that everything is kept in.
pub fn required_dirs(base: &str) -> (r: Vec<String>)
    ensures
        text::texts(r@) == seq![
            base@,
            hooks_of(base@),
            worktrees_of(base@),
            paths::joined(base@, "tmp"@),
            sockets_of(base@),
            pids_of(base@),
        ],
{
    let r = vec![
        base.to_owned(),
        global_hooks_dir_in(base),
        worktree_base_dir_in(base),
        join(base, "tmp"),
        sockets_dir_in(base),
        pids_dir_in(base),
    ];
    proof {
        assert(text::texts(r@) =~= seq![
            base@,
            hooks_of(base@),
            worktrees_of(base@),
            paths::joined(base@, "tmp"@),
            sockets_of(base@),
            pids_of(base@),
        ]);
    }
    r
}

/// How it is found out whether the host of a session still runs.
#[derive(Debug, Clone, Copy, PartialEq, Eq, Structural)]
pub enum HostCheck {
    /// It runs where this process does.
    Process(i32),
    /// It runs where its socket answers.
    Socket,
    /// It does not run.
    Gone,
}

/// The process number that a text holds.
pub open spec fn pid_text(content: Seq<char>) -> Option<int> {
    match num::parsed_int(text::trimmed(content)) {
        Some(n) => if i32::MIN <= n <= i32::MAX {
            Some(n)
        } else {
            None
        },
        None => None,
    }
}

/// How it is found out whether the host of a session still runs, given what the file with its
/// process number holds. Without the file its socket tells; a file without a number says it is
/// gone.
pub fn host_check(pid_file: Option<&str>) -> (r: HostCheck)
    ensures
        match text::opt_str(pid_file) {
            Some(c) => match pid_text(c) {
                Some(n) => r matches HostCheck::Process(p) && p == n,
                None => r is Gone,
            },
            None => r is Socket,
        },
{
    match pid_file {
        Some(c) => match parse_int(trim(c).as_str()) {
            Some(n) => {
                if n >= i32::MIN as i64 && n <= i32::MAX as i64 {
                    HostCheck::Process(n as i32)
                } else {
                    HostCheck::Gone
                }
            },
            None => HostCheck::Gone,
        },
        None => HostCheck::Socket,
    }
}

/// The notes for the assistant: the user's own, the project's for claustre, and the project's.
pub open spec fn merged_notes(
    global: Option<Seq<char>>,
    project: Option<Seq<char>>,
    repo: Option<Seq<char>>,
) -> Seq<char> {
    (match global {
        Some(s) => s + "\n\n"@,
        None => Seq::empty(),
    }) + (match project {
        Some(s) => s + "\n\n"@,
        None => Seq::empty(),
    }) + (match repo {
        Some(s) => s,
        None => Seq::empty(),
    })
}

/// The notes for the assistant, from the notes that there are.
pub fn merge_claude_md(global: Option<&str>, project: Option<&str>, repo: Option<&str>) -> (r:
    String)
    ensures
        r@ == merged_notes(text::opt_str(global), text::opt_str(project), text::opt_str(repo)),
{
    let mut r = String::new();
    if let Some(s) = global {
        r.append(s);
        r.append("\n\n");
    }
    if let Some(s) = project {
        r.append(s);
        r.append("\n\n");
    }
    if let Some(s) = repo {
        r.append(s);
    }
    proof {
        assert(r@ =~= merged_notes(
            text::opt_str(global),
            text::opt_str(project),
            text::opt_str(repo),
        ));
    }
    r
}

/// The branch that git's description of a remote names as its head, in the first line that does.
pub open spec fn head_branch(lines: Seq<Seq<char>>) -> Option<Seq<char>>
    decreases lines.len(),
{
    if lines.len() == 0 {
        None
    } else {
        match text::stripped(text::trimmed(lines[0]), "HEAD branch:"@) {
            Some(b) => Some(text::trimmed(b)),
            None => head_branch(lines.skip(1)),
        }
    }
}

/// The default branch of a repository, from git's description of its remote; `main` where that
/// names none or there is none.
pub fn detect_default_branch(description: Option<&str>) -> (r: String)
    ensures
        r@ == (match text::opt_str(description) {
            Some(d) => match head_branch(text::lines_of(d)) {
                Some(b) => b,
                None => "main"@,
            },
            None => "main"@,
        }),
{
    let d = match description {
        Some(d) => d,
        None => {
            return "main".to_owned();
        },
    };
    let all = lines(d);
    let ghost w = text::texts(all@);
    let mut i: usize = 0;
    proof {
        assert(w.skip(0) =~= w);
    }
    while i < all.len()
        invariant
            i <= all.len(),
            w == text::texts(all@),
            w == text::lines_of(d@),
            text::opt_str(description) == Some(d@),
            head_branch(w) == head_branch(w.skip(i as int)),
        decreases all.len() - i,
    {
        let line = trim(all[i].as_str());
        proof {
            assert(w.skip(i as int)[0] == all@[i as int]@);
            assert(w.skip(i as int).skip(1) =~= w.skip(i + 1));
        }
        if let Some(b) = strip_prefix(line.as_str(), "HEAD branch:") {
            return trim(b.as_str());
        }
        i += 1;
    }
    "main".to_owned()
}

/// All notes that there are reach the assistant: the user's own first, the project's for claustre
/// next, the project's last, with an empty line between each two.
pub proof fn notes_are_merged_in_order(g: Seq<char>, p: Seq<char>, r: Seq<char>)
    ensures
        merged_notes(Some(g), Some(p), Some(r)) == g + "\n\n"@ + p + "\n\n"@ + r,
        merged_notes(Some(g), None, Some(r)) == g + "\n\n"@ + r,
        merged_notes(None, Some(p), Some(r)) == p + "\n\n"@ + r,
        merged_notes(None, None, Some(r)) == r,
        g.is_prefix_of(merged_notes(Some(g), Some(p), None)),
        g.is_prefix_of(merged_notes(Some(g), None, None)),
        p.is_prefix_of(merged_notes(None, Some(p), None)),
        text::has_part(merged_notes(Some(g), Some(p), None), p),
        merged_notes(None, None, None).len() == 0,
{
    reveal_strlit("\n\n");
    assert(merged_notes(Some(g), Some(p), Some(r)) =~= g + "\n\n"@ + p + "\n\n"@ + r);
    assert(merged_notes(Some(g), None, Some(r)) =~= g + "\n\n"@ + r);
    assert(merged_notes(None, Some(p), Some(r)) =~= p + "\n\n"@ + r);
    assert(merged_notes(None, None, Some(r)) =~= r);
    let gp = merged_notes(Some(g), Some(p), None);
    assert(gp.subrange(0, g.len() as int) =~= g);
    assert(merged_notes(Some(g), None, None).subrange(0, g.len() as int) =~= g);
    assert(merged_notes(None, Some(p), None).subrange(0, p.len() as int) =~= p);
    let at = g.len() as int + 2;
    assert(gp.subrange(at, at + p.len()) =~= p);
}

/// A notice says the title of the task in the place that the template keeps for it.
pub proof fn notices_name_the_task(
    c: NotificationConfig,
    before: Seq<char>,
    after: Seq<char>,
    title: Seq<char>,
)
    requires
        c.template@ == before + "{task}"@ + after,
        forall|i: int|
            0 <= i < before.len() ==> !#[trigger] text::has_at(c.template@, i, "{task}"@),
        !text::has_part(after, "{task}"@),
    ensures
        c.message_text(title) == before + title + after,
{
    reveal_strlit("{task}");
    text::replacing_changes_the_part_only(before, "{task}"@, after, title);
    text::absent_parts_are_not_replaced(after, "{task}"@, title);
}

/// A voice and a rate that are set are told to `say`, and to no other program.
pub proof fn only_say_is_told_voice_and_rate(c: NotificationConfig)
    ensures
        c.command@ == "say"@ && c.voice is Some ==> c.options()[0] == "-v"@ && c.options()[1]
            == c.voice->Some_0@,
        c.command@ == "say"@ && c.rate is Some ==> c.options()[c.options().len() - 2] == "-r"@
            && c.options().last() == num::digits(c.rate->Some_0 as nat),
        c.command@ == "say"@ && c.voice is None && c.rate is None ==> c.options().len() == 0,
        c.command@ == "say"@ && c.voice is Some && c.rate is Some ==> c.options().len() == 4,
        c.command@ != "say"@ ==> c.options().len() == 0,
{
}

/// A banner shows the title and the message; it opens the pull request where there is one.
pub proof fn banners_open_the_pull_request(
    title: Seq<char>,
    message: Seq<char>,
    icon: Seq<char>,
    url: Seq<char>,
    term: Option<Seq<char>>,
)
    ensures
        ({
            let a = notifier_command(title, message, icon, Some(url), term).args;
            let b = notifier_command(title, message, icon, None, term).args;
            &&& a[2] == "-subtitle"@ && a[3] == title && a[4] == "-message"@ && a[5] == message
            &&& b[3] == title && b[5] == message && a[7] == icon && b[7] == icon
            &&& a.len() == 10 && a[8] == "-open"@ && a[9] == url
            &&& b.len() == 10 && b[8] == "-activate"@
        }),
{
}

/// The number of a process is read back from the text that holds it, with or without a line feed.
pub proof fn process_numbers_are_read_back(n: nat)
    requires
        n <= i32::MAX,
    ensures
        pid_text(num::digits(n)) == Some(n as int),
        pid_text(num::digits(n) + "\n"@) == Some(n as int),
{
    reveal_strlit("\n");
    num::lemma_digits_are_digits(n);
    num::decimal_round_trip(n, i64::MAX as nat);
    let d = num::digits(n);
    lemma_digits_stay(d);
    let t = d + "\n"@;
    assert(t.drop_last() =~= d);
}

proof fn lemma_digits_stay(d: Seq<char>)
    requires
        d.len() > 0,
        forall|i: int| 0 <= i < d.len() ==> num::is_digit(#[trigger] d[i]),
    ensures
        text::trimmed(d) == d,
        text::trimmed(d + "\n"@) == d,
{
    reveal_strlit("\n");
    let t = d + "\n"@;
    assert(num::is_digit(d[0]) && num::is_digit(d[d.len() - 1]));
    assert(t[0] == d[0]);
    assert(text::trimmed_start(t) == t);
    assert(t.last() == '\n');
    assert(t.drop_last() =~= d);
    assert(text::trimmed_end(d) == d);
    assert(text::trimmed_end(t) == text::trimmed_end(t.drop_last()));
}

/// The default branch is the one that the first line names that begins with the words for it.
pub proof fn the_first_head_counts(lines: Seq<Seq<char>>, k: int)
    requires
        0 <= k < lines.len(),
        "HEAD branch:"@.is_prefix_of(text::trimmed(lines[k])),
        forall|i: int| 0 <= i < k ==> !"HEAD branch:"@.is_prefix_of(#[trigger] text::trimmed(lines[i])),
    ensures
        head_branch(lines) == Some(text::trimmed(text::trimmed(lines[k]).skip("HEAD branch:"@.len() as int))),
    decreases k,
{
    if k > 0 {
        assert(!"HEAD branch:"@.is_prefix_of(text::trimmed(lines[0])));
        let rest = lines.skip(1);
        assert(rest[k - 1] == lines[k]);
        assert forall|i: int| 0 <= i < k - 1 implies !"HEAD branch:"@.is_prefix_of(
            #[trigger] text::trimmed(rest[i]),
        ) by {
            assert(rest[i] == lines[i + 1]);
            assert(!"HEAD branch:"@.is_prefix_of(text::trimmed(lines[i + 1])));
        }
        the_first_head_counts(rest, k - 1);
    }
}

/// Everything is kept in one directory, each thing in its own place; what belongs to a session bears its
/// name.
pub proof fn everything_has_its_place(base: Seq<char>, session_id: Seq<char>, assistant: Seq<char>)
    ensures
        base_in(base) == paths::joined(base, ".claustre"@),
        db_file(base) == paths::joined(base, "claustre.db"@),
        global_notes(base, assistant) == paths::joined(base, assistant + ".md"@),
        hooks_of(base) == paths::joined(base, "hooks"@),
        worktrees_of(base) == paths::joined(base, "worktrees"@),
        sockets_of(base) == paths::joined(base, "sockets"@),
        pids_of(base) == paths::joined(base, "pids"@),
        sync_of(base) == paths::joined(base, "sync"@),
        socket_of(base, session_id) == paths::joined(
            paths::joined(base, "sockets"@),
            session_id + ".sock"@,
        ),
        pid_file_of(base, session_id) == paths::joined(
            paths::joined(base, "pids"@),
            session_id + ".pid"@,
        ),
        progress_dir_of(base, session_id) == paths::joined(paths::joined(base, "tmp"@), session_id),
        progress_file_of(base, session_id) == paths::joined(
            paths::joined(paths::joined(base, "tmp"@), session_id),
            "progress.json"@,
        ),
{
}

/// A text stands between double quotes in a script as itself where it holds neither quotes nor
/// backslashes, and a banner shows the message and the title, both so written.
pub proof fn scripts_show_message_and_title(title: Seq<char>, message: Seq<char>)
    ensures
        !text::has_part(title, "\\"@) && !text::has_part(title, "\""@) ==> script_text(title) == title,
        script_command(title, message).program == "osascript"@,
        script_command(title, message).args.len() == 2,
        script_command(title, message).args[1] == "display notification \""@ + script_text(message)
            + "\" with title \"claustre\" subtitle \""@ + script_text(title) + "\""@,
{
    reveal_strlit("\\");
    reveal_strlit("\"");
    if !text::has_part(title, "\\"@) && !text::has_part(title, "\""@) {
        text::absent_parts_are_not_replaced(title, "\\"@, "\\\\"@);
        text::absent_parts_are_not_replaced(title, "\""@, "\\\""@);
    }
}

/// No quote and no backslash of a text ends the quotes that it stands between in a script: each has a
/// backslash of its own before it.
pub proof fn quotes_stay_inside(s: Seq<char>, c: char)
    ensures
        script_text(s + seq!['"']) == script_text(s) + seq!['\\', '"'],
        script_text(s + seq!['\\']) == script_text(s) + seq!['\\', '\\'],
        c != '"' && c != '\\' ==> script_text(s + seq![c]) == script_text(s) + seq![c],
        script_text(Seq::empty()) == Seq::<char>::empty(),
{
    reveal_strlit("\\");
    reveal_strlit("\\\\");
    reveal_strlit("\"");
    reveal_strlit("\\\"");
    assert("\\"@ =~= seq!['\\'] && "\\\\"@ =~= seq!['\\', '\\']);
    assert("\""@ =~= seq!['"'] && "\\\""@ =~= seq!['\\', '"']);
    lemma_replaced_end(s, '"', '\\', seq!['\\', '\\']);
    lemma_replaced_end(s, '\\', '\\', seq!['\\', '\\']);
    lemma_replaced_end(s, c, '\\', seq!['\\', '\\']);
    let t = text::replaced(s, seq!['\\'], seq!['\\', '\\']);
    lemma_replaced_end(t, '"', '"', seq!['\\', '"']);
    lemma_replaced_end(t, '\\', '"', seq!['\\', '"']);
    lemma_replaced_end(t + seq!['\\'], '\\', '"', seq!['\\', '"']);
    assert(t + seq!['\\', '\\'] =~= t + seq!['\\'] + seq!['\\']);
    let u = text::replaced(t, seq!['"'], seq!['\\', '"']);
    assert(u + seq!['\\'] + seq!['\\'] =~= u + seq!['\\', '\\']);
    lemma_replaced_end(t, c, '"', seq!['\\', '"']);
}

/// Replacing a single character goes through a text from one end to the other.
proof fn lemma_replaced_end(s: Seq<char>, c: char, one: char, with: Seq<char>)
    ensures
        text::replaced(s + seq![c], seq![one], with) == text::replaced(s, seq![one], with) + (if c
            == one {
            with
        } else {
            seq![c]
        }),
    decreases s.len(),
{
    let t = s + seq![c];
    let tail = if c == one {
        with
    } else {
        seq![c]
    };
    let part = seq![one];
    if s.len() == 0 {
        assert(t.skip(1) =~= Seq::empty());
        assert(t[0] == c);
        if c == one {
            assert(t.subrange(0, 1) =~= part);
        } else if text::has_at(t, 0, part) {
            assert(t.subrange(0, 1)[0] == part[0]);
        }
        assert(text::replaced(t.skip(1), part, with) =~= Seq::empty());
        assert(with + Seq::<char>::empty() =~= with);
        assert(seq![c] + Seq::<char>::empty() =~= seq![c]);
        assert(text::replaced(s, part, with) + tail =~= tail);
    } else {
        lemma_replaced_end(s.skip(1), c, one, with);
        assert(t.skip(1) =~= s.skip(1) + seq![c]);
        assert(t[0] == s[0]);
        assert(t.subrange(0, 1) =~= s.subrange(0, 1));
        let rest = text::replaced(s.skip(1), part, with);
        assert(with + (rest + tail) =~= with + rest + tail);
        assert(seq![s[0]] + (rest + tail) =~= seq![s[0]] + rest + tail);
    }
}

/// A board that nobody has set up has a column for what is not begun, for what is under way, for what is
/// in review and for what is finished, in that order.
pub proof fn usual_boards_go_from_left_to_right()
    ensures
        default_columns().len() == 4,
        default_columns()[0].name == "Backlog"@ && default_columns()[0].labels.len() == 0,
        default_columns()[1].name == "In Progress"@ && default_columns()[1].labels.contains("wip"@)
            && default_columns()[1].labels.contains("in progress"@),
        default_columns()[2].name == "In Review"@ && default_columns()[2].labels.contains("review"@)
            && default_columns()[2].labels.contains("in review"@),
        default_columns()[3].name == "Done"@ && default_columns()[3].labels.len() == 0,
{
    let a = default_columns()[1].labels;
    assert(a[0] == "in progress"@ && a[1] == "wip"@);
    let b = default_columns()[2].labels;
    assert(b[0] == "in review"@ && b[1] == "review"@);
}

/// The assistant is recommended to read and write without asking, never to force a push or to push to the
/// main branch, and to ask before it removes anything.
pub proof fn recommendations_are_careful(entry: Seq<char>)
    ensures
        entry == "Bash"@ || entry == "Glob(*)"@ || entry == "Grep(*)"@ || entry == "Read(*)"@ || entry
            == "Edit(*)"@ || entry == "MultiEdit(*)"@ || entry == "Write(*)"@ || entry
            == "NotebookEdit(*)"@ || entry == "TodoWrite(*)"@ || entry == "BashOutput(*)"@
            <==> allow_list().contains(entry),
        entry == "Bash(git push*main*)"@ || entry == "Bash(git push --force*)"@ || entry
            == "Bash(git push*--force*)"@ <==> deny_list().contains(entry),
        entry == "Bash(rm:*)"@ <==> ask_list().contains(entry),
{
    let a = allow_list();
    assert(a[0] == "Bash"@ && a[1] == "Glob(*)"@ && a[2] == "Grep(*)"@ && a[3] == "Read(*)"@);
    assert(a[4] == "Edit(*)"@ && a[5] == "MultiEdit(*)"@ && a[6] == "Write(*)"@);
    assert(a[7] == "NotebookEdit(*)"@ && a[8] == "TodoWrite(*)"@ && a[9] == "BashOutput(*)"@);
    let d = deny_list();
    assert(d[0] == "Bash(git push*main*)"@ && d[1] == "Bash(git push --force*)"@ && d[2]
        == "Bash(git push*--force*)"@);
    assert(ask_list()[0] == "Bash(rm:*)"@);
}

/// Where no model is set, the assistant's own is taken, by its name.
pub proof fn usual_models_bear_the_name(assistant: Seq<char>)
    ensures
        assistant.is_prefix_of(usual_model(assistant)),
        usual_model(assistant) == assistant + "-opus-4-6"@,
{
    let m = usual_model(assistant);
    assert(m.subrange(0, assistant.len() as int) =~= assistant);
}

/// A banner brings up the terminal program that is named, each by its own identifier, and the usual one for
/// any other name.
pub proof fn terminals_are_known_by_name(term: Option<Seq<char>>)
    ensures
        term == Some("iTerm.app"@) ==> bundle_of(term) == "com.googlecode.iterm2"@,
        term is None ==> bundle_of(term) == "com.apple.Terminal"@,
        term matches Some(t) ==> (t != "iTerm.app"@ && t != "kitty"@ && t != "Alacritty"@ && t
            != "WezTerm"@ && t != "ghostty"@ ==> bundle_of(term) == "com.apple.Terminal"@),
        bundle_of(term) == "net.kovidgoyal.kitty"@ || term != Some("kitty"@),
        bundle_of(term) == "org.alacritty"@ || term != Some("Alacritty"@),
        bundle_of(term) == "com.github.wez.wezterm"@ || term != Some("WezTerm"@),
        bundle_of(term) == "com.mitchellh.ghostty"@ || term != Some("ghostty"@),
{
    reveal_strlit("iTerm.app");
    reveal_strlit("kitty");
    reveal_strlit("Alacritty");
    reveal_strlit("WezTerm");
    reveal_strlit("ghostty");
    assert("iTerm.app"@.len() == 9 && "kitty"@.len() == 5 && "Alacritty"@.len() == 9);
    assert("WezTerm"@.len() == 7 && "ghostty"@.len() == 7);
    assert("iTerm.app"@[0] == 'i' && "Alacritty"@[0] == 'A');
    assert("WezTerm"@[0] == 'W' && "ghostty"@[0] == 'g');
}

} // verus!
