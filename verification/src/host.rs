//! The workspace's own decisions on the command line: configuration from the environment, log
//! files, the installation of the local model, and what is printed.

use crate::proto::HarnessId;
use crate::table::Table;
use crate::text::{
    align_left, align_right, all_digits, between, chars_of, copies, decimal, join, joined,
    law_decimal_reads_back, law_what_stands_between, left_aligned, number_of, only_digits, opt,
    push_copies, right_aligned, str_eq, strip_between, to_decimal, trim, trimmed, views,
};
use vstd::prelude::*;
use vstd::string::*;

verus! {

/// The local endpoint; it cannot enable sync.
pub const DEFAULT_EDGE_URL: &'static str = "http://127.0.0.1:8787";

/// The port of the local engine.
pub const DEFAULT_IPC_PORT: u16 = 27655;

/// The edge endpoint: what the environment names, unless that is blank.
pub open spec fn edge_address(env: Option<Seq<char>>) -> Seq<char> {
    match env {
        Some(url) => if trimmed(url).len() == 0 {
            DEFAULT_EDGE_URL@
        } else {
            url
        },
        None => DEFAULT_EDGE_URL@,
    }
}

/// The edge endpoint: what the environment names, unless that is blank.
pub fn edge_url_from_env(env: &Option<String>) -> (r: String)
    ensures
        r@ == edge_address(opt(*env)),
{
    match env {
        Some(url) => if trim(url.as_str()).as_str().is_empty() {
            DEFAULT_EDGE_URL.to_owned()
        } else {
            url.clone()
        },
        None => DEFAULT_EDGE_URL.to_owned(),
    }
}

/// The port that a text names: decimal digits, perhaps behind a plus sign.
pub open spec fn port_of(text: Seq<char>) -> Option<u16> {
    let digits = if text.len() > 0 && text[0] == '+' {
        text.skip(1)
    } else {
        text
    };
    if digits.len() > 0 && all_digits(digits) && number_of(digits) <= 65_535 {
        Some(number_of(digits) as u16)
    } else {
        None
    }
}

fn parse_port(text: &str) -> (r: Option<u16>)
    ensures
        r == port_of(text@),
{
    let chars = chars_of(text);
    let mut digits: Vec<char> = Vec::new();
    let mut i: usize = if chars.len() > 0 && chars[0] == '+' {
        1
    } else {
        0
    };
    let ghost from = i as int;
    let ghost rest = if text@.len() > 0 && text@[0] == '+' {
        text@.skip(1)
    } else {
        text@
    };
    assert(rest =~= text@.skip(from));
    while i < chars.len()
        invariant
            0 <= from <= i <= chars@.len(),
            chars@ == text@,
            digits@ == text@.subrange(from, i as int),
        decreases chars@.len() - i,
    {
        digits.push(chars[i]);
        i = i + 1;
    }
    assert(digits@ =~= rest);
    if digits.len() == 0 || !only_digits(&digits) {
        return None;
    }
    let mut n: u32 = 0;
    let mut k: usize = 0;
    while k < digits.len()
        invariant
            k <= digits@.len(),
            digits@ == rest,
            all_digits(rest),
            n <= 655_359,
            n <= 65_535 ==> number_of(rest.take(k as int)) == n,
            n > 65_535 ==> number_of(rest.take(k as int)) > 65_535,
        decreases digits@.len() - k,
    {
        assert(rest.take(k + 1).drop_last() =~= rest.take(k as int));
        assert(rest.take(k + 1).last() == rest[k as int]);
        assert('0' <= rest[k as int] <= '9');
        if n <= 65_535 {
            n = 10 * n + (digits[k] as u32 - '0' as u32);
        }
        k = k + 1;
    }
    assert(rest.take(k as int) =~= rest);
    if n <= 65_535 {
        Some(n as u16)
    } else {
        None
    }
}

/// The engine's port: what the environment names, where that is a port.
pub open spec fn port_or_default(env: Option<Seq<char>>) -> u16 {
    match env {
        Some(text) => match port_of(text) {
            Some(port) => port,
            None => DEFAULT_IPC_PORT,
        },
        None => DEFAULT_IPC_PORT,
    }
}

/// The engine's port: what the environment names, where that is a port.
pub fn ipc_port(env: &Option<String>) -> (r: u16)
    ensures
        r == port_or_default(opt(*env)),
{
    match env {
        Some(text) => match parse_port(text.as_str()) {
            Some(port) => port,
            None => DEFAULT_IPC_PORT,
        },
        None => DEFAULT_IPC_PORT,
    }
}

/// The harness that a name stands for.
pub open spec fn harness_named(name: Seq<char>) -> HarnessId {
    if name == "mock"@ {
        HarnessId::Mock
    } else if name == "codex"@ {
        HarnessId::Codex
    } else if name == "cursor"@ {
        HarnessId::Cursor
    } else if name == "grok"@ {
        HarnessId::Grok
    } else if name == "hermes"@ {
        HarnessId::Hermes
    } else if name == "pi"@ {
        HarnessId::Pi
    } else if name == "dsh"@ {
        HarnessId::Dsh
    } else if name == "og"@ {
        HarnessId::Og
    } else {
        HarnessId::ClaudeCode
    }
}

/// The default harness of chats that configure none: what the environment names.
pub open spec fn harness_or_default(env: Option<Seq<char>>) -> HarnessId {
    match env {
        Some(name) => harness_named(trimmed(name)),
        None => HarnessId::ClaudeCode,
    }
}

/// The default harness of chats that configure none: what the environment names.
pub fn harness_from_env(env: &Option<String>) -> (r: HarnessId)
    ensures
        r == harness_or_default(opt(*env)),
{
    let name = match env {
        Some(name) => trim(name.as_str()),
        None => {
            return HarnessId::ClaudeCode;
        },
    };
    let name = name.as_str();
    if str_eq(name, "mock") {
        HarnessId::Mock
    } else if str_eq(name, "codex") {
        HarnessId::Codex
    } else if str_eq(name, "cursor") {
        HarnessId::Cursor
    } else if str_eq(name, "grok") {
        HarnessId::Grok
    } else if str_eq(name, "hermes") {
        HarnessId::Hermes
    } else if str_eq(name, "pi") {
        HarnessId::Pi
    } else if str_eq(name, "dsh") {
        HarnessId::Dsh
    } else if str_eq(name, "og") {
        HarnessId::Og
    } else {
        HarnessId::ClaudeCode
    }
}

/// What the engine, or the window, is started with. `P` is a path.
#[derive(Debug, PartialEq)]
pub struct EngineConfig<P> {
    pub data_dir: P,
    pub edge_url: String,
    pub ipc_port: u16,
    pub default_harness: HarnessId,
    pub org_id: Option<String>,
    pub workos_client_id: Option<String>,
    pub edge_token: Option<String>,
}

/// A variable of the environment.
pub open spec fn variable(env: Map<Seq<char>, String>, name: Seq<char>) -> Option<Seq<char>> {
    if env.contains_key(name) {
        Some(env[name]@)
    } else {
        None
    }
}

fn lookup(env: &Table<String>, name: &str) -> (r: Option<String>)
    ensures
        opt(r) == variable(env@, name@),
{
    match env.get(name) {
        Some(value) => Some(value.clone()),
        None => None,
    }
}

/// The configuration is local: whatever the environment still holds, there is no organisation,
/// no client, and no token to sync with.
pub open spec fn is_local<P>(config: EngineConfig<P>) -> bool {
    config.org_id is None && config.workos_client_id is None && config.edge_token is None
}

/// What the headless engine is started with in an environment.
pub fn engine_config_from_env<P>(data_dir: P, env: &Table<String>) -> (r: EngineConfig<P>)
    ensures
        is_local(r),
        r.data_dir == data_dir,
        r.edge_url@ == edge_address(variable(env@, "KEEL_EDGE_URL"@)),
        r.ipc_port == port_or_default(variable(env@, "KEEL_IPC_PORT"@)),
        r.default_harness == harness_or_default(variable(env@, "KEEL_HARNESS"@)),
{
    EngineConfig {
        data_dir,
        edge_url: edge_url_from_env(&lookup(env, "KEEL_EDGE_URL")),
        ipc_port: ipc_port(&lookup(env, "KEEL_IPC_PORT")),
        default_harness: harness_from_env(&lookup(env, "KEEL_HARNESS")),
        org_id: None,
        workos_client_id: None,
        edge_token: None,
    }
}

/// What the window is started with in an environment: as the engine, but with the default
/// harness whatever the environment names.
pub fn window_config_from_env<P>(data_dir: P, env: &Table<String>) -> (r: EngineConfig<P>)
    ensures
        is_local(r),
        r.data_dir == data_dir,
        r.edge_url@ == edge_address(variable(env@, "KEEL_EDGE_URL"@)),
        r.ipc_port == port_or_default(variable(env@, "KEEL_IPC_PORT"@)),
        r.default_harness == HarnessId::ClaudeCode,
{
    EngineConfig {
        default_harness: HarnessId::ClaudeCode,
        ..engine_config_from_env(data_dir, env)
    }
}

/// How the program was launched: with its window, without one, or for one command.
#[derive(Debug, Clone, Copy, PartialEq, Eq, Structural)]
pub enum Launch {
    Headed,
    Headless,
    Command,
}

/// The log filter where the environment sets none, and the name under which a launch keeps a
/// log file. Only long-running launches keep one.
pub fn log_setup(launch: Launch) -> (r: (&'static str, Option<&'static str>))
    ensures
        r.0@ == if launch == Launch::Command {
            "warn"@
        } else {
            "info,loro_internal=warn,loro=warn"@
        },
        crate::adapter::opt_str(r.1) == match launch {
            Launch::Headed => Some("headed"@),
            Launch::Headless => Some("headless"@),
            Launch::Command => None,
        },
{
    match launch {
        Launch::Headed => ("info,loro_internal=warn,loro=warn", Some("headed")),
        Launch::Headless => ("info,loro_internal=warn,loro=warn", Some("headless")),
        Launch::Command => ("warn", None),
    }
}

/// The name of a launch mode's log file.
pub open spec fn log_name_view(mode: Seq<char>) -> Seq<char> {
    "keel-"@ + mode + ".log"@
}

/// The name of a launch mode's log file.
pub fn log_name(mode: &str) -> (r: String)
    ensures
        r@ == log_name_view(mode@),
{
    let mut name = "keel-".to_owned();
    name.append(mode);
    name.append(".log");
    name
}

/// What to do about a launch's log file.
#[derive(Debug, PartialEq)]
pub enum LogPlan {
    /// Write to a file of the process's own.
    Overflow { name: String },
    /// Move the old file aside, where there was one, create the file anew, and sweep the
    /// overflow files.
    Own { rotate_to: Option<String>, name: String },
}

/// The mathematical value of a [`LogPlan`].
pub enum PlanView {
    Overflow { name: Seq<char> },
    Own { rotate_to: Option<Seq<char>>, name: Seq<char> },
}

impl View for LogPlan {
    type V = PlanView;

    open spec fn view(&self) -> PlanView {
        match self {
            LogPlan::Overflow { name } => PlanView::Overflow { name: name@ },
            LogPlan::Own { rotate_to, name } => PlanView::Own {
                rotate_to: opt(*rotate_to),
                name: name@,
            },
        }
    }
}

/// What to do about a log file that was there before or not, and that a live process has
/// locked or not.
pub open spec fn log_plan_view(
    mode: Seq<char>,
    preexisting: bool,
    locked_elsewhere: bool,
    pid: u32,
) -> PlanView {
    if locked_elsewhere {
        PlanView::Overflow { name: "keel-"@ + mode + "."@ + decimal(pid as int) + ".log"@ }
    } else {
        PlanView::Own {
            rotate_to: if preexisting {
                Some("keel-"@ + mode + ".log.old"@)
            } else {
                None
            },
            name: log_name_view(mode),
        }
    }
}

/// What to do about a log file.
pub fn log_plan(mode: &str, preexisting: bool, locked_elsewhere: bool, pid: u32) -> (r: LogPlan)
    ensures
        r@ == log_plan_view(mode@, preexisting, locked_elsewhere, pid),
{
    if locked_elsewhere {
        // A live process owns the file.
        let mut name = "keel-".to_owned();
        name.append(mode);
        name.append(".");
        name.append(to_decimal(pid as u64).as_str());
        name.append(".log");
        return LogPlan::Overflow { name };
    }
    let rotate_to = if preexisting {
        let mut name = "keel-".to_owned();
        name.append(mode);
        name.append(".log.old");
        Some(name)
    } else {
        None
    };
    LogPlan::Own { rotate_to, name: log_name(mode) }
}

/// A week, in seconds.
pub const WEEK_SECS: u64 = 604_800;

/// A file name is that of a mode's overflow log: a process id, one or more digits, between the
/// mode and the extension.
pub open spec fn is_overflow(name: Seq<char>, mode: Seq<char>) -> bool {
    between(name, "keel-"@ + mode + "."@, ".log"@) matches Some(middle) && middle.len() > 0
        && all_digits(middle)
}

/// Whether a file in the log directory is to be deleted: an overflow log of the mode that was
/// last written more than a week ago. The age is not always known.
pub fn is_stale_overflow(name: &str, mode: &str, age: Option<(u64, u32)>) -> (r: bool)
    ensures
        r == (is_overflow(name@, mode@) && (age matches Some((secs, nanos)) && (secs > WEEK_SECS
            || (secs == WEEK_SECS && nanos > 0)))),
{
    let mut prefix = "keel-".to_owned();
    prefix.append(mode);
    prefix.append(".");
    match strip_between(name, prefix.as_str(), ".log") {
        Some(middle) => if middle.len() == 0 || !only_digits(&middle) {
            return false;
        },
        None => {
            return false;
        },
    }
    match age {
        Some((secs, nanos)) => secs > WEEK_SECS || (secs == WEEK_SECS && nanos > 0),
        None => false,
    }
}

/// What is known of the local model.
pub struct LayaStatus {
    pub installed: bool,
    pub downloadable: bool,
    pub message: String,
}

/// How an installation of the local model begins.
#[derive(Debug, PartialEq)]
pub enum InstallStart {
    /// It cannot be installed, for this reason.
    Refused { message: String },
    /// It is there; this is said.
    Present { line: String },
    /// It is to be downloaded; this is said.
    Download { line: String },
}

/// The mathematical value of an [`InstallStart`].
pub enum StartView {
    Refused { message: Seq<char> },
    Present { line: Seq<char> },
    Download { line: Seq<char> },
}

impl View for InstallStart {
    type V = StartView;

    open spec fn view(&self) -> StartView {
        match self {
            InstallStart::Refused { message } => StartView::Refused { message: message@ },
            InstallStart::Present { line } => StartView::Present { line: line@ },
            InstallStart::Download { line } => StartView::Download { line: line@ },
        }
    }
}

/// How an installation into `target` begins.
pub fn begin_install(status: &LayaStatus, target: &str) -> (r: InstallStart)
    ensures
        r@ == if status.installed {
            StartView::Present { line: "Laya model is already available; no download needed."@ }
        } else if status.downloadable {
            StartView::Download { line: "Downloading the pinned Laya model to "@ + target@ }
        } else {
            StartView::Refused { message: "Laya cannot be installed here: "@ + status.message@ }
        },
{
    if !status.installed && !status.downloadable {
        let mut message = "Laya cannot be installed here: ".to_owned();
        message.append(status.message.as_str());
        return InstallStart::Refused { message };
    }
    if status.installed {
        return InstallStart::Present {
            line: "Laya model is already available; no download needed.".to_owned(),
        };
    }
    let mut line = "Downloading the pinned Laya model to ".to_owned();
    line.append(target);
    InstallStart::Download { line }
}

/// How an installation goes on. `Other` stands for the steps that nothing is said of.
pub enum LayaInstallProgress {
    Downloading { downloaded_bytes: u64, total_bytes: u64 },
    Verifying,
    Other,
}

/// What the terminal shows of an installation: the last percentage, and whether the download
/// is over.
#[derive(Debug, Clone, Copy, PartialEq, Eq, Structural)]
pub struct InstallView {
    pub last_percent: Option<u64>,
    pub verifying: bool,
}

/// The hundredths of a download; past the largest number of bytes the product saturates.
pub open spec fn percent_of(downloaded: u64, total: u64) -> int {
    let scaled = if 100 * downloaded > u64::MAX {
        u64::MAX as int
    } else {
        100 * downloaded
    };
    scaled / (total as int)
}

/// How many of the bar's twenty cells are filled.
pub open spec fn cells(percent: int) -> int {
    (if percent < 100 {
        percent
    } else {
        100
    }) / 5
}

/// The line of a download, which overwrites itself.
pub open spec fn progress_line(percent: int, downloaded: u64, total: u64) -> Seq<char> {
    "\rLaya ["@ + copies('#', cells(percent)) + copies('-', 20 - cells(percent)) + "] "@
        + right_aligned(decimal(percent), 3) + "% ("@ + decimal(downloaded as int / 1_000_000)
        + "/"@ + decimal(total as int / 1_000_000) + " MB)"@
}

/// What a step prints, and what the terminal shows then. A percentage that is shown already
/// prints nothing.
pub open spec fn progress_step(shown: InstallView, progress: LayaInstallProgress) -> (
    InstallView,
    Seq<char>,
) {
    match progress {
        LayaInstallProgress::Downloading { downloaded_bytes, total_bytes } => {
            let percent = percent_of(downloaded_bytes, total_bytes);
            if total_bytes > 0 && shown.last_percent != Some(percent as u64) {
                (
                    InstallView { last_percent: Some(percent as u64), ..shown },
                    progress_line(percent, downloaded_bytes, total_bytes),
                )
            } else {
                (shown, Seq::empty())
            }
        },
        LayaInstallProgress::Verifying => (
            InstallView { verifying: true, ..shown },
            "\nDownload complete. Verifying model files…\n"@,
        ),
        LayaInstallProgress::Other => (shown, Seq::empty()),
    }
}

/// Nothing is shown yet.
pub fn begin_progress() -> (r: InstallView)
    ensures
        r == (InstallView { last_percent: None, verifying: false }),
{
    InstallView { last_percent: None, verifying: false }
}

/// What a step prints.
pub fn show_progress(shown: &mut InstallView, progress: &LayaInstallProgress) -> (r: String)
    ensures
        *final(shown) == progress_step(*old(shown), *progress).0,
        r@ == progress_step(*old(shown), *progress).1,
{
    match progress {
        LayaInstallProgress::Downloading { downloaded_bytes, total_bytes } => {
            let downloaded: u64 = *downloaded_bytes;
            let total: u64 = *total_bytes;
            if total == 0 {
                return String::new();
            }
            let scaled: u64 = match downloaded.checked_mul(100) {
                Some(scaled) => scaled,
                None => u64::MAX,
            };
            let percent: u64 = scaled / total;
            assert(percent == percent_of(downloaded, total));
            let repeated = match shown.last_percent {
                Some(last) => last == percent,
                None => false,
            };
            if repeated {
                return String::new();
            }
            let filled: usize = ((if percent < 100 {
                percent
            } else {
                100
            }) / 5) as usize;
            let mut line = "\rLaya [".to_owned();
            push_copies(&mut line, '#', filled);
            push_copies(&mut line, '-', 20 - filled);
            line.append("] ");
            line.append(align_right(to_decimal(percent).as_str(), 3).as_str());
            line.append("% (");
            line.append(to_decimal(downloaded / 1_000_000).as_str());
            line.append("/");
            line.append(to_decimal(total / 1_000_000).as_str());
            line.append(" MB)");
            shown.last_percent = Some(percent);
            line
        },
        LayaInstallProgress::Verifying => {
            shown.verifying = true;
            "\nDownload complete. Verifying model files…\n".to_owned()
        },
        LayaInstallProgress::Other => String::new(),
    }
}

/// Whether the line of the download is still open when its steps are over.
pub fn line_is_open(shown: &InstallView) -> (r: bool)
    ensures
        r == (shown.last_percent is Some && !shown.verifying),
{
    shown.last_percent.is_some() && !shown.verifying
}

/// What a download that went through comes to: the model is ready, or it is an error.
pub fn end_install(ready: bool) -> (r: Result<&'static str, &'static str>)
    ensures
        match r {
            Ok(line) => ready && line@ == "Laya model verified and installed."@,
            Err(message) => !ready && message@
                == "Laya downloaded, but the worker or model is not ready for decisions"@,
        },
{
    if ready {
        Ok("Laya model verified and installed.")
    } else {
        Err("Laya downloaded, but the worker or model is not ready for decisions")
    }
}

/// The decision backend that is selected. `Other` stands for none of the two.
#[derive(Debug, Clone, Copy, PartialEq, Eq, Structural)]
pub enum DecisionMode {
    Laya,
    Jev,
    Other,
}

/// The backend that a new task gets: the selected one where it is ready, else none.
pub open spec fn effective_view(selected: DecisionMode, laya_ready: bool, jev_ready: bool) -> Seq<
    char,
> {
    if selected == DecisionMode::Laya && laya_ready {
        "Laya (local)"@
    } else if selected == DecisionMode::Jev && jev_ready {
        "Jev (direct TypeSafe)"@
    } else {
        "Normal harness"@
    }
}

/// The backend that a new task gets.
pub fn effective_backend(selected: DecisionMode, laya_ready: bool, jev_ready: bool) -> (r:
    &'static str)
    ensures
        r@ == effective_view(selected, laya_ready, jev_ready),
{
    match selected {
        DecisionMode::Laya => if laya_ready {
            "Laya (local)"
        } else {
            "Normal harness"
        },
        DecisionMode::Jev => if jev_ready {
            "Jev (direct TypeSafe)"
        } else {
            "Normal harness"
        },
        DecisionMode::Other => "Normal harness",
    }
}

/// The lines of the decision status.
pub open spec fn status_view(
    selected: DecisionMode,
    selected_name: Seq<char>,
    laya: LayaStatus,
    jev_ready: bool,
) -> Seq<Seq<char>> {
    seq![
        "Selected decision backend: "@ + selected_name,
        "Available intake backend (local checks): "@ + effective_view(
            selected,
            laya.installed,
            jev_ready,
        ),
        "Laya: "@ + laya.message@,
        "Jev: "@ + if jev_ready {
            "protected local credential available"@
        } else {
            "protected local credential unavailable"@
        },
        "External tools: the backend chooses once at eligible new-task intake."@,
        "Embedded DeepSeek: the backend can also choose a bounded step focus."@,
        "The task chat shows live selection only while it actually runs, then its result."@,
    ]
}

/// The lines of the decision status.
pub fn decision_status(
    selected: DecisionMode,
    selected_name: &str,
    laya: &LayaStatus,
    jev_ready: bool,
) -> (r: Vec<String>)
    ensures
        views(r@) == status_view(selected, selected_name@, *laya, jev_ready),
{
    let mut first = "Selected decision backend: ".to_owned();
    first.append(selected_name);
    let mut second = "Available intake backend (local checks): ".to_owned();
    second.append(effective_backend(selected, laya.installed, jev_ready));
    let mut third = "Laya: ".to_owned();
    third.append(laya.message.as_str());
    let mut fourth = "Jev: ".to_owned();
    if jev_ready {
        fourth.append("protected local credential available");
    } else {
        fourth.append("protected local credential unavailable");
    }
    let out = vec![
        first,
        second,
        third,
        fourth,
        "External tools: the backend chooses once at eligible new-task intake.".to_owned(),
        "Embedded DeepSeek: the backend can also choose a bounded step focus.".to_owned(),
        "The task chat shows live selection only while it actually runs, then its result.".to_owned(),
    ];
    assert(views(out@) =~= status_view(selected, selected_name@, *laya, jev_ready));
    out
}

/// A count with its share of all receipts, in percent without decimals.
pub struct Share {
    pub count: u64,
    pub percent: String,
}

/// The decision receipts in numbers. Shares and the mean are floats, as they are printed.
pub struct DecisionReport {
    pub total: u64,
    pub chats: u64,
    pub selected: Share,
    pub abstained: Share,
    pub with_fallback: Share,
    pub with_outcome: Share,
    pub by_backend: Vec<(String, u64)>,
    pub by_stage: Vec<(String, u64)>,
    pub by_validation: Vec<(String, u64)>,
    /// The mean confidence with two decimals, where any was reported.
    pub mean_confidence: Option<String>,
}

/// The line of a share.
pub open spec fn share_view(label: Seq<char>, share: Share) -> Seq<char> {
    label + right_aligned(decimal(share.count as int), 5) + "  ("@ + share.percent@ + "%)"@
}

fn share_line(label: &str, share: &Share) -> (r: String)
    ensures
        r@ == share_view(label@, *share),
{
    let mut line = label.to_owned();
    line.append(align_right(to_decimal(share.count).as_str(), 5).as_str());
    line.append("  (");
    line.append(share.percent.as_str());
    line.append("%)");
    line
}

/// The counts by name, as they are listed.
pub open spec fn count_views(counts: Seq<(String, u64)>) -> Seq<Seq<char>> {
    counts.map_values(|c: (String, u64)| c.0@ + " "@ + decimal(c.1 as int))
}

/// The line of a list of counts.
pub open spec fn counts_view(label: Seq<char>, counts: Seq<(String, u64)>) -> Seq<char> {
    left_aligned(label, 11) + joined(count_views(counts), ", "@)
}

fn counts_line(label: &str, counts: &Vec<(String, u64)>) -> (r: String)
    ensures
        r@ == counts_view(label@, counts@),
{
    let mut parts: Vec<String> = Vec::new();
    let mut i: usize = 0;
    while i < counts.len()
        invariant
            i <= counts@.len(),
            parts@.len() == i,
            forall|k: int|
                0 <= k < i ==> (#[trigger] parts@[k])@ == counts@[k].0@ + " "@ + decimal(
                    counts@[k].1 as int,
                ),
        decreases counts@.len() - i,
    {
        let mut part = counts[i].0.clone();
        part.append(" ");
        part.append(to_decimal(counts[i].1).as_str());
        parts.push(part);
        i = i + 1;
    }
    assert(views(parts@) =~= count_views(counts@));
    let mut line = align_left(label, 11);
    line.append(join(&parts, ", ").as_str());
    line
}

/// The lines of the decision report.
pub open spec fn report_view(report: DecisionReport) -> Seq<Seq<char>> {
    if report.total == 0 {
        seq!["No decision receipts recorded yet."@]
    } else {
        seq![
            "Decision receipts: "@ + decimal(report.total as int) + " across "@ + decimal(
                report.chats as int,
            ) + " chats"@,
            share_view("  selected   "@, report.selected),
            share_view("  abstained  "@, report.abstained),
            share_view("  fallback   "@, report.with_fallback),
            share_view("  outcome    "@, report.with_outcome),
            counts_view("backend"@, report.by_backend@),
            counts_view("stage"@, report.by_stage@),
            counts_view("validation"@, report.by_validation@),
            match opt(report.mean_confidence) {
                Some(mean) => "mean confidence "@ + mean,
                None => "mean confidence not reported"@,
            },
        ]
    }
}

/// The lines of the decision report.
pub fn decision_report(report: &DecisionReport) -> (r: Vec<String>)
    ensures
        views(r@) == report_view(*report),
{
    if report.total == 0 {
        let out = vec!["No decision receipts recorded yet.".to_owned()];
        assert(views(out@) =~= report_view(*report));
        return out;
    }
    let mut first = "Decision receipts: ".to_owned();
    first.append(to_decimal(report.total).as_str());
    first.append(" across ");
    first.append(to_decimal(report.chats).as_str());
    first.append(" chats");
    let last = match &report.mean_confidence {
        Some(mean) => {
            let mut line = "mean confidence ".to_owned();
            line.append(mean.as_str());
            line
        },
        None => "mean confidence not reported".to_owned(),
    };
    let out = vec![
        first,
        share_line("  selected   ", &report.selected),
        share_line("  abstained  ", &report.abstained),
        share_line("  fallback   ", &report.with_fallback),
        share_line("  outcome    ", &report.with_outcome),
        counts_line("backend", &report.by_backend),
        counts_line("stage", &report.by_stage),
        counts_line("validation", &report.by_validation),
        last,
    ];
    assert(views(out@) =~= report_view(*report));
    out
}

/// A live process's log is never moved aside: a second launch writes to a file of its own,
/// under another name than the log's.
pub proof fn law_a_live_log_is_never_rotated(mode: Seq<char>, preexisting: bool, pid: u32)
    ensures
        ({
            let plan = log_plan_view(mode, preexisting, true, pid);
            &&& plan is Overflow
            &&& plan->Overflow_name != log_name_view(mode)
        }),
{
    let name = log_plan_view(mode, preexisting, true, pid)->Overflow_name;
    law_decimal_reads_back(pid as int);
    reveal_strlit(".");
    reveal_strlit(".log");
    reveal_strlit("keel-");
    assert(name.len() > log_name_view(mode).len());
}

/// Rotation resumes once no live process holds the log: the old file is kept under another
/// name and the log starts anew.
pub proof fn law_a_free_log_is_rotated(mode: Seq<char>, pid: u32)
    ensures
        log_plan_view(mode, true, false, pid) == (PlanView::Own {
            rotate_to: Some("keel-"@ + mode + ".log.old"@),
            name: log_name_view(mode),
        }),
        log_plan_view(mode, false, false, pid) == (PlanView::Own {
            rotate_to: None,
            name: log_name_view(mode),
        }),
{
}

/// The sweep finds what a second launch leaves behind, and never the log itself, its old copy,
/// or a name without a process id.
pub proof fn law_the_sweep_takes_overflow_files_alone(mode: Seq<char>, preexisting: bool, pid: u32)
    ensures
        is_overflow(log_plan_view(mode, preexisting, true, pid)->Overflow_name, mode),
        !is_overflow(log_name_view(mode), mode),
        !is_overflow("keel-"@ + mode + ".log.old"@, mode),
        !is_overflow("keel-"@ + mode + "..log"@, mode),
{
    let name = log_plan_view(mode, preexisting, true, pid)->Overflow_name;
    let prefix = "keel-"@ + mode + "."@;
    let digits = decimal(pid as int);
    law_decimal_reads_back(pid as int);
    reveal_strlit(".");
    reveal_strlit(".log");
    reveal_strlit(".log.old");
    reveal_strlit("keel-");
    assert(name =~= prefix + digits + ".log"@);
    assert(name.take(prefix.len() as int) =~= prefix);
    let rest = name.skip(prefix.len() as int);
    assert(rest =~= digits + ".log"@);
    assert(rest.skip(rest.len() - 4) =~= ".log"@);
    assert(rest.take(rest.len() - 4) =~= digits);
    let own = log_name_view(mode);
    assert(own.skip(prefix.len() as int).len() == 3);
    let old = "keel-"@ + mode + ".log.old"@;
    let tail = old.skip(prefix.len() as int);
    assert(tail.len() == 7);
    assert(tail[3] == '.');
    assert(tail[4] == 'o');
    assert(tail.skip(3)[1] == 'o');
    reveal_strlit("..log");
    let nameless = "keel-"@ + mode + "..log"@;
    assert(nameless.skip(prefix.len() as int).len() == 4);
}

/// The bar of a download always has twenty cells.
pub proof fn law_the_bar_has_twenty_cells(downloaded: u64, total: u64)
    requires
        total > 0,
    ensures
        0 <= cells(percent_of(downloaded, total)) <= 20,
        (copies('#', cells(percent_of(downloaded, total))) + copies(
            '-',
            20 - cells(percent_of(downloaded, total)),
        )).len() == 20,
        downloaded == total && total <= u64::MAX / 100 ==> cells(percent_of(downloaded, total))
            == 20,
{
    let scaled = if 100 * downloaded > u64::MAX {
        u64::MAX as int
    } else {
        100 * downloaded
    };
    assert(scaled / (total as int) >= 0) by (nonlinear_arith)
        requires
            scaled >= 0,
            total > 0,
    ;
    if downloaded == total && total <= u64::MAX / 100 {
        assert(scaled == 100 * total);
        assert((100 * total) / (total as int) == 100) by (nonlinear_arith)
            requires
                total > 0,
        ;
    }
}

/// A percentage is printed once as long as it does not change.
pub proof fn law_progress_is_not_repeated(shown: InstallView, downloaded: u64, total: u64)
    ensures
        ({
            let progress = LayaInstallProgress::Downloading {
                downloaded_bytes: downloaded,
                total_bytes: total,
            };
            let once = progress_step(shown, progress);
            let twice = progress_step(once.0, progress);
            twice.0 == once.0 && twice.1.len() == 0
        }),
{
}

/// A port that was written in decimal reads back.
pub proof fn law_ports_read_back(port: u16)
    ensures
        port_of(decimal(port as int)) == Some(port),
{
    law_decimal_reads_back(port as int);
    assert('0' <= decimal(port as int)[0] <= '9');
}

/// The edge endpoint is the one that is named, as it is, unless that is blank or not said.
pub proof fn law_the_edge_is_the_named_one(url: Seq<char>)
    ensures
        trimmed(url).len() > 0 ==> edge_address(Some(url)) == url,
        trimmed(url).len() == 0 ==> edge_address(Some(url)) == "http://127.0.0.1:8787"@,
        edge_address(None) == "http://127.0.0.1:8787"@,
{
}

/// A text is a port where it is a run of digits, perhaps behind a plus sign, whose number is at
/// most 65,535; it is that number then. Any other text, or none, is the default port.
pub proof fn law_ports_are_their_number(digits: Seq<char>, text: Seq<char>)
    requires
        digits.len() > 0,
        all_digits(digits),
    ensures
        number_of(digits) <= 65_535 ==> port_or_default(Some(digits)) == number_of(digits)
            && port_or_default(Some(seq!['+'] + digits)) == number_of(digits),
        number_of(digits) > 65_535 ==> port_or_default(Some(digits)) == 27655 && port_or_default(
            Some(seq!['+'] + digits),
        ) == 27655,
        !all_digits(text) && !(text.len() > 0 && text[0] == '+' && all_digits(text.skip(1)))
            ==> port_or_default(Some(text)) == 27655,
        port_or_default(Some(Seq::empty())) == 27655,
        port_or_default(Some(seq!['+'])) == 27655,
        port_or_default(None) == 27655,
{
    lemma_number_is_not_negative(digits);
    assert('0' <= digits[0] <= '9');
    assert((seq!['+'] + digits).skip(1) =~= digits);
    assert(seq!['+'].skip(1).len() == 0);
}

proof fn lemma_number_is_not_negative(digits: Seq<char>)
    requires
        all_digits(digits),
    ensures
        number_of(digits) >= 0,
    decreases digits.len(),
{
    if digits.len() > 0 {
        assert('0' <= digits[digits.len() - 1] <= '9');
        lemma_number_is_not_negative(digits.drop_last());
    }
}

/// A harness is chosen by its name, whatever white space stands around it; any other name, or
/// none, is the default.
pub proof fn law_harnesses_go_by_their_name(value: Seq<char>)
    ensures
        ({
            let harness = harness_or_default(Some(value));
            let name = trimmed(value);
            &&& name == "mock"@ ==> harness == HarnessId::Mock
            &&& name == "codex"@ ==> harness == HarnessId::Codex
            &&& name == "cursor"@ ==> harness == HarnessId::Cursor
            &&& name == "grok"@ ==> harness == HarnessId::Grok
            &&& name == "hermes"@ ==> harness == HarnessId::Hermes
            &&& name == "pi"@ ==> harness == HarnessId::Pi
            &&& name == "dsh"@ ==> harness == HarnessId::Dsh
            &&& name == "og"@ ==> harness == HarnessId::Og
            &&& name != "mock"@ && name != "codex"@ && name != "cursor"@ && name != "grok"@ && name
                != "hermes"@ && name != "pi"@ && name != "dsh"@ && name != "og"@ ==> harness
                == HarnessId::ClaudeCode
            &&& harness_or_default(None) == HarnessId::ClaudeCode
        }),
{
    reveal_strlit("mock");
    reveal_strlit("codex");
    reveal_strlit("cursor");
    reveal_strlit("grok");
    reveal_strlit("hermes");
    reveal_strlit("pi");
    reveal_strlit("dsh");
    reveal_strlit("og");
    assert("mock"@.len() == 4 && "grok"@.len() == 4 && "codex"@.len() == 5);
    assert("mock"@[0] == 'm' && "grok"@[0] == 'g');
    assert("cursor"@.len() == 6 && "hermes"@.len() == 6 && "dsh"@.len() == 3);
    assert("cursor"@[0] == 'c' && "hermes"@[0] == 'h');
    assert("pi"@.len() == 2 && "og"@.len() == 2);
    assert("pi"@[0] == 'p' && "og"@[0] == 'o');
}

/// A variable is what the environment holds under its name.
pub proof fn law_variables_are_what_is_set(env: Map<Seq<char>, String>, name: Seq<char>)
    ensures
        variable(env, name) is Some <==> env.contains_key(name),
        env.contains_key(name) ==> variable(env, name) == Some(env[name]@),
{
}

/// A local configuration has nothing to sync with.
pub proof fn law_local_means_no_account<P>(config: EngineConfig<P>)
    ensures
        is_local(config) <==> config.org_id is None && config.workos_client_id is None
            && config.edge_token is None,
{
}

/// Log files go by their launch mode: the log itself, its old copy, and a process's own file by
/// its id.
pub proof fn law_logs_go_by_their_mode(mode: Seq<char>, preexisting: bool, pid: u32)
    ensures
        log_plan_view(mode, preexisting, false, pid)->Own_name == "keel-"@ + mode + ".log"@,
        log_plan_view(mode, preexisting, true, pid)->Overflow_name == "keel-"@ + mode + "."@
            + decimal(pid as int) + ".log"@,
{
}

/// A file is an overflow log of a mode exactly where its name is the mode's with a run of digits
/// before the extension. A week, after which it is stale, has seven days.
pub proof fn law_overflow_logs_have_a_number(name: Seq<char>, mode: Seq<char>)
    ensures
        is_overflow(name, mode) <==> exists|digits: Seq<char>|
            digits.len() > 0 && all_digits(digits) && name == #[trigger] ("keel-"@ + mode + "."@
                + digits + ".log"@),
        WEEK_SECS == 7 * 24 * 60 * 60,
{
    let prefix = "keel-"@ + mode + "."@;
    if let Some(middle) = between(name, prefix, ".log"@) {
        law_what_stands_between(name, prefix, ".log"@, middle);
        assert(name == "keel-"@ + mode + "."@ + middle + ".log"@);
    }
    if exists|digits: Seq<char>|
        digits.len() > 0 && all_digits(digits) && name == #[trigger] ("keel-"@ + mode + "."@
            + digits + ".log"@) {
        let digits = choose|digits: Seq<char>|
            digits.len() > 0 && all_digits(digits) && name == #[trigger] ("keel-"@ + mode + "."@
                + digits + ".log"@);
        law_what_stands_between(name, prefix, ".log"@, digits);
    }
}

/// The percentage of a download is the hundredths that are there, rounded down, where their
/// number is no more than the largest one, and those of the largest one beyond that. Every five
/// of them fill a cell of the bar, up to twenty.
pub proof fn law_the_percentage_is_the_share(downloaded: u64, total: u64)
    requires
        total > 0,
    ensures
        ({
            let percent = percent_of(downloaded, total);
            let scaled = vstd::math::min(100 * downloaded, u64::MAX as int);
            &&& percent * total <= scaled < (percent + 1) * total
            &&& percent <= 100 ==> 5 * cells(percent) <= percent < 5 * (cells(percent) + 1)
            &&& percent > 100 ==> cells(percent) == 20
        }),
{
    let scaled = vstd::math::min(100 * downloaded, u64::MAX as int);
    let percent = percent_of(downloaded, total);
    assert(percent * total <= scaled < (percent + 1) * total) by (nonlinear_arith)
        requires
            percent == scaled / (total as int),
            total > 0,
    ;
}

/// A step of a download is shown where its percentage is new: the bar, the percentage, and the
/// megabytes, over the line before. The verification is announced on a line of its own, and
/// nothing is shown of a download without a size.
pub proof fn law_new_percentages_are_shown(shown: InstallView, downloaded: u64, total: u64)
    ensures
        ({
            let step = LayaInstallProgress::Downloading {
                downloaded_bytes: downloaded,
                total_bytes: total,
            };
            let percent = percent_of(downloaded, total);
            let filled = cells(percent);
            let (after, line) = progress_step(shown, step);
            &&& total == 0 ==> line.len() == 0 && after == shown
            &&& total > 0 && shown.last_percent != Some(percent as u64) ==> {
                &&& after.last_percent == Some(percent as u64)
                &&& after.verifying == shown.verifying
                &&& line == "\rLaya ["@ + Seq::new(filled as nat, |i: int| '#') + Seq::new(
                    (20 - filled) as nat,
                    |i: int| '-',
                ) + "] "@ + right_aligned(decimal(percent), 3) + "% ("@ + decimal(
                    downloaded as int / 1_000_000,
                ) + "/"@ + decimal(total as int / 1_000_000) + " MB)"@
            }
        }),
        ({
            let (after, line) = progress_step(shown, LayaInstallProgress::Verifying);
            after.verifying && after.last_percent == shown.last_percent && line
                == "\nDownload complete. Verifying model files…\n"@
        }),
        progress_step(shown, LayaInstallProgress::Other) == (shown, Seq::<char>::empty()),
{
    let filled = cells(percent_of(downloaded, total));
    assert(copies('#', filled) =~= Seq::new(filled as nat, |i: int| '#'));
    assert(copies('-', 20 - filled) =~= Seq::new((20 - filled) as nat, |i: int| '-'));
}

/// A new task gets the selected backend where that one is ready, and the normal harness
/// otherwise.
pub proof fn law_the_selected_backend_counts_where_ready(
    selected: DecisionMode,
    laya_ready: bool,
    jev_ready: bool,
)
    ensures
        ({
            let shown = effective_view(selected, laya_ready, jev_ready);
            &&& selected == DecisionMode::Laya && laya_ready ==> shown == "Laya (local)"@
            &&& selected == DecisionMode::Jev && jev_ready ==> shown == "Jev (direct TypeSafe)"@
            &&& selected == DecisionMode::Laya && !laya_ready ==> shown == "Normal harness"@
            &&& selected == DecisionMode::Jev && !jev_ready ==> shown == "Normal harness"@
            &&& selected == DecisionMode::Other ==> shown == "Normal harness"@
        }),
{
}

/// The status names what is selected, what a task gets of it, and how both backends stand.
pub proof fn law_the_status_names_the_backends(
    selected: DecisionMode,
    name: Seq<char>,
    laya: LayaStatus,
    jev_ready: bool,
)
    ensures
        ({
            let lines = status_view(selected, name, laya, jev_ready);
            &&& lines.len() == 7
            &&& lines[0] == "Selected decision backend: "@ + name
            &&& lines[1] == "Available intake backend (local checks): "@ + effective_view(
                selected,
                laya.installed,
                jev_ready,
            )
            &&& lines[2] == "Laya: "@ + laya.message@
            &&& jev_ready ==> lines[3] == "Jev: "@ + "protected local credential available"@
            &&& !jev_ready ==> lines[3] == "Jev: "@ + "protected local credential unavailable"@
            &&& lines[4]
                == "External tools: the backend chooses once at eligible new-task intake."@
            &&& lines[5] == "Embedded DeepSeek: the backend can also choose a bounded step focus."@
            &&& lines[6]
                == "The task chat shows live selection only while it actually runs, then its result."@
        }),
{
}

/// The report says how many receipts there are and in how many chats, then each share with its
/// count and percentage, then the counts by backend, stage, and validation, then the mean
/// confidence, where any was reported.
pub proof fn law_the_report_counts_receipts(report: DecisionReport)
    requires
        report.total > 0,
    ensures
        ({
            let lines = report_view(report);
            let share = |label: Seq<char>, s: Share|
                label + right_aligned(decimal(s.count as int), 5) + "  ("@ + s.percent@ + "%)"@;
            &&& lines.len() == 9
            &&& lines[0] == "Decision receipts: "@ + decimal(report.total as int) + " across "@
                + decimal(report.chats as int) + " chats"@
            &&& lines[1] == share("  selected   "@, report.selected)
            &&& lines[2] == share("  abstained  "@, report.abstained)
            &&& lines[3] == share("  fallback   "@, report.with_fallback)
            &&& lines[4] == share("  outcome    "@, report.with_outcome)
            &&& lines[5] == left_aligned("backend"@, 11) + joined(
                count_views(report.by_backend@),
                ", "@,
            )
            &&& lines[6] == left_aligned("stage"@, 11) + joined(
                count_views(report.by_stage@),
                ", "@,
            )
            &&& lines[7] == left_aligned("validation"@, 11) + joined(
                count_views(report.by_validation@),
                ", "@,
            )
            &&& report.mean_confidence matches Some(mean) ==> lines[8] == "mean confidence "@
                + mean@
            &&& report.mean_confidence is None ==> lines[8] == "mean confidence not reported"@
        }),
{
}

/// A report without receipts says so, and nothing else.
pub proof fn law_an_empty_report_says_so(report: DecisionReport)
    requires
        report.total == 0,
    ensures
        report_view(report) == seq!["No decision receipts recorded yet."@],
{
}

/// A count is listed behind its name.
pub proof fn law_counts_are_listed_by_name(counts: Seq<(String, u64)>, i: int)
    requires
        0 <= i < counts.len(),
    ensures
        count_views(counts).len() == counts.len(),
        count_views(counts)[i] == counts[i].0@ + " "@ + decimal(counts[i].1 as int),
{
}

}
