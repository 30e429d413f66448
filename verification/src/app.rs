//! The state of the launcher's window and how each event changes it.
//!
//! The window reads the link it was started with, registers and
//! unregisters the scheme, checks and saves the settings, launches the
//! linked script once and closes itself a moment after a successful launch.
//! The work with the disk, the registry and processes is done outside; each
//! method here takes its outcome and decides what the window shows next.

use vstd::prelude::*;

use crate::config::ExecutorConfig;
use crate::config::scheme_prefix_text;
use crate::executor::ExecuteError;
use crate::executor::ExecutionResult;
use crate::executor::ExecutionView;
use crate::text::concat;
use crate::text::contains;
use crate::text::contains_seq;
use crate::text::starts_with;
use crate::url_scheme::UrlSchemeData;
use crate::url_scheme::UrlSchemeView;
use crate::url_scheme::parse_url_scheme;
use crate::url_scheme::spec_parse_url;

verus! {

/// `注册失败:`
pub open spec fn register_failed_msg() -> Seq<char> {
    seq!['注', '册', '失', '败', ':', ' ']
}

fn register_failed_text() -> (r: &'static str)
    ensures
        r@ == register_failed_msg(),
{
    proof {
        reveal_strlit("注册失败: ");
    }
    let r = "注册失败: ";
    assert(r@ =~= register_failed_msg());
    r
}

/// `卸载失败:`
pub open spec fn unregister_failed_msg() -> Seq<char> {
    seq!['卸', '载', '失', '败', ':', ' ']
}

fn unregister_failed_text() -> (r: &'static str)
    ensures
        r@ == unregister_failed_msg(),
{
    proof {
        reveal_strlit("卸载失败: ");
    }
    let r = "卸载失败: ";
    assert(r@ =~= unregister_failed_msg());
    r
}

/// `保存配置失败:`
pub open spec fn save_failed_msg() -> Seq<char> {
    seq!['保', '存', '配', '置', '失', '败', ':', ' ']
}

fn save_failed_text() -> (r: &'static str)
    ensures
        r@ == save_failed_msg(),
{
    proof {
        reveal_strlit("保存配置失败: ");
    }
    let r = "保存配置失败: ";
    assert(r@ =~= save_failed_msg());
    r
}

/// `配置已保存`
pub open spec fn config_saved_msg() -> Seq<char> {
    seq!['配', '置', '已', '保', '存']
}

fn config_saved_text() -> (r: &'static str)
    ensures
        r@ == config_saved_msg(),
{
    proof {
        reveal_strlit("配置已保存");
    }
    let r = "配置已保存";
    assert(r@ =~= config_saved_msg());
    r
}

/// `可执行程序路径不能为空`
pub open spec fn executable_missing_msg() -> Seq<char> {
    seq!['可', '执', '行', '程', '序', '路', '径', '不', '能', '为', '空']
}

fn executable_missing_text() -> (r: &'static str)
    ensures
        r@ == executable_missing_msg(),
{
    proof {
        reveal_strlit("可执行程序路径不能为空");
    }
    let r = "可执行程序路径不能为空";
    assert(r@ =~= executable_missing_msg());
    r
}

/// `脚本基础路径不能为空`
pub open spec fn base_missing_msg() -> Seq<char> {
    seq!['脚', '本', '基', '础', '路', '径', '不', '能', '为', '空']
}

fn base_missing_text() -> (r: &'static str)
    ensures
        r@ == base_missing_msg(),
{
    proof {
        reveal_strlit("脚本基础路径不能为空");
    }
    let r = "脚本基础路径不能为空";
    assert(r@ =~= base_missing_msg());
    r
}

/// `可执行程序路径无效或文件不存在`
pub open spec fn executable_invalid_msg() -> Seq<char> {
    seq!['可', '执', '行', '程', '序', '路', '径', '无', '效', '或', '文', '件', '不', '存', '在']
}

fn executable_invalid_text() -> (r: &'static str)
    ensures
        r@ == executable_invalid_msg(),
{
    proof {
        reveal_strlit("可执行程序路径无效或文件不存在");
    }
    let r = "可执行程序路径无效或文件不存在";
    assert(r@ =~= executable_invalid_msg());
    r
}

/// `脚本基础路径无效或目录不存在`
pub open spec fn base_invalid_msg() -> Seq<char> {
    seq!['脚', '本', '基', '础', '路', '径', '无', '效', '或', '目', '录', '不', '存', '在']
}

fn base_invalid_text() -> (r: &'static str)
    ensures
        r@ == base_invalid_msg(),
{
    proof {
        reveal_strlit("脚本基础路径无效或目录不存在");
    }
    let r = "脚本基础路径无效或目录不存在";
    assert(r@ =~= base_invalid_msg());
    r
}

/// `URL 缺少 scene 或 script 参数`
pub open spec fn link_incomplete_msg() -> Seq<char> {
    seq!['U', 'R', 'L', ' ', '缺', '少', ' ', 's', 'c', 'e', 'n', 'e', ' ', '或', ' ', 's', 'c', 'r', 'i', 'p', 't', ' ', '参', '数']
}

fn link_incomplete_text() -> (r: &'static str)
    ensures
        r@ == link_incomplete_msg(),
{
    proof {
        reveal_strlit("URL 缺少 scene 或 script 参数");
    }
    let r = "URL 缺少 scene 或 script 参数";
    assert(r@ =~= link_incomplete_msg());
    r
}

/// `脚本启动成功`
pub open spec fn launch_succeeded_msg() -> Seq<char> {
    seq!['脚', '本', '启', '动', '成', '功']
}

fn launch_succeeded_text() -> (r: &'static str)
    ensures
        r@ == launch_succeeded_msg(),
{
    proof {
        reveal_strlit("脚本启动成功");
    }
    let r = "脚本启动成功";
    assert(r@ =~= launch_succeeded_msg());
    r
}

/// `执行失败:`
pub open spec fn launch_failed_msg() -> Seq<char> {
    seq!['执', '行', '失', '败', ':', ' ']
}

fn launch_failed_text() -> (r: &'static str)
    ensures
        r@ == launch_failed_msg(),
{
    proof {
        reveal_strlit("执行失败: ");
    }
    let r = "执行失败: ";
    assert(r@ =~= launch_failed_msg());
    r
}


/// How long a successful launch stays on screen before the window closes,
/// in milliseconds.
pub const MIN_DISPLAY_MILLIS: u64 = 800;

/// The window's state, as sequences of characters.
pub struct AppView {
    pub url_data: Option<UrlSchemeView>,
    pub status_message: Option<Seq<char>>,
    pub is_registered: bool,
    pub executable_path: Seq<char>,
    pub script_base_path: Seq<char>,
    pub last_execution: Option<ExecutionView>,
    pub is_url_mode: bool,
    pub has_executed: bool,
    pub execution_time: Option<u64>,
    pub min_display_duration: u64,
}

impl AppView {
    /// What every state of the window satisfies: it is in link mode exactly
    /// when it was started with a readable link, it has a launch time
    /// only once it has launched, and it waits 800 ms after a launch.
    pub open spec fn inv(self) -> bool {
        &&& self.is_url_mode == (self.url_data is Some)
        &&& self.execution_time is Some ==> self.has_executed
        &&& self.min_display_duration == MIN_DISPLAY_MILLIS
    }

    /// The window may close at time `now` (in milliseconds): it was started
    /// by a link, the launch did not fail, and at least the display time
    /// has passed since the launch.
    pub open spec fn can_close_at(self, now: u64) -> bool {
        if !self.is_url_mode {
            false
        } else if self.last_execution is None && self.has_executed {
            false
        } else {
            match self.execution_time {
                Some(t) => elapsed(t, now) >= self.min_display_duration,
                None => false,
            }
        }
    }

    /// The scenario and script that the link asks to launch, when it names
    /// both.
    pub open spec fn launch_request(self) -> Option<(Seq<char>, Seq<char>)> {
        match self.url_data {
            Some(d) => match (d.scene_name, d.script_entry) {
                (Some(a), Some(b)) => Some((a, b)),
                _ => None,
            },
            None => None,
        }
    }

    /// The state after the window launched at `now`: the launch is noted;
    /// a link that misses its scenario or script says so.
    pub open spec fn launched(self, now: u64) -> AppView {
        AppView {
            status_message: if self.url_data is Some && self.launch_request() is None {
                Some(link_incomplete_msg())
            } else {
                self.status_message
            },
            has_executed: true,
            execution_time: Some(now),
            ..self
        }
    }

    /// The state after the launch's outcome: a launched script is kept and
    /// reported; a failure shows `执行失败: ` and its message.
    pub open spec fn recorded(self, outcome: Result<ExecutionView, Seq<char>>) -> AppView {
        match outcome {
            Ok(x) => AppView {
                status_message: Some(launch_succeeded_msg()),
                last_execution: Some(x),
                ..self
            },
            Err(m) => AppView {
                status_message: Some(launch_failed_msg() + m),
                last_execution: None,
                ..self
            },
        }
    }

    /// The state after registering the scheme: registered and quiet, or
    /// unchanged but for the reason of the failure.
    pub open spec fn after_register(self, outcome: Result<(), Seq<char>>) -> AppView {
        match outcome {
            Ok(_) => AppView { is_registered: true, status_message: None, ..self },
            Err(e) => AppView { status_message: Some(register_failed_msg() + e), ..self },
        }
    }

    /// The state after unregistering the scheme.
    pub open spec fn after_unregister(self, outcome: Result<(), Seq<char>>) -> AppView {
        match outcome {
            Ok(_) => AppView { is_registered: false, status_message: None, ..self },
            Err(e) => AppView { status_message: Some(unregister_failed_msg() + e), ..self },
        }
    }

    /// Why the settings may not be saved, if they may not: the executable's
    /// path first, then the base folder; empty before absent from disk.
    pub open spec fn validation_failure(self, executable_on_disk: bool, base_on_disk: bool) -> Option<
        Seq<char>,
    > {
        if self.executable_path.len() == 0 {
            Some(executable_missing_msg())
        } else if self.script_base_path.len() == 0 {
            Some(base_missing_msg())
        } else if !executable_on_disk {
            Some(executable_invalid_msg())
        } else if !base_on_disk {
            Some(base_invalid_msg())
        } else {
            None
        }
    }

    /// The state after saving the settings: `配置已保存`, or the failure.
    pub open spec fn after_save(self, outcome: Result<(), Seq<char>>) -> AppView {
        match outcome {
            Ok(_) => AppView { status_message: Some(config_saved_msg()), ..self },
            Err(e) => AppView { status_message: Some(save_failed_msg() + e), ..self },
        }
    }
}

/// The time from `start` to `now`, none if `now` is earlier (as
/// `Instant::elapsed` saturates).
pub open spec fn elapsed(start: u64, now: u64) -> int {
    if now >= start {
        now - start
    } else {
        0
    }
}

/// The text of a failure.
pub open spec fn err_text(outcome: Result<(), String>) -> Result<(), Seq<char>> {
    match outcome {
        Ok(_) => Ok(()),
        Err(e) => Err(e@),
    }
}

/// What a launch's outcome shows.
pub open spec fn outcome_view(outcome: Result<ExecutionResult, ExecuteError>) -> Result<
    ExecutionView,
    Seq<char>,
> {
    match outcome {
        Ok(x) => Ok(x@),
        Err(e) => Err(e.spec_message()),
    }
}

/// What a link read at start-up holds.
pub open spec fn link_view(url: Option<String>) -> Option<UrlSchemeView> {
    match url {
        Some(u) => spec_parse_url(u@),
        None => None,
    }
}

/// The launcher's window.
#[derive(Debug)]
pub struct ClientLinkerApp {
    url_data: Option<UrlSchemeData>,
    status_message: Option<String>,
    is_registered: bool,
    executor_config: ExecutorConfig,
    last_execution: Option<ExecutionResult>,
    is_url_mode: bool,
    has_executed: bool,
    execution_time: Option<u64>,
    min_display_duration: u64,
}

impl View for ClientLinkerApp {
    type V = AppView;

    closed spec fn view(&self) -> AppView {
        AppView {
            url_data: match self.url_data {
                Some(d) => Some(d@),
                None => None,
            },
            status_message: match self.status_message {
                Some(s) => Some(s@),
                None => None,
            },
            is_registered: self.is_registered,
            executable_path: self.executor_config.executable_path@,
            script_base_path: self.executor_config.script_base_path@,
            last_execution: match self.last_execution {
                Some(x) => Some(x@),
                None => None,
            },
            is_url_mode: self.is_url_mode,
            has_executed: self.has_executed,
            execution_time: self.execution_time,
            min_display_duration: self.min_display_duration,
        }
    }
}

impl ClientLinkerApp {
    #[verifier::type_invariant]
    closed spec fn state_inv(self) -> bool {
        &&& self.is_url_mode == (self.url_data is Some)
        &&& self.execution_time is Some ==> self.has_executed
        &&& self.min_display_duration == MIN_DISPLAY_MILLIS
    }

    /// The window's invariant, read on its view.
    proof fn lemma_view_inv(&self)
        requires
            self.state_inv(),
        ensures
            self@.inv(),
    {
        match self.url_data {
            Some(d) => {},
            None => {},
        }
    }

    /// The window as it opens: started by `url` if there is one (read when
    /// it is an `afsim://` link), with the loaded settings and the scheme's
    /// registration as found.
    pub fn new(url: Option<String>, executor_config: ExecutorConfig, is_registered: bool) -> (r:
        Self)
        ensures
            r@ == (AppView {
                url_data: link_view(url),
                status_message: None,
                is_registered: is_registered,
                executable_path: executor_config.executable_path@,
                script_base_path: executor_config.script_base_path@,
                last_execution: None,
                is_url_mode: link_view(url) is Some,
                has_executed: false,
                execution_time: None,
                min_display_duration: MIN_DISPLAY_MILLIS,
            }),
            r@.inv(),
    {
        let url_data = match url {
            Some(u) => {
                let prefix = scheme_prefix_text();
                if starts_with(u.as_str(), prefix.as_str()) {
                    parse_url_scheme(u.as_str())
                } else {
                    None
                }
            },
            None => None,
        };
        let is_url_mode = url_data.is_some();
        ClientLinkerApp {
            url_data,
            status_message: None,
            is_registered,
            executor_config,
            last_execution: None,
            is_url_mode,
            has_executed: false,
            execution_time: None,
            min_display_duration: MIN_DISPLAY_MILLIS,
        }
    }

    /// Takes the outcome of registering the scheme (the failure's text).
    pub fn handle_register(&mut self, outcome: Result<(), String>)
        ensures
            final(self)@ == old(self)@.after_register(err_text(outcome)),
            final(self)@.inv(),
    {
        proof {
            use_type_invariant(&*self);
        }
        match outcome {
            Ok(_) => {
                self.is_registered = true;
                self.status_message = None;
            },
            Err(e) => {
                self.status_message = Some(concat(register_failed_text(), e.as_str()));
            },
        }
        proof {
            use_type_invariant(&*self);
            self.lemma_view_inv();
        }
    }

    /// Takes the outcome of unregistering the scheme (the failure's text).
    pub fn handle_unregister(&mut self, outcome: Result<(), String>)
        ensures
            final(self)@ == old(self)@.after_unregister(err_text(outcome)),
            final(self)@.inv(),
    {
        proof {
            use_type_invariant(&*self);
        }
        match outcome {
            Ok(_) => {
                self.is_registered = false;
                self.status_message = None;
            },
            Err(e) => {
                self.status_message = Some(concat(unregister_failed_text(), e.as_str()));
            },
        }
        proof {
            use_type_invariant(&*self);
            self.lemma_view_inv();
        }
    }

    /// Takes the outcome of writing the settings: on success says so; a
    /// failure leaves the state as it was and comes back as
    /// `保存配置失败: <reason>`.
    pub fn save_config(&mut self, outcome: Result<(), String>) -> (r: Result<(), String>)
        ensures
            match outcome {
                Ok(_) => r is Ok && final(self)@ == old(self)@.after_save(Ok(())),
                Err(e) => r matches Err(m) && m@ == save_failed_msg() + e@ && final(self)@ == old(
                    self,
                )@,
            },
            final(self)@.inv(),
    {
        proof {
            use_type_invariant(&*self);
        }
        match outcome {
            Ok(_) => {
                self.status_message = Some(config_saved_text().to_owned());
                proof {
                    use_type_invariant(&*self);
                }
                Ok(())
            },
            Err(e) => Err(concat(save_failed_text(), e.as_str())),
        }
    }

    /// Checks the settings before they are written, given whether each of
    /// the two paths is on disk (as `validate_path` answers). Where a path is
    /// empty or not on disk, says which and gives `false`: the executable
    /// first, then the base folder, an empty path before one that is not on
    /// disk. Gives `true`, with the state unchanged, when the settings may be
    /// written.
    pub fn save_config_with_validation(&mut self, executable_on_disk: bool, base_on_disk: bool) -> (r:
        bool)
        ensures
            final(self)@ == old(self)@.validated(executable_on_disk, base_on_disk),
            r == old(self)@.validation_failure(executable_on_disk, base_on_disk) is None,
            final(self)@.inv(),
    {
        proof {
            use_type_invariant(&*self);
        }
        if self.executor_config.executable_path.as_str().unicode_len() == 0 {
            self.status_message = Some(executable_missing_text().to_owned());
            return false;
        }
        if self.executor_config.script_base_path.as_str().unicode_len() == 0 {
            self.status_message = Some(base_missing_text().to_owned());
            return false;
        }
        if !executable_on_disk {
            self.status_message = Some(executable_invalid_text().to_owned());
            return false;
        }
        if !base_on_disk {
            self.status_message = Some(base_invalid_text().to_owned());
            return false;
        }
        true
    }

    /// Takes the outcome of writing checked settings: `配置已保存`, or the
    /// reason of the failure.
    pub fn finish_save(&mut self, outcome: Result<(), String>)
        ensures
            final(self)@ == old(self)@.after_save(err_text(outcome)),
            final(self)@.inv(),
    {
        proof {
            use_type_invariant(&*self);
        }
        if let Err(e) = self.save_config(outcome) {
            self.status_message = Some(e);
        }
        proof {
            use_type_invariant(&*self);
            self.lemma_view_inv();
        }
    }

    /// Starts the launch at time `now`: notes it, and gives the scenario
    /// and script to launch when the link names both. A link that misses
    /// one is reported; without a link nothing is launched.
    pub fn execute_from_url(&mut self, now: u64) -> (r: Option<(String, String)>)
        ensures
            final(self)@ == old(self)@.launched(now),
            match r {
                Some((a, b)) => old(self)@.launch_request() == Some((a@, b@)),
                None => old(self)@.launch_request() is None,
            },
            final(self)@.inv(),
    {
        proof {
            use_type_invariant(&*self);
        }
        self.has_executed = true;
        self.execution_time = Some(now);
        match &self.url_data {
            Some(d) => match (&d.scene_name, &d.script_entry) {
                (Some(a), Some(b)) => Some((a.clone(), b.clone())),
                _ => {
                    self.status_message = Some(link_incomplete_text().to_owned());
                    None
                },
            },
            None => None,
        }
    }

    /// Takes the outcome of the launch: the launched script and
    /// `脚本启动成功`, or `执行失败: ` and the reason.
    pub fn record_execution(&mut self, outcome: Result<ExecutionResult, ExecuteError>)
        ensures
            final(self)@ == old(self)@.recorded(outcome_view(outcome)),
            final(self)@.inv(),
    {
        proof {
            use_type_invariant(&*self);
        }
        match outcome {
            Ok(x) => {
                self.status_message = Some(launch_succeeded_text().to_owned());
                self.last_execution = Some(x);
            },
            Err(e) => {
                let reason = e.message();
                self.status_message = Some(concat(launch_failed_text(), reason.as_str()));
                self.last_execution = None;
            },
        }
        proof {
            use_type_invariant(&*self);
            self.lemma_view_inv();
        }
    }

    /// Whether the window may close at time `now` (in milliseconds).
    pub fn can_close_now(&self, now: u64) -> (r: bool)
        ensures
            r == self@.can_close_at(now),
    {
        if !self.is_url_mode {
            return false;
        }
        if self.last_execution.is_none() && self.has_executed {
            return false;
        }
        if let Some(t) = self.execution_time {
            let passed = if now >= t {
                now - t
            } else {
                0
            };
            if passed >= self.min_display_duration {
                return true;
            }
        }
        false
    }

    /// The link the window was started with.
    pub fn url_data(&self) -> (r: Option<&UrlSchemeData>)
        ensures
            match r {
                Some(d) => self@.url_data == Some(d@),
                None => self@.url_data is None,
            },
    {
        self.url_data.as_ref()
    }

    /// The message on screen.
    pub fn status_message(&self) -> (r: Option<&String>)
        ensures
            match r {
                Some(s) => self@.status_message == Some(s@),
                None => self@.status_message is None,
            },
    {
        self.status_message.as_ref()
    }

    /// Whether the scheme is registered, as far as the window knows.
    pub fn is_registered(&self) -> (r: bool)
        ensures
            r == self@.is_registered,
    {
        self.is_registered
    }

    /// The launcher's settings.
    pub fn executor_config(&self) -> (r: &ExecutorConfig)
        ensures
            r.executable_path@ == self@.executable_path,
            r.script_base_path@ == self@.script_base_path,
    {
        &self.executor_config
    }

    /// Replaces the launcher's settings with edited ones.
    pub fn set_executor_config(&mut self, config: ExecutorConfig)
        ensures
            final(self)@ == (AppView {
                executable_path: config.executable_path@,
                script_base_path: config.script_base_path@,
                ..old(self)@
            }),
            final(self)@.inv(),
    {
        proof {
            use_type_invariant(&*self);
        }
        self.executor_config = config;
        proof {
            use_type_invariant(&*self);
            self.lemma_view_inv();
        }
    }

    /// The launched script, if the launch succeeded.
    pub fn last_execution(&self) -> (r: Option<&ExecutionResult>)
        ensures
            match r {
                Some(x) => self@.last_execution == Some(x@),
                None => self@.last_execution is None,
            },
    {
        self.last_execution.as_ref()
    }

    /// Whether the window is still to launch the link's script: it was
    /// started by a link and has not launched yet.
    pub fn needs_launch(&self) -> (r: bool)
        ensures
            r == (self@.is_url_mode && !self@.has_executed),
    {
        self.is_url_mode && !self.has_executed
    }

    /// Whether the window was started by a link.
    pub fn is_url_mode(&self) -> (r: bool)
        ensures
            r == self@.is_url_mode,
    {
        self.is_url_mode
    }

    /// Whether the launch has started.
    pub fn has_executed(&self) -> (r: bool)
        ensures
            r == self@.has_executed,
    {
        self.has_executed
    }
}

/// A status message that reports a failure holds `失败` or `错误`; the
/// loading view shows such messages in red, others in green.
pub fn status_is_error(status: &str) -> (r: bool)
    ensures
        r == (contains_seq(status@, "失败"@) || contains_seq(status@, "错误"@)),
{
    contains(status, "失败") || contains(status, "错误")
}

/// How the settings section shows the status message.
#[derive(PartialEq, Eq, Structural, Clone, Copy, Debug)]
pub enum ConfigStatus {
    /// `配置已保存`, in green.
    Saved,
    /// The message itself, in red.
    Problem,
    /// Nothing.
    Hidden,
}

/// How the settings section shows `status`: a saved note when it says
/// `配置已保存`, a problem when it speaks of a failed save or of a path.
pub fn config_status(status: &str) -> (r: ConfigStatus)
    ensures
        r == if contains_seq(status@, "配置已保存"@) {
            ConfigStatus::Saved
        } else if contains_seq(status@, "保存失败"@) || contains_seq(status@, "路径"@) {
            ConfigStatus::Problem
        } else {
            ConfigStatus::Hidden
        },
{
    if contains(status, "配置已保存") {
        ConfigStatus::Saved
    } else if contains(status, "保存失败") || contains(status, "路径") {
        ConfigStatus::Problem
    } else {
        ConfigStatus::Hidden
    }
}

/// What happens to the window, as its methods take it: the outcomes of
/// registering and unregistering, a check of the settings with the disk's
/// answers, the outcome of writing them, an edit of the two paths, and a
/// frame at time `now` (in milliseconds) with the outcome of the launch
/// that the frame may start.
pub enum WindowEvent {
    Register(Result<(), Seq<char>>),
    Unregister(Result<(), Seq<char>>),
    Validate(bool, bool),
    Save(Result<(), Seq<char>>),
    Edit(Seq<char>, Seq<char>),
    Update(u64, Result<ExecutionView, Seq<char>>),
}

impl AppView {
    /// The state after the settings were checked with the disk's answers.
    pub open spec fn validated(self, executable_on_disk: bool, base_on_disk: bool) -> AppView {
        match self.validation_failure(executable_on_disk, base_on_disk) {
            Some(m) => AppView { status_message: Some(m), ..self },
            None => self,
        }
    }

    /// The state after a frame at `now`: a window that is still to launch
    /// launches, and the launch's outcome is recorded when the link names a
    /// scenario and a script.
    pub open spec fn updated(self, now: u64, outcome: Result<ExecutionView, Seq<char>>) -> AppView {
        if self.is_url_mode && !self.has_executed {
            if self.launch_request() is Some {
                self.launched(now).recorded(outcome)
            } else {
                self.launched(now)
            }
        } else {
            self
        }
    }

    /// The state after `e`.
    pub open spec fn apply(self, e: WindowEvent) -> AppView {
        match e {
            WindowEvent::Register(o) => self.after_register(o),
            WindowEvent::Unregister(o) => self.after_unregister(o),
            WindowEvent::Validate(a, b) => self.validated(a, b),
            WindowEvent::Save(o) => self.after_save(o),
            WindowEvent::Edit(x, y) => AppView { executable_path: x, script_base_path: y, ..self },
            WindowEvent::Update(now, o) => self.updated(now, o),
        }
    }

    /// The state after the events `es`, in order.
    pub open spec fn apply_all(self, es: Seq<WindowEvent>) -> AppView
        decreases es.len(),
    {
        if es.len() == 0 {
            self
        } else {
            self.apply(es[0]).apply_all(es.skip(1))
        }
    }

    /// How many of the frames among `es` launch the script.
    pub open spec fn launches(self, es: Seq<WindowEvent>) -> nat
        decreases es.len(),
    {
        if es.len() == 0 {
            0
        } else {
            let now = if es[0] is Update && self.is_url_mode && !self.has_executed {
                1nat
            } else {
                0nat
            };
            now + self.apply(es[0]).launches(es.skip(1))
        }
    }
}

/// One event keeps the link, the link mode and the invariant, and a
/// launched window stays launched.
proof fn lemma_event_keeps(v: AppView, e: WindowEvent)
    ensures
        v.apply(e).url_data == v.url_data,
        v.apply(e).is_url_mode == v.is_url_mode,
        v.inv() ==> v.apply(e).inv(),
        v.has_executed ==> v.apply(e).has_executed,
        e is Update && v.is_url_mode ==> v.apply(e).has_executed,
{
}

/// The link and the link mode never change after the window opened, and
/// every sequence of events keeps the window's invariant.
pub proof fn law_link_fixed(v: AppView, es: Seq<WindowEvent>)
    ensures
        v.apply_all(es).url_data == v.url_data,
        v.apply_all(es).is_url_mode == v.is_url_mode,
        v.inv() ==> v.apply_all(es).inv(),
    decreases es.len(),
{
    if es.len() > 0 {
        lemma_event_keeps(v, es[0]);
        law_link_fixed(v.apply(es[0]), es.skip(1));
    }
}

/// Over any sequence of events the script is launched at most once: never
/// by a window without a link or one that has launched, and exactly once
/// by a linked window that has not launched yet when a frame comes; after
/// that frame the window stays launched.
pub proof fn law_launch_once_over_updates(v: AppView, es: Seq<WindowEvent>)
    ensures
        v.launches(es) <= 1,
        !v.is_url_mode || v.has_executed ==> v.launches(es) == 0,
        v.has_executed ==> v.apply_all(es).has_executed,
        v.is_url_mode && (exists|i: int| 0 <= i < es.len() && #[trigger] es[i] is Update) ==> v.apply_all(
            es,
        ).has_executed,
        v.is_url_mode && !v.has_executed && (exists|i: int|
            0 <= i < es.len() && #[trigger] es[i] is Update) ==> v.launches(es) == 1,
    decreases es.len(),
{
    if es.len() > 0 {
        let w = v.apply(es[0]);
        let rest = es.skip(1);
        lemma_event_keeps(v, es[0]);
        law_launch_once_over_updates(w, rest);
        if v.is_url_mode && (exists|i: int| 0 <= i < es.len() && #[trigger] es[i] is Update) {
            let i = choose|i: int| 0 <= i < es.len() && #[trigger] es[i] is Update;
            if i > 0 {
                assert(rest[i - 1] is Update);
            }
        }
    }
}

/// A failed launch keeps the window open: after the failure is recorded,
/// the window may not close at any time.
pub proof fn law_failed_launch_stays_open(v: AppView, reason: Seq<char>, now: u64)
    requires
        v.inv(),
    ensures
        !v.recorded(Err(reason)).can_close_at(now),
{
}

/// A successful launch from a link closes the window once the display time
/// has passed since the launch, and not before.
pub proof fn law_successful_launch_closes(v: AppView, start: u64, x: ExecutionView, now: u64)
    requires
        v.inv(),
        v.url_data is Some,
    ensures
        v.launched(start).recorded(Ok(x)).can_close_at(now) <==> elapsed(start, now)
            >= MIN_DISPLAY_MILLIS,
{
}

/// A link that misses its scenario or its script launches nothing and
/// keeps the window open, reporting what is missing.
pub proof fn law_incomplete_link_stays_open(v: AppView, start: u64, now: u64)
    requires
        v.inv(),
        v.url_data is Some,
        v.launch_request() is None,
        v.last_execution is None,
    ensures
        !v.launched(start).can_close_at(now),
        v.launched(start).status_message == Some(link_incomplete_msg()),
{
}

/// A window opened without a link never closes by itself.
pub proof fn law_without_link_stays_open(v: AppView, now: u64)
    requires
        v.inv(),
        v.url_data is None,
    ensures
        !v.can_close_at(now),
{
}

/// Once the window may close, it may close at every later time.
pub proof fn law_closing_is_lasting(v: AppView, earlier: u64, later: u64)
    requires
        v.can_close_at(earlier),
        earlier <= later,
    ensures
        v.can_close_at(later),
{
}

/// The link's script is launched at most once: after the launch the window
/// no longer asks for one.
pub proof fn law_launch_once(v: AppView, now: u64)
    ensures
        !(v.launched(now).is_url_mode && !v.launched(now).has_executed),
{
}

/// Registering and then unregistering the scheme leaves the window
/// unregistered and without a message, and everything else as it was.
pub proof fn law_register_then_unregister(v: AppView)
    ensures
        v.after_register(Ok(())).after_unregister(Ok(())) == (AppView {
            is_registered: false,
            status_message: None,
            ..v
        }),
{
}

} // verus!
