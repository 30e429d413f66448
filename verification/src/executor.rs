//! Launching a scenario's script: the checks before the launch, and what
//! is reported after it.

use vstd::prelude::*;

use crate::config::ExecutorConfig;
use crate::paths::joined_path;
use crate::paths::path_exists;
use crate::paths::relative_parts;
use crate::text::concat;
use crate::text::decimal;
use crate::text::decimal_string;

verus! {

/// A launched script, as reported to the user.
#[derive(Debug)]
pub struct ExecutionResult {
    pub message: String,
    pub pid: Option<u32>,
    pub script_path: String,
}

/// What an [`ExecutionResult`] holds, as sequences of characters.
pub struct ExecutionView {
    pub message: Seq<char>,
    pub pid: Option<u32>,
    pub script_path: Seq<char>,
}

impl View for ExecutionResult {
    type V = ExecutionView;

    open spec fn view(&self) -> ExecutionView {
        ExecutionView { message: self.message@, pid: self.pid, script_path: self.script_path@ }
    }
}

impl Clone for ExecutionResult {
    fn clone(&self) -> (r: Self)
        ensures
            r@ == self@,
    {
        ExecutionResult {
            message: self.message.clone(),
            pid: self.pid,
            script_path: self.script_path.clone(),
        }
    }
}

/// Why a script was not launched.
#[derive(Debug)]
pub enum ExecuteError {
    /// A path of the settings is empty or not on disk.
    InvalidConfig,
    /// No file at the script's path.
    ScriptNotFound(String),
    /// The operating system did not start the process.
    SpawnFailed,
}

/// `配置无效：请检查可执行程序路径和脚本基础路径`
pub open spec fn invalid_config_text() -> Seq<char> {
    seq![
        '配', '置', '无', '效', '：', '请', '检', '查', '可', '执', '行', '程', '序', '路', '径', '和',
        '脚', '本', '基', '础', '路', '径',
    ]
}

/// `脚本文件不存在: `
pub open spec fn script_missing_text() -> Seq<char> {
    seq!['脚', '本', '文', '件', '不', '存', '在', ':', ' ']
}

/// `启动进程失败`
pub open spec fn spawn_failed_text() -> Seq<char> {
    seq!['启', '动', '进', '程', '失', '败']
}

impl ExecuteError {
    /// The message that the user is shown.
    pub open spec fn spec_message(&self) -> Seq<char> {
        match self {
            ExecuteError::InvalidConfig => invalid_config_text(),
            ExecuteError::ScriptNotFound(p) => script_missing_text() + p@,
            ExecuteError::SpawnFailed => spawn_failed_text(),
        }
    }

    /// The message that the user is shown.
    pub fn message(&self) -> (r: String)
        ensures
            r@ == self.spec_message(),
    {
        match self {
            ExecuteError::InvalidConfig => {
                proof {
                    reveal_strlit("配置无效：请检查可执行程序路径和脚本基础路径");
                }
                let r = "配置无效：请检查可执行程序路径和脚本基础路径".to_owned();
                assert(r@ =~= invalid_config_text());
                r
            },
            ExecuteError::ScriptNotFound(p) => {
                proof {
                    reveal_strlit("脚本文件不存在: ");
                }
                assert("脚本文件不存在: "@ =~= script_missing_text());
                concat("脚本文件不存在: ", p.as_str())
            },
            ExecuteError::SpawnFailed => {
                proof {
                    reveal_strlit("启动进程失败");
                }
                let r = "启动进程失败".to_owned();
                assert(r@ =~= spawn_failed_text());
                r
            },
        }
    }
}

/// Whether `path` is set and something is on disk there. A `true` says
/// that it is set.
pub fn validate_path(path: &str) -> (r: bool)
    ensures
        r ==> path@.len() > 0,
{
    path.unicode_len() > 0 && path_exists(path)
}

/// The launch's outcome once the disk has answered: settings whose paths
/// are not both set and on disk refuse the launch before anything else;
/// then a script that is not on disk is reported at its path; otherwise the
/// script at that path is to be launched.
pub open spec fn decided_launch(settings_ok: bool, script_found: bool, script_path: String) -> Result<
    String,
    ExecuteError,
> {
    if !settings_ok {
        Err(ExecuteError::InvalidConfig)
    } else if !script_found {
        Err(ExecuteError::ScriptNotFound(script_path))
    } else {
        Ok(script_path)
    }
}

/// Whether the settings pass, where the disk answered `on_disk` for their
/// two paths: both paths are set and on disk.
pub open spec fn settings_answer(config: ExecutorConfig, on_disk: bool) -> bool {
    config.executable_path@.len() > 0 && config.script_base_path@.len() > 0 && on_disk
}

/// Decides the launch from the disk's answers: whether both settings paths
/// are set and on disk, and whether the script is on disk at `script_path`.
pub fn launch_decision(settings_ok: bool, script_found: bool, script_path: String) -> (r: Result<
    String,
    ExecuteError,
>)
    ensures
        r == decided_launch(settings_ok, script_found, script_path),
{
    if !settings_ok {
        Err(ExecuteError::InvalidConfig)
    } else if !script_found {
        Err(ExecuteError::ScriptNotFound(script_path))
    } else {
        Ok(script_path)
    }
}

/// The checks before a launch: the settings must hold two paths that are
/// on disk, and then the script's file must be there. Gives the script's
/// path, or why the script cannot be launched: the decision of
/// `launch_decision` on what the disk answered for the two settings paths
/// and for the script's path, which is the base folder, the scenario and
/// the script joined.
pub fn check_script_launch(config: &ExecutorConfig, scene_name: &str, script_entry: &str) -> (r:
    Result<String, ExecuteError>)
    ensures
        config.executable_path@.len() == 0 || config.script_base_path@.len() == 0 ==> r matches Err(
            ExecuteError::InvalidConfig,
        ),
        exists|settings_on_disk: bool, script_found: bool, script_path: String|
            (relative_parts(seq![config.script_base_path@, scene_name@, script_entry@])
                ==> joined_path(script_path@, seq![config.script_base_path@, scene_name@, script_entry@]))
                && r == #[trigger] decided_launch(
                settings_answer(*config, settings_on_disk),
                script_found,
                script_path,
            ),
{
    let script_path = config.build_script_path(scene_name, script_entry);
    let ghost p = script_path;
    if !config.is_valid() {
        let r = launch_decision(false, false, script_path);
        assert(r == decided_launch(settings_answer(*config, false), false, p));
        return r;
    }
    let found = path_exists(script_path.as_str());
    let r = launch_decision(true, found, script_path);
    assert(r == decided_launch(settings_answer(*config, true), found, p));
    r
}

/// The report of a launched script:
/// `成功启动脚本\n场景: <scene>\n脚本: <script>\n进程 ID: <pid>`.
pub open spec fn launch_message(scene_name: Seq<char>, script_entry: Seq<char>, pid: u32) -> Seq<
    char,
> {
    seq!['成', '功', '启', '动', '脚', '本', '\n', '场', '景', ':', ' '] + scene_name + seq![
        '\n',
        '脚',
        '本',
        ':',
        ' ',
    ] + script_entry + seq!['\n', '进', '程', ' ', 'I', 'D', ':', ' '] + decimal(pid as nat)
}

/// What is reported once the process `pid` runs the script at `script_path`.
pub fn launch_report(scene_name: &str, script_entry: &str, script_path: String, pid: u32) -> (r:
    ExecutionResult)
    ensures
        r@ == (ExecutionView {
            message: launch_message(scene_name@, script_entry@, pid),
            pid: Some(pid),
            script_path: script_path@,
        }),
{
    proof {
        reveal_strlit("成功启动脚本\n场景: ");
        reveal_strlit("\n脚本: ");
        reveal_strlit("\n进程 ID: ");
    }
    let mut message = "成功启动脚本\n场景: ".to_owned();
    message.append(scene_name);
    message.append("\n脚本: ");
    message.append(script_entry);
    message.append("\n进程 ID: ");
    let digits = decimal_string(pid);
    message.append(digits.as_str());
    assert(message@ =~= launch_message(scene_name@, script_entry@, pid));
    ExecutionResult { message, pid: Some(pid), script_path }
}

} // verus!
