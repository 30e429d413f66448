use afsim_linker::app::ClientLinkerApp;
use afsim_linker::app::{config_status, status_is_error, ConfigStatus};
use afsim_linker::cli::ensure_url_scheme_registered;
use afsim_linker::cli::get_url_from_command;
use afsim_linker::cli::parse_args;
use afsim_linker::cli::CliCommand;
use afsim_linker::config::ExecutorConfig;
use afsim_linker::executor::launch_report;
use afsim_linker::executor::ExecuteError;

fn settings(exe: &str, base: &str) -> ExecutorConfig {
    ExecutorConfig { executable_path: exe.to_string(), script_base_path: base.to_string() }
}

fn linked(url: &str) -> ClientLinkerApp {
    ClientLinkerApp::new(Some(url.to_string()), ExecutorConfig::default(), false)
}

fn args(list: &[&str]) -> Vec<String> {
    list.iter().map(|a| a.to_string()).collect()
}

#[test]
fn window_without_link() {
    let app = ClientLinkerApp::new(None, settings("/a", "/b"), true);
    assert!(!app.is_url_mode());
    assert!(app.url_data().is_none());
    assert!(app.is_registered());
    assert!(!app.has_executed());
    assert!(app.status_message().is_none());
    assert_eq!(app.executor_config().executable_path, "/a");
    assert!(!app.can_close_now(1_000_000));
}

#[test]
fn window_with_foreign_link_is_not_in_link_mode() {
    let app = linked("https://example.com/?scene=a");
    assert!(!app.is_url_mode());
    let bad = linked("afsim://run?scene=%FF");
    assert!(!bad.is_url_mode());
}

#[test]
fn successful_launch_closes_after_the_display_time() {
    let mut app = linked("afsim://run?scene=test-scenario&script=setup.txt");
    assert!(app.is_url_mode());
    assert!(!app.can_close_now(0));
    let request = app.execute_from_url(1000);
    assert_eq!(request, Some(("test-scenario".to_string(), "setup.txt".to_string())));
    assert!(app.has_executed());
    assert!(!app.can_close_now(5000));
    let report = launch_report("test-scenario", "setup.txt", "/s/test-scenario/setup.txt".to_string(), 77);
    app.record_execution(Ok(report));
    assert_eq!(app.status_message().map(|s| s.as_str()), Some("脚本启动成功"));
    assert_eq!(app.last_execution().unwrap().pid, Some(77));
    assert!(!app.can_close_now(1000));
    assert!(!app.can_close_now(1799));
    assert!(app.can_close_now(1800));
    assert!(app.can_close_now(100_000));
    assert!(!app.can_close_now(10));
}

#[test]
fn failed_launch_keeps_the_window_open() {
    let mut app = linked("afsim://run?scene=a&script=b");
    app.execute_from_url(0);
    app.record_execution(Err(ExecuteError::SpawnFailed));
    assert_eq!(app.status_message().map(|s| s.as_str()), Some("执行失败: 启动进程失败"));
    assert!(app.last_execution().is_none());
    assert!(!app.can_close_now(800));
    assert!(!app.can_close_now(u64::MAX));
    let mut other = linked("afsim://run?scene=a&script=b");
    other.execute_from_url(0);
    other.record_execution(Err(ExecuteError::InvalidConfig));
    assert_eq!(
        other.status_message().map(|s| s.as_str()),
        Some("执行失败: 配置无效：请检查可执行程序路径和脚本基础路径")
    );
}

#[test]
fn incomplete_link_is_reported() {
    let mut app = linked("afsim://run?scene=a");
    assert_eq!(app.execute_from_url(5), None);
    assert_eq!(app.status_message().map(|s| s.as_str()), Some("URL 缺少 scene 或 script 参数"));
    assert!(!app.can_close_now(10_000));
}

#[test]
fn registration_outcomes() {
    let mut app = ClientLinkerApp::new(None, ExecutorConfig::default(), false);
    app.handle_register(Err("denied".to_string()));
    assert!(!app.is_registered());
    assert_eq!(app.status_message().map(|s| s.as_str()), Some("注册失败: denied"));
    app.handle_register(Ok(()));
    assert!(app.is_registered());
    assert!(app.status_message().is_none());
    app.handle_unregister(Err("busy".to_string()));
    assert!(app.is_registered());
    assert_eq!(app.status_message().map(|s| s.as_str()), Some("卸载失败: busy"));
    app.handle_unregister(Ok(()));
    assert!(!app.is_registered());
    assert!(app.status_message().is_none());
}

#[test]
fn settings_are_checked_before_saving() {
    let mut app = ClientLinkerApp::new(None, settings("", ""), false);
    assert!(!app.save_config_with_validation(true, true));
    assert_eq!(app.status_message().map(|s| s.as_str()), Some("可执行程序路径不能为空"));
    app.set_executor_config(settings("/", ""));
    assert!(!app.save_config_with_validation(true, false));
    assert_eq!(app.status_message().map(|s| s.as_str()), Some("脚本基础路径不能为空"));
    app.set_executor_config(settings("/x", "/y"));
    assert!(!app.save_config_with_validation(false, false));
    assert_eq!(app.status_message().map(|s| s.as_str()), Some("可执行程序路径无效或文件不存在"));
    assert!(!app.save_config_with_validation(true, false));
    assert_eq!(app.status_message().map(|s| s.as_str()), Some("脚本基础路径无效或目录不存在"));
    assert!(app.save_config_with_validation(true, true));
    assert_eq!(app.status_message().map(|s| s.as_str()), Some("脚本基础路径无效或目录不存在"));
    assert_eq!(app.executor_config().script_base_path, "/y");
}

#[test]
fn saving_outcomes() {
    let mut app = ClientLinkerApp::new(None, settings("/", "/"), false);
    app.finish_save(Err("disk full".to_string()));
    assert_eq!(app.status_message().map(|s| s.as_str()), Some("保存配置失败: disk full"));
    app.finish_save(Ok(()));
    assert_eq!(app.status_message().map(|s| s.as_str()), Some("配置已保存"));
    let mut other = ClientLinkerApp::new(None, settings("/", "/"), false);
    assert_eq!(other.save_config(Err("x".to_string())), Err("保存配置失败: x".to_string()));
    assert!(other.status_message().is_none());
}

#[test]
fn command_line() {
    assert!(matches!(parse_args(&args(&["app", "--unregister"])), CliCommand::Unregister));
    assert!(matches!(parse_args(&args(&["app", "--check", "x"])), CliCommand::Check));
    assert!(matches!(parse_args(&args(&["app"])), CliCommand::Run(None)));
    assert!(matches!(parse_args(&args(&[])), CliCommand::Run(None)));
    assert!(matches!(parse_args(&args(&["app", "--help"])), CliCommand::Run(None)));
    assert!(matches!(parse_args(&args(&["app", "x", "afsim://run"])), CliCommand::Run(None)));
    let c = parse_args(&args(&["app", "afsim://run?scene=a&script=b"]));
    assert_eq!(get_url_from_command(&c), Some("afsim://run?scene=a&script=b".to_string()));
    assert_eq!(get_url_from_command(&CliCommand::Check), None);
    assert_eq!(get_url_from_command(&CliCommand::Unregister), None);
}

#[test]
fn registration_is_ensured_only_when_missing() {
    assert!(ensure_url_scheme_registered(Ok(false)));
    assert!(!ensure_url_scheme_registered(Ok(true)));
    assert!(!ensure_url_scheme_registered(Err("no HOME".to_string())));
}

#[test]
fn status_colours() {
    assert!(status_is_error("执行失败: 启动进程失败"));
    assert!(status_is_error("内部错误"));
    assert!(!status_is_error("脚本启动成功"));
    assert_eq!(config_status("配置已保存"), ConfigStatus::Saved);
    assert_eq!(config_status("保存配置失败: x"), ConfigStatus::Hidden);
    assert_eq!(config_status("保存失败"), ConfigStatus::Problem);
    assert_eq!(config_status("可执行程序路径不能为空"), ConfigStatus::Problem);
    assert_eq!(config_status("注册失败: x"), ConfigStatus::Hidden);
}

#[test]
fn launch_is_asked_for_once() {
    let mut app = linked("afsim://run?scene=a&script=b");
    assert!(app.needs_launch());
    app.execute_from_url(0);
    assert!(!app.needs_launch());
    let plain = ClientLinkerApp::new(None, ExecutorConfig::default(), false);
    assert!(!plain.needs_launch());
}

#[test]
fn copies_keep_the_link() {
    let app = linked("afsim://run?scene=a&script=b&k=v");
    let d = app.url_data().unwrap().clone();
    assert_eq!(d.action, "run");
    assert_eq!(d.parsed_params.get("k"), Some("v".to_string()));
    assert_eq!(d.script_entry.as_deref(), Some("b"));
}
