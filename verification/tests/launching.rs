use afsim_linker::config::AppConfig;
use afsim_linker::config::ExecutorConfig;
use afsim_linker::config::Platform;
use afsim_linker::executor::check_script_launch;
use afsim_linker::executor::launch_decision;
use afsim_linker::executor::launch_report;
use afsim_linker::executor::validate_path;
use afsim_linker::executor::ExecuteError;
use afsim_linker::text::decimal_string;

const SEP: char = std::path::MAIN_SEPARATOR;

fn config(exe: &str, base: &str) -> ExecutorConfig {
    ExecutorConfig { executable_path: exe.to_string(), script_base_path: base.to_string() }
}

#[test]
fn window_title_is_the_program_name() {
    assert_eq!(AppConfig::new().window_title, "AFSim 链接器");
    assert_eq!(AppConfig::default().window_title, "AFSim 链接器");
}

#[test]
fn default_settings_are_empty_and_invalid() {
    let c = ExecutorConfig::default();
    assert_eq!(c.executable_path, "");
    assert_eq!(c.script_base_path, "");
    assert!(!c.is_valid());
}

#[test]
fn script_path_of_the_documented_example() {
    let c = config("C:\\AFSim\\afsim.exe", "D:\\projects\\scenarios");
    assert_eq!(
        c.build_script_path("test-scenario", "setup.txt"),
        format!("D:\\projects\\scenarios{}test-scenario{}setup.txt", SEP, SEP)
    );
    let u = config("/opt/afsim", "/srv/scenarios");
    assert_eq!(
        u.build_script_path("s1", "main.txt"),
        format!("/srv/scenarios{}s1{}main.txt", SEP, SEP)
    );
}

#[test]
fn settings_file_location() {
    assert_eq!(
        ExecutorConfig::get_config_path(Platform::Linux, None, Some("/home/u".to_string())),
        format!("/home/u{}.config{}afsim-linker{}config.json", SEP, SEP, SEP)
    );
    assert_eq!(
        ExecutorConfig::get_config_path(Platform::Other, None, None),
        format!(".{}.config{}afsim-linker{}config.json", SEP, SEP, SEP)
    );
    assert_eq!(
        ExecutorConfig::get_config_path(Platform::Windows, Some("/appdata".to_string()), None),
        format!("/appdata{}afsim-linker{}config.json", SEP, SEP)
    );
    assert_eq!(
        ExecutorConfig::get_config_path(Platform::Windows, None, Some("/home/u".to_string())),
        format!(".{}afsim-linker{}config.json", SEP, SEP)
    );
}

#[test]
fn empty_paths_are_not_valid() {
    assert!(!validate_path(""));
    assert!(validate_path("/"));
    assert!(!validate_path("/surely/not/here/afsim-linker-test"));
}

#[test]
fn launch_refused_without_settings() {
    let r = check_script_launch(&config("", "/"), "a", "b");
    assert!(matches!(r, Err(ExecuteError::InvalidConfig)));
    let r = check_script_launch(&config("/", "/surely/not/here"), "a", "b");
    assert!(matches!(r, Err(ExecuteError::InvalidConfig)));
}

#[test]
fn launch_refused_without_script() {
    let r = check_script_launch(&config("/", "/"), "surely-not-here", "x.txt");
    match r {
        Err(ExecuteError::ScriptNotFound(p)) => {
            assert_eq!(p, format!("/{}surely-not-here{}x.txt", "", SEP));
        }
        _ => panic!("expected a missing script"),
    }
}

#[test]
fn launch_allowed_when_the_script_is_there() {
    let r = check_script_launch(&config("/", "/"), "usr", "bin");
    match r {
        Ok(p) => assert_eq!(p, format!("/usr{}bin", SEP)),
        _ => panic!("expected a launch"),
    }
}

#[test]
fn error_messages() {
    assert_eq!(ExecuteError::InvalidConfig.message(), "配置无效：请检查可执行程序路径和脚本基础路径");
    assert_eq!(ExecuteError::ScriptNotFound("/x/y".to_string()).message(), "脚本文件不存在: /x/y");
    assert_eq!(ExecuteError::SpawnFailed.message(), "启动进程失败");
}

#[test]
fn launch_report_message() {
    let r = launch_report("test-scenario", "setup.txt", "/s/test-scenario/setup.txt".to_string(), 4321);
    assert_eq!(r.message, "成功启动脚本\n场景: test-scenario\n脚本: setup.txt\n进程 ID: 4321");
    assert_eq!(r.pid, Some(4321));
    assert_eq!(r.script_path, "/s/test-scenario/setup.txt");
}

#[test]
fn decimal_numbers() {
    assert_eq!(decimal_string(0), "0");
    assert_eq!(decimal_string(7), "7");
    assert_eq!(decimal_string(10), "10");
    assert_eq!(decimal_string(907), "907");
    assert_eq!(decimal_string(u32::MAX), "4294967295");
}

#[test]
fn launch_decided_from_the_disk_answers() {
    assert!(matches!(launch_decision(false, true, "/s/a/b".to_string()), Err(ExecuteError::InvalidConfig)));
    assert!(matches!(launch_decision(false, false, "/s/a/b".to_string()), Err(ExecuteError::InvalidConfig)));
    match launch_decision(true, false, "/s/a/b".to_string()) {
        Err(ExecuteError::ScriptNotFound(p)) => assert_eq!(p, "/s/a/b"),
        _ => panic!("expected a missing script"),
    }
    assert_eq!(launch_decision(true, true, "/s/a/b".to_string()).ok(), Some("/s/a/b".to_string()));
}

#[test]
fn joins_after_a_slash_and_onto_nothing() {
    let c = config("/opt/afsim", "/srv/scenarios/");
    assert_eq!(c.build_script_path("s1", "main.txt"), format!("/srv/scenarios/s1{}main.txt", SEP));
    let e = config("/opt/afsim", "");
    assert_eq!(e.build_script_path("s1", "main.txt"), format!("s1{}main.txt", SEP));
    assert_eq!(
        ExecutorConfig::get_config_path(Platform::Linux, None, Some("/home/u/".to_string())),
        format!("/home/u/.config{}afsim-linker{}config.json", SEP, SEP)
    );
    assert_eq!(
        ExecutorConfig::get_config_path(Platform::Linux, None, Some(String::new())),
        format!(".config{}afsim-linker{}config.json", SEP, SEP)
    );
}
