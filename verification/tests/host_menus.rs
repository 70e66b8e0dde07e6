use dsh_desktop::dialogs::{
    action, action_prompt, commands, commands_prompt, info, notice, prompt, select, select_prompt, DialogResponse,
};
use dsh_desktop::host::{
    about_text, chosen_version, current_line, diagnostic_text, exit_evidence, information_title, item_enabled,
    keeps_running, known_boolean, known_count, menu_command, monitor_step, running_detail, running_label,
    selected_choice, selected_source, settings_description, shortcut, source_choices, source_labels, staged_line,
    tracks_action, update_confirmation, version_choice_description, version_choices, version_labels, MenuCommand,
    MonitorStep,
};
use dsh_desktop::runtime::{AvailableUpdate, RuntimeCopy, RuntimeSource, RuntimeUpdateSettings, UpdateSourcePolicy};

fn copy(version: &str) -> RuntimeCopy {
    RuntimeCopy {
        schema: 2,
        location: "c".into(),
        release: version.into(),
        harness_version: Some(version.into()),
        source: RuntimeSource::Npm,
        publisher: "@deepseek-ai/dsh".into(),
        registry: None,
    }
}

fn target(version: &str) -> AvailableUpdate {
    AvailableUpdate { version: version.into(), source: RuntimeSource::Npm, registry: None, local_copy: None }
}

#[test]
fn menu_ids_map_to_commands() {
    assert_eq!(menu_command("show"), Some(MenuCommand::ShowWindow));
    assert_eq!(menu_command("hide"), Some(MenuCommand::HideWindow));
    assert_eq!(menu_command("fullscreen"), Some(MenuCommand::ToggleFullscreen));
    assert_eq!(menu_command("info"), Some(MenuCommand::Diagnostics));
    assert_eq!(menu_command("about"), Some(MenuCommand::About));
    assert_eq!(menu_command("check"), Some(MenuCommand::CheckUpdates));
    assert_eq!(menu_command("update-settings"), Some(MenuCommand::UpdateSettings));
    assert_eq!(menu_command("recover"), Some(MenuCommand::Recover));
    assert_eq!(menu_command("exit"), Some(MenuCommand::Exit));
    assert_eq!(menu_command("force-stop"), Some(MenuCommand::ForceStop));
    assert_eq!(menu_command("force-exit"), Some(MenuCommand::ForceExit));
    assert_eq!(menu_command("troubleshooting"), None);
    assert_eq!(information_title(true), "诊断信息");
    assert_eq!(information_title(false), "关于 DSH Desktop");
}

#[test]
fn menu_items_shortcuts_and_enabling() {
    assert_eq!(shortcut("check"), Some("Ctrl+Shift+U"));
    assert_eq!(shortcut("update-settings"), Some("Ctrl+Comma"));
    assert_eq!(shortcut("about"), None);
    for id in ["check", "update-settings", "recover", "force-stop", "exit"] {
        assert!(tracks_action(id));
    }
    assert!(!tracks_action("info"));
    assert!(item_enabled("recover", true, false));
    assert!(!item_enabled("recover", true, true));
    assert!(item_enabled("force-stop", true, true));
    assert!(!item_enabled("force-stop", true, false));
    assert!(!item_enabled("check", false, false));
    assert!(item_enabled("check", true, true));
}

#[test]
fn monitor_and_exit_decisions() {
    assert_eq!(monitor_step(false, true, true), MonitorStep::Unchanged);
    assert_eq!(monitor_step(true, true, true), MonitorStep::TreeEnded);
    assert_eq!(monitor_step(true, false, true), MonitorStep::RootExited);
    assert_eq!(monitor_step(true, false, false), MonitorStep::Unchanged);
    assert!(keeps_running(None, false));
    assert!(!keeps_running(None, true));
    assert!(!keeps_running(Some(0), false));
}

#[test]
fn version_choices_start_with_the_pin_and_skip_older_and_repeated_versions() {
    let pin = "1.5.0".to_string();
    let targets = vec![target("2.0.0"), target("1.5.0"), target("0.9.0"), target("1.6.0"), target("2.0.0")];
    let current = copy("1.0.0");
    let versions = version_choices(Some(&pin), &targets, Some(&current));
    assert_eq!(versions, vec!["1.5.0", "2.0.0", "1.6.0"]);
    assert_eq!(version_choices(None, &targets, None), vec!["2.0.0", "1.5.0", "0.9.0", "1.6.0"]);
    let labels = version_labels(&versions);
    assert_eq!(labels, vec!["自动选择最新版本（推荐）", "固定为 1.5.0", "固定为 2.0.0", "固定为 1.6.0"]);
    assert_eq!(selected_choice(Some(&pin), &versions), 1);
    assert_eq!(selected_choice(Some(&"1.6.0".to_string()), &versions), 3);
    assert_eq!(selected_choice(Some(&"9.9.9".to_string()), &versions), 0);
    assert_eq!(selected_choice(None, &versions), 0);
    assert_eq!(chosen_version(0, &versions), None);
    assert_eq!(chosen_version(2, &versions), Some("2.0.0".to_string()));
}

#[test]
fn dialog_texts() {
    assert_eq!(
        version_choice_description(&Vec::new()),
        "固定版本后将不再提示更高版本；选择自动可恢复检查新版本。保存不会安装或重启。"
    );
    assert_eq!(
        version_choice_description(&vec!["a".to_string(), "b".to_string()]),
        "固定版本后将不再提示更高版本；选择自动可恢复检查新版本。保存不会安装或重启。\n\n版本列表可能不完整：a；b"
    );
    let (text, label) = update_confirmation("2.0.0", false);
    assert_eq!(text, "将安装并打开 DeepSeek Harness 2.0.0。\n\n取消会保留已下载更新。");
    assert_eq!(label, "安装并打开");
    let (text, label) = update_confirmation("2.0.0", true);
    assert!(text.starts_with("将更新到 DeepSeek Harness 2.0.0。\n\n无法确认所有任务已经完成。"));
    assert_eq!(label, "强制重启并更新");
    assert_eq!(
        about_text("0.1.0", "未运行"),
        "DSH Desktop 0.1.0\n\nDeepSeek Harness：未运行\n\nDeepSeek Harness 的非官方桌面客户端。\n检查新版本，请选择“帮助 → 检查更新”。"
    );
    assert_eq!(
        settings_description("自动选择", None),
        "更新来源：自动选择\n版本选择：自动选择最新版本\n\n设置只影响以后检查的范围，保存不会下载或重启。"
    );
    assert_eq!(running_label(Some("1.0.0")), "1.0.0");
    assert_eq!(running_label(None), "未运行");
}

#[test]
fn source_choices_line_up_with_labels() {
    let sources = source_choices();
    assert_eq!(
        sources,
        vec![UpdateSourcePolicy::Auto, UpdateSourcePolicy::Npm, UpdateSourcePolicy::Local, UpdateSourcePolicy::Oss]
    );
    assert_eq!(source_labels().len(), sources.len());
    assert_eq!(source_labels()[1], "官方软件源（联网）");
    for (index, source) in sources.iter().enumerate() {
        assert_eq!(selected_source(*source), index);
    }
}

#[test]
fn diagnostic_lines() {
    assert_eq!(known_boolean(Some(true)), "是");
    assert_eq!(known_boolean(Some(false)), "否");
    assert_eq!(known_boolean(None), "未知");
    assert_eq!(known_count(Some(12)), "12");
    assert_eq!(known_count(None), "未知");
    let evidence = exit_evidence(Some(false), Some(2), None, Some(0));
    assert_eq!(
        evidence,
        "接纳新工作：否；待完成工作：2；收尾完成：未知\n观测到运行中的 agent：0（不代表全部待完成工作）"
    );
    assert_eq!(running_detail(&copy("1.0.0"), None), "1.0.0 · 官方 npm\n退出证据未知");
    assert_eq!(running_detail(&copy("1.0.0"), Some("x")), "1.0.0 · 官方 npm\nx");
    assert_eq!(staged_line(None), "无");
    assert_eq!(staged_line(Some(&copy("2.0.0"))), "2.0.0 · 官方 npm");
    assert_eq!(current_line(Some(&copy("1.0.0"))), "1.0.0");
    assert_eq!(current_line(None), "无");
    let settings = RuntimeUpdateSettings::default();
    assert_eq!(
        diagnostic_text("0.1.0", "未运行", "无", "无", &settings, "就绪"),
        "DSH Desktop（非官方宿主）\nLauncher 0.1.0\n本轮 Harness：未运行\n当前启用目标：无\n已准备、未确认：无\n选择偏好：自动选择 · 最新可用版本\n\n就绪"
    );
}

#[test]
fn dialog_layout_and_answers() {
    let labels = vec!["更新来源…".to_string(), "目标版本…".to_string()];
    let request = prompt("h", "d", &labels, &[], None);
    assert_eq!(request.title, "DSH Desktop");
    assert_eq!(request.buttons.iter().map(|b| b.id).collect::<Vec<_>>(), vec![100, 101]);
    assert!(request.close_only);
    assert_eq!(request.default_button, 8);
    let single = action_prompt("h", "d", "go");
    assert!(!single.close_only);
    assert_eq!(single.default_button, 2);
    assert_eq!(single.buttons[0].text, "go");
    assert!(notice("h", "d").buttons.is_empty());
    assert!(info("t", "d").close_only);
    let choose = select_prompt("h", "d", &labels, 1);
    assert_eq!(choose.buttons[0].text, "保存");
    assert_eq!(choose.radios.iter().map(|b| b.id).collect::<Vec<_>>(), vec![200, 201]);
    assert_eq!(choose.default_radio, 201);
    assert_eq!(commands_prompt("h", "d", &labels).buttons.len(), 2);

    assert!(action(DialogResponse { button: 100, radio: 0 }));
    assert!(!action(DialogResponse { button: 2, radio: 0 }));
    assert_eq!(commands(DialogResponse { button: 101, radio: 0 }, 2), Some(1));
    assert_eq!(commands(DialogResponse { button: 102, radio: 0 }, 2), None);
    assert_eq!(commands(DialogResponse { button: 8, radio: 0 }, 2), None);
    assert_eq!(select(DialogResponse { button: 100, radio: 201 }, 2), Some(1));
    assert_eq!(select(DialogResponse { button: 2, radio: 201 }, 2), None);
    assert_eq!(select(DialogResponse { button: 100, radio: 0 }, 2), None);
    assert_eq!(select(DialogResponse { button: 100, radio: 205 }, 2), None);
    assert_eq!(select(DialogResponse { button: 2, radio: i32::MIN }, 2), None);
}
