use dsh_desktop::runtime::{
    AvailableUpdate, CheckResult, RuntimeCopy, RuntimeSource, RuntimeUpdateSettings, UpdateSourcePolicy,
};
use dsh_desktop::update_ui::{UpdateOffer, UpdateView};

fn copy(version: &str) -> RuntimeCopy {
    RuntimeCopy {
        schema: 2,
        location: "test".into(),
        release: version.into(),
        harness_version: Some(version.into()),
        source: RuntimeSource::Npm,
        publisher: "@deepseek-ai/dsh".into(),
        registry: None,
    }
}

fn target(version: &str) -> AvailableUpdate {
    AvailableUpdate { version: version.into(), source: RuntimeSource::Npm, registry: None, local_copy: None }
}

#[test]
fn failed_check_never_claims_latest_or_offers_download() {
    let check = CheckResult { issues: vec!["来源不可用".into()], ..Default::default() };
    let view = UpdateView::new("1.0.0", Some(&copy("1.0.0")), None, &check, &RuntimeUpdateSettings::default());
    assert_eq!(view.heading, "未能完成更新检查");
    assert!(view.offer.is_none());
}

#[test]
fn fixed_version_and_local_only_do_not_claim_global_latest() {
    let mut settings = RuntimeUpdateSettings { version: Some("1.0.0".into()), ..Default::default() };
    let check = CheckResult { versions: vec![target("1.0.0")], ..Default::default() };
    assert_eq!(UpdateView::new("1.0.0", None, None, &check, &settings).heading, "正在使用固定版本");
    settings.version = None;
    settings.source = UpdateSourcePolicy::Local;
    assert_eq!(UpdateView::new("1.0.0", None, None, &check, &settings).heading, "本机没有可用更新");
}

#[test]
fn only_matching_prepared_target_skips_download() {
    let check = CheckResult { available: Some(target("1.2.0")), ..Default::default() };
    let settings = RuntimeUpdateSettings::default();
    let active = copy("1.0.0");
    let view = UpdateView::new("1.0.0", Some(&active), Some(&copy("1.1.0")), &check, &settings);
    assert!(matches!(view.offer, Some(UpdateOffer::Download(_))));
    let view = UpdateView::new("1.0.0", Some(&active), Some(&copy("1.2.0")), &check, &settings);
    assert!(matches!(view.offer, Some(UpdateOffer::Install(_))));
}

#[test]
fn previously_downloaded_update_remains_explicit_and_active_copy_is_not_offered() {
    let settings = RuntimeUpdateSettings::default();
    let active = copy("1.0.0");
    let check = CheckResult::default();
    let view = UpdateView::new("1.0.0", Some(&active), Some(&copy("1.1.0")), &check, &settings);
    assert!(matches!(view.offer, Some(UpdateOffer::Install(_))));
    assert!(view.description.contains("之前下载"));
    let view = UpdateView::new("1.0.0", Some(&active), Some(&active), &check, &settings);
    assert!(view.offer.is_none());
}

#[test]
fn latest_is_claimed_only_after_a_complete_registry_check() {
    let settings = RuntimeUpdateSettings::default();
    let check = CheckResult { versions: vec![target("1.0.0")], ..Default::default() };
    let view = UpdateView::new("1.0.0", Some(&copy("1.0.0")), None, &check, &settings);
    assert_eq!(view.heading, "已是当前来源的最新版本");
    assert_eq!(
        view.description,
        "当前运行：DeepSeek Harness 1.0.0\n更新来源：自动选择\n版本选择：自动选择最新版本\n\n当前来源没有更高版本，无需更新。"
    );
    let empty = UpdateView::new("1.0.0", None, None, &CheckResult::default(), &settings);
    assert_eq!(empty.heading, "未找到可用版本");
}

#[test]
fn download_offer_text_and_issue_note() {
    let check = CheckResult {
        available: Some(target("2.0.0")),
        issues: vec!["暂存记录不可读".into()],
        ..Default::default()
    };
    let view = UpdateView::new("1.0.0", None, None, &check, &RuntimeUpdateSettings::default());
    assert_eq!(view.heading, "有可用更新");
    assert_eq!(view.offer.as_ref().map(UpdateOffer::label), Some("下载更新"));
    assert_eq!(
        view.description,
        "当前运行：DeepSeek Harness 1.0.0\n更新来源：自动选择\n版本选择：自动选择最新版本\n\n可更新至 2.0.0。下载期间可以继续使用；完成后再确认重启。\n\n部分检查未完成：暂存记录不可读\n可以稍后重新检查，或在“更新设置”中调整来源。"
    );
}

#[test]
fn staged_copy_not_newer_is_not_offered() {
    let view = UpdateView::new(
        "2.0.0",
        Some(&copy("2.0.0")),
        Some(&copy("1.5.0")),
        &CheckResult::default(),
        &RuntimeUpdateSettings::default(),
    );
    assert!(view.offer.is_none());
    let mut unknown = copy("3.0.0");
    unknown.harness_version = None;
    let view = UpdateView::new("2.0.0", None, Some(&unknown), &CheckResult::default(), &RuntimeUpdateSettings::default());
    assert!(view.offer.is_none());
    let install = UpdateOffer::Install(copy("3.0.0"));
    assert_eq!(install.label(), "重启并更新…");
}
