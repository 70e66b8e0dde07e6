use dsh_desktop::official;
use dsh_desktop::runtime::{
    activation_allowed, assemble_check, choose_update, clears_staged, ensure_forward, legacy_copy, legacy_location,
    npm_copy, npm_location, package_version, plan_prepare, repair_target, safe_name, sort_newest_first,
    validate_copy_record, AvailableUpdate, CheckResult, LocalCopyState, NpmUpdateSettings, PreparePlan, RepairRecord,
    RuntimeCopy, RuntimeSource, RuntimeUpdateSettings, UpdateSourcePolicy, SCHEMA,
};

fn semver_cause(context: &str, text: &str) -> String {
    format!("{context}: {}", semver::Version::parse(text).unwrap_err())
}

fn copy(version: &str) -> RuntimeCopy {
    RuntimeCopy {
        schema: SCHEMA,
        location: format!("copy-{version}"),
        release: version.into(),
        harness_version: Some(version.into()),
        source: RuntimeSource::Npm,
        publisher: official::PACKAGE.into(),
        registry: Some(official::REGISTRY.into()),
    }
}

fn target(version: &str) -> AvailableUpdate {
    AvailableUpdate { version: version.into(), source: RuntimeSource::Npm, registry: None, local_copy: None }
}

fn present(copy: RuntimeCopy) -> LocalCopyState {
    LocalCopyState { copy, files_present: true }
}

#[test]
fn installation_cannot_reference_an_outside_copy_or_downgrade() {
    let mut current = copy("2.0.0");
    assert!(ensure_forward(Some(&current), "1.0.0").is_err());
    current.location = "../outside".into();
    assert!(validate_copy_record(&current).is_err());
}

#[test]
fn fixed_missing_version_is_not_replaced_with_latest() {
    let settings = RuntimeUpdateSettings { version: Some("1.0.0".into()), ..Default::default() };
    let targets = vec![AvailableUpdate {
        version: "2.0.0".into(),
        source: RuntimeSource::Npm,
        registry: None,
        local_copy: None,
    }];
    assert!(choose_update(&targets, None, &settings).is_none());
    assert!(CheckResult { issues: vec!["来源不可用".into()], ..Default::default() }
        .summary()
        .contains("检查不完整"));
}

#[test]
fn confirmed_copy_does_not_follow_new_staged_target() {
    let current = copy("1.0.0");
    let confirmed = copy("2.0.0");
    let staged = copy("3.0.0");
    assert!(activation_allowed(Some(&current), &confirmed).is_ok());
    assert!(!clears_staged(Some(&staged), &confirmed));
    assert!(clears_staged(Some(&confirmed), &confirmed));
    assert!(!clears_staged(None, &confirmed));
    assert_eq!(
        activation_allowed(Some(&staged), &confirmed),
        Err("不自动降级 Harness 或用户数据".to_string())
    );
}

#[test]
fn legacy_pointer_is_read_without_rewrite_or_version_conflation() {
    let current = legacy_copy(Some("0.1.5"), RuntimeSource::Oss, None).expect("legacy");
    assert_eq!(current.location, "0.1.5");
    assert_eq!(current.harness_version, None);
    assert_eq!(current.release, "0.1.5");
    assert_eq!(legacy_location("0.1.5", RuntimeSource::Npm), "0.1.5-npm");
    assert_eq!(legacy_copy(None, RuntimeSource::Oss, None).unwrap_err(), "旧运行时缺少发行号；需要修复");
    assert_eq!(legacy_copy(Some("x"), RuntimeSource::Oss, None).unwrap_err(), semver_cause("旧运行时发行号无效", "x"));
}

#[test]
fn newest_eligible_target_is_chosen() {
    let settings = RuntimeUpdateSettings::default();
    let current = copy("1.0.0");
    let targets = vec![target("0.9.0"), target("1.2.0"), target("1.10.0"), target("1.0.0")];
    let chosen = choose_update(&targets, Some(&current), &settings).expect("newer");
    assert_eq!(chosen.version, "1.10.0");
    let none = choose_update(&vec![target("1.0.0"), target("0.1.0")], Some(&current), &settings);
    assert!(none.is_none());
    let pinned = RuntimeUpdateSettings { version: Some("1.2.0".into()), ..Default::default() };
    assert_eq!(choose_update(&targets, Some(&current), &pinned).expect("pinned").version, "1.2.0");
}

#[test]
fn equal_versions_choose_the_later_found() {
    let settings = RuntimeUpdateSettings::default();
    let mut local = target("2.0.0");
    local.local_copy = Some(copy("2.0.0"));
    let remote = target("2.0.0");
    let chosen = choose_update(&vec![local.clone(), remote.clone()], None, &settings).expect("found");
    assert_eq!(chosen, remote);
    let sorted = sort_newest_first(vec![target("1.0.0"), local.clone(), remote.clone(), target("3.0.0")]);
    let versions: Vec<&str> = sorted.iter().map(|t| t.version.as_str()).collect();
    assert_eq!(versions, vec!["3.0.0", "2.0.0", "2.0.0", "1.0.0"]);
    assert_eq!(sorted[1], local);
    assert_eq!(sorted[2], remote);
}

#[test]
fn local_only_pin_matches_release_or_harness_version() {
    let settings = RuntimeUpdateSettings {
        source: UpdateSourcePolicy::Local,
        version: Some("0.3.0".into()),
        ..Default::default()
    };
    let mut local = copy("2.0.0");
    local.release = "0.3.0".into();
    let mut found = target("2.0.0");
    found.local_copy = Some(local);
    assert!(choose_update(&vec![found.clone()], None, &settings).is_some());
    let npm = RuntimeUpdateSettings { version: Some("0.3.0".into()), ..Default::default() };
    assert!(choose_update(&vec![found], None, &npm).is_none());
}

#[test]
fn check_assembles_sorted_targets_and_issues() {
    let settings = RuntimeUpdateSettings::default();
    let current = present(copy("1.0.0"));
    let staged = LocalCopyState { copy: copy("1.5.0"), files_present: false };
    let npm = Some(Ok(vec!["1.1.0".to_string(), "2.0.0".to_string()]));
    let check = assemble_check(&settings, Some(current), Ok(Some(staged)), npm);
    let versions: Vec<&str> = check.versions.iter().map(|t| t.version.as_str()).collect();
    assert_eq!(versions, vec!["2.0.0", "1.1.0", "1.0.0"]);
    assert_eq!(check.available.as_ref().expect("newer").version, "2.0.0");
    assert_eq!(check.issues, vec!["本地副本 1.5.0 文件缺失".to_string()]);
    assert_eq!(check.versions[0].registry.as_deref(), Some(official::REGISTRY));
    assert!(check.versions[2].local_copy.is_some());
}

#[test]
fn check_reports_unreadable_staged_oss_note_npm_error_and_missing_pin() {
    let oss = RuntimeUpdateSettings { source: UpdateSourcePolicy::Oss, ..Default::default() };
    let check = assemble_check(&oss, None, Err(()), Some(Err("无法连接官方版本来源".into())));
    assert_eq!(
        check.issues,
        vec!["暂存记录不可读".to_string(), "旧 OSS 来源保留为本机副本；获取官方新版本请选择官方 npm".to_string()]
    );
    let npm = RuntimeUpdateSettings {
        source: UpdateSourcePolicy::Npm,
        version: Some("9.9.9".into()),
        ..Default::default()
    };
    let check = assemble_check(&npm, None, Err(()), Some(Err("无法连接官方版本来源".into())));
    assert_eq!(
        check.issues,
        vec![
            "无法连接官方版本来源".to_string(),
            "所选版本 9.9.9 未在当前来源找到；旧 runtime 发行号不能代替 Harness 版本".to_string()
        ]
    );
    assert!(check.available.is_none());
    assert!(check.summary().starts_with("检查不完整：无法连接官方版本来源；所选版本 9.9.9"));
}

#[test]
fn summary_names_the_offer() {
    let check = CheckResult { available: Some(target("2.0.0")), ..Default::default() };
    assert_eq!(check.summary(), "可更新 Harness 2.0.0");
    assert_eq!(CheckResult::default().summary(), "没有找到可安装的新版本");
    let partial = CheckResult { issues: vec!["a".into(), "b".into()], ..Default::default() };
    assert_eq!(partial.summary(), "检查不完整：a；b\n没有找到可安装的新版本");
}

#[test]
fn settings_are_validated() {
    assert!(RuntimeUpdateSettings::default().validate().is_ok());
    let bad_pin = RuntimeUpdateSettings { version: Some("latest".into()), ..Default::default() };
    assert_eq!(bad_pin.validate(), Err(semver_cause("固定版本格式无效", "latest")));
    let bad_registry = RuntimeUpdateSettings {
        npm: NpmUpdateSettings { registry: "not a url".into(), package: official::PACKAGE.into() },
        ..Default::default()
    };
    assert_eq!(
        bad_registry.validate(),
        Err(format!("npm 来源地址无效: {}", url::Url::parse("not a url").unwrap_err()))
    );
    let no_host = RuntimeUpdateSettings {
        npm: NpmUpdateSettings { registry: "file:///tmp/registry".into(), package: official::PACKAGE.into() },
        ..Default::default()
    };
    assert_eq!(no_host.validate(), Err("npm 来源地址缺少主机".to_string()));
    let other_package = RuntimeUpdateSettings {
        npm: NpmUpdateSettings { registry: official::REGISTRY.into(), package: "left-pad".into() },
        ..Default::default()
    };
    assert_eq!(other_package.validate(), Err("仅管理官方 @deepseek-ai/dsh 包".to_string()));
}

#[test]
fn copy_records_are_checked() {
    assert!(validate_copy_record(&copy("1.0.0")).is_ok());
    let mut old_schema = copy("1.0.0");
    old_schema.schema = SCHEMA + 1;
    assert_eq!(
        validate_copy_record(&old_schema),
        Err("setup-required：副本状态需要其他 Launcher 版本".to_string())
    );
    let mut bad_release = copy("1.0.0");
    bad_release.release = "one".into();
    assert_eq!(validate_copy_record(&bad_release), Err(semver_cause("副本发行号无效", "one")));
    let mut bad_version = copy("1.0.0");
    bad_version.harness_version = Some("v1".into());
    assert_eq!(validate_copy_record(&bad_version), Err(semver_cause("Harness 版本格式无效", "v1")));
    assert!(safe_name("npm-1.0.0-abc"));
    assert!(!safe_name("a/b"));
    assert!(!safe_name("C:x"));
    assert!(!safe_name(".."));
    assert!(!safe_name(""));
}

#[test]
fn forward_rule_needs_a_valid_target() {
    assert!(ensure_forward(None, "1.0.0").is_ok());
    assert!(ensure_forward(None, "not-a-version").is_err());
    assert!(ensure_forward(Some(&copy("1.0.0")), "1.0.0").is_ok());
    assert!(ensure_forward(Some(&copy("1.0.0")), "1.0.1").is_ok());
}

#[test]
fn preparation_plans() {
    let mut local = target("2.0.0");
    local.local_copy = Some(copy("2.0.0"));
    assert!(matches!(plan_prepare(&local), Ok(PreparePlan::UseLocal(c)) if c == copy("2.0.0")));
    let mut oss = target("2.0.0");
    oss.source = RuntimeSource::Oss;
    assert_eq!(plan_prepare(&oss).err(), Some("该来源没有官方安装入口".to_string()));
    assert_eq!(plan_prepare(&target("bad")).err(), Some(semver_cause("目标版本无效", "bad")));
    assert_eq!(plan_prepare(&target("2.0.0")).err(), Some("缺少官方发行来源".to_string()));
    let mut npm = target("2.0.0");
    npm.registry = Some("https://r.example/".into());
    assert!(matches!(
        plan_prepare(&npm),
        Ok(PreparePlan::InstallNpm { version, registry }) if version == "2.0.0" && registry == "https://r.example/"
    ));
}

#[test]
fn repair_targets_only_known_npm_copies() {
    let repair = repair_target(&copy("1.0.0")).expect("npm copy");
    assert_eq!(repair.version, "1.0.0");
    assert_eq!(repair.registry.as_deref(), Some(official::REGISTRY));
    let mut oss = copy("1.0.0");
    oss.source = RuntimeSource::Oss;
    assert_eq!(repair_target(&oss).err(), Some("旧副本缺失；请选择明确的官方版本进行前向修复".to_string()));
    let mut unknown = copy("1.0.0");
    unknown.harness_version = None;
    assert_eq!(repair_target(&unknown).err(), Some("当前 Harness 版本未知，不能推定修复目标".to_string()));
}

#[test]
fn new_copies_and_package_versions() {
    assert_eq!(npm_location("1.2.3", "abc"), "npm-1.2.3-abc");
    let made = npm_copy("npm-1.2.3-abc".into(), "1.2.3", official::REGISTRY);
    assert_eq!(made.harness_version.as_deref(), Some("1.2.3"));
    assert_eq!(made.publisher, official::PACKAGE);
    assert_eq!(package_version(Some("1.2.3".into())), Some("1.2.3".to_string()));
    assert_eq!(package_version(Some("dev".into())), None);
    assert_eq!(package_version(None), None);
}

#[test]
fn repair_records_keep_a_bounded_error() {
    let long = "错".repeat(2000);
    let record = RepairRecord::new("1.0.0".into(), "start", &long);
    assert_eq!(record.error.chars().count(), 1024);
    assert_eq!(record.phase, "start");
    let short = RepairRecord::new("1.0.0".into(), "prepare", "boom");
    assert_eq!(short.error, "boom");
}

#[test]
fn labels() {
    assert_eq!(RuntimeSource::Npm.label(), "官方 npm");
    assert_eq!(RuntimeSource::Oss.label(), "旧 OSS 副本");
    assert_eq!(RuntimeSource::Local.label(), "本地副本");
    assert_eq!(UpdateSourcePolicy::Auto.label(), "自动选择");
    assert_eq!(UpdateSourcePolicy::Npm.label(), "官方软件源");
    assert_eq!(copy("1.0.0").version_label(), "1.0.0");
    let mut unknown = copy("1.0.0");
    unknown.harness_version = None;
    assert_eq!(unknown.version_label(), "未知");
}
