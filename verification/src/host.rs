//! The decisions and texts of the desktop host's menus and dialogs: which menu
//! actions are tracked and enabled, the version choices offered, and what the
//! update, about and settings dialogs say.
use vstd::prelude::*;
use crate::official;
use crate::runtime::{self, AvailableUpdate, RuntimeCopy};
use crate::text;

verus! {

/// What the host says when it cannot confirm that the Harness has finished.
pub const EXIT_GAP: &'static str = "应用仍在运行。如需强制停止，请选择“帮助 → 故障处理 → 强制停止应用”。这可能中断任务并丢失未保存内容。";

/// A known or unknown yes/no.
pub open spec fn boolean_text(value: Option<bool>) -> Seq<char> {
    match value {
        Some(true) => "是"@,
        Some(false) => "否"@,
        None => "未知"@,
    }
}

/// `是`, `否` or `未知`.
pub fn known_boolean(value: Option<bool>) -> (res: &'static str)
    ensures
        res@ == boolean_text(value),
{
    match value {
        Some(true) => "是",
        Some(false) => "否",
        None => "未知",
    }
}

/// The keyboard shortcut of a menu item, if it has one.
pub fn shortcut(id: &str) -> (res: Option<&'static str>)
    ensures
        id@ == "check"@ ==> res is Some && res.unwrap()@ == "Ctrl+Shift+U"@,
        id@ == "update-settings"@ ==> res is Some && res.unwrap()@ == "Ctrl+Comma"@,
        id@ != "check"@ && id@ != "update-settings"@ ==> res is None,
{
    proof {
        reveal_strlit("check");
        reveal_strlit("update-settings");
        assert("check"@.len() != "update-settings"@.len());
    }
    if text::str_eq(id, "check") {
        Some("Ctrl+Shift+U")
    } else if text::str_eq(id, "update-settings") {
        Some("Ctrl+Comma")
    } else {
        None
    }
}

/// The menu items that start a serialized operation.
pub open spec fn tracked_action(id: Seq<char>) -> bool {
    id == "check"@ || id == "update-settings"@ || id == "recover"@ || id == "force-stop"@ || id == "exit"@
}

/// The item is disabled while an operation runs.
pub fn tracks_action(id: &str) -> (res: bool)
    ensures
        res == tracked_action(id@),
{
    text::str_eq(id, "check") || text::str_eq(id, "update-settings") || text::str_eq(id, "recover")
        || text::str_eq(id, "force-stop") || text::str_eq(id, "exit")
}

/// A tracked item is enabled when no operation runs and it applies: repair
/// only while the Harness is not running, force stop only while it is.
pub fn item_enabled(id: &str, enabled: bool, running: bool) -> (res: bool)
    ensures
        res == (enabled && if id@ == "recover"@ {
            !running
        } else if id@ == "force-stop"@ {
            running
        } else {
            true
        }),
{
    let applicable = if text::str_eq(id, "recover") {
        !running
    } else if text::str_eq(id, "force-stop") {
        running
    } else {
        true
    };
    enabled && applicable
}

/// The version shown as running, or `未运行`.
pub fn running_label(version: Option<&str>) -> (res: String)
    ensures
        res@ == match version {
            Some(v) => v@,
            None => "未运行"@,
        },
{
    match version {
        Some(v) => String::from_str(v),
        None => String::from_str("未运行"),
    }
}

/// A target is not older than the current copy's known Harness version.
pub open spec fn not_older(version: Seq<char>, current: Option<runtime::CopyView>) -> bool {
    match current {
        Some(c) => match c.harness_version {
            Some(v) => official::semver_order(version, v) >= 0,
            None => true,
        },
        None => true,
    }
}

/// The versions a pin may be set to: the pinned one first, then each found
/// version not older than the current copy, each listed once.
pub open spec fn choice_versions(pinned: Option<Seq<char>>, targets: Seq<runtime::TargetView>, current: Option<runtime::CopyView>) -> Seq<Seq<char>>
    decreases targets.len(),
{
    if targets.len() == 0 {
        match pinned {
            Some(p) => seq![p],
            None => Seq::empty(),
        }
    } else {
        let init = choice_versions(pinned, targets.drop_last(), current);
        let v = targets.last().version;
        if !not_older(v, current) || init.contains(v) {
            init
        } else {
            init.push(v)
        }
    }
}

/// The target is at or above the current copy's Harness version, or that
/// version is not known.
pub open spec fn at_or_above_current(version: Seq<char>, current: Option<runtime::CopyView>) -> bool {
    current is None || current.unwrap().harness_version is None
        || official::semver_order(version, current.unwrap().harness_version.unwrap()) >= 0
}

/// The pin choices hold the pinned version first, every found version that is
/// not strictly older than the current copy's Harness version (so the running
/// version itself may be pinned), and nothing else.
pub proof fn pin_choices_keep_current_and_newer(
    pinned: Option<Seq<char>>,
    targets: Seq<runtime::TargetView>,
    current: Option<runtime::CopyView>,
)
    ensures
        forall|j: int|
            0 <= j < targets.len() && at_or_above_current(#[trigger] targets[j].version, current)
                ==> choice_versions(pinned, targets, current).contains(targets[j].version),
        pinned matches Some(p) ==> choice_versions(pinned, targets, current).len() > 0
            && choice_versions(pinned, targets, current)[0] == p,
        forall|i: int|
            0 <= i < choice_versions(pinned, targets, current).len() ==> pinned == Some(
                #[trigger] choice_versions(pinned, targets, current)[i],
            ) || exists|j: int|
                0 <= j < targets.len() && targets[j].version == choice_versions(pinned, targets, current)[i]
                    && at_or_above_current(targets[j].version, current),
    decreases targets.len(),
{
    if targets.len() > 0 {
        let init_t = targets.drop_last();
        pin_choices_keep_current_and_newer(pinned, init_t, current);
        let init = choice_versions(pinned, init_t, current);
        let res = choice_versions(pinned, targets, current);
        let v = targets.last();
        assert(not_older(v.version, current) == at_or_above_current(v.version, current));
        assert forall|j: int|
            0 <= j < targets.len() && at_or_above_current(#[trigger] targets[j].version, current)
                implies res.contains(targets[j].version) by {
            if j < targets.len() - 1 {
                assert(init_t[j] == targets[j]);
                let i = choose|i: int| 0 <= i < init.len() && init[i] == targets[j].version;
                if res != init {
                    assert(res == init.push(v.version));
                    assert(res[i] == targets[j].version);
                }
            } else if !init.contains(v.version) {
                assert(res == init.push(v.version));
                assert(res[init.len() as int] == v.version);
            }
        }
        if pinned is Some && res != init {
            assert(res[0] == init[0]);
        }
        assert forall|i: int| 0 <= i < res.len() implies pinned == Some(#[trigger] res[i]) || exists|j: int|
            0 <= j < targets.len() && targets[j].version == res[i] && at_or_above_current(targets[j].version, current) by {
            if i < init.len() {
                assert(res[i] == init[i]);
                if pinned != Some(init[i]) {
                    let j = choose|j: int|
                        0 <= j < init_t.len() && init_t[j].version == init[i] && at_or_above_current(init_t[j].version, current);
                    assert(targets[j] == init_t[j]);
                }
            } else {
                assert(res[i] == v.version);
                assert(targets[targets.len() - 1] == v);
            }
        }
    }
}

/// Lists the versions a pin may be set to (see `choice_versions`).
pub fn version_choices(pinned: Option<&String>, targets: &Vec<AvailableUpdate>, current: Option<&RuntimeCopy>) -> (res: Vec<String>)
    ensures
        text::views(res@) == choice_versions(
            match pinned {
                Some(p) => Some(p@),
                None => None,
            },
            runtime::target_views(targets@),
            runtime::current_view(current),
        ),
        forall|j: int|
            0 <= j < targets@.len() && (current is None || current.unwrap().harness_version is None
                || official::semver_order((#[trigger] targets@[j]).version@, current.unwrap().harness_version.unwrap()@) >= 0)
                ==> text::views(res@).contains(targets@[j].version@),
        pinned is Some ==> res@.len() > 0 && res@[0]@ == pinned.unwrap()@,
{
    proof {
        let pv = match pinned {
            Some(p) => Some(p@),
            None => None,
        };
        let ts = runtime::target_views(targets@);
        pin_choices_keep_current_and_newer(pv, ts, runtime::current_view(current));
        assert forall|j: int|
            0 <= j < targets@.len() && (current is None || current.unwrap().harness_version is None
                || official::semver_order((#[trigger] targets@[j]).version@, current.unwrap().harness_version.unwrap()@) >= 0)
            implies choice_versions(pv, ts, runtime::current_view(current)).contains(targets@[j].version@) by {
            assert(ts[j] == targets@[j]@);
            assert(at_or_above_current(ts[j].version, runtime::current_view(current)));
        }
    }
    let ghost pv = match pinned {
        Some(p) => Some(p@),
        None => None::<Seq<char>>,
    };
    let mut res: Vec<String> = Vec::new();
    if let Some(p) = pinned {
        res.push(p.clone());
    }
    assert(runtime::target_views(targets@).take(0) =~= Seq::<runtime::TargetView>::empty());
    assert(text::views(res@) =~= choice_versions(pv, runtime::target_views(targets@).take(0), runtime::current_view(current)));
    let mut i: usize = 0;
    while i < targets.len()
        invariant
            i <= targets.len(),
            text::views(res@) == choice_versions(pv, runtime::target_views(targets@).take(i as int), runtime::current_view(current)),
        decreases targets.len() - i,
    {
        let ghost t = runtime::target_views(targets@).take(i + 1);
        assert(t.drop_last() =~= runtime::target_views(targets@).take(i as int));
        assert(t.last() == targets@[i as int]@);
        let target = &targets[i];
        let mut keep = true;
        if let Some(copy) = current {
            if let Some(version) = &copy.harness_version {
                if official::version_rank(target.version.as_str(), version.as_str()) < 0 {
                    keep = false;
                }
            }
        }
        if keep {
            let mut k: usize = 0;
            while keep && k < res.len()
                invariant
                    k <= res@.len(),
                    forall|j: int| 0 <= j < k ==> (#[trigger] res@[j])@ != target.version@,
                    !keep ==> k < res@.len() && res@[k as int]@ == target.version@,
                decreases res@.len() - k + if keep { 1int } else { 0int },
            {
                if text::str_eq(res[k].as_str(), target.version.as_str()) {
                    keep = false;
                } else {
                    k = k + 1;
                }
            }
            proof {
                if keep {
                    assert(!text::views(res@).contains(target.version@)) by {
                        if text::views(res@).contains(target.version@) {
                            let j = choose|j: int| 0 <= j < text::views(res@).len() && text::views(res@)[j] == target.version@;
                            assert(res@[j]@ == target.version@);
                        }
                    }
                } else {
                    assert(text::views(res@)[k as int] == target.version@);
                }
            }
        }
        if keep {
            let ghost before = res@;
            res.push(target.version.clone());
            assert(text::views(res@) =~= text::views(before).push(target.version@));
        }
        i = i + 1;
    }
    assert(runtime::target_views(targets@).take(targets.len() as int) =~= runtime::target_views(targets@));
    res
}

/// The labels of the version choices: automatic first, then one per version.
pub fn version_labels(versions: &Vec<String>) -> (res: Vec<String>)
    ensures
        res@.len() == versions@.len() + 1,
        res@[0]@ == "自动选择最新版本（推荐）"@,
        forall|k: int| 0 <= k < versions@.len() ==> (#[trigger] res@[k + 1])@ == "固定为 "@ + versions@[k]@,
{
    let mut res: Vec<String> = Vec::new();
    res.push(String::from_str("自动选择最新版本（推荐）"));
    let mut i: usize = 0;
    while i < versions.len()
        invariant
            i <= versions@.len(),
            res@.len() == i + 1,
            res@[0]@ == "自动选择最新版本（推荐）"@,
            forall|k: int| 0 <= k < i ==> (#[trigger] res@[k + 1])@ == "固定为 "@ + versions@[k]@,
        decreases versions@.len() - i,
    {
        let mut label = String::from_str("固定为 ");
        label.append(versions[i].as_str());
        res.push(label);
        i = i + 1;
    }
    res
}

/// The preselected choice: the pinned version's label, or automatic (0).
pub fn selected_choice(pinned: Option<&String>, versions: &Vec<String>) -> (res: usize)
    ensures
        match pinned {
            None => res == 0,
            Some(p) => if exists|k: int| 0 <= k < versions@.len() && (#[trigger] versions@[k])@ == p@ {
                res >= 1 && versions@[res - 1]@ == p@ && forall|k: int| 0 <= k < res - 1 ==> (#[trigger] versions@[k])@ != p@
            } else {
                res == 0
            },
        },
{
    match pinned {
        None => 0,
        Some(p) => {
            let mut k: usize = 0;
            while k < versions.len()
                invariant
                    pinned == Some(p),
                    k <= versions@.len(),
                    forall|j: int| 0 <= j < k ==> (#[trigger] versions@[j])@ != p@,
                decreases versions@.len() - k,
            {
                if text::str_eq(versions[k].as_str(), p.as_str()) {
                    return k + 1;
                }
                k = k + 1;
            }
            0
        },
    }
}

/// The pin a saved choice sets: none for automatic (0), otherwise the version.
pub fn chosen_version(index: usize, versions: &Vec<String>) -> (res: Option<String>)
    requires
        index <= versions@.len(),
    ensures
        index == 0 ==> res is None,
        index > 0 ==> res is Some && res.unwrap()@ == versions@[index - 1]@,
{
    if index == 0 {
        None
    } else {
        Some(versions[index - 1].clone())
    }
}

/// The text of the version choice dialog, with a warning when the list may
/// be incomplete.
pub fn version_choice_description(issues: &Vec<String>) -> (res: String)
    ensures
        res@ == "固定版本后将不再提示更高版本；选择自动可恢复检查新版本。保存不会安装或重启。"@ + if issues@.len() > 0 {
            "\n\n版本列表可能不完整："@ + text::joined(text::views(issues@), "；"@)
        } else {
            Seq::empty()
        },
{
    let mut res = String::from_str("固定版本后将不再提示更高版本；选择自动可恢复检查新版本。保存不会安装或重启。");
    if issues.len() > 0 {
        res.append("\n\n版本列表可能不完整：");
        let joined = text::join_strings(issues, "；");
        res.append(joined.as_str());
    }
    res
}

/// The confirmation before installing a downloaded update: its text and the
/// label of its button, warning of a forced restart while the Harness runs.
pub fn update_confirmation(version_label: &str, running: bool) -> (res: (String, &'static str))
    ensures
        running ==> res.0@ == "将更新到 DeepSeek Harness "@ + version_label@
            + "。\n\n无法确认所有任务已经完成。强制重启可能中断任务或丢失未保存内容。请先完成正在进行的工作。\n\n取消会保留当前运行和已下载更新。"@
            && res.1@ == "强制重启并更新"@,
        !running ==> res.0@ == "将安装并打开 DeepSeek Harness "@ + version_label@ + "。\n\n取消会保留已下载更新。"@
            && res.1@ == "安装并打开"@,
{
    if running {
        let mut d = String::from_str("将更新到 DeepSeek Harness ");
        d.append(version_label);
        d.append(
            "。\n\n无法确认所有任务已经完成。强制重启可能中断任务或丢失未保存内容。请先完成正在进行的工作。\n\n取消会保留当前运行和已下载更新。",
        );
        (d, "强制重启并更新")
    } else {
        let mut d = String::from_str("将安装并打开 DeepSeek Harness ");
        d.append(version_label);
        d.append("。\n\n取消会保留已下载更新。");
        (d, "安装并打开")
    }
}

/// The text of the About dialog.
pub fn about_text(launcher_version: &str, running: &str) -> (res: String)
    ensures
        res@ == "DSH Desktop "@ + launcher_version@ + "\n\nDeepSeek Harness："@ + running@
            + "\n\nDeepSeek Harness 的非官方桌面客户端。\n检查新版本，请选择“帮助 → 检查更新”。"@,
{
    let mut res = String::from_str("DSH Desktop ");
    res.append(launcher_version);
    res.append("\n\nDeepSeek Harness：");
    res.append(running);
    res.append("\n\nDeepSeek Harness 的非官方桌面客户端。\n检查新版本，请选择“帮助 → 检查更新”。");
    res
}

/// The text of the update settings dialog.
pub fn settings_description(source_label: &str, version: Option<&String>) -> (res: String)
    ensures
        res@ == "更新来源："@ + source_label@ + "\n版本选择："@ + match version {
            Some(v) => v@,
            None => "自动选择最新版本"@,
        } + "\n\n设置只影响以后检查的范围，保存不会下载或重启。"@,
{
    let mut res = String::from_str("更新来源：");
    res.append(source_label);
    res.append("\n版本选择：");
    match version {
        Some(v) => res.append(v.as_str()),
        None => res.append("自动选择最新版本"),
    }
    res.append("\n\n设置只影响以后检查的范围，保存不会下载或重启。");
    res
}

/// The source policies offered in the settings dialog, in order.
pub fn source_choices() -> (res: Vec<runtime::UpdateSourcePolicy>)
    ensures
        res@ == seq![
            runtime::UpdateSourcePolicy::Auto,
            runtime::UpdateSourcePolicy::Npm,
            runtime::UpdateSourcePolicy::Local,
            runtime::UpdateSourcePolicy::Oss,
        ],
{
    let mut res = Vec::new();
    res.push(runtime::UpdateSourcePolicy::Auto);
    res.push(runtime::UpdateSourcePolicy::Npm);
    res.push(runtime::UpdateSourcePolicy::Local);
    res.push(runtime::UpdateSourcePolicy::Oss);
    assert(res@ =~= seq![
        runtime::UpdateSourcePolicy::Auto,
        runtime::UpdateSourcePolicy::Npm,
        runtime::UpdateSourcePolicy::Local,
        runtime::UpdateSourcePolicy::Oss,
    ]);
    res
}

/// The labels of the source choices, in the order of `source_choices`.
pub fn source_labels() -> (res: Vec<String>)
    ensures
        text::views(res@) == seq![
            "自动选择（推荐，包含官方软件源）"@,
            "官方软件源（联网）"@,
            "仅本机已下载的版本"@,
            "仅旧版安装缓存（不联网）"@,
        ],
{
    let mut res = Vec::new();
    res.push(String::from_str("自动选择（推荐，包含官方软件源）"));
    res.push(String::from_str("官方软件源（联网）"));
    res.push(String::from_str("仅本机已下载的版本"));
    res.push(String::from_str("仅旧版安装缓存（不联网）"));
    assert(text::views(res@) =~= seq![
        "自动选择（推荐，包含官方软件源）"@,
        "官方软件源（联网）"@,
        "仅本机已下载的版本"@,
        "仅旧版安装缓存（不联网）"@,
    ]);
    res
}

/// The preselected source choice: the position of the current policy.
pub fn selected_source(current: runtime::UpdateSourcePolicy) -> (res: usize)
    ensures
        res < 4,
        seq![
            runtime::UpdateSourcePolicy::Auto,
            runtime::UpdateSourcePolicy::Npm,
            runtime::UpdateSourcePolicy::Local,
            runtime::UpdateSourcePolicy::Oss,
        ][res as int] == current,
{
    match current {
        runtime::UpdateSourcePolicy::Auto => 0,
        runtime::UpdateSourcePolicy::Npm => 1,
        runtime::UpdateSourcePolicy::Local => 2,
        runtime::UpdateSourcePolicy::Oss => 3,
    }
}

/// A count that may be unknown.
pub open spec fn count_text(value: Option<u64>) -> Seq<char> {
    match value {
        Some(n) => text::decimal(n as nat),
        None => "未知"@,
    }
}

/// A count in decimal, or `未知`.
pub fn known_count(value: Option<u64>) -> (res: String)
    ensures
        res@ == count_text(value),
{
    match value {
        Some(n) => text::decimal_string(n),
        None => String::from_str("未知"),
    }
}

/// What the running Harness reports about finishing its work.
pub open spec fn evidence_text(
    accepting: Option<bool>,
    pending: Option<u64>,
    cleanup: Option<bool>,
    agents: Option<u64>,
) -> Seq<char> {
    "接纳新工作："@ + boolean_text(accepting) + "；待完成工作："@ + count_text(pending) + "；收尾完成："@
        + boolean_text(cleanup) + "\n观测到运行中的 agent："@ + count_text(agents) + "（不代表全部待完成工作）"@
}

/// The exit evidence line of the diagnostic text.
pub fn exit_evidence(accepting: Option<bool>, pending: Option<u64>, cleanup: Option<bool>, agents: Option<u64>) -> (res: String)
    ensures
        res@ == evidence_text(accepting, pending, cleanup, agents),
{
    let mut res = String::from_str("接纳新工作：");
    res.append(known_boolean(accepting));
    res.append("；待完成工作：");
    let p = known_count(pending);
    res.append(p.as_str());
    res.append("；收尾完成：");
    res.append(known_boolean(cleanup));
    res.append("\n观测到运行中的 agent：");
    let a = known_count(agents);
    res.append(a.as_str());
    res.append("（不代表全部待完成工作）");
    res
}

/// The running copy in the diagnostic text: its version and source, then
/// its exit evidence, or `退出证据未知` when the bridge did not answer.
pub fn running_detail(copy: &RuntimeCopy, evidence: Option<&str>) -> (res: String)
    ensures
        res@ == runtime::version_label_of(copy@) + " · "@ + runtime::source_label(copy@.source) + "\n"@
            + match evidence {
                Some(e) => e@,
                None => "退出证据未知"@,
            },
{
    let mut res = String::from_str(copy.version_label());
    res.append(" · ");
    res.append(copy.source.label());
    res.append("\n");
    match evidence {
        Some(e) => res.append(e),
        None => res.append("退出证据未知"),
    }
    res
}

/// The staged copy in the diagnostic text: its version and source, or `无`.
pub fn staged_line(staged: Option<&RuntimeCopy>) -> (res: String)
    ensures
        res@ == match staged {
            Some(c) => runtime::version_label_of(c@) + " · "@ + runtime::source_label(c@.source),
            None => "无"@,
        },
{
    match staged {
        Some(c) => {
            let mut res = String::from_str(c.version_label());
            res.append(" · ");
            res.append(c.source.label());
            res
        },
        None => String::from_str("无"),
    }
}

/// The current copy in the diagnostic text: its version, or `无`.
pub fn current_line(current: Option<&RuntimeCopy>) -> (res: String)
    ensures
        res@ == match current {
            Some(c) => runtime::version_label_of(c@),
            None => "无"@,
        },
{
    match current {
        Some(c) => String::from_str(c.version_label()),
        None => String::from_str("无"),
    }
}

/// The diagnostic text: launcher, running, current and staged copies, the
/// update preference and the latest feedback message.
pub fn diagnostic_text(
    launcher_version: &str,
    running: &str,
    current: &str,
    staged: &str,
    settings: &runtime::RuntimeUpdateSettings,
    message: &str,
) -> (res: String)
    ensures
        res@ == "DSH Desktop（非官方宿主）\nLauncher "@ + launcher_version@ + "\n本轮 Harness："@ + running@
            + "\n当前启用目标："@ + current@ + "\n已准备、未确认："@ + staged@ + "\n选择偏好："@
            + runtime::policy_label(settings.source) + " · "@ + match settings.version {
                Some(v) => v@,
                None => "最新可用版本"@,
            } + "\n\n"@ + message@,
{
    let mut res = String::from_str("DSH Desktop（非官方宿主）\nLauncher ");
    res.append(launcher_version);
    res.append("\n本轮 Harness：");
    res.append(running);
    res.append("\n当前启用目标：");
    res.append(current);
    res.append("\n已准备、未确认：");
    res.append(staged);
    res.append("\n选择偏好：");
    res.append(settings.source.label());
    res.append(" · ");
    match &settings.version {
        Some(v) => res.append(v.as_str()),
        None => res.append("最新可用版本"),
    }
    res.append("\n\n");
    res.append(message);
    res
}

/// What a menu item asks the host to do.
#[derive(Debug, Clone, Copy, PartialEq, Eq, Structural)]
pub enum MenuCommand {
    ShowWindow,
    HideWindow,
    ToggleFullscreen,
    Diagnostics,
    About,
    CheckUpdates,
    UpdateSettings,
    Recover,
    Exit,
    ForceStop,
    ForceExit,
}

/// The command of each menu item id.
pub open spec fn command_of(id: Seq<char>) -> Option<MenuCommand> {
    if id == "show"@ {
        Some(MenuCommand::ShowWindow)
    } else if id == "hide"@ {
        Some(MenuCommand::HideWindow)
    } else if id == "fullscreen"@ {
        Some(MenuCommand::ToggleFullscreen)
    } else if id == "info"@ {
        Some(MenuCommand::Diagnostics)
    } else if id == "about"@ {
        Some(MenuCommand::About)
    } else if id == "check"@ {
        Some(MenuCommand::CheckUpdates)
    } else if id == "update-settings"@ {
        Some(MenuCommand::UpdateSettings)
    } else if id == "recover"@ {
        Some(MenuCommand::Recover)
    } else if id == "exit"@ {
        Some(MenuCommand::Exit)
    } else if id == "force-stop"@ {
        Some(MenuCommand::ForceStop)
    } else if id == "force-exit"@ {
        Some(MenuCommand::ForceExit)
    } else {
        None
    }
}

/// The command of a menu item; other ids do nothing.
pub fn menu_command(id: &str) -> (res: Option<MenuCommand>)
    ensures
        res == command_of(id@),
{
    if text::str_eq(id, "show") {
        Some(MenuCommand::ShowWindow)
    } else if text::str_eq(id, "hide") {
        Some(MenuCommand::HideWindow)
    } else if text::str_eq(id, "fullscreen") {
        Some(MenuCommand::ToggleFullscreen)
    } else if text::str_eq(id, "info") {
        Some(MenuCommand::Diagnostics)
    } else if text::str_eq(id, "about") {
        Some(MenuCommand::About)
    } else if text::str_eq(id, "check") {
        Some(MenuCommand::CheckUpdates)
    } else if text::str_eq(id, "update-settings") {
        Some(MenuCommand::UpdateSettings)
    } else if text::str_eq(id, "recover") {
        Some(MenuCommand::Recover)
    } else if text::str_eq(id, "exit") {
        Some(MenuCommand::Exit)
    } else if text::str_eq(id, "force-stop") {
        Some(MenuCommand::ForceStop)
    } else if text::str_eq(id, "force-exit") {
        Some(MenuCommand::ForceExit)
    } else {
        None
    }
}

/// The title of the information dialog.
pub fn information_title(diagnostic: bool) -> (res: &'static str)
    ensures
        res@ == if diagnostic {
            "诊断信息"@
        } else {
            "关于 DSH Desktop"@
        },
{
    if diagnostic {
        "诊断信息"
    } else {
        "关于 DSH Desktop"
    }
}

/// What the process monitor does after one look at the Harness.
#[derive(Debug, Clone, Copy, PartialEq, Eq, Structural)]
pub enum MonitorStep {
    /// Nothing changed.
    Unchanged,
    /// The root process exited while managed children remain: hide the
    /// window and say so.
    RootExited,
    /// The whole process tree ended: forget the process, hide the window and
    /// enable the actions again.
    TreeEnded,
}

/// The monitor's decision: the tree's end wins over the root's exit, and
/// without a process nothing changes.
pub fn monitor_step(has_process: bool, tree_ended: bool, root_exited: bool) -> (res: MonitorStep)
    ensures
        res == if !has_process {
            MonitorStep::Unchanged
        } else if tree_ended {
            MonitorStep::TreeEnded
        } else if root_exited {
            MonitorStep::RootExited
        } else {
            MonitorStep::Unchanged
        },
{
    if !has_process {
        MonitorStep::Unchanged
    } else if tree_ended {
        MonitorStep::TreeEnded
    } else if root_exited {
        MonitorStep::RootExited
    } else {
        MonitorStep::Unchanged
    }
}

/// An exit request without an exit code is refused unless the user chose to
/// exit: closing the last window keeps the host in the tray.
pub fn keeps_running(exit_code: Option<i32>, exiting: bool) -> (res: bool)
    ensures
        res == (exit_code is None && !exiting),
{
    exit_code.is_none() && !exiting
}

} // verus!
