//! What the update dialog says and offers after a check.
use vstd::prelude::*;
use crate::official;
use crate::runtime::{self, AvailableUpdate, CheckResult, RuntimeCopy, RuntimeUpdateSettings, UpdateSourcePolicy};
use crate::text;

verus! {

/// The action an update dialog offers.
#[derive(Debug)]
pub enum UpdateOffer {
    /// Download this target first.
    Download(AvailableUpdate),
    /// Install this copy, already downloaded.
    Install(RuntimeCopy),
}

/// The mathematical form of an `UpdateOffer`.
pub ghost enum OfferView {
    Download(runtime::TargetView),
    Install(runtime::CopyView),
}

impl View for UpdateOffer {
    type V = OfferView;

    open spec fn view(&self) -> OfferView {
        match self {
            UpdateOffer::Download(t) => OfferView::Download(t@),
            UpdateOffer::Install(c) => OfferView::Install(c@),
        }
    }
}

/// The button label of an offer.
pub open spec fn offer_label(o: OfferView) -> Seq<char> {
    match o {
        OfferView::Download(_) => "下载更新"@,
        OfferView::Install(_) => "重启并更新…"@,
    }
}

impl UpdateOffer {
    /// The button label of this offer.
    pub fn label(&self) -> (res: &'static str)
        ensures
            res@ == offer_label(self@),
    {
        match self {
            UpdateOffer::Download(_) => "下载更新",
            UpdateOffer::Install(_) => "重启并更新…",
        }
    }
}

/// The heading, text and offer of the update dialog.
pub struct UpdateView {
    pub heading: &'static str,
    pub description: String,
    pub offer: Option<UpdateOffer>,
}

/// The staged copy counts as prepared when its Harness version is known and
/// newer than the current copy's known Harness version.
pub open spec fn prepared_copy(current: Option<runtime::CopyView>, staged: Option<runtime::CopyView>) -> Option<runtime::CopyView> {
    match staged {
        Some(c) => match c.harness_version {
            Some(v) => if current matches Some(a) && a.harness_version matches Some(av)
                && official::semver_order(v, av) <= 0 {
                None
            } else {
                Some(c)
            },
            None => None,
        },
        None => None,
    }
}

/// The offer: with a target found, install the prepared copy if it is that
/// target and download the target otherwise; with none, install the prepared
/// copy if there is one.
pub open spec fn offer_of(
    current: Option<runtime::CopyView>,
    staged: Option<runtime::CopyView>,
    available: Option<runtime::TargetView>,
) -> Option<OfferView> {
    let prepared = prepared_copy(current, staged);
    match available {
        Some(t) => match prepared {
            Some(c) => if runtime::copy_is_target(c, t) {
                Some(OfferView::Install(c))
            } else {
                Some(OfferView::Download(t))
            },
            None => Some(OfferView::Download(t)),
        },
        None => match prepared {
            Some(c) => Some(OfferView::Install(c)),
            None => None,
        },
    }
}

/// The dialog heading.
pub open spec fn heading_of(offer: Option<OfferView>, check: CheckResult, settings: RuntimeUpdateSettings) -> Seq<char> {
    match offer {
        Some(OfferView::Download(_)) => "有可用更新"@,
        Some(OfferView::Install(_)) => "更新已下载"@,
        None => if check.issues@.len() > 0 {
            "未能完成更新检查"@
        } else if settings.version is Some {
            "正在使用固定版本"@
        } else if settings.source == UpdateSourcePolicy::Local || settings.source == UpdateSourcePolicy::Oss {
            "本机没有可用更新"@
        } else if check.versions@.len() == 0 {
            "未找到可用版本"@
        } else {
            "已是当前来源的最新版本"@
        },
    }
}

/// The first lines of the dialog: what runs, and the update settings.
pub open spec fn settings_lines(running: Seq<char>, settings: RuntimeUpdateSettings) -> Seq<char> {
    "当前运行：DeepSeek Harness "@ + running + "\n更新来源："@ + runtime::policy_label(settings.source)
        + "\n版本选择："@ + match settings.version {
        Some(v) => v@,
        None => "自动选择最新版本"@,
    }
}

/// What the dialog says about the offer, or about why there is none.
pub open spec fn offer_lines(offer: Option<OfferView>, check: CheckResult, settings: RuntimeUpdateSettings) -> Seq<char> {
    match offer {
        Some(OfferView::Download(t)) => "\n\n可更新至 "@ + t.version + "。下载期间可以继续使用；完成后再确认重启。"@,
        Some(OfferView::Install(c)) => "\n\n已下载 "@ + runtime::version_label_of(c) + "。重启前会提示任务中断风险，并再次请你确认。"@ + if check.available is None {
            "\n这是之前下载的版本，尚未安装。"@
        } else {
            Seq::empty()
        },
        None => if check.issues@.len() > 0 {
            Seq::empty()
        } else if settings.version is Some {
            "\n\n当前固定版本没有可安装的更新。若要查找新版本，请在“更新设置”中选择自动选择最新版本。"@
        } else if settings.source == UpdateSourcePolicy::Local || settings.source == UpdateSourcePolicy::Oss {
            "\n\n本机没有更高版本。若要联网检查，请在“更新设置”中选择自动选择或官方软件源。"@
        } else if check.versions@.len() == 0 {
            "\n\n该来源未返回可用版本。请检查更新设置后重试。"@
        } else {
            "\n\n当前来源没有更高版本，无需更新。"@
        },
    }
}

/// The closing note on an incomplete check.
pub open spec fn issue_lines(check: CheckResult) -> Seq<char> {
    if check.issues@.len() > 0 {
        "\n\n部分检查未完成："@ + text::joined(text::views(check.issues@), "；"@)
            + "\n可以稍后重新检查，或在“更新设置”中调整来源。"@
    } else {
        Seq::empty()
    }
}

/// The dialog offers only what the check and the staged copy give: a download
/// of the found target, or the install of the staged copy when its Harness
/// version is known and newer than the current one and, with a target found,
/// it is that target.
pub proof fn offer_comes_from_check(
    current: Option<runtime::CopyView>,
    staged: Option<runtime::CopyView>,
    available: Option<runtime::TargetView>,
)
    ensures
        offer_of(current, staged, available) matches Some(OfferView::Download(t)) ==> available == Some(t),
        offer_of(current, staged, available) matches Some(OfferView::Install(c)) ==> {
            &&& staged == Some(c)
            &&& c.harness_version is Some
            &&& (current matches Some(a) ==> (a.harness_version matches Some(av)
                ==> official::semver_order(c.harness_version.unwrap(), av) > 0))
            &&& (available matches Some(t) ==> runtime::copy_is_target(c, t))
        },
        offer_of(current, staged, available) is None ==> available is None,
{
}

/// While the current copy's Harness version is unknown (or there is no
/// current copy), a staged copy whose Harness version is known is prepared:
/// with no target found it is offered for install, and with a target found
/// it is installed when it is that target and the target is downloaded
/// otherwise.
pub proof fn staged_copy_offered_when_current_unknown(
    current: Option<runtime::CopyView>,
    c: runtime::CopyView,
    available: Option<runtime::TargetView>,
)
    requires
        current is None || current.unwrap().harness_version is None,
        c.harness_version is Some,
    ensures
        available is None ==> offer_of(current, Some(c), available) == Some(OfferView::Install(c)),
        available matches Some(t) ==> offer_of(current, Some(c), available) == if runtime::copy_is_target(c, t) {
            Some(OfferView::Install(c))
        } else {
            Some(OfferView::Download(t))
        },
{
}

/// The dialog claims the latest version only when nothing is offered, the
/// check was complete, no version is pinned, the registry was consulted and
/// it returned versions.
pub proof fn latest_claim_is_earned(offer: Option<OfferView>, check: CheckResult, settings: RuntimeUpdateSettings)
    ensures
        heading_of(offer, check, settings) == "已是当前来源的最新版本"@ ==> {
            &&& offer is None
            &&& check.issues@.len() == 0
            &&& settings.version is None
            &&& (settings.source == UpdateSourcePolicy::Auto || settings.source == UpdateSourcePolicy::Npm)
            &&& check.versions@.len() > 0
        },
{
    reveal_strlit("已是当前来源的最新版本");
    reveal_strlit("有可用更新");
    reveal_strlit("更新已下载");
    reveal_strlit("未能完成更新检查");
    reveal_strlit("正在使用固定版本");
    reveal_strlit("本机没有可用更新");
    reveal_strlit("未找到可用版本");
    assert("已是当前来源的最新版本"@.len() == 11);
    assert("有可用更新"@.len() == 5);
    assert("更新已下载"@.len() == 5);
    assert("未能完成更新检查"@.len() == 8);
    assert("正在使用固定版本"@.len() == 8);
    assert("本机没有可用更新"@.len() == 8);
    assert("未找到可用版本"@.len() == 7);
}

/// The view of an optional target.
pub open spec fn target_view_opt(t: Option<AvailableUpdate>) -> Option<runtime::TargetView> {
    match t {
        Some(x) => Some(x@),
        None => None,
    }
}

/// The view of an optional offer.
pub open spec fn offer_view_opt(o: Option<UpdateOffer>) -> Option<OfferView> {
    match o {
        Some(x) => Some(x@),
        None => None,
    }
}

/// The staged copy, when it counts as prepared (see `prepared_copy`); never
/// the current copy itself.
fn staged_if_newer<'a>(current: Option<&RuntimeCopy>, staged: Option<&'a RuntimeCopy>) -> (res: Option<&'a RuntimeCopy>)
    ensures
        runtime::current_view(res) == prepared_copy(runtime::current_view(current), runtime::current_view(staged)),
        current is Some && staged is Some && staged.unwrap()@ == current.unwrap()@ ==> res is None,
{
    match staged {
        Some(copy) => match &copy.harness_version {
            Some(v) => {
                let newer = match current {
                    Some(active) => match &active.harness_version {
                        Some(av) => official::version_rank(v.as_str(), av.as_str()) > 0,
                        None => true,
                    },
                    None => true,
                };
                if newer {
                    Some(copy)
                } else {
                    None
                }
            },
            None => None,
        },
        None => None,
    }
}

impl UpdateView {
    /// The dialog after a check: it offers the prepared staged copy or the
    /// found target (see `offer_of`); it never claims the latest version when
    /// the check was incomplete, a version is pinned or only local copies were
    /// consulted; and it lists every issue of an incomplete check.
    pub fn new(
        running: &str,
        current: Option<&RuntimeCopy>,
        staged: Option<&RuntimeCopy>,
        check: &CheckResult,
        settings: &RuntimeUpdateSettings,
    ) -> (res: UpdateView)
        ensures
            ({
                let offer = offer_of(
                    runtime::current_view(current),
                    runtime::current_view(staged),
                    target_view_opt(check.available),
                );
                &&& offer_view_opt(res.offer) == offer
                &&& res.heading@ == heading_of(offer, *check, *settings)
                &&& res.description@ == settings_lines(running@, *settings) + offer_lines(
                    offer,
                    *check,
                    *settings,
                ) + issue_lines(*check)
            }),
            current is Some && staged is Some && staged.unwrap()@ == current.unwrap()@ && check.available is None
                ==> res.offer is None,
            (current is None || current.unwrap().harness_version is None) && staged is Some
                && staged.unwrap().harness_version is Some && check.available is None
                ==> offer_view_opt(res.offer) == Some(OfferView::Install(staged.unwrap()@)),
            (current is None || current.unwrap().harness_version is None) && staged is Some
                && staged.unwrap().harness_version is Some && check.available is Some
                ==> offer_view_opt(res.offer) == if runtime::copy_is_target(staged.unwrap()@, check.available.unwrap()@) {
                Some(OfferView::Install(staged.unwrap()@))
            } else {
                Some(OfferView::Download(check.available.unwrap()@))
            },
    {
        let prepared = staged_if_newer(current, staged);
        let offer: Option<UpdateOffer> = match &check.available {
            Some(target) => match prepared {
                Some(copy) => {
                    if runtime::staged_matches(copy, target) {
                        Some(UpdateOffer::Install(copy.duplicate()))
                    } else {
                        Some(UpdateOffer::Download(target.duplicate()))
                    }
                },
                None => Some(UpdateOffer::Download(target.duplicate())),
            },
            None => match prepared {
                Some(copy) => Some(UpdateOffer::Install(copy.duplicate())),
                None => None,
            },
        };
        let mut description = String::from_str("当前运行：DeepSeek Harness ");
        description.append(running);
        description.append("\n更新来源：");
        description.append(settings.source.label());
        description.append("\n版本选择：");
        match &settings.version {
            Some(v) => description.append(v.as_str()),
            None => description.append("自动选择最新版本"),
        }
        let ghost base = description@;
        let has_issues = check.issues.len() > 0;
        let heading: &'static str = match &offer {
            Some(UpdateOffer::Download(target)) => {
                description.append("\n\n可更新至 ");
                description.append(target.version.as_str());
                description.append("。下载期间可以继续使用；完成后再确认重启。");
                "有可用更新"
            },
            Some(UpdateOffer::Install(copy)) => {
                description.append("\n\n已下载 ");
                description.append(copy.version_label());
                description.append("。重启前会提示任务中断风险，并再次请你确认。");
                if check.available.is_none() {
                    description.append("\n这是之前下载的版本，尚未安装。");
                }
                "更新已下载"
            },
            None => {
                if has_issues {
                    "未能完成更新检查"
                } else if settings.version.is_some() {
                    description.append(
                        "\n\n当前固定版本没有可安装的更新。若要查找新版本，请在“更新设置”中选择自动选择最新版本。",
                    );
                    "正在使用固定版本"
                } else if settings.source == UpdateSourcePolicy::Local || settings.source
                    == UpdateSourcePolicy::Oss {
                    description.append(
                        "\n\n本机没有更高版本。若要联网检查，请在“更新设置”中选择自动选择或官方软件源。",
                    );
                    "本机没有可用更新"
                } else if check.versions.len() == 0 {
                    description.append("\n\n该来源未返回可用版本。请检查更新设置后重试。");
                    "未找到可用版本"
                } else {
                    description.append("\n\n当前来源没有更高版本，无需更新。");
                    "已是当前来源的最新版本"
                }
            },
        };
        let ghost offered = offer_view_opt(offer);
        assert(description@ =~= base + offer_lines(offered, *check, *settings));
        let ghost with_offer = description@;
        if has_issues {
            description.append("\n\n部分检查未完成：");
            let joined = text::join_strings(&check.issues, "；");
            description.append(joined.as_str());
            description.append("\n可以稍后重新检查，或在“更新设置”中调整来源。");
        }
        assert(description@ =~= with_offer + issue_lines(*check));
        UpdateView { heading, description, offer }
    }
}

} // verus!
