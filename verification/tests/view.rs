use thumed_helper::environment::{CheckDetail, CheckItem, CheckResult};
use thumed_helper::error::{Invalid, ThumedError};
use thumed_helper::i18n::Lang;
use thumed_helper::tui::{App, PodAction, Screen, StatusKey};
use thumed_helper::view::{
    footer, forwarding_lines, header, menu_details, picker_title, pod_entries, report_lines,
    report_offset, report_scroll_limit, uninstall_lines, ScreenLine, Tone,
};

fn texts(lines: &[ScreenLine]) -> Vec<String> {
    lines.iter().map(|l| format!("{}{}", l.lead, l.text)).collect()
}

#[test]
fn report_marks_each_check() {
    let report: Vec<CheckResult> = vec![
        (CheckItem::Kubeconfig, Ok(CheckDetail::Text("/home/u/.kube/config".into()))),
        (CheckItem::Kubectl, Err(ThumedError::MissingTool("kubectl".into()))),
        (CheckItem::Credentials, Err(ThumedError::Invalid(Invalid::SetupPrerequisite))),
    ];
    let lines = report_lines(Lang::En, &report, None, "done");
    let shown = texts(&lines);
    assert_eq!(shown[0], "✔ kubeconfig");
    assert_eq!(lines[0].tone, Tone::Passed);
    assert_eq!(shown[1], "  /home/u/.kube/config");
    assert_eq!(shown[2], "");
    assert_eq!(shown[3], "✘ kubectl");
    assert_eq!(lines[3].tone, Tone::Failed);
    assert_eq!(shown[6], "- Credentials and certificates");
    assert_eq!(lines[6].tone, Tone::Skipped);
    assert_eq!(lines[9].tone, Tone::Pending);
    assert!(shown[9].starts_with("… "));
    // Six checks of three lines each, then the status line.
    assert_eq!(lines.len(), 19);
    assert_eq!(lines[18].lead, Lang::En.t().status_label);
    assert_eq!(lines[18].text, "done");
}

#[test]
fn menu_lists_at_most_twelve_pods() {
    let pods: Vec<String> = (1..=14).map(|i| format!("pod{}", i)).collect();
    let shown = texts(&menu_details(Lang::En, 0, &pods, "ok"));
    assert_eq!(shown[0], Lang::En.t().menu_details[0]);
    assert_eq!(shown[3], " 1. pod1");
    assert_eq!(shown[14], "12. pod12");
    assert!(shown[15].contains('2'));
    assert_eq!(shown.len(), 18);
    let none = texts(&menu_details(Lang::Zh, 5, &Vec::new(), ""));
    assert_eq!(none[3], Lang::Zh.t().no_pods_loaded);
}

#[test]
fn picker_numbers_every_pod() {
    let pods: Vec<String> = vec!["a".into(), "b".into()];
    assert_eq!(pod_entries(&pods), vec![" 1. a", " 2. b"]);
    assert_eq!(picker_title(Lang::En, PodAction::Login, ""), Lang::En.t().title_login);
    assert_eq!(
        picker_title(Lang::En, PodAction::Login, "12"),
        format!("{} — {}: 12", Lang::En.t().title_login, Lang::En.t().picker_number)
    );
}

#[test]
fn forwarding_and_uninstall_screens() {
    let shown = texts(&forwarding_lines(Lang::En, "pod1", "s"));
    assert!(shown[0].contains("pod1"));
    assert!(shown[0].contains("8787"));
    assert!(shown[2].contains("8787"));
    let shown = texts(&uninstall_lines(Lang::En, "pod1", "lesson1", "s"));
    assert!(shown[2].contains("pod1"));
    assert!(shown[3].contains("lesson1"));
}

#[test]
fn footer_follows_the_screen() {
    let mut app = App::new(false);
    assert_eq!(footer(&app), Lang::Zh.t().footer_initialize);
    app.screen = Screen::Menu;
    assert_eq!(footer(&app), Lang::Zh.t().footer_menu);
    app.begin_form();
    assert_eq!(footer(&app), Lang::Zh.t().footer_form);
    app.set_status(StatusKey::Installing);
    assert_eq!(footer(&app), Lang::Zh.t().footer_install_wait);
    let (name, version, switch) = header(Lang::En);
    assert_eq!(name, " THU-Med Cluster Helper ");
    assert_eq!(version, format!(" {}", Lang::En.t().version));
    assert_eq!(switch, "   [F2 EN]");
}

#[test]
fn report_scroll_stays_within_the_report() {
    assert_eq!(report_scroll_limit(10, 20), 0);
    assert_eq!(report_scroll_limit(30, 20), 10);
    assert_eq!(report_scroll_limit(100_000, 0), 65535);
    assert_eq!(report_offset(true, 7, 10), 0);
    assert_eq!(report_offset(false, 7, 10), 7);
    assert_eq!(report_offset(false, 70, 10), 10);
}

#[test]
fn report_keeps_check_order_and_first_result() {
    let report: Vec<CheckResult> = vec![
        (CheckItem::Helm, Ok(CheckDetail::Text("v3.15.0".into()))),
        (CheckItem::Kubeconfig, Err(ThumedError::Invalid(Invalid::SetupPrerequisite))),
        (CheckItem::Helm, Err(ThumedError::MissingTool("helm".into()))),
    ];
    let lines = report_lines(Lang::En, &report, None, "done");
    let heads: Vec<(String, Tone)> = lines
        .iter()
        .filter(|l| {
            let t = format!("{}{}", l.lead, l.text);
            t.starts_with("✔ ") || t.starts_with("✘ ") || t.starts_with("- ") || t.starts_with("… ")
        })
        .map(|l| (format!("{}{}", l.lead, l.text), l.tone))
        .collect();
    assert_eq!(heads.len(), 6);
    assert_eq!(heads[0], ("- kubeconfig".to_string(), Tone::Skipped));
    assert_eq!(heads[1].1, Tone::Pending);
    assert!(heads[1].0.starts_with("… "));
    assert_eq!(heads[2].1, Tone::Pending);
    assert_eq!(heads[3].1, Tone::Passed);
    assert!(heads[3].0.starts_with("✔ "));
    assert_eq!(heads[4].1, Tone::Pending);
    assert_eq!(heads[5].1, Tone::Pending);
}
