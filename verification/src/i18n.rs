//! Two-language string table. F2 toggles at runtime, Chinese is the default.
use crate::environment::CheckItem;
use crate::error::{Invalid, ThumedError, io_error_text};
use crate::text::{
    chars_of, decimal, decimal_string, push_str, string_of, trim, trim_str,
};
use crate::tools::SetupStep;
use vstd::prelude::*;

verus! {

#[derive(Clone, Copy, PartialEq, Eq, Debug, Structural)]
pub enum Lang {
    Zh,
    En,
}

/// Every text that the user interface shows, in one language.
#[derive(Clone, Copy)]
pub struct Strings {
    pub version: &'static str,
    pub menu_labels: [&'static str; 6],
    pub menu_details: [&'static str; 6],
    pub install_labels: [&'static str; 3],
    pub credential_labels: [&'static str; 2],
    pub title_credentials: &'static str,
    pub credentials_hint: &'static str,
    pub context_label: &'static str,
    pub server_label: &'static str,
    pub namespace_label: &'static str,
    pub account_customized: &'static str,
    pub account_default: &'static str,
    pub title_login: &'static str,
    pub title_forward: &'static str,
    pub title_uninstall: &'static str,
    pub title_install: &'static str,
    pub panel_actions: &'static str,
    pub panel_details: &'static str,
    pub panel_pods: &'static str,
    pub panel_confirm: &'static str,
    pub panel_report: &'static str,
    pub panel_forward: &'static str,
    pub panel_initialize: &'static str,
    pub initialize_hint: &'static str,
    pub initialize_password: &'static str,
    pub panel_install_failed: &'static str,
    pub pod_waiting: &'static str,
    pub no_pods_loaded: &'static str,
    pub and_more: &'static str,
    pub picker_number: &'static str,
    pub uninstall_warning: &'static str,
    pub uninstall_pod: &'static str,
    pub uninstall_release: &'static str,
    pub uninstall_continue: &'static str,
    pub status_label: &'static str,
    pub footer_menu: &'static str,
    pub footer_picker: &'static str,
    pub footer_form: &'static str,
    pub footer_confirm: &'static str,
    pub footer_uninstall_wait: &'static str,
    pub footer_back: &'static str,
    pub footer_forward: &'static str,
    pub footer_initialize: &'static str,
    pub footer_install_wait: &'static str,
    pub footer_install_result: &'static str,
    pub form_hint: &'static str,
    pub forward_stop: &'static str,
    pub check_credentials: &'static str,
    pub check_kubeconfig: &'static str,
    pub check_kubectl: &'static str,
    pub check_helm: &'static str,
    pub check_cluster: &'static str,
    pub check_repo: &'static str,
    pub check_pending: &'static str,
    pub check_running: &'static str,
    pub forward_running: &'static str,
    pub forward_url: &'static str,
    pub status_loading: &'static str,
    pub status_env_done: &'static str,
    pub status_env_incomplete: &'static str,
    pub status_pods_loaded: &'static str,
    pub status_no_pods: &'static str,
    pub status_login_ended: &'static str,
    pub status_forward_started: &'static str,
    pub status_forward_stopped: &'static str,
    pub status_forward_failed: &'static str,
    pub status_pod_range: &'static str,
    pub status_installing: &'static str,
    pub status_installed: &'static str,
    pub status_user_saved: &'static str,
    pub status_uninstalling: &'static str,
    pub status_uninstalled: &'static str,
    pub status_uninstall_cancelled: &'static str,
    pub err_io: &'static str,
    pub err_missing_tool: &'static str,
    pub err_missing_kubeconfig: &'static str,
    pub err_command_failed: &'static str,
    pub err_pod_not_found: &'static str,
    pub err_pod_startup_failed: &'static str,
    pub err_pod_startup_timeout: &'static str,
    pub invalid_kube_user: &'static str,
    pub invalid_saved_credentials: &'static str,
    pub setup_prerequisite: &'static str,
    pub invalid_platform: &'static str,
    pub invalid_download: &'static str,
    pub invalid_pod_name: &'static str,
    pub invalid_cpu: &'static str,
    pub invalid_memory: &'static str,
    pub invalid_release_name: &'static str,
    pub invalid_release_changed: &'static str,
}

/// The table of texts of each language.
pub open spec fn strings_for(lang: Lang) -> Strings {
    match lang {
        Lang::Zh => {
            Strings {
                version: "授课版",
                menu_labels: ["创建 Pod", "登录 Pod", "访问 RStudio", "卸载 Pod", "更新用户信息", "检查环境"],
                menu_details: ["填写资源并创建 Pod。", "进入所选 Pod 命令行终端。", "访问集群的 RStudio。", "卸载所选 Pod 的 Helm release。", "修改本地用户名和密码。", "重新检查并配置环境。"],
                install_labels: ["Pod 名称（小写字母和数字）", "CPU 核数（留空默认为 16）", "内存（留空默认为 50Gi）"],
                credential_labels: ["用户名", "密码"],
                title_credentials: "更新用户信息",
                credentials_hint: "仅修改本地登录信息；Delete 清空。",
                context_label: "当前 context",
                server_label: "集群",
                namespace_label: "命名空间",
                account_customized: "来源：本地",
                account_default: "来源：config/默认密码",
                title_login: "登录 Pod",
                title_forward: "端口转发",
                title_uninstall: "卸载 Pod",
                title_install: "创建 Pod",
                panel_actions: "操作",
                panel_details: "详情",
                panel_pods: "Pod 列表",
                panel_confirm: "确认卸载",
                panel_report: "环境检查",
                panel_forward: "端口转发",
                panel_initialize: "初始化",
                initialize_hint: "请将管理员提供的 config 文件放在：",
                initialize_password: "密码（默认 Test1234）",
                panel_install_failed: "创建失败",
                pod_waiting: "等待 Pod Running（最长 30 秒）……",
                no_pods_loaded: "无 Pod。",
                and_more: "另有 {} 个",
                picker_number: "编号",
                uninstall_warning: "将删除 release 及其数据。",
                uninstall_pod: "Pod：{}",
                uninstall_release: "Helm release：{}",
                uninstall_continue: "y 确认卸载，n 取消。",
                status_label: "状态：",
                footer_menu: "↑/↓ 选择   Enter 确认   q/Esc 退出",
                footer_picker: "↑/↓ 选择   数字跳转   Enter 确认   Esc 返回",
                footer_form: "↑/↓/Tab 切换   Enter 提交   Esc 取消",
                footer_confirm: "y 确认   n/Esc 取消",
                footer_uninstall_wait: "卸载中，请等待。",
                footer_back: "↑/↓/PgUp/PgDn 浏览   Enter/Esc 返回   r 重查   u 账号",
                footer_forward: "Esc/q 停止",
                footer_initialize: "Enter 检查   Esc 返回",
                footer_install_wait: "创建中，请等待。",
                footer_install_result: "Enter/Esc 返回",
                form_hint: "填写后按 Enter 创建。",
                forward_stop: "按 Esc 停止转发。",
                check_credentials: "账号与证书",
                check_kubeconfig: "kubeconfig",
                check_kubectl: "kubectl",
                check_helm: "Helm",
                check_cluster: "集群",
                check_repo: "Helm 仓库",
                check_pending: "等待检查",
                check_running: "配置环境……",
                forward_running: "Pod {}：端口 {} 已转发。",
                forward_url: "http://localhost:{}",
                status_loading: "加载 Pod……",
                status_env_done: "初始化完成。",
                status_env_incomplete: "检查未通过；修复后按 r。",
                status_pods_loaded: "{} 个 Pod。",
                status_no_pods: "无 Pod。",
                status_login_ended: "登录结束。",
                status_forward_started: "端口转发已启动。",
                status_forward_stopped: "转发已停止。",
                status_forward_failed: "转发中断：{}",
                status_pod_range: "编号范围：1–{}。",
                status_installing: "创建中……",
                status_installed: "Pod 已 Running。",
                status_user_saved: "已保存。",
                status_uninstalling: "卸载中……",
                status_uninstalled: "已卸载 {}（release {}）；列表已刷新。",
                status_uninstall_cancelled: "已取消卸载。",
                err_io: "错误：{}",
                err_missing_tool: "缺少命令 {}。",
                err_missing_kubeconfig: "config 路径：{}",
                err_command_failed: "{} 失败：{}",
                err_pod_not_found: "Pod {} 不存在。",
                err_pod_startup_failed: "Pod 启动失败（release {}）：{}\n如需删除，可执行 helm uninstall {}。",
                err_pod_startup_timeout: "{} 秒内未确认 Pod Running（不代表 Pod 已失败）：{}",
                invalid_kube_user: "当前 context 无有效用户名。",
                invalid_saved_credentials: "账号无效，或密码为空/含控制字符。",
                setup_prerequisite: "已跳过：前置检查失败。",
                invalid_platform: "仅支持 macOS/Linux/Windows x86_64/arm64。",
                invalid_download: "校验失败，未安装。",
                invalid_pod_name: "Pod 名称仅限小写字母和数字。",
                invalid_cpu: "CPU 必须为 1–255 的整数。",
                invalid_memory: "内存必须为 1–255 GB 的整数。",
                invalid_release_name: "无法从 Pod 名称确定 release。",
                invalid_release_changed: "release 已变化，请重新选择。",
            }
        },
        Lang::En => {
            Strings {
                version: "Lecture version",
                menu_labels: ["Install pod", "Login to pod", "Access RStudio", "Uninstall pod", "Update user information", "Check environment"],
                menu_details: ["Set resources and create a pod.", "Open a shell in the selected pod.", "Access RStudio on the cluster.", "Uninstall the selected pod's Helm release.", "Change the local username and password.", "Check and configure the environment again."],
                install_labels: ["Pod name (lowercase letters and digits)", "CPU (blank = 16)", "Memory (blank = 50Gi)"],
                credential_labels: ["Username", "Password"],
                title_credentials: "Update credentials",
                credentials_hint: "Changes local credentials only. Delete clears a field.",
                context_label: "Current context",
                server_label: "Cluster",
                namespace_label: "Namespace",
                account_customized: "Source: local",
                account_default: "Source: config/default password",
                title_login: "Login to pod",
                title_forward: "Forward port",
                title_uninstall: "Uninstall pod",
                title_install: "Install pod",
                panel_actions: "Actions",
                panel_details: "Details",
                panel_pods: "Pods",
                panel_confirm: "Confirm uninstall",
                panel_report: "Environment",
                panel_forward: "Port forwarding",
                panel_initialize: "Setup",
                initialize_hint: "Place the administrator-provided config file at:",
                initialize_password: "Password (default Test1234)",
                panel_install_failed: "Creation failed",
                pod_waiting: "Waiting for Pod Running (up to 30 seconds)...",
                no_pods_loaded: "No pods.",
                and_more: "{} more",
                picker_number: "number",
                uninstall_warning: "Deletes the release and its data.",
                uninstall_pod: "Pod: {}",
                uninstall_release: "Helm release: {}",
                uninstall_continue: "Press y to uninstall, n to cancel.",
                status_label: "Status: ",
                footer_menu: "↑/↓ select   Enter confirm   q/Esc quit",
                footer_picker: "↑/↓ select   number jump   Enter confirm   Esc back",
                footer_form: "↑/↓/Tab switch   Enter submit   Esc cancel",
                footer_confirm: "y confirm   n/Esc cancel",
                footer_uninstall_wait: "Uninstalling. Wait.",
                footer_back: "↑/↓/PgUp/PgDn scroll   Enter/Esc back   r recheck   u credentials",
                footer_forward: "Esc/q stop",
                footer_initialize: "Enter check   Esc back",
                footer_install_wait: "Creating. Wait.",
                footer_install_result: "Enter/Esc back",
                form_hint: "Fill in and press Enter to create.",
                forward_stop: "Press Esc to stop forwarding.",
                check_credentials: "Credentials and certificates",
                check_kubeconfig: "kubeconfig",
                check_kubectl: "kubectl",
                check_helm: "Helm",
                check_cluster: "Cluster",
                check_repo: "Helm repo",
                check_pending: "Pending",
                check_running: "Configuring environment...",
                forward_running: "Pod {}: port {} forwarded.",
                forward_url: "http://localhost:{}",
                status_loading: "Loading pods...",
                status_env_done: "Setup complete.",
                status_env_incomplete: "Checks failed. Fix and press r.",
                status_pods_loaded: "{} pod(s).",
                status_no_pods: "No pods.",
                status_login_ended: "Login ended.",
                status_forward_started: "Port forwarding started.",
                status_forward_stopped: "Forwarding stopped.",
                status_forward_failed: "Forwarding failed: {}",
                status_pod_range: "Number range: 1–{}.",
                status_installing: "Creating...",
                status_installed: "Pod is Running.",
                status_user_saved: "Saved.",
                status_uninstalling: "Uninstalling...",
                status_uninstalled: "Uninstalled {} (release {}). List refreshed.",
                status_uninstall_cancelled: "Uninstall cancelled.",
                err_io: "Error: {}",
                err_missing_tool: "Missing command {}.",
                err_missing_kubeconfig: "Config path: {}",
                err_command_failed: "{} failed: {}",
                err_pod_not_found: "Pod {} not found.",
                err_pod_startup_failed: "Pod startup failed (release {}): {}\nTo remove it, run helm uninstall {}.",
                err_pod_startup_timeout: "Pod Running was not confirmed within {} seconds (this does not mean the pod failed): {}",
                invalid_kube_user: "Current context has no valid username.",
                invalid_saved_credentials: "Invalid account, empty password, or control character.",
                setup_prerequisite: "Skipped: prerequisite failed.",
                invalid_platform: "Supports macOS/Linux/Windows x86_64/arm64 only.",
                invalid_download: "Verification failed; not installed.",
                invalid_pod_name: "Pod name: lowercase letters and digits only.",
                invalid_cpu: "CPU: integer 1–255.",
                invalid_memory: "Memory: integer 1–255 GB.",
                invalid_release_name: "Cannot derive release from pod name.",
                invalid_release_changed: "Release changed. Select again.",
            }
        },
    }
}

impl Lang {
    /// The other language.
    pub fn toggle(self) -> (r: Self)
        ensures
            r == toggled(self),
    {
        match self {
            Self::Zh => Self::En,
            Self::En => Self::Zh,
        }
    }

    /// The texts of this language.
    pub fn t(self) -> (s: Strings)
        ensures
            s == strings_for(self),
    {
        match self {
            Lang::Zh => {
            Strings {
                version: "授课版",
                menu_labels: ["创建 Pod", "登录 Pod", "访问 RStudio", "卸载 Pod", "更新用户信息", "检查环境"],
                menu_details: ["填写资源并创建 Pod。", "进入所选 Pod 命令行终端。", "访问集群的 RStudio。", "卸载所选 Pod 的 Helm release。", "修改本地用户名和密码。", "重新检查并配置环境。"],
                install_labels: ["Pod 名称（小写字母和数字）", "CPU 核数（留空默认为 16）", "内存（留空默认为 50Gi）"],
                credential_labels: ["用户名", "密码"],
                title_credentials: "更新用户信息",
                credentials_hint: "仅修改本地登录信息；Delete 清空。",
                context_label: "当前 context",
                server_label: "集群",
                namespace_label: "命名空间",
                account_customized: "来源：本地",
                account_default: "来源：config/默认密码",
                title_login: "登录 Pod",
                title_forward: "端口转发",
                title_uninstall: "卸载 Pod",
                title_install: "创建 Pod",
                panel_actions: "操作",
                panel_details: "详情",
                panel_pods: "Pod 列表",
                panel_confirm: "确认卸载",
                panel_report: "环境检查",
                panel_forward: "端口转发",
                panel_initialize: "初始化",
                initialize_hint: "请将管理员提供的 config 文件放在：",
                initialize_password: "密码（默认 Test1234）",
                panel_install_failed: "创建失败",
                pod_waiting: "等待 Pod Running（最长 30 秒）……",
                no_pods_loaded: "无 Pod。",
                and_more: "另有 {} 个",
                picker_number: "编号",
                uninstall_warning: "将删除 release 及其数据。",
                uninstall_pod: "Pod：{}",
                uninstall_release: "Helm release：{}",
                uninstall_continue: "y 确认卸载，n 取消。",
                status_label: "状态：",
                footer_menu: "↑/↓ 选择   Enter 确认   q/Esc 退出",
                footer_picker: "↑/↓ 选择   数字跳转   Enter 确认   Esc 返回",
                footer_form: "↑/↓/Tab 切换   Enter 提交   Esc 取消",
                footer_confirm: "y 确认   n/Esc 取消",
                footer_uninstall_wait: "卸载中，请等待。",
                footer_back: "↑/↓/PgUp/PgDn 浏览   Enter/Esc 返回   r 重查   u 账号",
                footer_forward: "Esc/q 停止",
                footer_initialize: "Enter 检查   Esc 返回",
                footer_install_wait: "创建中，请等待。",
                footer_install_result: "Enter/Esc 返回",
                form_hint: "填写后按 Enter 创建。",
                forward_stop: "按 Esc 停止转发。",
                check_credentials: "账号与证书",
                check_kubeconfig: "kubeconfig",
                check_kubectl: "kubectl",
                check_helm: "Helm",
                check_cluster: "集群",
                check_repo: "Helm 仓库",
                check_pending: "等待检查",
                check_running: "配置环境……",
                forward_running: "Pod {}：端口 {} 已转发。",
                forward_url: "http://localhost:{}",
                status_loading: "加载 Pod……",
                status_env_done: "初始化完成。",
                status_env_incomplete: "检查未通过；修复后按 r。",
                status_pods_loaded: "{} 个 Pod。",
                status_no_pods: "无 Pod。",
                status_login_ended: "登录结束。",
                status_forward_started: "端口转发已启动。",
                status_forward_stopped: "转发已停止。",
                status_forward_failed: "转发中断：{}",
                status_pod_range: "编号范围：1–{}。",
                status_installing: "创建中……",
                status_installed: "Pod 已 Running。",
                status_user_saved: "已保存。",
                status_uninstalling: "卸载中……",
                status_uninstalled: "已卸载 {}（release {}）；列表已刷新。",
                status_uninstall_cancelled: "已取消卸载。",
                err_io: "错误：{}",
                err_missing_tool: "缺少命令 {}。",
                err_missing_kubeconfig: "config 路径：{}",
                err_command_failed: "{} 失败：{}",
                err_pod_not_found: "Pod {} 不存在。",
                err_pod_startup_failed: "Pod 启动失败（release {}）：{}\n如需删除，可执行 helm uninstall {}。",
                err_pod_startup_timeout: "{} 秒内未确认 Pod Running（不代表 Pod 已失败）：{}",
                invalid_kube_user: "当前 context 无有效用户名。",
                invalid_saved_credentials: "账号无效，或密码为空/含控制字符。",
                setup_prerequisite: "已跳过：前置检查失败。",
                invalid_platform: "仅支持 macOS/Linux/Windows x86_64/arm64。",
                invalid_download: "校验失败，未安装。",
                invalid_pod_name: "Pod 名称仅限小写字母和数字。",
                invalid_cpu: "CPU 必须为 1–255 的整数。",
                invalid_memory: "内存必须为 1–255 GB 的整数。",
                invalid_release_name: "无法从 Pod 名称确定 release。",
                invalid_release_changed: "release 已变化，请重新选择。",
            }
            },
            Lang::En => {
            Strings {
                version: "Lecture version",
                menu_labels: ["Install pod", "Login to pod", "Access RStudio", "Uninstall pod", "Update user information", "Check environment"],
                menu_details: ["Set resources and create a pod.", "Open a shell in the selected pod.", "Access RStudio on the cluster.", "Uninstall the selected pod's Helm release.", "Change the local username and password.", "Check and configure the environment again."],
                install_labels: ["Pod name (lowercase letters and digits)", "CPU (blank = 16)", "Memory (blank = 50Gi)"],
                credential_labels: ["Username", "Password"],
                title_credentials: "Update credentials",
                credentials_hint: "Changes local credentials only. Delete clears a field.",
                context_label: "Current context",
                server_label: "Cluster",
                namespace_label: "Namespace",
                account_customized: "Source: local",
                account_default: "Source: config/default password",
                title_login: "Login to pod",
                title_forward: "Forward port",
                title_uninstall: "Uninstall pod",
                title_install: "Install pod",
                panel_actions: "Actions",
                panel_details: "Details",
                panel_pods: "Pods",
                panel_confirm: "Confirm uninstall",
                panel_report: "Environment",
                panel_forward: "Port forwarding",
                panel_initialize: "Setup",
                initialize_hint: "Place the administrator-provided config file at:",
                initialize_password: "Password (default Test1234)",
                panel_install_failed: "Creation failed",
                pod_waiting: "Waiting for Pod Running (up to 30 seconds)...",
                no_pods_loaded: "No pods.",
                and_more: "{} more",
                picker_number: "number",
                uninstall_warning: "Deletes the release and its data.",
                uninstall_pod: "Pod: {}",
                uninstall_release: "Helm release: {}",
                uninstall_continue: "Press y to uninstall, n to cancel.",
                status_label: "Status: ",
                footer_menu: "↑/↓ select   Enter confirm   q/Esc quit",
                footer_picker: "↑/↓ select   number jump   Enter confirm   Esc back",
                footer_form: "↑/↓/Tab switch   Enter submit   Esc cancel",
                footer_confirm: "y confirm   n/Esc cancel",
                footer_uninstall_wait: "Uninstalling. Wait.",
                footer_back: "↑/↓/PgUp/PgDn scroll   Enter/Esc back   r recheck   u credentials",
                footer_forward: "Esc/q stop",
                footer_initialize: "Enter check   Esc back",
                footer_install_wait: "Creating. Wait.",
                footer_install_result: "Enter/Esc back",
                form_hint: "Fill in and press Enter to create.",
                forward_stop: "Press Esc to stop forwarding.",
                check_credentials: "Credentials and certificates",
                check_kubeconfig: "kubeconfig",
                check_kubectl: "kubectl",
                check_helm: "Helm",
                check_cluster: "Cluster",
                check_repo: "Helm repo",
                check_pending: "Pending",
                check_running: "Configuring environment...",
                forward_running: "Pod {}: port {} forwarded.",
                forward_url: "http://localhost:{}",
                status_loading: "Loading pods...",
                status_env_done: "Setup complete.",
                status_env_incomplete: "Checks failed. Fix and press r.",
                status_pods_loaded: "{} pod(s).",
                status_no_pods: "No pods.",
                status_login_ended: "Login ended.",
                status_forward_started: "Port forwarding started.",
                status_forward_stopped: "Forwarding stopped.",
                status_forward_failed: "Forwarding failed: {}",
                status_pod_range: "Number range: 1–{}.",
                status_installing: "Creating...",
                status_installed: "Pod is Running.",
                status_user_saved: "Saved.",
                status_uninstalling: "Uninstalling...",
                status_uninstalled: "Uninstalled {} (release {}). List refreshed.",
                status_uninstall_cancelled: "Uninstall cancelled.",
                err_io: "Error: {}",
                err_missing_tool: "Missing command {}.",
                err_missing_kubeconfig: "Config path: {}",
                err_command_failed: "{} failed: {}",
                err_pod_not_found: "Pod {} not found.",
                err_pod_startup_failed: "Pod startup failed (release {}): {}\nTo remove it, run helm uninstall {}.",
                err_pod_startup_timeout: "Pod Running was not confirmed within {} seconds (this does not mean the pod failed): {}",
                invalid_kube_user: "Current context has no valid username.",
                invalid_saved_credentials: "Invalid account, empty password, or control character.",
                setup_prerequisite: "Skipped: prerequisite failed.",
                invalid_platform: "Supports macOS/Linux/Windows x86_64/arm64 only.",
                invalid_download: "Verification failed; not installed.",
                invalid_pod_name: "Pod name: lowercase letters and digits only.",
                invalid_cpu: "CPU: integer 1–255.",
                invalid_memory: "Memory: integer 1–255 GB.",
                invalid_release_name: "Cannot derive release from pod name.",
                invalid_release_changed: "Release changed. Select again.",
            }
            },
        }
    }

    /// The language's own name, as the language switch shows it.
    pub fn name(self) -> (s: &'static str)
        ensures
            s@ == (match self {
                Lang::Zh => "中文"@,
                Lang::En => "EN"@,
            }),
    {
        match self {
            Self::Zh => "中文",
            Self::En => "EN",
        }
    }
}

/// The language that the switch turns to.
pub open spec fn toggled(lang: Lang) -> Lang {
    match lang {
        Lang::Zh => Lang::En,
        Lang::En => Lang::Zh,
    }
}

/// The switch always changes the language, and toggling twice gives back the
/// language one started with.
pub proof fn lemma_toggle_round_trip(lang: Lang)
    ensures
        toggled(lang) != lang,
        toggled(toggled(lang)) == lang,
{
}

/// Whether `s` begins with a placeholder `{}`.
pub open spec fn at_placeholder(s: Seq<char>) -> bool {
    s.len() >= 2 && s[0] == '{' && s[1] == '}'
}

/// `template` read from left to right, its `i`-th placeholder `{}` replaced
/// by `args[i]`: the text of the arguments is not searched again,
/// placeholders beyond the arguments stay, and arguments beyond the
/// placeholders are ignored.
pub open spec fn fill_spec(template: Seq<char>, args: Seq<Seq<char>>) -> Seq<char>
    decreases template.len(),
{
    if template.len() == 0 {
        seq![]
    } else if args.len() > 0 && at_placeholder(template) {
        args[0] + fill_spec(template.skip(2), args.drop_first())
    } else {
        seq![template[0]] + fill_spec(template.drop_first(), args)
    }
}

/// The views of a list of strings.
pub open spec fn views(args: Seq<&str>) -> Seq<Seq<char>> {
    args.map_values(|a: &str| a@)
}

/// Replace each `{}` of the template, in order, with the given arguments.
pub fn fill(template: &str, args: &[&str]) -> (r: String)
    ensures
        r@ == fill_spec(template@, views(args@)),
{
    let t = chars_of(template);
    let ghost all = views(args@);
    let mut out: Vec<char> = Vec::new();
    let mut i: usize = 0;
    let mut j: usize = 0;
    assert(t@.skip(0) =~= t@);
    assert(all.skip(0) =~= all);
    while i < t.len()
        invariant
            i <= t.len(),
            j <= args.len(),
            t@ == template@,
            all == views(args@),
            all.len() == args@.len(),
            fill_spec(t@, all) == out@ + fill_spec(t@.skip(i as int), all.skip(j as int)),
        decreases t.len() - i,
    {
        let ghost rest = t@.skip(i as int);
        let ghost more = all.skip(j as int);
        if j < args.len() && i + 1 < t.len() && t[i] == '{' && t[i + 1] == '}' {
            proof {
                assert(at_placeholder(rest));
                assert(rest.skip(2) =~= t@.skip(i + 2));
                assert(more.drop_first() =~= all.skip(j + 1));
                assert(more[0] == args@[j as int]@);
            }
            let ghost before = out@;
            push_str(&mut out, args[j]);
            assert(out@ + fill_spec(t@.skip(i + 2), all.skip(j + 1)) =~= before + (more[0]
                + fill_spec(rest.skip(2), more.drop_first())));
            i = i + 2;
            j = j + 1;
        } else {
            proof {
                assert(!(more.len() > 0 && at_placeholder(rest)));
                assert(rest.drop_first() =~= t@.skip(i + 1));
            }
            let ghost before = out@;
            out.push(t[i]);
            assert(out@ + fill_spec(t@.skip(i + 1), more) =~= before + (seq![rest[0]] + fill_spec(
                rest.drop_first(),
                more,
            )));
            i = i + 1;
        }
    }
    assert(out@ + fill_spec(t@.skip(i as int), all.skip(j as int)) =~= out@);
    string_of(out.as_slice())
}

/// The name of a setup sub-step in each language.
pub open spec fn setup_step_text(step: SetupStep, lang: Lang) -> &'static str {
    let (zh, en) = match step {
        SetupStep::Check => ("正在检查", "Checking"),
        SetupStep::FetchVersion => ("获取可安装版本", "Fetching release version"),
        SetupStep::DownloadBinary => ("下载安装包", "Downloading package"),
        SetupStep::DownloadChecksum => ("下载校验文件", "Downloading checksum"),
        SetupStep::VerifyChecksum => ("校验 SHA-256", "Verifying SHA-256"),
        SetupStep::Extract => ("解压可执行文件", "Extracting executable"),
        SetupStep::VerifyBinary => ("验证可执行文件", "Validating executable"),
        SetupStep::InstallBinary => ("安装到本地目录", "Installing locally"),
        SetupStep::Configure => ("配置 Helm 仓库", "Configuring Helm repository"),
        SetupStep::Update => ("更新 Helm 仓库索引", "Updating Helm repository index"),
    };
    match lang {
        Lang::Zh => zh,
        Lang::En => en,
    }
}

pub fn setup_step_name(step: SetupStep, lang: Lang) -> (r: &'static str)
    ensures
        r == setup_step_text(step, lang),
{
    let (zh, en) = match step {
        SetupStep::Check => ("正在检查", "Checking"),
        SetupStep::FetchVersion => ("获取可安装版本", "Fetching release version"),
        SetupStep::DownloadBinary => ("下载安装包", "Downloading package"),
        SetupStep::DownloadChecksum => ("下载校验文件", "Downloading checksum"),
        SetupStep::VerifyChecksum => ("校验 SHA-256", "Verifying SHA-256"),
        SetupStep::Extract => ("解压可执行文件", "Extracting executable"),
        SetupStep::VerifyBinary => ("验证可执行文件", "Validating executable"),
        SetupStep::InstallBinary => ("安装到本地目录", "Installing locally"),
        SetupStep::Configure => ("配置 Helm 仓库", "Configuring Helm repository"),
        SetupStep::Update => ("更新 Helm 仓库索引", "Updating Helm repository index"),
    };
    match lang {
        Lang::Zh => zh,
        Lang::En => en,
    }
}

/// The title of a check in a table of texts.
pub open spec fn check_text(item: CheckItem, t: Strings) -> &'static str {
    match item {
        CheckItem::Credentials => t.check_credentials,
        CheckItem::Kubeconfig => t.check_kubeconfig,
        CheckItem::Kubectl => t.check_kubectl,
        CheckItem::Helm => t.check_helm,
        CheckItem::Cluster => t.check_cluster,
        CheckItem::Repo => t.check_repo,
    }
}

pub fn check_name(item: CheckItem, lang: Lang) -> (r: &'static str)
    ensures
        r == check_text(item, strings_for(lang)),
{
    let t = lang.t();
    match item {
        CheckItem::Credentials => t.check_credentials,
        CheckItem::Kubeconfig => t.check_kubeconfig,
        CheckItem::Kubectl => t.check_kubectl,
        CheckItem::Helm => t.check_helm,
        CheckItem::Cluster => t.check_cluster,
        CheckItem::Repo => t.check_repo,
    }
}

/// The text of an invalid-input error in a table of texts.
pub open spec fn invalid_template(kind: Invalid, t: Strings) -> &'static str {
    match kind {
        Invalid::KubeUser => t.invalid_kube_user,
        Invalid::SavedCredentials => t.invalid_saved_credentials,
        Invalid::SetupPrerequisite => t.setup_prerequisite,
        Invalid::UnsupportedPlatform => t.invalid_platform,
        Invalid::DownloadVerification => t.invalid_download,
        Invalid::PodName => t.invalid_pod_name,
        Invalid::CpuValue => t.invalid_cpu,
        Invalid::MemoryValue => t.invalid_memory,
        Invalid::NoReleaseLabel => t.invalid_release_name,
        Invalid::ReleaseChanged => t.invalid_release_changed,
    }
}

pub fn invalid_text(kind: Invalid, lang: Lang) -> (r: &'static str)
    ensures
        r == invalid_template(kind, strings_for(lang)),
{
    let t = lang.t();
    match kind {
        Invalid::KubeUser => t.invalid_kube_user,
        Invalid::SavedCredentials => t.invalid_saved_credentials,
        Invalid::SetupPrerequisite => t.setup_prerequisite,
        Invalid::UnsupportedPlatform => t.invalid_platform,
        Invalid::DownloadVerification => t.invalid_download,
        Invalid::PodName => t.invalid_pod_name,
        Invalid::CpuValue => t.invalid_cpu,
        Invalid::MemoryValue => t.invalid_memory,
        Invalid::NoReleaseLabel => t.invalid_release_name,
        Invalid::ReleaseChanged => t.invalid_release_changed,
    }
}

/// The localized message of an error; for an I/O error, `io_text` is the
/// I/O error's own message.
pub open spec fn error_text_spec(error: &ThumedError, lang: Lang, io_text: Seq<char>) -> Seq<char> {
    let t = strings_for(lang);
    match error {
        ThumedError::Io(_) => fill_spec(t.err_io@, seq![io_text]),
        ThumedError::MissingTool(tool) => fill_spec(t.err_missing_tool@, seq![tool@]),
        ThumedError::MissingKubeconfig(path) => fill_spec(t.err_missing_kubeconfig@, seq![path@]),
        ThumedError::CommandFailed { cmd, stderr } => fill_spec(
            t.err_command_failed@,
            seq![cmd@, trim(stderr@)],
        ),
        ThumedError::PodNotFound(name) => fill_spec(t.err_pod_not_found@, seq![name@]),
        ThumedError::PodStartupFailed { release, detail } => fill_spec(
            t.err_pod_startup_failed@,
            seq![release@, detail@, release@],
        ),
        ThumedError::PodStartupTimeout { seconds, detail } => fill_spec(
            t.err_pod_startup_timeout@,
            seq![decimal(*seconds as nat), detail@],
        ),
        ThumedError::Invalid(kind) => invalid_template(*kind, t)@,
    }
}

pub fn error_text(error: &ThumedError, lang: Lang) -> (r: String)
    ensures
        exists|io_text: Seq<char>| r@ == #[trigger] error_text_spec(error, lang, io_text),
        !(error is Io) ==> r@ == error_text_spec(error, lang, Seq::empty()),
{
    let t = lang.t();
    let ghost mut io_text: Seq<char> = Seq::empty();
    let r = match error {
        ThumedError::Io(e) => {
            let m = io_error_text(e);
            let args = [m.as_str()];
            let r = fill(t.err_io, &args);
            assert(views(args@) =~= seq![m@]);
            proof {
                io_text = m@;
            }
            r
        },
        ThumedError::MissingTool(tool) => {
            let args = [tool.as_str()];
            let r = fill(t.err_missing_tool, &args);
            assert(views(args@) =~= seq![tool@]);
            r
        },
        ThumedError::MissingKubeconfig(path) => {
            let args = [path.as_str()];
            let r = fill(t.err_missing_kubeconfig, &args);
            assert(views(args@) =~= seq![path@]);
            r
        },
        ThumedError::CommandFailed { cmd, stderr } => {
            let s = trim_str(stderr.as_str());
            let args = [cmd.as_str(), s.as_str()];
            let r = fill(t.err_command_failed, &args);
            assert(views(args@) =~= seq![cmd@, trim(stderr@)]);
            r
        },
        ThumedError::PodNotFound(name) => {
            let args = [name.as_str()];
            let r = fill(t.err_pod_not_found, &args);
            assert(views(args@) =~= seq![name@]);
            r
        },
        ThumedError::PodStartupFailed { release, detail } => {
            let args = [release.as_str(), detail.as_str(), release.as_str()];
            let r = fill(t.err_pod_startup_failed, &args);
            assert(views(args@) =~= seq![
                release@,
                detail@,
                release@,
            ]);
            r
        },
        ThumedError::PodStartupTimeout { seconds, detail } => {
            let n = decimal_string(*seconds);
            let args = [n.as_str(), detail.as_str()];
            let r = fill(t.err_pod_startup_timeout, &args);
            assert(views(args@) =~= seq![decimal(*seconds as nat), detail@]);
            r
        },
        ThumedError::Invalid(kind) => {
            let v = chars_of(invalid_text(*kind, lang));
            string_of(v.as_slice())
        },
    };
    assert(r@ == error_text_spec(error, lang, io_text));
    r
}

} // verus!
