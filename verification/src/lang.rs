//! User-facing messages in English and Chinese.

use vstd::prelude::*;

verus! {

/// The messages the library produces itself.
#[derive(Debug, Clone, Copy, PartialEq, Eq, Structural)]
pub enum Msg {
    UsbipdNotInstalled,
    UsbipdLowVersion,
    UsbipdRemoteDisk,
    CanceledByUser,
    FirewallBlocked,
    NoWslRunning,
    DeviceUsedByWindows,
    AutoAttachDaemonExit,
    ErrMsgAttachFail,
    ErrMsgBindFail,
    ErrMsgUnbindFail,
    ErrMsgDetachFail,
    ErrNoNetCard,
    BindSuccess,
    UnbindSuccess,
    AttachSuccess,
    DetachSuccess,
    Error,
    UsbipdCheckFailed,
    ConnectedToWsl,
    ConnectedToWindows,
    Disconnected,
    ConfigReset,
    Note,
    HistoryLogsCleared,
    WindowTitle,
    Show,
    Exit,
}

/// The text of a message in the chosen language.
pub open spec fn msg_text(m: Msg, zh: bool) -> Seq<char> {
    if zh {
        match m {
            Msg::UsbipdNotInstalled => "未检测到 usbipd-win，请先安装后重启本程序。"@,
            Msg::UsbipdLowVersion => "usbipd-win 版本过低（需要 4.4.0 或更高），请升级后重启本程序。"@,
            Msg::UsbipdRemoteDisk => "usbipd-win 未安装在本地磁盘上，可能无法正常工作。"@,
            Msg::CanceledByUser => "管理员权限请求已被拒绝。"@,
            Msg::FirewallBlocked => "防火墙似乎阻止了连接，请检查防火墙设置。"@,
            Msg::NoWslRunning => "没有正在运行的 WSL 2 发行版，请先启动 WSL。"@,
            Msg::DeviceUsedByWindows => "设备正被 Windows 使用，请关闭占用该设备的程序后重试。"@,
            Msg::AutoAttachDaemonExit => "已附加；自动附加会持续监视该设备。"@,
            Msg::ErrMsgAttachFail => "无法附加设备"@,
            Msg::ErrMsgBindFail => "无法绑定设备"@,
            Msg::ErrMsgUnbindFail => "无法解除绑定"@,
            Msg::ErrMsgDetachFail => "无法分离设备"@,
            Msg::ErrNoNetCard => "找不到指定的网卡"@,
            Msg::BindSuccess => "绑定成功。"@,
            Msg::UnbindSuccess => "解除绑定成功。"@,
            Msg::AttachSuccess => "附加成功。"@,
            Msg::DetachSuccess => "分离成功。"@,
            Msg::Error => "错误"@,
            Msg::UsbipdCheckFailed => "usbipd-win 检查失败"@,
            Msg::ConnectedToWsl => "已连接到 WSL"@,
            Msg::ConnectedToWindows => "已连接到 Windows"@,
            Msg::Disconnected => "已断开"@,
            Msg::ConfigReset => "配置已重置。"@,
            Msg::Note => "提示"@,
            Msg::HistoryLogsCleared => "历史日志已清除。"@,
            Msg::WindowTitle => "USBIP 设备管理器"@,
            Msg::Show => "显示"@,
            Msg::Exit => "退出"@,
        }
    } else {
        match m {
            Msg::UsbipdNotInstalled => "usbipd-win was not found. Please install it and restart this app."@,
            Msg::UsbipdLowVersion => "usbipd-win is too old (4.4.0 or later is required). Please upgrade it and restart this app."@,
            Msg::UsbipdRemoteDisk => "usbipd-win is not installed on a local disk and may not work."@,
            Msg::CanceledByUser => "The administrator prompt was declined."@,
            Msg::FirewallBlocked => "A firewall appears to be blocking the connection."@,
            Msg::NoWslRunning => "There is no WSL 2 distribution running."@,
            Msg::DeviceUsedByWindows => "The device appears to be used by Windows."@,
            Msg::AutoAttachDaemonExit => "Attached; auto attach keeps watching the device."@,
            Msg::ErrMsgAttachFail => "Failed to attach the device"@,
            Msg::ErrMsgBindFail => "Failed to bind the device"@,
            Msg::ErrMsgUnbindFail => "Failed to unbind the device"@,
            Msg::ErrMsgDetachFail => "Failed to detach the device"@,
            Msg::ErrNoNetCard => "the selected network card was not found"@,
            Msg::BindSuccess => "Bound."@,
            Msg::UnbindSuccess => "Unbound."@,
            Msg::AttachSuccess => "Attached."@,
            Msg::DetachSuccess => "Detached."@,
            Msg::Error => "Error"@,
            Msg::UsbipdCheckFailed => "usbipd-win check failed"@,
            Msg::ConnectedToWsl => "connected to WSL"@,
            Msg::ConnectedToWindows => "connected to Windows"@,
            Msg::Disconnected => "disconnected"@,
            Msg::ConfigReset => "Settings were reset."@,
            Msg::Note => "Note"@,
            Msg::HistoryLogsCleared => "History logs were cleared."@,
            Msg::WindowTitle => "USBIP Device Manager"@,
            Msg::Show => "Show"@,
            Msg::Exit => "Exit"@,
        }
    }
}

/// The text of `m` in Chinese when `zh`, in English otherwise.
pub fn t(m: Msg, zh: bool) -> (r: String)
    ensures
        r@ == msg_text(m, zh),
{
    let s: &str = if zh {
        match m {
            Msg::UsbipdNotInstalled => "未检测到 usbipd-win，请先安装后重启本程序。",
            Msg::UsbipdLowVersion => "usbipd-win 版本过低（需要 4.4.0 或更高），请升级后重启本程序。",
            Msg::UsbipdRemoteDisk => "usbipd-win 未安装在本地磁盘上，可能无法正常工作。",
            Msg::CanceledByUser => "管理员权限请求已被拒绝。",
            Msg::FirewallBlocked => "防火墙似乎阻止了连接，请检查防火墙设置。",
            Msg::NoWslRunning => "没有正在运行的 WSL 2 发行版，请先启动 WSL。",
            Msg::DeviceUsedByWindows => "设备正被 Windows 使用，请关闭占用该设备的程序后重试。",
            Msg::AutoAttachDaemonExit => "已附加；自动附加会持续监视该设备。",
            Msg::ErrMsgAttachFail => "无法附加设备",
            Msg::ErrMsgBindFail => "无法绑定设备",
            Msg::ErrMsgUnbindFail => "无法解除绑定",
            Msg::ErrMsgDetachFail => "无法分离设备",
            Msg::ErrNoNetCard => "找不到指定的网卡",
            Msg::BindSuccess => "绑定成功。",
            Msg::UnbindSuccess => "解除绑定成功。",
            Msg::AttachSuccess => "附加成功。",
            Msg::DetachSuccess => "分离成功。",
            Msg::Error => "错误",
            Msg::UsbipdCheckFailed => "usbipd-win 检查失败",
            Msg::ConnectedToWsl => "已连接到 WSL",
            Msg::ConnectedToWindows => "已连接到 Windows",
            Msg::Disconnected => "已断开",
            Msg::ConfigReset => "配置已重置。",
            Msg::Note => "提示",
            Msg::HistoryLogsCleared => "历史日志已清除。",
            Msg::WindowTitle => "USBIP 设备管理器",
            Msg::Show => "显示",
            Msg::Exit => "退出",
        }
    } else {
        match m {
            Msg::UsbipdNotInstalled => "usbipd-win was not found. Please install it and restart this app.",
            Msg::UsbipdLowVersion => "usbipd-win is too old (4.4.0 or later is required). Please upgrade it and restart this app.",
            Msg::UsbipdRemoteDisk => "usbipd-win is not installed on a local disk and may not work.",
            Msg::CanceledByUser => "The administrator prompt was declined.",
            Msg::FirewallBlocked => "A firewall appears to be blocking the connection.",
            Msg::NoWslRunning => "There is no WSL 2 distribution running.",
            Msg::DeviceUsedByWindows => "The device appears to be used by Windows.",
            Msg::AutoAttachDaemonExit => "Attached; auto attach keeps watching the device.",
            Msg::ErrMsgAttachFail => "Failed to attach the device",
            Msg::ErrMsgBindFail => "Failed to bind the device",
            Msg::ErrMsgUnbindFail => "Failed to unbind the device",
            Msg::ErrMsgDetachFail => "Failed to detach the device",
            Msg::ErrNoNetCard => "the selected network card was not found",
            Msg::BindSuccess => "Bound.",
            Msg::UnbindSuccess => "Unbound.",
            Msg::AttachSuccess => "Attached.",
            Msg::DetachSuccess => "Detached.",
            Msg::Error => "Error",
            Msg::UsbipdCheckFailed => "usbipd-win check failed",
            Msg::ConnectedToWsl => "connected to WSL",
            Msg::ConnectedToWindows => "connected to Windows",
            Msg::Disconnected => "disconnected",
            Msg::ConfigReset => "Settings were reset.",
            Msg::Note => "Note",
            Msg::HistoryLogsCleared => "History logs were cleared.",
            Msg::WindowTitle => "USBIP Device Manager",
            Msg::Show => "Show",
            Msg::Exit => "Exit",
        }
    };
    s.to_owned()
}

} // verus!
