//! The texts that users see, in each language.

use vstd::prelude::*;

verus! {

/// The texts in English.
pub const ENGLISH: &'static str = "about-description = A small UPnP/DLNA media renderer that lives in the system tray.
about-license = License
about-repository = Repository
about-subtitle = UPnP/DLNA media renderer
about-title = About
about-version = Version
cast-running = Running
cast-stopped = Stopped
error-cross-origin = cross-origin requests are not allowed
error-language-invalid = the language is not supported
error-mpv-path-empty = the mpv path must not be empty
error-name-control = the device name must not contain control characters
error-name-length = the device name must have between 1 and 128 bytes
error-not-found = Not found
error-only-mpv = only the mpv backend is supported
error-player-path-empty = the player path must not be empty
error-save-failed = Saving failed
error-unsupported-backend = the player backend is not supported
guide-config-heading = Configuration
guide-config-text = Choose the player and the name under which the renderer is found.
guide-intro = How to play media from your phone or computer here.
guide-player-heading = Player
guide-player-text = Install mpv or VLC and make sure that its program can be found.
guide-title = Guide
guide-usage-heading = Usage
guide-usage-text = Pick this renderer in your control point and start playback.
settings-device-name = Device name
settings-hint = Changes to the player take effect at the next start of casting.
settings-history-copied = Copied
settings-history-copy-link = Copy link
settings-history-empty = Nothing was played yet
settings-history-empty-sub = Media that you play appears here.
settings-history-index = No.
settings-history-open-in-browser = Open in browser
settings-history-subtitle = What was played last
settings-history-time = Time
settings-history-title = Title
settings-language = Language
settings-language-system = System language
settings-max-history = Entries of history
settings-mpv-path = mpv path
settings-player-backend = Player
settings-save = Save
settings-saved = Settings saved
settings-section-history = History
settings-section-settings = Settings
settings-status = Cast status
settings-subtitle = Settings of the media renderer
settings-title = mini-mdr settings
settings-vlc-path = VLC path
status-upnp = UPnP address
tab-about = About
tab-guide = Guide
tab-history = History
tab-settings = Settings
tray-cast = Cast
tray-more = More
tray-open-log-dir = Open Directory
tray-open-settings = Open Settings
tray-quit = Quit
";

/// The texts in Chinese.
pub const CHINESE: &'static str = "about-description = 一个驻留在系统托盘的小型 UPnP/DLNA 媒体渲染器。
about-license = 许可证
about-repository = 代码仓库
about-subtitle = UPnP/DLNA 媒体渲染器
about-title = 关于
about-version = 版本
cast-running = 运行中
cast-stopped = 已停止
error-cross-origin = 不允许跨域请求
error-language-invalid = 不支持该语言
error-mpv-path-empty = mpv 路径不能为空
error-name-control = 设备名称不能包含控制字符
error-name-length = 设备名称长度必须为 1 到 128 字节
error-not-found = 未找到
error-only-mpv = 仅支持 mpv 播放器
error-player-path-empty = 播放器路径不能为空
error-save-failed = 保存失败
error-unsupported-backend = 不支持该播放器
guide-config-heading = 配置
guide-config-text = 选择播放器以及渲染器显示的名称。
guide-intro = 如何从手机或电脑在此播放媒体。
guide-player-heading = 播放器
guide-player-text = 请安装 mpv 或 VLC，并确保能找到其程序。
guide-title = 指南
guide-usage-heading = 使用
guide-usage-text = 在控制端选择此渲染器并开始播放。
settings-device-name = 设备名称
settings-hint = 播放器的更改将在下次开始投屏时生效。
settings-history-copied = 已复制
settings-history-copy-link = 复制链接
settings-history-empty = 尚未播放任何内容
settings-history-empty-sub = 播放过的媒体会显示在这里。
settings-history-index = 序号
settings-history-open-in-browser = 在浏览器中打开
settings-history-subtitle = 最近播放的内容
settings-history-time = 时间
settings-history-title = 标题
settings-language = 语言
settings-language-system = 系统语言
settings-max-history = 历史条目数
settings-mpv-path = mpv 路径
settings-player-backend = 播放器
settings-save = 保存
settings-saved = 设置已保存
settings-section-history = 历史
settings-section-settings = 设置
settings-status = 投屏状态
settings-subtitle = 媒体渲染器的设置
settings-title = mini-mdr 设置
settings-vlc-path = VLC 路径
status-upnp = UPnP 地址
tab-about = 关于
tab-guide = 指南
tab-history = 历史
tab-settings = 设置
tray-cast = 投屏
tray-more = 更多
tray-open-log-dir = 打开目录
tray-open-settings = 打开设置
tray-quit = 退出
";

} // verus!
