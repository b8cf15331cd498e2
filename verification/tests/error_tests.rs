use mcmm::error::ToolError;
use mcmm::request::error;

#[test]
fn messages() {
    assert_eq!(ToolError::NoAddTarget.message(), "请输入添加内容");
    assert_eq!(ToolError::NoRemoveTarget.message(), "请输入删除内容");
    assert_eq!(ToolError::NoSearchTerm.message(), "请输入搜索内容");
    assert_eq!(ToolError::NoCommand.message(), "请输入命令");
    assert_eq!(ToolError::UnknownLoader("quilt".to_string()).message(), "加载器错误: quilt");
    assert_eq!(ToolError::DownloadFailed(None).message(), "文件下载失败");
    assert_eq!(ToolError::NoScript.message(), "");
    assert_eq!(ToolError::BadPattern.message(), "启动脚本匹配规则无效");
    assert_eq!(ToolError::ModNotFound("x".to_string()).message(), "删除mod失败: x");
    assert_eq!(ToolError::ScriptMissing("stop".to_string()).message(), "读取命令失败: stop");
}

#[test]
fn download_error_names_path() {
    assert_eq!(error(Some("mods/a.jar")).message(), "文件下载失败: mods/a.jar");
    assert!(matches!(error(None), ToolError::DownloadFailed(None)));
}
