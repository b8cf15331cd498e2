//! The failures that the library reports, with the text the tool shows for each.

use vstd::prelude::*;

verus! {

/// A failure of one of the tool's steps.
#[derive(Debug)]
pub enum ToolError {
    /// `add` was given nothing to add.
    NoAddTarget,
    /// `remove` was given nothing to remove.
    NoRemoveTarget,
    /// `search` was given no keyword.
    NoSearchTerm,
    /// `run` was given no script name.
    NoCommand,
    /// The loader is none of `forge`, `neoforge`, `fabric`.
    UnknownLoader(String),
    /// A download could not be written to its file (the path, when it is UTF-8).
    DownloadFailed(Option<String>),
    /// The launch script holds no `java` line.
    NoScript,
    /// The pattern that finds the `java` line was refused.
    BadPattern,
    /// The given id names no mod that could be found.
    ModNotFound(String),
    /// The project file has no script of this name.
    ScriptMissing(String),
}

/// The text shown for an error.
pub open spec fn error_text(e: ToolError) -> Seq<char> {
    match e {
        ToolError::NoAddTarget => "请输入添加内容"@,
        ToolError::NoRemoveTarget => "请输入删除内容"@,
        ToolError::NoSearchTerm => "请输入搜索内容"@,
        ToolError::NoCommand => "请输入命令"@,
        ToolError::UnknownLoader(l) => "加载器错误: "@ + l@,
        ToolError::DownloadFailed(Some(p)) => "文件下载失败: "@ + p@,
        ToolError::DownloadFailed(None) => "文件下载失败"@,
        ToolError::NoScript => ""@,
        ToolError::BadPattern => "启动脚本匹配规则无效"@,
        ToolError::ModNotFound(id) => "删除mod失败: "@ + id@,
        ToolError::ScriptMissing(k) => "读取命令失败: "@ + k@,
    }
}

fn prefixed(prefix: &str, rest: &str) -> (r: String)
    ensures
        r@ == prefix@ + rest@,
{
    let mut r = prefix.to_owned();
    r.append(rest);
    r
}

impl ToolError {
    /// The text shown for this error.
    pub fn message(&self) -> (r: String)
        ensures
            r@ == error_text(*self),
    {
        match self {
            ToolError::NoAddTarget => "请输入添加内容".to_owned(),
            ToolError::NoRemoveTarget => "请输入删除内容".to_owned(),
            ToolError::NoSearchTerm => "请输入搜索内容".to_owned(),
            ToolError::NoCommand => "请输入命令".to_owned(),
            ToolError::UnknownLoader(l) => prefixed("加载器错误: ", l.as_str()),
            ToolError::DownloadFailed(Some(p)) => prefixed("文件下载失败: ", p.as_str()),
            ToolError::DownloadFailed(None) => "文件下载失败".to_owned(),
            ToolError::NoScript => "".to_owned(),
            ToolError::BadPattern => "启动脚本匹配规则无效".to_owned(),
            ToolError::ModNotFound(id) => prefixed("删除mod失败: ", id.as_str()),
            ToolError::ScriptMissing(k) => prefixed("读取命令失败: ", k.as_str()),
        }
    }
}

} // verus!
