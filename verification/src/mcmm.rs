//! The rows of the usage table that the tool prints when it gets no known command.

use vstd::prelude::*;

verus! {

/// One row of the usage table: a command, what it does, and what it takes.
#[derive(Debug)]
pub struct MCMM {
    pub options: &'static str,
    pub functions: &'static str,
    pub parameters: &'static str,
}

/// The usage table as (command, what it does, what it takes).
pub open spec fn usage_rows() -> Seq<(Seq<char>, Seq<char>, Seq<char>)> {
    seq![
        ("init"@, "初始化"@, ""@),
        ("install, i"@, "下载"@, ""@),
        ("add, a"@, "添加"@, "id(来自modrinth.com)"@),
        ("search, s"@, "搜索"@, "关键词"@),
        ("clear, c"@, "清空"@, ""@),
    ]
}

impl MCMM {
    /// The rows of the usage table, in order.
    pub fn new() -> (rows: Vec<MCMM>)
        ensures
            rows@.map_values(|r: MCMM| (r.options@, r.functions@, r.parameters@)) == usage_rows(),
    {
        let mut vec: Vec<MCMM> = Vec::new();
        vec.push(MCMM { options: "init", functions: "初始化", parameters: "" });
        vec.push(MCMM { options: "install, i", functions: "下载", parameters: "" });
        vec.push(MCMM { options: "add, a", functions: "添加", parameters: "id(来自modrinth.com)" });
        vec.push(MCMM { options: "search, s", functions: "搜索", parameters: "关键词" });
        vec.push(MCMM { options: "clear, c", functions: "清空", parameters: "" });
        assert(vec@.map_values(|r: MCMM| (r.options@, r.functions@, r.parameters@)) =~= usage_rows());
        vec
    }
}

} // verus!
