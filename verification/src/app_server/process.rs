//! Starting `codex app-server`: its search path, and what is reported where it fails.
use vstd::prelude::*;

use crate::text;
use crate::workdir;
use crate::workdir::{HostPath, PathModel};

verus! {

/// The search path of the app-server: the usual places of `codex`, then the current path.
pub open spec fn extended_path(current: Seq<char>, home: Option<PathModel>) -> Seq<char> {
    let usual = "/opt/homebrew/bin:/usr/local/bin"@;
    match home {
        Some(home) => usual + ":"@ + workdir::path_join(home.text, ".local/bin"@) + ":"@ + current,
        None => usual + ":"@ + current,
    }
}

/// The search path of the app-server, for the given home directory.
pub fn search_path_for(current: &str, home: Option<HostPath>) -> (res: String)
    ensures
        res@ == extended_path(current@, workdir::opt_path(home)),
{
    let usual = "/opt/homebrew/bin:/usr/local/bin";
    match home {
        Some(home) => {
            let local = workdir::joined_path(home.text.as_str(), ".local/bin");
            let head = text::cat3(usual, ":", local.as_str());
            text::cat3(head.as_str(), ":", current)
        },
        None => text::cat3(usual, ":", current),
    }
}

/// The search path of the app-server.
pub fn search_path(current: &str) -> (res: String)
    ensures
        exists|home: Option<PathModel>| res@ == #[trigger] extended_path(current@, home),
{
    search_path_for(current, workdir::home_dir())
}

/// What is reported where the app-server cannot be started.
pub open spec fn spawn_error(codex_path: Seq<char>, not_found: bool, error: Seq<char>) -> Seq<
    char,
> {
    if not_found {
        "未找到 codex 命令（"@ + codex_path
            + "）。请在「设置」中配置 Codex 路径，或确保 codex 已安装且可被访问。"@
    } else {
        "启动 codex app-server 失败："@ + error
    }
}

/// What is reported where the app-server cannot be started.
pub fn spawn_error_text(codex_path: &str, not_found: bool, error: &str) -> (res: String)
    ensures
        res@ == spawn_error(codex_path@, not_found, error@),
{
    if not_found {
        text::cat3(
            "未找到 codex 命令（",
            codex_path,
            "）。请在「设置」中配置 Codex 路径，或确保 codex 已安装且可被访问。",
        )
    } else {
        text::cat("启动 codex app-server 失败：", error)
    }
}

/// The current search path keeps its place at the end, so that nothing on it is lost.
pub proof fn law_current_path_is_kept(current: Seq<char>, home: Option<PathModel>)
    ensures
        text::has_suffix(extended_path(current, home), current),
{
    let whole = extended_path(current, home);
    assert(whole.skip(whole.len() - current.len()) =~= current);
}

/// The usual places of `codex` come first on the search path, that in the home directory after
/// those for everyone, and the current path last.
pub proof fn law_usual_places_come_first(current: &str, home: Option<HostPath>, res: String)
    requires
        call_ensures(search_path_for, (current, home), res),
    ensures
        home is None ==> res@ == "/opt/homebrew/bin:/usr/local/bin:"@ + current@,
        home matches Some(home) ==> home@.text.len() > 0 && home@.text.last() != '/' ==> res@
            == "/opt/homebrew/bin:/usr/local/bin:"@ + home@.text + "/.local/bin:"@ + current@,
{
    reveal_strlit("/opt/homebrew/bin:/usr/local/bin");
    reveal_strlit(":");
    reveal_strlit("/opt/homebrew/bin:/usr/local/bin:");
    reveal_strlit(".local/bin");
    reveal_strlit("/.local/bin:");
    assert("/opt/homebrew/bin:/usr/local/bin"@ + ":"@ =~= "/opt/homebrew/bin:/usr/local/bin:"@);
    if let Some(home) = home {
        if home@.text.len() > 0 && home@.text.last() != '/' {
            assert(res@ =~= "/opt/homebrew/bin:/usr/local/bin:"@ + home@.text + "/.local/bin:"@
                + current@);
        }
    }
}

/// A command that is not found is told by the path it was looked for at, any other failure by its
/// error.
pub proof fn law_missing_command_is_named(
    codex_path: &str,
    not_found: bool,
    error: &str,
    res: String,
)
    requires
        call_ensures(spawn_error_text, (codex_path, not_found, error), res),
    ensures
        not_found ==> res@ == "未找到 codex 命令（"@ + codex_path@
            + "）。请在「设置」中配置 Codex 路径，或确保 codex 已安装且可被访问。"@,
        !not_found ==> res@ == "启动 codex app-server 失败："@ + error@,
{
}

/// Whatever the home directory is, the usual places come first on the search path and the current
/// path last.
pub proof fn law_search_path_wherever_home_is(current: &str, res: String)
    requires
        call_ensures(search_path, (current,), res),
    ensures
        text::has_prefix(res@, "/opt/homebrew/bin:/usr/local/bin:"@),
        text::has_suffix(res@, current@),
{
    let home = choose|home: Option<PathModel>| res@ == #[trigger] extended_path(current@, home);
    law_current_path_is_kept(current@, home);
    reveal_strlit("/opt/homebrew/bin:/usr/local/bin");
    reveal_strlit(":");
    reveal_strlit("/opt/homebrew/bin:/usr/local/bin:");
    let front = "/opt/homebrew/bin:/usr/local/bin:"@;
    assert("/opt/homebrew/bin:/usr/local/bin"@ + ":"@ =~= front);
    assert(res@.take(front.len() as int) =~= front);
}

} // verus!
