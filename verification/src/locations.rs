//! Where each analyzer looks for its data, given the user's home directory and, on Windows, the
//! application-data directory. Reading those from the environment, and expanding the glob
//! patterns, happen outside.
use vstd::prelude::*;
use crate::types::opt_view;

verus! {

/// `base` joined with `part` by `Path::join`.
pub uninterp spec fn joined(base: Seq<char>, part: Seq<char>) -> Seq<char>;

/// `Path::join`, read back as text; the result is named by [`joined`].
#[verifier::external_body]
fn path_join(base: &str, part: &str) -> (r: String)
    ensures
        r@ == joined(base@, part@),
{
    std::path::Path::new(base).join(part).to_string_lossy().into_owned()
}

/// `base` joined with each of `parts` in turn.
pub open spec fn joined_all(base: Seq<char>, parts: Seq<Seq<char>>) -> Seq<char>
    decreases parts.len(),
{
    if parts.len() == 0 {
        base
    } else {
        joined(joined_all(base, parts.drop_last()), parts.last())
    }
}

fn join_all(base: &str, parts: &[&str]) -> (r: String)
    ensures
        r@ == joined_all(base@, parts@.map_values(|p: &str| p@)),
{
    let mut acc = String::from_str(base);
    let mut i: usize = 0;
    while i < parts.len()
        invariant
            i <= parts@.len(),
            acc@ == joined_all(base@, parts@.map_values(|p: &str| p@).take(i as int)),
        decreases parts@.len() - i,
    {
        let ghost pv = parts@.map_values(|p: &str| p@);
        assert(pv.take(i as int + 1).drop_last() =~= pv.take(i as int));
        assert(pv.take(i as int + 1).last() == parts@[i as int]@);
        acc = path_join(acc.as_str(), parts[i]);
        i = i + 1;
    }
    assert(parts@.map_values(|p: &str| p@).take(parts@.len() as int) =~= parts@.map_values(|p: &str| p@));
    acc
}

fn under(home: &str, tail: &str) -> (r: String)
    ensures
        r@ == home@ + tail@,
{
    String::from_str(home).concat(tail)
}

/// Factory Droid's session logs.
pub fn droid_glob_patterns(home: Option<&str>) -> (r: Vec<String>)
    ensures
        r@.map_values(|s: String| s@) == match home {
            Some(h) => seq![h@ + "/.factory/sessions/*/*.jsonl"@],
            None => Seq::empty(),
        },
{
    let mut out: Vec<String> = Vec::new();
    if let Some(h) = home {
        out.push(under(h, "/.factory/sessions/*/*.jsonl"));
    }
    assert(out@.map_values(|s: String| s@) =~= match home {
        Some(h) => seq![h@ + "/.factory/sessions/*/*.jsonl"@],
        None => Seq::empty(),
    });
    out
}

/// OpenCode's message files and session files.
pub fn opencode_glob_patterns(home: Option<&str>) -> (r: Vec<String>)
    ensures
        r@.map_values(|s: String| s@) == match home {
            Some(h) => seq![
                h@ + "/.local/share/opencode/storage/message/*/msg_*.json"@,
                h@ + "/.local/share/opencode/storage/session/*/ses_*.json"@,
            ],
            None => Seq::empty(),
        },
{
    let mut out: Vec<String> = Vec::new();
    if let Some(h) = home {
        out.push(under(h, "/.local/share/opencode/storage/message/*/msg_*.json"));
        out.push(under(h, "/.local/share/opencode/storage/session/*/ses_*.json"));
    }
    assert(out@.map_values(|s: String| s@) =~= match home {
        Some(h) => seq![
            h@ + "/.local/share/opencode/storage/message/*/msg_*.json"@,
            h@ + "/.local/share/opencode/storage/session/*/ses_*.json"@,
        ],
        None => Seq::empty(),
    });
    out
}

/// Qwen Code's chat files and usage-statistics logs.
pub fn qwen_glob_patterns(home: Option<&str>) -> (r: Vec<String>)
    ensures
        r@.map_values(|s: String| s@) == match home {
            Some(h) => seq![h@ + "/.qwen/tmp/*/chats/*.json"@, h@ + "/.qwen/auto_stats/*.jsonl"@],
            None => Seq::empty(),
        },
{
    let mut out: Vec<String> = Vec::new();
    if let Some(h) = home {
        out.push(under(h, "/.qwen/tmp/*/chats/*.json"));
        out.push(under(h, "/.qwen/auto_stats/*.jsonl"));
    }
    assert(out@.map_values(|s: String| s@) =~= match home {
        Some(h) => seq![h@ + "/.qwen/tmp/*/chats/*.json"@, h@ + "/.qwen/auto_stats/*.jsonl"@],
        None => Seq::empty(),
    });
    out
}

/// Codex CLI's prompt history, and the session logs of today's and yesterday's directories;
/// `today` and `yesterday` are those days as `YYYY/MM/DD` on the local clock.
pub fn codex_glob_patterns(home: Option<&str>, today: &str, yesterday: &str) -> (r: Vec<String>)
    ensures
        r@.map_values(|s: String| s@) == match home {
            Some(h) => seq![
                h@ + "/.codex/history.jsonl"@,
                h@ + "/.codex/sessions/"@ + today@ + "/*.jsonl"@,
                h@ + "/.codex/sessions/"@ + yesterday@ + "/*.jsonl"@,
            ],
            None => Seq::empty(),
        },
{
    let mut out: Vec<String> = Vec::new();
    if let Some(h) = home {
        out.push(under(h, "/.codex/history.jsonl"));
        out.push(under(h, "/.codex/sessions/").concat(today).concat("/*.jsonl"));
        out.push(under(h, "/.codex/sessions/").concat(yesterday).concat("/*.jsonl"));
    }
    assert(out@.map_values(|s: String| s@) =~= match home {
        Some(h) => seq![
            h@ + "/.codex/history.jsonl"@,
            h@ + "/.codex/sessions/"@ + today@ + "/*.jsonl"@,
            h@ + "/.codex/sessions/"@ + yesterday@ + "/*.jsonl"@,
        ],
        None => Seq::empty(),
    });
    out
}

/// The editors Kilo Code can be installed in, and their command-line server variants.
pub open spec fn gui_forks() -> Seq<Seq<char>> {
    seq!["Code"@, "Cursor"@, "Windsurf"@, "VSCodium"@, "Positron"@, "Code - Insiders"@]
}

pub open spec fn cli_forks() -> Seq<Seq<char>> {
    seq!["vscode-server-insiders"@, "vscode-server"@]
}

/// The task files of Kilo Code: its own command line's, then, per editor, those on Linux, of the
/// server variants, on macOS, and on Windows under `appdata`.
pub open spec fn kilo_patterns_of(home: Option<Seq<char>>, appdata: Option<Seq<char>>) -> Seq<Seq<char>> {
    let tail = "/User/globalStorage/kilocode.kilo-code/tasks/*/ui_messages.json"@;
    (match home {
        Some(h) => seq![h + "/.kilocode/cli/global/tasks/*/ui_messages.json"@]
            + gui_forks().map_values(|f: Seq<char>| h + "/.config/"@ + f + tail)
            + cli_forks().map_values(|f: Seq<char>| h + "/."@ + f + "/data"@ + tail)
            + gui_forks().map_values(|f: Seq<char>| h + "/Library/Application Support/"@ + f + tail),
        None => Seq::empty(),
    }) + match appdata {
        Some(a) => gui_forks().map_values(
            |f: Seq<char>| a + "\\"@ + f + "\\User\\globalStorage\\kilocode.kilo-code\\tasks\\*\\ui_messages.json"@,
        ),
        None => Seq::empty(),
    }
}

fn push_for_each(out: &mut Vec<String>, forks: &[&str], head: &str, middle: &str, tail: &str)
    ensures
        final(out)@.map_values(|s: String| s@) == old(out)@.map_values(|s: String| s@) + forks@.map_values(
            |f: &str| head@ + middle@ + f@ + tail@,
        ),
{
    let ghost start = out@.map_values(|s: String| s@);
    let mut i: usize = 0;
    while i < forks.len()
        invariant
            i <= forks@.len(),
            out@.map_values(|s: String| s@) == start + forks@.take(i as int).map_values(|f: &str| head@ + middle@ + f@ + tail@),
        decreases forks@.len() - i,
    {
        let ghost before = out@.map_values(|s: String| s@);
        let ghost done = forks@.take(i as int).map_values(|f: &str| head@ + middle@ + f@ + tail@);
        let s = String::from_str(head).concat(middle).concat(forks[i]).concat(tail);
        out.push(s);
        assert(forks@.take(i as int + 1).map_values(|f: &str| head@ + middle@ + f@ + tail@) =~= done.push(
            head@ + middle@ + forks@[i as int]@ + tail@,
        ));
        assert(out@.map_values(|s: String| s@) =~= before.push(s@));
        i = i + 1;
    }
    assert(forks@.take(forks@.len() as int) =~= forks@);
}

/// Kilo Code's task files (see [`kilo_patterns_of`]).
pub fn kilo_code_glob_patterns(home: Option<&str>, appdata: Option<&str>) -> (r: Vec<String>)
    ensures
        r@.map_values(|s: String| s@) == kilo_patterns_of(crate::types::opt_str_view(home), crate::types::opt_str_view(appdata)),
{
    let gui: [&str; 6] = ["Code", "Cursor", "Windsurf", "VSCodium", "Positron", "Code - Insiders"];
    let cli: [&str; 2] = ["vscode-server-insiders", "vscode-server"];
    let mut out: Vec<String> = Vec::new();
    let tail = "/User/globalStorage/kilocode.kilo-code/tasks/*/ui_messages.json";
    let win_tail = "\\User\\globalStorage\\kilocode.kilo-code\\tasks\\*\\ui_messages.json";
    proof {
        assert(gui@.map_values(|f: &str| f@) =~= gui_forks());
        assert(cli@.map_values(|f: &str| f@) =~= cli_forks());
    }
    let ghost gv = gui@.map_values(|f: &str| f@);
    let ghost cv = cli@.map_values(|f: &str| f@);
    if let Some(h) = home {
        out.push(under(h, "/.kilocode/cli/global/tasks/*/ui_messages.json"));
        let ghost p0 = out@.map_values(|s: String| s@);
        assert(p0 =~= seq![h@ + "/.kilocode/cli/global/tasks/*/ui_messages.json"@]);
        push_for_each(&mut out, gui.as_slice(), h, "/.config/", tail);
        assert(gui@.map_values(|f: &str| h@ + "/.config/"@ + f@ + tail@) =~= gui_forks().map_values(
            |f: Seq<char>| h@ + "/.config/"@ + f + tail@,
        ));
        let cli_tail = String::from_str("/data").concat(tail);
        push_for_each(&mut out, cli.as_slice(), h, "/.", cli_tail.as_str());
        assert(h@ + "/."@ + cli@[0]@ + ("/data"@ + tail@) =~= h@ + "/."@ + cli_forks()[0] + "/data"@ + tail@);
        assert(h@ + "/."@ + cli@[1]@ + ("/data"@ + tail@) =~= h@ + "/."@ + cli_forks()[1] + "/data"@ + tail@);
        assert(cli@.map_values(|f: &str| h@ + "/."@ + f@ + cli_tail@) =~= cli_forks().map_values(
            |f: Seq<char>| h@ + "/."@ + f + "/data"@ + tail@,
        ));
        push_for_each(&mut out, gui.as_slice(), h, "/Library/Application Support/", tail);
        assert(gui@.map_values(|f: &str| h@ + "/Library/Application Support/"@ + f@ + tail@) =~= gui_forks().map_values(
            |f: Seq<char>| h@ + "/Library/Application Support/"@ + f + tail@,
        ));
    }
    let ghost before_win = out@.map_values(|s: String| s@);
    if let Some(a) = appdata {
        push_for_each(&mut out, gui.as_slice(), a, "\\", win_tail);
        assert(gui@.map_values(|f: &str| a@ + "\\"@ + f@ + win_tail@) =~= gui_forks().map_values(
            |f: Seq<char>| a@ + "\\"@ + f + "\\User\\globalStorage\\kilocode.kilo-code\\tasks\\*\\ui_messages.json"@,
        ));
    }
    assert(out@.map_values(|s: String| s@) =~= kilo_patterns_of(crate::types::opt_str_view(home), crate::types::opt_str_view(appdata)));
    out
}

/// The SQLite database of a tool in the Amazon Q family (`dir` is `amazon-q` or `kiro-cli`):
/// under the home directory on macOS and Linux, and under `appdata` on Windows.
pub open spec fn database_candidates_of(dir: Seq<char>, home: Option<Seq<char>>, appdata: Option<Seq<char>>) -> Seq<Seq<char>> {
    (match home {
        Some(h) => seq![
            joined_all(h, seq!["Library"@, "Application Support"@, dir, "data.sqlite3"@]),
            joined_all(h, seq![".config"@, dir, "data.sqlite3"@]),
            joined_all(h, seq![".local"@, "share"@, dir, "data.sqlite3"@]),
        ],
        None => Seq::empty(),
    }) + match appdata {
        Some(a) => seq![joined_all(a, seq![dir, "data.sqlite3"@])],
        None => Seq::empty(),
    }
}

/// The places the database of a tool of the Amazon Q family may be (see
/// [`database_candidates_of`]).
pub fn database_candidates(dir: &str, home: Option<&str>, appdata: Option<&str>) -> (r: Vec<String>)
    ensures
        r@.map_values(|s: String| s@) == database_candidates_of(dir@, crate::types::opt_str_view(home), crate::types::opt_str_view(appdata)),
{
    let mut out: Vec<String> = Vec::new();
    if let Some(h) = home {
        let mac: [&str; 4] = ["Library", "Application Support", dir, "data.sqlite3"];
        let cfg: [&str; 3] = [".config", dir, "data.sqlite3"];
        let share: [&str; 4] = [".local", "share", dir, "data.sqlite3"];
        out.push(join_all(h, mac.as_slice()));
        out.push(join_all(h, cfg.as_slice()));
        out.push(join_all(h, share.as_slice()));
        proof {
            assert(mac@.map_values(|p: &str| p@) =~= seq!["Library"@, "Application Support"@, dir@, "data.sqlite3"@]);
            assert(cfg@.map_values(|p: &str| p@) =~= seq![".config"@, dir@, "data.sqlite3"@]);
            assert(share@.map_values(|p: &str| p@) =~= seq![".local"@, "share"@, dir@, "data.sqlite3"@]);
        }
    }
    if let Some(a) = appdata {
        let win: [&str; 2] = [dir, "data.sqlite3"];
        out.push(join_all(a, win.as_slice()));
        proof {
            assert(win@.map_values(|p: &str| p@) =~= seq![dir@, "data.sqlite3"@]);
        }
    }
    assert(out@.map_values(|s: String| s@) =~= database_candidates_of(dir@, crate::types::opt_str_view(home), crate::types::opt_str_view(appdata)));
    out
}

/// The places Warp's network log may be, under the home directory; the ones that exist are
/// read.
pub open spec fn warp_log_candidates_of(home: Seq<char>) -> Seq<Seq<char>> {
    seq![
        joined(home, "Library/Application Support/Warp/warp_network.log"@),
        joined(home, "Library/Application Support/dev.warp.Warp-Stable/warp_network.log"@),
        joined(home, "Library/Application Support/WarpTerminal/warp_network.log"@),
    ]
}

/// The places Warp's network log may be (see [`warp_log_candidates_of`]).
pub fn warp_log_candidates(home: &str) -> (r: Vec<String>)
    ensures
        r@.map_values(|s: String| s@) == warp_log_candidates_of(home@),
{
    let mut out: Vec<String> = Vec::new();
    out.push(path_join(home, "Library/Application Support/Warp/warp_network.log"));
    out.push(path_join(home, "Library/Application Support/dev.warp.Warp-Stable/warp_network.log"));
    out.push(path_join(home, "Library/Application Support/WarpTerminal/warp_network.log"));
    assert(out@.map_values(|s: String| s@) =~= warp_log_candidates_of(home@));
    out
}

} // verus!
