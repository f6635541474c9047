//! The workspace labeler: derive each workspace's canonical label from its
//! first leaf through the injected icon mapping, and decide the rename
//! commands of one labeling pass.
use vstd::prelude::*;
use vstd::string::StrSliceExecFns;

use crate::command::{AbsCommand, Command};
use crate::text::{dec_int, i64_to_string, leading_number, parse_leading_number};
use crate::tree::{
    collect_leaves, collect_workspaces, deref_seq, spec_leaves, spec_window_class,
    spec_workspaces, str_eq, window_class, Node,
};
use vstd::string::StringExecFns;

verus! {

/// The icon mapping injected into the labeler: program identifiers paired
/// with their display markup, looked up front to back.
pub struct IconMap {
    pub pairs: Vec<(String, String)>,
}

impl View for IconMap {
    type V = Seq<(Seq<char>, Seq<char>)>;

    open spec fn view(&self) -> Seq<(Seq<char>, Seq<char>)> {
        Seq::new(self.pairs@.len(), |i: int| (self.pairs@[i].0@, self.pairs@[i].1@))
    }
}

/// The value of the first pair of `m` whose key is `k`.
pub open spec fn spec_lookup(m: Seq<(Seq<char>, Seq<char>)>, k: Seq<char>) -> Option<Seq<char>>
    decreases m.len(),
{
    if m.len() == 0 {
        None
    } else if m[0].0 == k {
        Some(m[0].1)
    } else {
        spec_lookup(m.drop_first(), k)
    }
}

impl IconMap {
    /// Look a program identifier up in the mapping.
    pub fn get<'a>(&'a self, key: &String) -> (r: Option<&'a String>)
        ensures
            match r {
                Some(v) => spec_lookup(self@, key@) == Some(v@),
                None => spec_lookup(self@, key@) is None,
            },
    {
        let mut i: usize = 0;
        proof {
            assert(self@.skip(0) =~= self@);
        }
        while i < self.pairs.len()
            invariant
                i <= self@.len(),
                self@.len() == self.pairs@.len(),
                spec_lookup(self@.skip(i as int), key@) == spec_lookup(self@, key@),
            decreases self@.len() - i,
        {
            proof {
                assert(self@.skip(i as int)[0] == self@[i as int]);
                assert(self@.skip(i as int).drop_first() =~= self@.skip(i + 1));
            }
            let p = &self.pairs[i];
            if p.0 == *key {
                return Some(&p.1);
            }
            i += 1;
        }
        None
    }
}

/// Append one identifier/markup pair to the mapping.
fn add_icon(m: &mut IconMap, k: &str, v: &str)
    ensures
        final(m)@ == old(m)@.push((k@, v@)),
{
    m.pairs.push((k.to_owned(), v.to_owned()));
    proof {
        assert(m@ =~= old(m)@.push((k@, v@)));
    }
}

/// The full icon mapping: every program identifier the labeler knows,
/// paired with its display markup for the bar.
pub open spec fn icon_entries() -> Seq<(Seq<char>, Seq<char>)> {
    seq![
        ("firefox"@, "<span size='x-large'>\u{E658} </span>"@),
        ("google-chrome"@, "<span size='x-large'>\u{F268} </span>"@),
        ("alacritty"@, "<span size='x-large'>\u{EBCA} </span>"@),
        ("kitty"@, "<span size='x-large'>\u{EBCA} </span>"@),
        ("st"@, "<span size='x-large'>\u{EBCA} </span>"@),
        ("code"@, "<span size='x-large'>\u{F0A1E} </span>"@),
        ("code-oss"@, "<span size='x-large'>\u{F0A1E} </span>"@),
        ("antigravity"@, "<span size='x-large'>\u{E887} </span>"@),
        ("nvim"@, "<span size='x-large'>\u{F36F} </span>"@),
        ("vim"@, "<span size='x-large'>\u{E7C5} </span>"@),
        ("neovide"@, "<span size='x-large'>\u{F36F} </span>"@),
        ("emacs"@, "<span size='x-large'>\u{E632} </span>"@),
        ("jetbrains-idea"@, "<span size='x-large'>\u{E7B5} </span>"@),
        ("jetbrains-clion"@, "<span size='x-large'>\u{E61D} </span>"@),
        ("jetbrains-pycharm"@, "<span size='x-large'>\u{E73C} </span>"@),
        ("jetbrains-webstorm"@, "<span size='x-large'>\u{F06E6} </span>"@),
        ("jetbrains-rider"@, "<span size='x-large'>\u{F01A7} </span>"@),
        ("jetbrains-goland"@, "<span size='x-large'>\u{E627} </span>"@),
        ("jetbrains-datagrip"@, "<span size='x-large'>\u{F1C0} </span>"@),
        ("jetbrains-rubymine"@, "<span size='x-large'>\u{E739} </span>"@),
        ("jetbrains-phpstorm"@, "<span size='x-large'>\u{E608} </span>"@),
        ("postman"@, "<span size='x-large'>\u{F06EE} </span>"@),
        ("docker"@, "<span size='x-large'>\u{F21F} </span>"@),
        ("virt-manager"@, "<span size='x-large'>\u{F0894} </span>"@),
        ("gnome-boxes"@, "<span size='x-large'>\u{F0894} </span>"@),
        ("virtualbox"@, "<span size='x-large'>\u{F0894} </span>"@),
        ("telegramdesktop"@, "<span size='x-large'>\u{F2C6} </span>"@),
        ("telegram"@, "<span size='x-large'>\u{F2C6} </span>"@),
        ("evolution"@, "<span size='x-large'>\u{F01F0} </span>"@),
        ("pavucontrol"@, "<span size='x-large'>\u{F057E} </span>"@),
        ("vlc"@, "<span size='x-large'>\u{F057C} </span>"@),
        ("mpv"@, "<span size='x-large'>\u{F36E} </span>"@),
        ("obs"@, "<span size='x-large'>\u{F044B} </span>"@),
        ("obs-studio"@, "<span size='x-large'>\u{F044B} </span>"@),
        ("gimp"@, "<span size='x-large'>\u{F338} </span>"@),
        ("inkscape"@, "<span size='x-large'>\u{F33B} </span>"@),
        ("steam"@, "<span size='x-large'>\u{F1B6} </span>"@),
        ("thunar"@, "<span size='x-large'>\u{F07B} </span>"@),
        ("yazi"@, "<span size='x-large'>\u{F07B} </span>"@),
        ("htop"@, "<span size='x-large'>\u{F04C5} </span>"@),
        ("btop"@, "<span size='x-large'>\u{F04C5} </span>"@),
        ("gparted"@, "<span size='x-large'>\u{F02CA} </span>"@),
        ("clock"@, "<span size='x-large'>\u{F017} </span>"@),
        ("peaclock"@, "<span size='x-large'>\u{F017} </span>"@),
        ("calc"@, "<span size='x-large'>\u{F1EC} </span>"@),
        ("calculator"@, "<span size='x-large'>\u{F1EC} </span>"@),
        ("galculator"@, "<span size='x-large'>\u{F1EC} </span>"@),
        ("zathura"@, "<span size='x-large'>\u{F1C1} </span>"@),
        ("scratchpad"@, "<span size='large'>\u{F0633} </span>"@),
        ("main-tmux"@, "<span size='x-large'>\u{EBC8} </span>"@),
        ("gemini"@, "<span size='x-large'>\u{F06A9} </span>"@),
        ("gemini-sc"@, "<span size='x-large'>\u{F06A9} </span>"@),
        ("task"@, "<span size='x-large'>\u{F0AE} </span>"@),
        ("tasks"@, "<span size='x-large'>\u{F0AE} </span>"@),
        ("todo"@, "<span size='x-large'>\u{F0AE} </span>"@),
    ]
}

/// Build the icon mapping the labeler is handed at startup.
#[verifier::rlimit(100)]
pub fn build_icon_map() -> (m: IconMap)
    ensures
        m@ == icon_entries(),
{
    let mut m = IconMap { pairs: Vec::new() };
    proof {
        assert(m@ =~= Seq::<(Seq<char>, Seq<char>)>::empty());
    }
    add_icon(&mut m, "firefox", "<span size='x-large'>\u{E658} </span>");
    add_icon(&mut m, "google-chrome", "<span size='x-large'>\u{F268} </span>");
    add_icon(&mut m, "alacritty", "<span size='x-large'>\u{EBCA} </span>");
    add_icon(&mut m, "kitty", "<span size='x-large'>\u{EBCA} </span>");
    add_icon(&mut m, "st", "<span size='x-large'>\u{EBCA} </span>");
    add_icon(&mut m, "code", "<span size='x-large'>\u{F0A1E} </span>");
    add_icon(&mut m, "code-oss", "<span size='x-large'>\u{F0A1E} </span>");
    add_icon(&mut m, "antigravity", "<span size='x-large'>\u{E887} </span>");
    add_icon(&mut m, "nvim", "<span size='x-large'>\u{F36F} </span>");
    add_icon(&mut m, "vim", "<span size='x-large'>\u{E7C5} </span>");
    add_icon(&mut m, "neovide", "<span size='x-large'>\u{F36F} </span>");
    add_icon(&mut m, "emacs", "<span size='x-large'>\u{E632} </span>");
    add_icon(&mut m, "jetbrains-idea", "<span size='x-large'>\u{E7B5} </span>");
    add_icon(&mut m, "jetbrains-clion", "<span size='x-large'>\u{E61D} </span>");
    add_icon(&mut m, "jetbrains-pycharm", "<span size='x-large'>\u{E73C} </span>");
    add_icon(&mut m, "jetbrains-webstorm", "<span size='x-large'>\u{F06E6} </span>");
    add_icon(&mut m, "jetbrains-rider", "<span size='x-large'>\u{F01A7} </span>");
    add_icon(&mut m, "jetbrains-goland", "<span size='x-large'>\u{E627} </span>");
    add_icon(&mut m, "jetbrains-datagrip", "<span size='x-large'>\u{F1C0} </span>");
    add_icon(&mut m, "jetbrains-rubymine", "<span size='x-large'>\u{E739} </span>");
    add_icon(&mut m, "jetbrains-phpstorm", "<span size='x-large'>\u{E608} </span>");
    add_icon(&mut m, "postman", "<span size='x-large'>\u{F06EE} </span>");
    add_icon(&mut m, "docker", "<span size='x-large'>\u{F21F} </span>");
    add_icon(&mut m, "virt-manager", "<span size='x-large'>\u{F0894} </span>");
    add_icon(&mut m, "gnome-boxes", "<span size='x-large'>\u{F0894} </span>");
    add_icon(&mut m, "virtualbox", "<span size='x-large'>\u{F0894} </span>");
    add_icon(&mut m, "telegramdesktop", "<span size='x-large'>\u{F2C6} </span>");
    add_icon(&mut m, "telegram", "<span size='x-large'>\u{F2C6} </span>");
    add_icon(&mut m, "evolution", "<span size='x-large'>\u{F01F0} </span>");
    add_icon(&mut m, "pavucontrol", "<span size='x-large'>\u{F057E} </span>");
    add_icon(&mut m, "vlc", "<span size='x-large'>\u{F057C} </span>");
    add_icon(&mut m, "mpv", "<span size='x-large'>\u{F36E} </span>");
    add_icon(&mut m, "obs", "<span size='x-large'>\u{F044B} </span>");
    add_icon(&mut m, "obs-studio", "<span size='x-large'>\u{F044B} </span>");
    add_icon(&mut m, "gimp", "<span size='x-large'>\u{F338} </span>");
    add_icon(&mut m, "inkscape", "<span size='x-large'>\u{F33B} </span>");
    add_icon(&mut m, "steam", "<span size='x-large'>\u{F1B6} </span>");
    add_icon(&mut m, "thunar", "<span size='x-large'>\u{F07B} </span>");
    add_icon(&mut m, "yazi", "<span size='x-large'>\u{F07B} </span>");
    add_icon(&mut m, "htop", "<span size='x-large'>\u{F04C5} </span>");
    add_icon(&mut m, "btop", "<span size='x-large'>\u{F04C5} </span>");
    add_icon(&mut m, "gparted", "<span size='x-large'>\u{F02CA} </span>");
    add_icon(&mut m, "clock", "<span size='x-large'>\u{F017} </span>");
    add_icon(&mut m, "peaclock", "<span size='x-large'>\u{F017} </span>");
    add_icon(&mut m, "calc", "<span size='x-large'>\u{F1EC} </span>");
    add_icon(&mut m, "calculator", "<span size='x-large'>\u{F1EC} </span>");
    add_icon(&mut m, "galculator", "<span size='x-large'>\u{F1EC} </span>");
    add_icon(&mut m, "zathura", "<span size='x-large'>\u{F1C1} </span>");
    add_icon(&mut m, "scratchpad", "<span size='large'>\u{F0633} </span>");
    add_icon(&mut m, "main-tmux", "<span size='x-large'>\u{EBC8} </span>");
    add_icon(&mut m, "gemini", "<span size='x-large'>\u{F06A9} </span>");
    add_icon(&mut m, "gemini-sc", "<span size='x-large'>\u{F06A9} </span>");
    add_icon(&mut m, "task", "<span size='x-large'>\u{F0AE} </span>");
    add_icon(&mut m, "tasks", "<span size='x-large'>\u{F0AE} </span>");
    add_icon(&mut m, "todo", "<span size='x-large'>\u{F0AE} </span>");
    proof {
        assert(m@ =~= icon_entries());
    }
    m
}

/// A workspace's current name, the empty sequence when it has none.
pub open spec fn name_of(ws: Node) -> Seq<char> {
    match ws.name {
        Some(n) => n@,
        None => Seq::empty(),
    }
}

/// The label body for a first leaf: its window identity, falling back to
/// its raw title, then to the empty string; shown through the icon mapping
/// when present there, else passed through unchanged.
pub open spec fn spec_label_body(leaf: Node, icons: Seq<(Seq<char>, Seq<char>)>) -> Seq<char> {
    let cls = match spec_window_class(leaf) {
        Some(c) => c,
        None => match leaf.name {
            Some(n) => n@,
            None => Seq::empty(),
        },
    };
    match spec_lookup(icons, cls) {
        Some(icon) => icon,
        None => cls,
    }
}

/// The display number of a workspace: its structural number when
/// non-negative, else the number its current name starts with under the
/// legacy numbering convention, if any.
pub open spec fn spec_display_number(ws: Node) -> Option<int> {
    match ws.num {
        Some(n) => if n >= 0 {
            Some(n as int)
        } else {
            leading_number(name_of(ws))
        },
        None => leading_number(name_of(ws)),
    }
}

/// The canonical label of a workspace: `<number>: <body>` when a display
/// number is known, the bare body otherwise; a workspace with no leaves
/// keeps its current name.
pub open spec fn spec_label(ws: Node, icons: Seq<(Seq<char>, Seq<char>)>) -> Seq<char> {
    let leaves = spec_leaves(ws);
    if leaves.len() == 0 {
        name_of(ws)
    } else {
        let body = spec_label_body(leaves[0], icons);
        match spec_display_number(ws) {
            Some(v) => dec_int(v) + ": "@ + body,
            None => body,
        }
    }
}

/// The rename decision for one workspace: a rename only when the computed
/// label is non-empty and differs from the current name, addressed by the
/// current name when there is one, else by the structural number, else
/// skipped as unaddressable.
pub open spec fn spec_ws_rename(ws: Node, icons: Seq<(Seq<char>, Seq<char>)>) -> Option<
    AbsCommand,
> {
    let name = name_of(ws);
    let label = spec_label(ws, icons);
    if label.len() > 0 && label != name {
        if name.len() > 0 {
            Some(AbsCommand::RenameByName { old: name, new: label })
        } else {
            match ws.num {
                Some(n) => Some(AbsCommand::RenameByNum { num: n as int, new: label }),
                None => None,
            }
        }
    } else {
        None
    }
}

/// The rename commands for a list of workspaces, in order.
pub open spec fn spec_renames_of(wss: Seq<Node>, icons: Seq<(Seq<char>, Seq<char>)>) -> Seq<
    AbsCommand,
>
    decreases wss.len(),
{
    if wss.len() == 0 {
        Seq::empty()
    } else {
        spec_renames_of(wss.drop_last(), icons) + (match spec_ws_rename(wss.last(), icons) {
            Some(c) => seq![c],
            None => Seq::empty(),
        })
    }
}

/// One full labeling pass over a snapshot.
pub open spec fn spec_update_names(tree: Node, icons: Seq<(Seq<char>, Seq<char>)>) -> Seq<
    AbsCommand,
> {
    spec_renames_of(spec_workspaces(tree), icons)
}

/// Compute the canonical label of one workspace.
pub fn workspace_label(ws: &Node, icons: &IconMap) -> (r: String)
    ensures
        r@ == spec_label(*ws, icons@),
{
    let mut leaf_buf: Vec<&Node> = Vec::new();
    collect_leaves(ws, &mut leaf_buf);
    proof {
        assert(deref_seq(leaf_buf@) =~= spec_leaves(*ws));
    }
    if leaf_buf.len() == 0 {
        return match &ws.name {
            Some(n) => n.clone(),
            None => String::new(),
        };
    }
    let first: &Node = leaf_buf[0];
    proof {
        assert(deref_seq(leaf_buf@)[0] == *first);
    }
    let cls: String = match window_class(first) {
        Some(c) => c,
        None => match &first.name {
            Some(n) => n.clone(),
            None => String::new(),
        },
    };
    let body: String = match icons.get(&cls) {
        Some(icon) => icon.clone(),
        None => cls,
    };
    let numv: Option<i64> = match ws.num {
        Some(n) => if n >= 0 {
            Some(n as i64)
        } else {
            match &ws.name {
                Some(nm) => parse_leading_number(nm.as_str()),
                None => None,
            }
        },
        None => match &ws.name {
            Some(nm) => parse_leading_number(nm.as_str()),
            None => None,
        },
    };
    match numv {
        Some(v) => {
            let r = i64_to_string(v).concat(": ").concat(body.as_str());
            proof {
                assert(r@ =~= spec_label(*ws, icons@));
            }
            r
        },
        None => body,
    }
}

/// One labeling pass: compute each workspace's label in order and collect
/// a rename command for each workspace whose label is non-empty, differs
/// from its current name, and can be addressed.
pub fn update_workspace_names(tree: &Node, icons: &IconMap) -> (r: Vec<Command>)
    ensures
        r@.map_values(|c: Command| c@) == spec_update_names(*tree, icons@),
{
    let mut ws_buf: Vec<&Node> = Vec::new();
    collect_workspaces(tree, &mut ws_buf);
    let ghost wss = spec_workspaces(*tree);
    proof {
        assert(deref_seq(ws_buf@) =~= wss);
    }
    let mut out: Vec<Command> = Vec::new();
    let mut i: usize = 0;
    proof {
        assert(out@.map_values(|c: Command| c@) =~= spec_renames_of(wss.take(0), icons@));
    }
    while i < ws_buf.len()
        invariant
            i <= ws_buf@.len(),
            ws_buf@.len() == wss.len(),
            deref_seq(ws_buf@) == wss,
            out@.map_values(|c: Command| c@) == spec_renames_of(wss.take(i as int), icons@),
        decreases ws_buf@.len() - i,
    {
        let ws: &Node = ws_buf[i];
        proof {
            assert(deref_seq(ws_buf@)[i as int] == *ws);
            assert(wss.take(i + 1).drop_last() =~= wss.take(i as int));
            assert(wss.take(i + 1).last() == wss[i as int]);
        }
        let label = workspace_label(ws, icons);
        let name: String = match &ws.name {
            Some(n) => n.clone(),
            None => String::new(),
        };
        if !label.as_str().is_empty() && !str_eq(label.as_str(), name.as_str()) {
            if !name.as_str().is_empty() {
                out.push(Command::RenameByName { old: name, new: label });
            } else {
                match ws.num {
                    Some(n) => out.push(Command::RenameByNum { num: n as i64, new: label }),
                    None => (),
                }
            }
        }
        proof {
            assert(out@.map_values(|c: Command| c@) =~= spec_renames_of(
                wss.take(i + 1),
                icons@,
            ));
        }
        i += 1;
    }
    proof {
        assert(wss.take(wss.len() as int) =~= wss);
    }
    out
}

/// A first leaf whose identity the icon mapping does not know labels the
/// workspace body with the identity string itself, passed through.
pub proof fn lemma_missing_icon_passes_through(
    leaf: Node,
    icons: Seq<(Seq<char>, Seq<char>)>,
    cls: Seq<char>,
)
    requires
        spec_window_class(leaf) == Some(cls),
        spec_lookup(icons, cls) is None,
    ensures
        spec_label_body(leaf, icons) == cls,
{
}

/// A workspace with no leaves keeps its current name, whatever it is: the
/// labeling pass issues no rename for it.
pub proof fn lemma_no_leaves_no_rename(ws: Node, icons: Seq<(Seq<char>, Seq<char>)>)
    requires
        spec_leaves(ws).len() == 0,
    ensures
        spec_ws_rename(ws, icons) is None,
{
}

} // verus!
