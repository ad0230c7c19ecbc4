//! Built-in lists of known applications, dotfiles and folders that are not configs.
use vstd::prelude::*;

use crate::collections::StrSet;
use crate::text::{chars_of, lines_of, split_lines, string_from_chars, trim, trim_chars};

verus! {

/// Application names whose config folder is recognised, one per line.
pub const KNOWN_APPS: &'static str = "# Shells\n\
bash\n\
zsh\n\
fish\n\
nushell\n\
nu\n\
elvish\n\
xonsh\n\
tcsh\n\
ksh\n\
ion\n\
\n\
# Editors\n\
nvim\n\
vim\n\
helix\n\
hx\n\
emacs\n\
doom\n\
kakoune\n\
micro\n\
nano\n\
zed\n\
code\n\
vscode\n\
sublime-text\n\
lapce\n\
lite-xl\n\
\n\
# Terminals\n\
alacritty\n\
kitty\n\
wezterm\n\
ghostty\n\
foot\n\
st\n\
iterm2\n\
warp\n\
tabby\n\
hyper\n\
konsole\n\
rio\n\
contour\n\
\n\
# Multiplexers\n\
tmux\n\
zellij\n\
screen\n\
byobu\n\
\n\
# Prompts\n\
starship\n\
oh-my-posh\n\
powerlevel10k\n\
spaceship\n\
\n\
# Version control\n\
git\n\
gh\n\
lazygit\n\
tig\n\
gitui\n\
jj\n\
delta\n\
git-cliff\n\
\n\
# Window managers\n\
i3\n\
sway\n\
hypr\n\
hyprland\n\
bspwm\n\
awesome\n\
openbox\n\
qtile\n\
river\n\
niri\n\
yabai\n\
skhd\n\
aerospace\n\
amethyst\n\
rectangle\n\
dwm\n\
xmonad\n\
leftwm\n\
\n\
# Bars and launchers\n\
waybar\n\
polybar\n\
sketchybar\n\
eww\n\
rofi\n\
wofi\n\
fuzzel\n\
tofi\n\
dmenu\n\
raycast\n\
alfred\n\
ulauncher\n\
\n\
# Notifications and lockers\n\
dunst\n\
mako\n\
swaync\n\
swaylock\n\
hyprlock\n\
swayidle\n\
hypridle\n\
\n\
# File managers\n\
yazi\n\
ranger\n\
lf\n\
nnn\n\
joshuto\n\
broot\n\
vifm\n\
\n\
# System tools\n\
btop\n\
htop\n\
bottom\n\
glances\n\
neofetch\n\
fastfetch\n\
macchiato\n\
karabiner\n\
hammerspoon\n\
bat\n\
eza\n\
lsd\n\
fd\n\
ripgrep\n\
fzf\n\
zoxide\n\
atuin\n\
direnv\n\
mise\n\
asdf\n\
thefuck\n\
tealdeer\n\
navi\n\
\n\
# Media\n\
mpv\n\
mpd\n\
ncmpcpp\n\
cava\n\
spotify-player\n\
spicetify\n\
zathura\n\
imv\n\
feh\n\
\n\
# Networking and mail\n\
aerc\n\
neomutt\n\
mutt\n\
newsboat\n\
ssh\n\
wireguard\n\
syncthing\n\
\n\
# Development\n\
cargo\n\
rustup\n\
npm\n\
pnpm\n\
yarn\n\
pip\n\
poetry\n\
docker\n\
k9s\n\
kubectl\n\
terraform\n\
\n\
# Misc\n\
picom\n\
compton\n\
gtk-3.0\n\
gtk-4.0\n\
fontconfig\n\
xsettingsd\n\
kanata\n\
keyd\n\
espanso\n\
\n\
";

/// Dotfile names that are recognised, one per line.
pub const KNOWN_DOTFILES: &'static str = "# Shells\n\
.bashrc\n\
.bash_profile\n\
.bash_logout\n\
.profile\n\
.zshrc\n\
.zprofile\n\
.zshenv\n\
.zlogin\n\
.zlogout\n\
.inputrc\n\
\n\
# Git\n\
.gitconfig\n\
.gitignore_global\n\
.gitattributes\n\
\n\
# Editors\n\
.vimrc\n\
.gvimrc\n\
.ideavimrc\n\
.emacs\n\
.nanorc\n\
.editorconfig\n\
\n\
# Tools\n\
.tmux.conf\n\
.screenrc\n\
.wgetrc\n\
.curlrc\n\
.npmrc\n\
.yarnrc\n\
.gemrc\n\
.psqlrc\n\
.sqliterc\n\
.condarc\n\
.Xresources\n\
.xinitrc\n\
.xprofile\n\
.Xmodmap\n\
.hushlogin\n\
.p10k.zsh\n\
\n\
";

/// Lowercase names of home folders that never hold application configs, one per line.
pub const KNOWN_NON_CONFIGS: &'static str = "# Personal folders\n\
documents\n\
pictures\n\
music\n\
movies\n\
videos\n\
downloads\n\
desktop\n\
public\n\
templates\n\
\n\
# Caches and state\n\
caches\n\
cache\n\
.cache\n\
.local\n\
.npm\n\
.cargo\n\
.rustup\n\
.trash\n\
trash\n\
library\n\
applications\n\
\n\
# Build output\n\
node_modules\n\
target\n\
dist\n\
build\n\
__pycache__\n\
\n\
";

/// Ignore patterns that new configurations start with.
pub const DEFAULT_IGNORE_PATTERNS: [&'static str; 16] = [
    "node_modules",
    ".git",
    ".DS_Store",
    "*.log",
    "*.tmp",
    "*.bak",
    "*.swp",
    "Thumbs.db",
    "__pycache__",
    ".cache",
    ".npm",
    ".venv",
    "*.pyc",
    ".tox",
    "dist",
    "build",
];

/// A list line counts when it is not a `#` comment and not blank.
pub open spec fn is_entry_line(line: Seq<char>) -> bool {
    !(line.len() > 0 && line[0] == '#') && trim(line).len() > 0
}

/// `name` is listed in `raw`: some entry line of `raw`, trimmed, is `name`.
pub open spec fn is_listed(raw: Seq<char>, name: Seq<char>) -> bool {
    exists|i: int|
        0 <= i < split_lines(raw).len() && is_entry_line(#[trigger] split_lines(raw)[i]) && trim(
            split_lines(raw)[i],
        ) == name
}

/// Parses a list: one entry per line, `#` comment lines and blank lines skipped,
/// surrounding white space trimmed.
pub fn parse_list(raw: &str) -> (r: StrSet)
    ensures
        forall|name: Seq<char>| #[trigger] r@.contains(name) == is_listed(raw@, name),
{
    let chars = chars_of(raw);
    let lines = lines_of(chars.as_slice());
    let ghost ls = split_lines(raw@);
    let mut set = StrSet::new();
    let mut i: usize = 0;
    while i < lines.len()
        invariant
            i <= lines@.len(),
            chars@ == raw@,
            ls == split_lines(raw@),
            lines@.len() == ls.len(),
            forall|k: int| 0 <= k < lines@.len() ==> #[trigger] lines@[k]@ == ls[k],
            forall|name: Seq<char>|
                #[trigger] set@.contains(name) == exists|j: int|
                    0 <= j < i && is_entry_line(#[trigger] ls[j]) && trim(ls[j]) == name,
        decreases lines@.len() - i,
    {
        let line = &lines[i];
        let comment = line.len() > 0 && line[0] == '#';
        let t = trim_chars(line.as_slice());
        assert(line@ == ls[i as int]);
        let ghost prev = set@;
        if !comment && t.len() > 0 {
            set.insert(string_from_chars(t.as_slice()));
        }
        proof {
            assert forall|name: Seq<char>| #[trigger] set@.contains(name) == exists|j: int|
                0 <= j < i + 1 && is_entry_line(#[trigger] ls[j]) && trim(ls[j]) == name by {
                if set@.contains(name) && !prev.contains(name) {
                    assert(is_entry_line(ls[i as int]) && trim(ls[i as int]) == name);
                }
                if exists|j: int| 0 <= j < i + 1 && is_entry_line(#[trigger] ls[j]) && trim(ls[j]) == name {
                    let j = choose|j: int| 0 <= j < i + 1 && is_entry_line(#[trigger] ls[j]) && trim(ls[j]) == name;
                    if j < i {
                        assert(prev.contains(name));
                    }
                }
            }
        }
        i = i + 1;
    }
    set
}

/// Names of known applications.
pub fn known_apps() -> (r: StrSet)
    ensures
        forall|name: Seq<char>| #[trigger] r@.contains(name) == is_listed(KNOWN_APPS@, name),
{
    parse_list(KNOWN_APPS)
}

/// Names of known dotfiles.
pub fn known_dotfiles() -> (r: StrSet)
    ensures
        forall|name: Seq<char>| #[trigger] r@.contains(name) == is_listed(KNOWN_DOTFILES@, name),
{
    parse_list(KNOWN_DOTFILES)
}

/// Lowercase names of folders that are never configs.
pub fn known_non_configs() -> (r: StrSet)
    ensures
        forall|name: Seq<char>| #[trigger] r@.contains(name) == is_listed(KNOWN_NON_CONFIGS@, name),
{
    parse_list(KNOWN_NON_CONFIGS)
}

} // verus!
