//! Themes, colours and the application settings.
use vstd::prelude::*;
use vstd::string::*;
use crate::text::owned;

verus! {

/// A colour theme of the interface.
#[derive(Debug, Clone, Copy, PartialEq, Eq, Structural)]
pub enum Theme {
    Dark,
    Light,
    Nord,
    Gruvbox,
    Catppuccin,
}

impl Default for Theme {
    /// The dark theme.
    fn default() -> (r: Theme)
        ensures
            r == Theme::Dark,
    {
        Theme::Dark
    }
}

/// The themes in the order in which they are cycled through.
pub open spec fn theme_order() -> Seq<Theme> {
    seq![Theme::Dark, Theme::Light, Theme::Nord, Theme::Gruvbox, Theme::Catppuccin]
}

/// The lower-case name of a theme.
pub open spec fn theme_name(t: Theme) -> Seq<char> {
    match t {
        Theme::Dark => "dark"@,
        Theme::Light => "light"@,
        Theme::Nord => "nord"@,
        Theme::Gruvbox => "gruvbox"@,
        Theme::Catppuccin => "catppuccin"@,
    }
}

impl Theme {
    /// Every theme, in cycling order.
    pub fn all() -> (r: Vec<Theme>)
        ensures
            r@ == theme_order(),
    {
        let r = vec![Theme::Dark, Theme::Light, Theme::Nord, Theme::Gruvbox, Theme::Catppuccin];
        assert(r@ =~= theme_order());
        r
    }

    /// The lower-case name of the theme.
    pub fn name(&self) -> (r: &'static str)
        ensures
            r@ == theme_name(*self),
    {
        match self {
            Theme::Dark => "dark",
            Theme::Light => "light",
            Theme::Nord => "nord",
            Theme::Gruvbox => "gruvbox",
            Theme::Catppuccin => "catppuccin",
        }
    }
}

/// The colours of a theme, as `#rrggbb` texts.
#[derive(Debug)]
pub struct ThemeColors {
    pub bg_primary: String,
    pub bg_secondary: String,
    pub fg_primary: String,
    pub fg_secondary: String,
    pub accent: String,
    pub highlight: String,
    pub error: String,
    pub success: String,
    pub border: String,
}

/// The mathematical value of [`ThemeColors`].
pub struct ThemeColorsView {
    pub bg_primary: Seq<char>,
    pub bg_secondary: Seq<char>,
    pub fg_primary: Seq<char>,
    pub fg_secondary: Seq<char>,
    pub accent: Seq<char>,
    pub highlight: Seq<char>,
    pub error: Seq<char>,
    pub success: Seq<char>,
    pub border: Seq<char>,
}

impl View for ThemeColors {
    type V = ThemeColorsView;

    open spec fn view(&self) -> ThemeColorsView {
        ThemeColorsView {
            bg_primary: self.bg_primary@,
            bg_secondary: self.bg_secondary@,
            fg_primary: self.fg_primary@,
            fg_secondary: self.fg_secondary@,
            accent: self.accent@,
            highlight: self.highlight@,
            error: self.error@,
            success: self.success@,
            border: self.border@,
        }
    }
}

/// The palette of a theme.
pub open spec fn palette(t: Theme) -> ThemeColorsView {
    match t {
        Theme::Dark => ThemeColorsView {
            bg_primary: "#1e1e1e"@,
            bg_secondary: "#252526"@,
            fg_primary: "#d4d4d4"@,
            fg_secondary: "#808080"@,
            accent: "#00aaff"@,
            highlight: "#264f78"@,
            error: "#f44747"@,
            success: "#89d185"@,
            border: "#3c3c3c"@,
        },
        Theme::Light => ThemeColorsView {
            bg_primary: "#ffffff"@,
            bg_secondary: "#f3f3f3"@,
            fg_primary: "#333333"@,
            fg_secondary: "#6e6e6e"@,
            accent: "#0078d4"@,
            highlight: "#add6ff"@,
            error: "#d32f2f"@,
            success: "#388e3c"@,
            border: "#cccccc"@,
        },
        Theme::Nord => ThemeColorsView {
            bg_primary: "#2e3440"@,
            bg_secondary: "#3b4252"@,
            fg_primary: "#eceff4"@,
            fg_secondary: "#d8dee9"@,
            accent: "#88c0d0"@,
            highlight: "#4c566a"@,
            error: "#bf616a"@,
            success: "#a3be8c"@,
            border: "#4c566a"@,
        },
        Theme::Gruvbox => ThemeColorsView {
            bg_primary: "#282828"@,
            bg_secondary: "#3c3836"@,
            fg_primary: "#ebdbb2"@,
            fg_secondary: "#a59da7"@,
            accent: "#fabd2f"@,
            highlight: "#504945"@,
            error: "#fb4934"@,
            success: "#b8bb26"@,
            border: "#504945"@,
        },
        Theme::Catppuccin => ThemeColorsView {
            bg_primary: "#1e1e2e"@,
            bg_secondary: "#313244"@,
            fg_primary: "#cdd6f4"@,
            fg_secondary: "#a6adc8"@,
            accent: "#89b4fa"@,
            highlight: "#45475a"@,
            error: "#f38ba8"@,
            success: "#a6e3a1"@,
            border: "#45475a"@,
        },
    }
}

impl ThemeColors {
    /// The colours of the dark theme.
    pub fn dark() -> (r: ThemeColors)
        ensures
            r@ == palette(Theme::Dark),
    {
        ThemeColors {
            bg_primary: owned("#1e1e1e"),
            bg_secondary: owned("#252526"),
            fg_primary: owned("#d4d4d4"),
            fg_secondary: owned("#808080"),
            accent: owned("#00aaff"),
            highlight: owned("#264f78"),
            error: owned("#f44747"),
            success: owned("#89d185"),
            border: owned("#3c3c3c"),
        }
    }

    /// The colours of the light theme.
    pub fn light() -> (r: ThemeColors)
        ensures
            r@ == palette(Theme::Light),
    {
        ThemeColors {
            bg_primary: owned("#ffffff"),
            bg_secondary: owned("#f3f3f3"),
            fg_primary: owned("#333333"),
            fg_secondary: owned("#6e6e6e"),
            accent: owned("#0078d4"),
            highlight: owned("#add6ff"),
            error: owned("#d32f2f"),
            success: owned("#388e3c"),
            border: owned("#cccccc"),
        }
    }

    /// The colours of the nord theme.
    pub fn nord() -> (r: ThemeColors)
        ensures
            r@ == palette(Theme::Nord),
    {
        ThemeColors {
            bg_primary: owned("#2e3440"),
            bg_secondary: owned("#3b4252"),
            fg_primary: owned("#eceff4"),
            fg_secondary: owned("#d8dee9"),
            accent: owned("#88c0d0"),
            highlight: owned("#4c566a"),
            error: owned("#bf616a"),
            success: owned("#a3be8c"),
            border: owned("#4c566a"),
        }
    }

    /// The colours of the gruvbox theme.
    pub fn gruvbox() -> (r: ThemeColors)
        ensures
            r@ == palette(Theme::Gruvbox),
    {
        ThemeColors {
            bg_primary: owned("#282828"),
            bg_secondary: owned("#3c3836"),
            fg_primary: owned("#ebdbb2"),
            fg_secondary: owned("#a59da7"),
            accent: owned("#fabd2f"),
            highlight: owned("#504945"),
            error: owned("#fb4934"),
            success: owned("#b8bb26"),
            border: owned("#504945"),
        }
    }

    /// The colours of the catppuccin theme.
    pub fn catppuccin() -> (r: ThemeColors)
        ensures
            r@ == palette(Theme::Catppuccin),
    {
        ThemeColors {
            bg_primary: owned("#1e1e2e"),
            bg_secondary: owned("#313244"),
            fg_primary: owned("#cdd6f4"),
            fg_secondary: owned("#a6adc8"),
            accent: owned("#89b4fa"),
            highlight: owned("#45475a"),
            error: owned("#f38ba8"),
            success: owned("#a6e3a1"),
            border: owned("#45475a"),
        }
    }

    /// The colours of a theme.
    pub fn from_theme(theme: Theme) -> (r: ThemeColors)
        ensures
            r@ == palette(theme),
    {
        match theme {
            Theme::Dark => ThemeColors::dark(),
            Theme::Light => ThemeColors::light(),
            Theme::Nord => ThemeColors::nord(),
            Theme::Gruvbox => ThemeColors::gruvbox(),
            Theme::Catppuccin => ThemeColors::catppuccin(),
        }
    }
}

impl Default for ThemeColors {
    /// Colours that are all empty texts.
    fn default() -> (r: ThemeColors)
        ensures
            r@.bg_primary == Seq::<char>::empty(),
            r@.bg_secondary == Seq::<char>::empty(),
            r@.fg_primary == Seq::<char>::empty(),
            r@.fg_secondary == Seq::<char>::empty(),
            r@.accent == Seq::<char>::empty(),
            r@.highlight == Seq::<char>::empty(),
            r@.error == Seq::<char>::empty(),
            r@.success == Seq::<char>::empty(),
            r@.border == Seq::<char>::empty(),
    {
        ThemeColors {
            bg_primary: String::new(),
            bg_secondary: String::new(),
            fg_primary: String::new(),
            fg_secondary: String::new(),
            accent: String::new(),
            highlight: String::new(),
            error: String::new(),
            success: String::new(),
            border: String::new(),
        }
    }
}

/// The key of each action, as configured.
#[derive(Debug)]
pub struct KeyBindings {
    pub quit: String,
    pub up: String,
    pub down: String,
    pub left: String,
    pub right: String,
    pub search: String,
    pub connect: String,
    pub add: String,
    pub edit: String,
    pub delete: String,
    pub toggle_favorite: String,
    pub copy_hostname: String,
    pub copy_command: String,
    pub ping: String,
    pub ssh_copy_id: String,
    pub help: String,
    pub command_palette: String,
    pub sort: String,
    pub theme: String,
    pub top: String,
    pub bottom: String,
}

impl KeyBindings {
    /// The texts of all bindings, in declaration order.
    pub open spec fn texts(&self) -> Seq<Seq<char>> {
        seq![
            self.quit@,
            self.up@,
            self.down@,
            self.left@,
            self.right@,
            self.search@,
            self.connect@,
            self.add@,
            self.edit@,
            self.delete@,
            self.toggle_favorite@,
            self.copy_hostname@,
            self.copy_command@,
            self.ping@,
            self.ssh_copy_id@,
            self.help@,
            self.command_palette@,
            self.sort@,
            self.theme@,
            self.top@,
            self.bottom@,
        ]
    }

    /// Whether every binding is the empty text.
    pub open spec fn all_empty(&self) -> bool {
        self.quit@ == Seq::<char>::empty()
        && self.up@ == Seq::<char>::empty()
        && self.down@ == Seq::<char>::empty()
        && self.left@ == Seq::<char>::empty()
        && self.right@ == Seq::<char>::empty()
        && self.search@ == Seq::<char>::empty()
        && self.connect@ == Seq::<char>::empty()
        && self.add@ == Seq::<char>::empty()
        && self.edit@ == Seq::<char>::empty()
        && self.delete@ == Seq::<char>::empty()
        && self.toggle_favorite@ == Seq::<char>::empty()
        && self.copy_hostname@ == Seq::<char>::empty()
        && self.copy_command@ == Seq::<char>::empty()
        && self.ping@ == Seq::<char>::empty()
        && self.ssh_copy_id@ == Seq::<char>::empty()
        && self.help@ == Seq::<char>::empty()
        && self.command_palette@ == Seq::<char>::empty()
        && self.sort@ == Seq::<char>::empty()
        && self.theme@ == Seq::<char>::empty()
        && self.top@ == Seq::<char>::empty()
        && self.bottom@ == Seq::<char>::empty()
    }
}

impl Default for KeyBindings {
    /// Bindings that are all empty texts.
    fn default() -> (r: KeyBindings)
        ensures
            r.all_empty(),
    {
        KeyBindings {
            quit: String::new(),
            up: String::new(),
            down: String::new(),
            left: String::new(),
            right: String::new(),
            search: String::new(),
            connect: String::new(),
            add: String::new(),
            edit: String::new(),
            delete: String::new(),
            toggle_favorite: String::new(),
            copy_hostname: String::new(),
            copy_command: String::new(),
            ping: String::new(),
            ssh_copy_id: String::new(),
            help: String::new(),
            command_palette: String::new(),
            sort: String::new(),
            theme: String::new(),
            top: String::new(),
            bottom: String::new(),
        }
    }
}

/// The settings kept in the configuration file.
#[derive(Debug)]
pub struct AppConfig {
    pub theme: Theme,
    pub keybindings: KeyBindings,
    pub show_status_bar: bool,
    pub show_groups: bool,
    pub auto_refresh: bool,
    pub ping_timeout_ms: u64,
    pub startup_view: String,
    pub show_connections: bool,
}

/// The mathematical value of an [`AppConfig`].
pub struct AppConfigView {
    pub theme: Theme,
    pub keybindings: Seq<Seq<char>>,
    pub show_status_bar: bool,
    pub show_groups: bool,
    pub auto_refresh: bool,
    pub ping_timeout_ms: u64,
    pub startup_view: Seq<char>,
    pub show_connections: bool,
}

impl View for AppConfig {
    type V = AppConfigView;

    open spec fn view(&self) -> AppConfigView {
        AppConfigView {
            theme: self.theme,
            keybindings: self.keybindings.texts(),
            show_status_bar: self.show_status_bar,
            show_groups: self.show_groups,
            auto_refresh: self.auto_refresh,
            ping_timeout_ms: self.ping_timeout_ms,
            startup_view: self.startup_view@,
            show_connections: self.show_connections,
        }
    }
}

impl Default for AppConfig {
    /// The dark theme, empty bindings, every flag off, a zero timeout and an empty start view.
    fn default() -> (r: AppConfig)
        ensures
            r.theme == Theme::Dark,
            r.keybindings.all_empty(),
            !r.show_status_bar,
            !r.show_groups,
            !r.auto_refresh,
            r.ping_timeout_ms == 0,
            r.startup_view@ == Seq::<char>::empty(),
            !r.show_connections,
    {
        AppConfig {
            theme: Theme::Dark,
            keybindings: KeyBindings::default(),
            show_status_bar: false,
            show_groups: false,
            auto_refresh: false,
            ping_timeout_ms: 0,
            startup_view: String::new(),
            show_connections: false,
        }
    }
}

/// Whether a name is a plain entry name: not empty, with no path separator and
/// no drive mark, and neither `.` nor `..`.
pub open spec fn plain_name(file: Seq<char>) -> bool {
    &&& file.len() > 0
    &&& forall|i: int|
        0 <= i < file.len() ==> #[trigger] file[i] != '/' && file[i] != '\\' && file[i] != ':'
    &&& file != seq!['.']
    &&& file != seq!['.', '.']
}

/// Whether `path` is `dir` extended by `file`: the two texts joined directly or
/// with one separator between them.
pub open spec fn path_in(path: Seq<char>, dir: Seq<char>, file: Seq<char>) -> bool {
    ||| path == dir + file
    ||| path.len() == dir.len() + 1 + file.len() && path.take(dir.len() as int) == dir && path.skip(
        dir.len() as int + 1,
    ) == file
}

/// Whether a directory has a Windows verbatim prefix (`\\?\`).
pub open spec fn verbatim_prefix(dir: Seq<char>) -> bool {
    dir.len() >= 4 && dir[0] == '\\' && dir[1] == '\\' && dir[2] == '?' && dir[3] == '\\'
}

/// Whether a text ends with another.
pub open spec fn ends_with(path: Seq<char>, file: Seq<char>) -> bool {
    path.len() >= file.len() && path.skip(path.len() - file.len()) == file
}

/// Whether `path` names the entry `file` of `dir`: it ends with the name, and,
/// unless the directory has a verbatim prefix (which the platform normalizes),
/// it is the directory extended by the name.
pub open spec fn file_path(path: Seq<char>, dir: Seq<char>, file: Seq<char>) -> bool {
    &&& ends_with(path, file)
    &&& (!verbatim_prefix(dir) ==> path_in(path, dir, file))
}

/// `std::path::Path::join` of a directory and a plain entry name, as text. As
/// documented, a relative name extends the directory; the separator, if one is
/// needed, is the platform's, and which one is not claimed. A directory with a
/// verbatim prefix is normalized on Windows, so of it only that the result ends
/// with the name is claimed.
#[verifier::external_body]
fn join_path(dir: &str, file: &str) -> (r: String)
    requires
        plain_name(file@),
    ensures
        file_path(r@, dir@, file@),
{
    std::path::Path::new(dir).join(file).to_string_lossy().into_owned()
}

/// `directories::ProjectDirs::from("com", "sshman", "sshman")` with its
/// `config_dir()`, as text. It depends on the environment; nothing is claimed.
#[verifier::external_body]
pub fn config_dir() -> Option<String> {
    directories::ProjectDirs::from("com", "sshman", "sshman").map(
        |dirs| dirs.config_dir().to_string_lossy().into_owned(),
    )
}

/// `directories::ProjectDirs::from("com", "sshman", "sshman")` with its
/// `data_dir()`, as text. It depends on the environment; nothing is claimed.
#[verifier::external_body]
pub fn data_dir() -> Option<String> {
    directories::ProjectDirs::from("com", "sshman", "sshman").map(
        |dirs| dirs.data_dir().to_string_lossy().into_owned(),
    )
}

/// The hosts file `hosts.json` in a data directory.
pub fn hosts_file_in(dir: &str) -> (r: String)
    ensures
        file_path(r@, dir@, "hosts.json"@),
{
    proof {
        reveal_strlit("hosts.json");
    }
    join_path(dir, "hosts.json")
}

/// The configuration file `config.toml` in a configuration directory.
pub fn config_file_in(dir: &str) -> (r: String)
    ensures
        file_path(r@, dir@, "config.toml"@),
{
    proof {
        reveal_strlit("config.toml");
    }
    join_path(dir, "config.toml")
}

/// The hosts file in the data directory, when there is one.
pub fn hosts_file() -> (r: Option<String>)
    ensures
        r is Some ==> exists|d: Seq<char>| #[trigger] file_path(r->0@, d, "hosts.json"@),
{
    match data_dir() {
        Some(dir) => {
            let p = hosts_file_in(dir.as_str());
            let r = Some(p);
            assert(file_path(r->0@, dir@, "hosts.json"@));
            r
        },
        None => None,
    }
}

/// The configuration file in the configuration directory, when there is one.
pub fn config_file() -> (r: Option<String>)
    ensures
        r is Some ==> exists|d: Seq<char>| #[trigger] file_path(r->0@, d, "config.toml"@),
{
    match config_dir() {
        Some(dir) => {
            let p = config_file_in(dir.as_str());
            let r = Some(p);
            assert(file_path(r->0@, dir@, "config.toml"@));
            r
        },
        None => None,
    }
}

} // verus!
