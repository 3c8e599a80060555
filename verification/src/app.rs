//! The state of the interactive view: modes, the host form, and the filtered,
//! sorted list of hosts with its selection.
use vstd::prelude::*;
use vstd::string::*;
use crate::config::{palette, theme_name, theme_order, AppConfig, AppConfigView, Theme, ThemeColors, ThemeColorsView};
use crate::models::{
    copy_groups, copy_hosts, group_views, host_views, opt_view, Group, GroupView, HostsDatabase,
    HostsDatabaseView, SshHost, SshHostView, uuid_v4_text, distinct_keys,
};
use crate::search::{lowercase, lowercase_chars, ranked, scored_hosts, search_hosts};
use crate::sorting::{key_views, sort_hosts_by_keys, sorted_by_keys, Key, SortKey};
use crate::ssh_config::or_empty;
use crate::storage::{hosts_without, groups_without, host_index};
use crate::text::{
    chars_of, decimal, decimal_string, join, join_strings, owned, parse_u16, parse_u16_spec,
    split_chars, split_on, str_eq, string_of, trim, trim_text, views, char_views,
};

verus! {

/// The panel that has the focus.
#[derive(Debug, Clone, Copy, PartialEq, Eq, Structural)]
pub enum Panel {
    Groups,
    Hosts,
    Details,
}

/// What keys are read as.
#[derive(Debug, Clone, Copy, PartialEq, Eq, Structural)]
pub enum InputMode {
    Normal,
    Insert,
    Search,
    Command,
}

/// The order of the host list.
#[derive(Debug, Clone, Copy, PartialEq, Eq, Structural)]
pub enum SortMode {
    Alphabetical,
    Recent,
    FavoritesFirst,
    MostConnected,
}

/// The last command started from the host list.
#[derive(Debug, Clone, Copy, PartialEq, Eq, Structural)]
pub enum AppCommand {
    Idle,
    Connect,
    AddHost,
    EditHost,
    DeleteHost,
    AddGroup,
    DeleteGroup,
    ToggleFavorite,
    CopyHostname,
    CopySshCommand,
    ImportSshConfig,
    ExportSshConfig,
    ToggleTheme,
    ShowHelp,
}

/// Which hosts the list starts from.
#[derive(Debug, Clone, Copy, PartialEq, Eq, Structural)]
pub enum FilterMode {
    All,
    Favorites,
    Recent,
    Group(usize),
}

impl Default for FilterMode {
    /// All hosts.
    fn default() -> (r: FilterMode)
        ensures
            r == FilterMode::All,
    {
        FilterMode::All
    }
}

/// What the screen shows.
#[derive(Debug, Clone, Copy, PartialEq, Eq, Structural)]
pub enum ViewMode {
    Normal,
    AddHost,
    EditHost,
    Search,
    Help,
    CommandPalette,
}

impl Default for ViewMode {
    /// The normal three-panel view.
    fn default() -> (r: ViewMode)
        ensures
            r == ViewMode::Normal,
    {
        ViewMode::Normal
    }
}

/// The name of a panel.
pub open spec fn panel_name(p: Panel) -> Seq<char> {
    match p {
        Panel::Groups => "Groups"@,
        Panel::Hosts => "Hosts"@,
        Panel::Details => "Details"@,
    }
}

impl Panel {
    /// The name of the panel, as shown in the status bar.
    pub fn name(&self) -> (r: &'static str)
        ensures
            r@ == panel_name(*self),
    {
        match self {
            Panel::Groups => "Groups",
            Panel::Hosts => "Hosts",
            Panel::Details => "Details",
        }
    }
}

// ---------------------------------------------------------------------------
// The host form
// ---------------------------------------------------------------------------

/// The fields of the add/edit form, as typed.
#[derive(Debug)]
pub struct HostFormData {
    pub name: String,
    pub hostname: String,
    pub username: String,
    pub port: String,
    pub identity_file: String,
    pub proxy_jump: String,
    pub tags: String,
    pub notes: String,
    pub is_favorite: bool,
}

/// The mathematical value of [`HostFormData`].
pub struct HostFormDataView {
    pub name: Seq<char>,
    pub hostname: Seq<char>,
    pub username: Seq<char>,
    pub port: Seq<char>,
    pub identity_file: Seq<char>,
    pub proxy_jump: Seq<char>,
    pub tags: Seq<char>,
    pub notes: Seq<char>,
    pub is_favorite: bool,
}

impl View for HostFormData {
    type V = HostFormDataView;

    open spec fn view(&self) -> HostFormDataView {
        HostFormDataView {
            name: self.name@,
            hostname: self.hostname@,
            username: self.username@,
            port: self.port@,
            identity_file: self.identity_file@,
            proxy_jump: self.proxy_jump@,
            tags: self.tags@,
            notes: self.notes@,
            is_favorite: self.is_favorite,
        }
    }
}

/// The empty form.
pub open spec fn empty_form() -> HostFormDataView {
    HostFormDataView {
        name: Seq::empty(),
        hostname: Seq::empty(),
        username: Seq::empty(),
        port: Seq::empty(),
        identity_file: Seq::empty(),
        proxy_jump: Seq::empty(),
        tags: Seq::empty(),
        notes: Seq::empty(),
        is_favorite: false,
    }
}

impl Default for HostFormData {
    /// The empty form.
    fn default() -> (r: HostFormData)
        ensures
            r@ == empty_form(),
    {
        HostFormData {
            name: String::new(),
            hostname: String::new(),
            username: String::new(),
            port: String::new(),
            identity_file: String::new(),
            proxy_jump: String::new(),
            tags: String::new(),
            notes: String::new(),
            is_favorite: false,
        }
    }
}

/// The form filled in from a host: the port in decimal, absent options as
/// empty texts, and the tags joined with commas.
pub open spec fn form_of(h: SshHostView) -> HostFormDataView {
    HostFormDataView {
        name: h.name,
        hostname: h.hostname,
        username: h.username,
        port: decimal(h.port as nat),
        identity_file: or_empty(h.identity_file),
        proxy_jump: or_empty(h.proxy_jump),
        tags: join(h.tags, ","@),
        notes: or_empty(h.notes),
        is_favorite: h.is_favorite,
    }
}

/// The trimmed pieces that are not empty, in order.
pub open spec fn clean_tags(pieces: Seq<Seq<char>>) -> Seq<Seq<char>>
    decreases pieces.len(),
{
    if pieces.len() == 0 {
        Seq::empty()
    } else {
        let rest = clean_tags(pieces.drop_last());
        let t = trim(pieces.last());
        if t.len() > 0 {
            rest.push(t)
        } else {
            rest
        }
    }
}

/// The tags of a comma-separated text: each piece trimmed, empty pieces dropped.
pub open spec fn tags_of_text(t: Seq<char>) -> Seq<Seq<char>> {
    clean_tags(split_on(t, ','))
}

/// A text as an option: absent when empty.
pub open spec fn nonempty_text(t: Seq<char>) -> Option<Seq<char>> {
    if t.len() == 0 {
        None
    } else {
        Some(t)
    }
}

/// The host that a form describes, with the given identifier: the port parsed
/// (22 when it does not parse), empty options absent, tags split at commas.
pub open spec fn form_host(f: HostFormDataView, id: Seq<char>) -> SshHostView {
    SshHostView {
        id,
        name: f.name,
        hostname: f.hostname,
        username: f.username,
        port: match parse_u16_spec(f.port) {
            Some(p) => p,
            None => 22,
        },
        identity_file: nonempty_text(f.identity_file),
        password: None,
        tags: tags_of_text(f.tags),
        notes: nonempty_text(f.notes),
        proxy_jump: nonempty_text(f.proxy_jump),
        env_vars: Seq::empty(),
        is_favorite: f.is_favorite,
        connect_count: 0,
        last_connected: None,
    }
}

/// A text, or the empty text when absent.
fn text_or_empty(o: &Option<String>) -> (r: String)
    ensures
        r@ == or_empty(opt_view(*o)),
{
    match o {
        Some(s) => s.clone(),
        None => String::new(),
    }
}

/// A text as an option: absent when empty.
fn optional_text(s: &String) -> (r: Option<String>)
    ensures
        opt_view(r) == nonempty_text(s@),
{
    if s.as_str().unicode_len() == 0 {
        None
    } else {
        Some(s.clone())
    }
}

/// The tags of a comma-separated text.
pub fn tags_from_text(t: &str) -> (r: Vec<String>)
    ensures
        views(r@) == tags_of_text(t@),
{
    let cs = chars_of(t);
    let pieces = split_chars(cs.as_slice(), ',');
    let ghost ps = char_views(pieces@);
    let mut r: Vec<String> = Vec::new();
    let mut i: usize = 0;
    while i < pieces.len()
        invariant
            i <= pieces@.len(),
            ps == char_views(pieces@),
            views(r@) == clean_tags(ps.take(i as int)),
        decreases pieces@.len() - i,
    {
        let piece = trim_text(pieces[i].as_slice());
        assert(ps.take(i + 1).drop_last() =~= ps.take(i as int));
        assert(ps.take(i + 1).last() == pieces@[i as int]@);
        if piece.len() > 0 {
            let ghost before = r@;
            r.push(string_of(piece.as_slice()));
            assert(views(r@) =~= views(before).push(piece@));
        }
        i += 1;
    }
    assert(ps.take(pieces@.len() as int) =~= ps);
    r
}

impl HostFormData {
    /// The form filled in from a host.
    pub fn from_host(host: &SshHost) -> (r: HostFormData)
        ensures
            r@ == form_of(host@),
    {
        HostFormData {
            name: host.name.clone(),
            hostname: host.hostname.clone(),
            username: host.username.clone(),
            port: decimal_string(host.port as u64),
            identity_file: text_or_empty(&host.identity_file),
            proxy_jump: text_or_empty(&host.proxy_jump),
            tags: join_strings(&host.tags, ","),
            notes: text_or_empty(&host.notes),
            is_favorite: host.is_favorite,
        }
    }

    /// The host that the form describes, with the given identifier.
    pub fn to_host_with_id(&self, id: String) -> (r: SshHost)
        ensures
            r@ == form_host(self@, id@),
            distinct_keys(r@.env_vars),
    {
        let chars = chars_of(self.port.as_str());
        let port = match parse_u16(chars.as_slice()) {
            Some(p) => p,
            None => 22,
        };
        let r = SshHost {
            id,
            name: self.name.clone(),
            hostname: self.hostname.clone(),
            username: self.username.clone(),
            port,
            identity_file: optional_text(&self.identity_file),
            password: None,
            tags: tags_from_text(self.tags.as_str()),
            notes: optional_text(&self.notes),
            proxy_jump: optional_text(&self.proxy_jump),
            env_vars: Vec::new(),
            is_favorite: self.is_favorite,
            connect_count: 0,
            last_connected: None,
        };
        assert(r@.env_vars =~= Seq::<(Seq<char>, Seq<char>)>::empty());
        r
    }

    /// The host that the form describes: with the given identifier, or with a
    /// fresh random one.
    pub fn to_host(&self, id: Option<String>) -> (r: SshHost)
        ensures
            r@ == form_host(self@, r@.id),
            id matches Some(i) ==> r@.id == i@,
            id is None ==> uuid_v4_text(r@.id),
            distinct_keys(r@.env_vars),
    {
        match id {
            Some(i) => self.to_host_with_id(i),
            None => {
                let fresh = SshHost::new(String::new(), String::new(), String::new());
                self.to_host_with_id(fresh.id)
            },
        }
    }

    /// A copy of the form.
    pub fn copy(&self) -> (r: HostFormData)
        ensures
            r@ == self@,
    {
        HostFormData {
            name: self.name.clone(),
            hostname: self.hostname.clone(),
            username: self.username.clone(),
            port: self.port.clone(),
            identity_file: self.identity_file.clone(),
            proxy_jump: self.proxy_jump.clone(),
            tags: self.tags.clone(),
            notes: self.notes.clone(),
            is_favorite: self.is_favorite,
        }
    }
}

// ---------------------------------------------------------------------------
// Lists of hosts
// ---------------------------------------------------------------------------

/// The hosts marked as favourite, in order.
pub open spec fn favorites_of(hosts: Seq<SshHostView>) -> Seq<SshHostView>
    decreases hosts.len(),
{
    if hosts.len() == 0 {
        hosts
    } else if hosts.last().is_favorite {
        favorites_of(hosts.drop_last()).push(hosts.last())
    } else {
        favorites_of(hosts.drop_last())
    }
}

/// The hosts that have been connected to, in order.
pub open spec fn connected_of(hosts: Seq<SshHostView>) -> Seq<SshHostView>
    decreases hosts.len(),
{
    if hosts.len() == 0 {
        hosts
    } else if hosts.last().last_connected is Some {
        connected_of(hosts.drop_last()).push(hosts.last())
    } else {
        connected_of(hosts.drop_last())
    }
}

/// The hosts whose identifier is listed, in order.
pub open spec fn in_group(hosts: Seq<SshHostView>, ids: Seq<Seq<char>>) -> Seq<SshHostView>
    decreases hosts.len(),
{
    if hosts.len() == 0 {
        hosts
    } else if ids.contains(hosts.last().id) {
        in_group(hosts.drop_last(), ids).push(hosts.last())
    } else {
        in_group(hosts.drop_last(), ids)
    }
}

/// The position of a host in the order of last connection, where never
/// connected comes below every time.
pub open spec fn recency_rank(h: SshHostView) -> int {
    match h.last_connected {
        Some(t) => t as int,
        None => i64::MIN - 1,
    }
}

/// The sort key of a host in a sort mode: names compare lower-cased, recency
/// and connection counts compare descending, favourites come first.
pub open spec fn mode_key(h: SshHostView, mode: SortMode) -> Key {
    match mode {
        SortMode::Alphabetical => (0, lowercase(h.name)),
        SortMode::Recent => (-recency_rank(h), Seq::<char>::empty()),
        SortMode::FavoritesFirst => (
            if h.is_favorite {
                0
            } else {
                1
            },
            lowercase(h.name),
        ),
        SortMode::MostConnected => (-(h.connect_count as int), Seq::<char>::empty()),
    }
}

/// The sort keys of a list of hosts.
pub open spec fn mode_keys(hosts: Seq<SshHostView>, mode: SortMode) -> Seq<Key> {
    Seq::new(hosts.len(), |i: int| mode_key(hosts[i], mode))
}

/// A list of hosts sorted stably in a sort mode.
pub open spec fn sorted_in_mode(hosts: Seq<SshHostView>, mode: SortMode) -> Seq<SshHostView> {
    sorted_by_keys(hosts, mode_keys(hosts, mode))
}

/// The hosts that have been connected to, most recent first.
pub open spec fn recent_of(hosts: Seq<SshHostView>) -> Seq<SshHostView> {
    sorted_in_mode(connected_of(hosts), SortMode::Recent)
}

fn host_key(h: &SshHost, mode: SortMode) -> (r: SortKey)
    ensures
        r@ == mode_key(h@, mode),
{
    match mode {
        SortMode::Alphabetical => SortKey { rank: 0, text: lowercase_chars(h.name.as_str()) },
        SortMode::Recent => {
            let rank: i128 = match h.last_connected {
                Some(t) => -(t as i128),
                None => 9223372036854775809,
            };
            let r = SortKey { rank, text: Vec::new() };
            assert(r.text@ =~= Seq::<char>::empty());
            r
        },
        SortMode::FavoritesFirst => SortKey {
            rank: if h.is_favorite {
                0
            } else {
                1
            },
            text: lowercase_chars(h.name.as_str()),
        },
        SortMode::MostConnected => {
            let r = SortKey { rank: -(h.connect_count as i128), text: Vec::new() };
            assert(r.text@ =~= Seq::<char>::empty());
            r
        },
    }
}

/// A list of hosts sorted stably in a sort mode.
pub fn sort_in_mode(hosts: &Vec<SshHost>, mode: SortMode) -> (r: Vec<SshHost>)
    ensures
        host_views(r@) == sorted_in_mode(host_views(hosts@), mode),
{
    let mut keys: Vec<SortKey> = Vec::new();
    let mut i: usize = 0;
    while i < hosts.len()
        invariant
            i <= hosts@.len(),
            keys@.len() == i,
            forall|k: int| 0 <= k < i ==> #[trigger] keys@[k]@ == mode_key(hosts@[k]@, mode),
        decreases hosts@.len() - i,
    {
        keys.push(host_key(&hosts[i], mode));
        i += 1;
    }
    assert(key_views(keys@) =~= mode_keys(host_views(hosts@), mode));
    sort_hosts_by_keys(hosts, &keys)
}

/// The hosts marked as favourite.
pub fn favorites(hosts: &Vec<SshHost>) -> (r: Vec<SshHost>)
    ensures
        host_views(r@) == favorites_of(host_views(hosts@)),
{
    let mut r: Vec<SshHost> = Vec::new();
    let mut i: usize = 0;
    while i < hosts.len()
        invariant
            i <= hosts@.len(),
            host_views(r@) == favorites_of(host_views(hosts@).take(i as int)),
        decreases hosts@.len() - i,
    {
        assert(host_views(hosts@).take(i + 1).drop_last() =~= host_views(hosts@).take(i as int));
        assert(host_views(hosts@).take(i + 1).last() == hosts@[i as int]@);
        if hosts[i].is_favorite {
            let ghost before = r@;
            r.push(hosts[i].copy());
            assert(host_views(r@) =~= host_views(before).push(hosts@[i as int]@));
        }
        i += 1;
    }
    assert(host_views(hosts@).take(hosts@.len() as int) =~= host_views(hosts@));
    r
}

/// The hosts that have been connected to.
pub fn connected(hosts: &Vec<SshHost>) -> (r: Vec<SshHost>)
    ensures
        host_views(r@) == connected_of(host_views(hosts@)),
{
    let mut r: Vec<SshHost> = Vec::new();
    let mut i: usize = 0;
    while i < hosts.len()
        invariant
            i <= hosts@.len(),
            host_views(r@) == connected_of(host_views(hosts@).take(i as int)),
        decreases hosts@.len() - i,
    {
        assert(host_views(hosts@).take(i + 1).drop_last() =~= host_views(hosts@).take(i as int));
        assert(host_views(hosts@).take(i + 1).last() == hosts@[i as int]@);
        if hosts[i].last_connected.is_some() {
            let ghost before = r@;
            r.push(hosts[i].copy());
            assert(host_views(r@) =~= host_views(before).push(hosts@[i as int]@));
        }
        i += 1;
    }
    assert(host_views(hosts@).take(hosts@.len() as int) =~= host_views(hosts@));
    r
}

/// Whether a text is in a list of texts.
pub fn contains_text(list: &Vec<String>, s: &str) -> (r: bool)
    ensures
        r == views(list@).contains(s@),
{
    let mut i: usize = 0;
    while i < list.len()
        invariant
            i <= list@.len(),
            forall|k: int| 0 <= k < i ==> #[trigger] list@[k]@ != s@,
        decreases list@.len() - i,
    {
        if str_eq(list[i].as_str(), s) {
            assert(views(list@)[i as int] == s@);
            return true;
        }
        i += 1;
    }
    assert forall|k: int| 0 <= k < views(list@).len() implies views(list@)[k] != s@ by {
        assert(views(list@)[k] == list@[k]@);
    }
    false
}

/// The hosts whose identifier is listed.
pub fn hosts_in_group(hosts: &Vec<SshHost>, ids: &Vec<String>) -> (r: Vec<SshHost>)
    ensures
        host_views(r@) == in_group(host_views(hosts@), views(ids@)),
{
    let mut r: Vec<SshHost> = Vec::new();
    let mut i: usize = 0;
    while i < hosts.len()
        invariant
            i <= hosts@.len(),
            host_views(r@) == in_group(host_views(hosts@).take(i as int), views(ids@)),
        decreases hosts@.len() - i,
    {
        assert(host_views(hosts@).take(i + 1).drop_last() =~= host_views(hosts@).take(i as int));
        assert(host_views(hosts@).take(i + 1).last() == hosts@[i as int]@);
        if contains_text(ids, hosts[i].id.as_str()) {
            let ghost before = r@;
            r.push(hosts[i].copy());
            assert(host_views(r@) =~= host_views(before).push(hosts@[i as int]@));
        }
        i += 1;
    }
    assert(host_views(hosts@).take(hosts@.len() as int) =~= host_views(hosts@));
    r
}

/// The hosts that have been connected to, most recent first.
pub fn recent(hosts: &Vec<SshHost>) -> (r: Vec<SshHost>)
    ensures
        host_views(r@) == recent_of(host_views(hosts@)),
{
    let c = connected(hosts);
    sort_in_mode(&c, SortMode::Recent)
}

// ---------------------------------------------------------------------------
// The state of the view
// ---------------------------------------------------------------------------

/// Everything the interactive view shows and remembers.
pub struct AppState {
    pub db: HostsDatabase,
    pub filtered_hosts: Vec<SshHost>,
    pub groups: Vec<Group>,
    pub favorite_hosts: Vec<SshHost>,
    pub recent_hosts: Vec<SshHost>,
    pub active_panel: Panel,
    pub input_mode: InputMode,
    pub sort_mode: SortMode,
    pub filter_mode: FilterMode,
    pub selected_group_index: usize,
    pub filtered_index: usize,
    pub search_query: String,
    pub command_buffer: String,
    pub view_mode: ViewMode,
    pub form_data: HostFormData,
    pub form_field_index: usize,
    pub last_command: AppCommand,
    pub message: Option<String>,
    pub should_quit: bool,
    pub config: AppConfig,
    pub theme_colors: ThemeColors,
}

/// The mathematical value of an [`AppState`].
pub struct AppStateView {
    pub db: HostsDatabaseView,
    pub filtered_hosts: Seq<SshHostView>,
    pub groups: Seq<GroupView>,
    pub favorite_hosts: Seq<SshHostView>,
    pub recent_hosts: Seq<SshHostView>,
    pub active_panel: Panel,
    pub input_mode: InputMode,
    pub sort_mode: SortMode,
    pub filter_mode: FilterMode,
    pub selected_group_index: usize,
    pub filtered_index: usize,
    pub search_query: Seq<char>,
    pub command_buffer: Seq<char>,
    pub view_mode: ViewMode,
    pub form_data: HostFormDataView,
    pub form_field_index: usize,
    pub last_command: AppCommand,
    pub message: Option<Seq<char>>,
    pub should_quit: bool,
    pub config: AppConfigView,
    pub theme_colors: ThemeColorsView,
}

impl View for AppState {
    type V = AppStateView;

    open spec fn view(&self) -> AppStateView {
        AppStateView {
            db: self.db@,
            filtered_hosts: host_views(self.filtered_hosts@),
            groups: group_views(self.groups@),
            favorite_hosts: host_views(self.favorite_hosts@),
            recent_hosts: host_views(self.recent_hosts@),
            active_panel: self.active_panel,
            input_mode: self.input_mode,
            sort_mode: self.sort_mode,
            filter_mode: self.filter_mode,
            selected_group_index: self.selected_group_index,
            filtered_index: self.filtered_index,
            search_query: self.search_query@,
            command_buffer: self.command_buffer@,
            view_mode: self.view_mode,
            form_data: self.form_data@,
            form_field_index: self.form_field_index,
            last_command: self.last_command,
            message: opt_view(self.message),
            should_quit: self.should_quit,
            config: self.config@,
            theme_colors: self.theme_colors@,
        }
    }
}

/// The hosts the list starts from in the state's filter mode; a group filter
/// whose group is gone shows all hosts.
pub open spec fn base_hosts(s: AppStateView) -> Seq<SshHostView> {
    match s.filter_mode {
        FilterMode::All => s.db.hosts,
        FilterMode::Favorites => s.favorite_hosts,
        FilterMode::Recent => s.recent_hosts,
        FilterMode::Group(idx) => if idx < s.groups.len() {
            in_group(s.db.hosts, s.groups[idx as int].hosts)
        } else {
            s.db.hosts
        },
    }
}

/// The hosts that the search keeps: all of the base when the lower-cased query
/// is empty, else the matching ones, best score first.
pub open spec fn listed_hosts(s: AppStateView) -> Seq<SshHostView> {
    let q = lowercase(s.search_query);
    let base = base_hosts(s);
    if q.len() == 0 {
        base
    } else {
        ranked(scored_hosts(base, q))
    }
}

/// The list shown: the listed hosts sorted stably in the sort mode.
pub open spec fn filtered_of(s: AppStateView) -> Seq<SshHostView> {
    sorted_in_mode(listed_hosts(s), s.sort_mode)
}

/// A selection moved back inside a list of the given length.
pub open spec fn clamp_index(i: usize, len: nat) -> usize {
    if i >= len {
        if len == 0 {
            0
        } else {
            (len - 1) as usize
        }
    } else {
        i
    }
}

/// The state with its list recomputed and its selection kept inside the list.
pub open spec fn refiltered(s: AppStateView) -> AppStateView {
    AppStateView {
        filtered_hosts: filtered_of(s),
        filtered_index: clamp_index(s.filtered_index, filtered_of(s).len()),
        ..s
    }
}

/// The state a new view starts in.
pub open spec fn initial_view(db: HostsDatabaseView, config: AppConfigView) -> AppStateView {
    refiltered(
        AppStateView {
            db,
            filtered_hosts: Seq::empty(),
            groups: db.groups,
            favorite_hosts: favorites_of(db.hosts),
            recent_hosts: recent_of(db.hosts),
            active_panel: Panel::Hosts,
            input_mode: InputMode::Normal,
            sort_mode: SortMode::Alphabetical,
            filter_mode: FilterMode::All,
            selected_group_index: 0,
            filtered_index: 0,
            search_query: Seq::empty(),
            command_buffer: Seq::empty(),
            view_mode: ViewMode::Normal,
            form_data: empty_form(),
            form_field_index: 0,
            last_command: AppCommand::Idle,
            message: None,
            should_quit: false,
            config,
            theme_colors: palette(config.theme),
        },
    )
}

/// The selection moved one up, unless at the top.
pub open spec fn moved_up(s: AppStateView) -> AppStateView {
    if s.filtered_index > 0 {
        AppStateView { filtered_index: (s.filtered_index - 1) as usize, ..s }
    } else {
        s
    }
}

/// The last position of a list of the given length, or 0 when empty.
pub open spec fn last_position(len: nat) -> usize {
    if len == 0 {
        0
    } else {
        (len - 1) as usize
    }
}

/// The selection moved one down, unless at the bottom.
pub open spec fn moved_down(s: AppStateView) -> AppStateView {
    if s.filtered_index < last_position(s.filtered_hosts.len()) {
        AppStateView { filtered_index: (s.filtered_index + 1) as usize, ..s }
    } else {
        s
    }
}

/// The form opened empty for a new host.
pub open spec fn add_started(s: AppStateView) -> AppStateView {
    AppStateView {
        form_data: empty_form(),
        form_field_index: 0,
        view_mode: ViewMode::AddHost,
        input_mode: InputMode::Insert,
        ..s
    }
}

/// The form opened on the selected host, when one is selected.
pub open spec fn edit_started(s: AppStateView) -> AppStateView {
    if s.filtered_index < s.filtered_hosts.len() {
        AppStateView {
            form_data: form_of(s.filtered_hosts[s.filtered_index as int]),
            form_field_index: 0,
            view_mode: ViewMode::EditHost,
            input_mode: InputMode::Insert,
            ..s
        }
    } else {
        s
    }
}

/// Whether the form has a name, a host name and a user name.
pub open spec fn form_complete(f: HostFormDataView) -> bool {
    f.name.len() > 0 && f.hostname.len() > 0 && f.username.len() > 0
}

/// The state after a successful save: the database's hosts replaced, the
/// message set, the list recomputed, and the form closed.
pub open spec fn after_save(
    s: AppStateView,
    hosts: Seq<SshHostView>,
    message: Option<Seq<char>>,
) -> AppStateView {
    AppStateView {
        view_mode: ViewMode::Normal,
        input_mode: InputMode::Normal,
        ..refiltered(AppStateView { db: HostsDatabaseView { hosts, ..s.db }, message, ..s })
    }
}

/// The state after saving an edited host: the first host with the selected
/// host's identifier is replaced by the form's host.
pub open spec fn edit_saved(s: AppStateView) -> AppStateView {
    if s.filtered_index < s.filtered_hosts.len() {
        let id = s.filtered_hosts[s.filtered_index as int].id;
        match host_index(s.db.hosts, id) {
            Some(i) => after_save(
                s,
                s.db.hosts.update(i, form_host(s.form_data, id)),
                Some("Host updated"@),
            ),
            None => after_save(s, s.db.hosts, s.message),
        }
    } else {
        after_save(s, s.db.hosts, s.message)
    }
}

/// What saving the form does: without a name, host name and user name only
/// the message changes and the answer is `false`; in the add view the form's
/// host, with a fresh 36-character identifier, is appended; in the edit view
/// the selected host is replaced; in both the answer is `true`. In any other
/// view nothing changes and the answer is `false`.
pub open spec fn saved(s: AppStateView, t: AppStateView, r: bool) -> bool {
    if !form_complete(s.form_data) {
        !r && t == (AppStateView {
            message: Some("Name, hostname and username are required"@),
            ..s
        })
    } else if s.view_mode == ViewMode::AddHost {
        &&& r
        &&& t.db.hosts.len() == s.db.hosts.len() + 1
        &&& t.db.hosts.last() == form_host(s.form_data, t.db.hosts.last().id)
        &&& uuid_v4_text(t.db.hosts.last().id)
        &&& t == after_save(s, s.db.hosts.push(t.db.hosts.last()), Some("Host added"@))
    } else if s.view_mode == ViewMode::EditHost {
        r && t == edit_saved(s)
    } else {
        !r && t == s
    }
}

/// The state after deleting the selected host, and whether one was deleted.
pub open spec fn deleted_current(s: AppStateView) -> (AppStateView, bool) {
    if s.filtered_index < s.filtered_hosts.len() {
        let id = s.filtered_hosts[s.filtered_index as int].id;
        let kept = hosts_without(s.db.hosts, id);
        if kept.len() < s.db.hosts.len() {
            (
                refiltered(
                    AppStateView {
                        db: HostsDatabaseView { hosts: kept, ..s.db },
                        favorite_hosts: favorites_of(kept),
                        recent_hosts: recent_of(kept),
                        message: Some("Host deleted"@),
                        ..s
                    },
                ),
                true,
            )
        } else {
            (s, false)
        }
    } else {
        (s, false)
    }
}

/// The state after deleting the group at a position of the group list, and
/// whether there was one.
pub open spec fn group_deleted(s: AppStateView, index: usize) -> (AppStateView, bool) {
    if index < s.groups.len() {
        let id = s.groups[index as int].id;
        let groups = groups_without(s.groups, id);
        (
            AppStateView {
                db: HostsDatabaseView { groups: groups_without(s.db.groups, id), ..s.db },
                groups,
                selected_group_index: if s.selected_group_index >= groups.len() + 3 {
                    (groups.len() + 1) as usize
                } else {
                    s.selected_group_index
                },
                ..s
            },
            true,
        )
    } else {
        (s, false)
    }
}

/// The filter that a position of the group panel selects: all hosts,
/// favourites, recent hosts, then the groups in order.
pub open spec fn group_filter(s: AppStateView) -> FilterMode {
    if s.selected_group_index < 3 {
        if s.selected_group_index == 0 {
            FilterMode::All
        } else if s.selected_group_index == 1 {
            FilterMode::Favorites
        } else {
            FilterMode::Recent
        }
    } else if s.selected_group_index - 3 < s.groups.len() {
        FilterMode::Group((s.selected_group_index - 3) as usize)
    } else {
        FilterMode::All
    }
}

/// The theme after a theme in cycling order.
pub open spec fn next_theme(t: Theme) -> Theme {
    match t {
        Theme::Dark => Theme::Light,
        Theme::Light => Theme::Nord,
        Theme::Nord => Theme::Gruvbox,
        Theme::Gruvbox => Theme::Catppuccin,
        Theme::Catppuccin => Theme::Dark,
    }
}

/// The state with the next theme and its colours.
pub open spec fn theme_cycled(s: AppStateView) -> AppStateView {
    AppStateView {
        config: AppConfigView { theme: next_theme(s.config.theme), ..s.config },
        theme_colors: palette(next_theme(s.config.theme)),
        ..s
    }
}

impl AppState {
    /// A new view of a database with the given settings: all hosts, sorted by
    /// name, the first selected, nothing typed.
    pub fn new(db: HostsDatabase, config: AppConfig) -> (r: AppState)
        ensures
            r@ == initial_view(db@, config@),
            r@.filtered_hosts == sorted_in_mode(db@.hosts, SortMode::Alphabetical),
    {
        let theme_colors = ThemeColors::from_theme(config.theme);
        let groups = copy_groups(&db.groups);
        let favorite_hosts = favorites(&db.hosts);
        let recent_hosts = recent(&db.hosts);
        let mut state = AppState {
            db,
            filtered_hosts: Vec::new(),
            groups,
            favorite_hosts,
            recent_hosts,
            active_panel: Panel::Hosts,
            input_mode: InputMode::Normal,
            sort_mode: SortMode::Alphabetical,
            filter_mode: FilterMode::All,
            selected_group_index: 0,
            filtered_index: 0,
            search_query: String::new(),
            command_buffer: String::new(),
            view_mode: ViewMode::Normal,
            form_data: HostFormData::default(),
            form_field_index: 0,
            last_command: AppCommand::Idle,
            message: None,
            should_quit: false,
            config,
            theme_colors,
        };
        assert(host_views(state.filtered_hosts@) =~= Seq::<SshHostView>::empty());
        state.apply_filter_and_sort();
        state
    }

    /// Recomputes the favourite and recent lists from a database.
    fn update_special_hosts(&mut self, db: &HostsDatabase)
        ensures
            final(self)@ == (AppStateView {
                favorite_hosts: favorites_of(db@.hosts),
                recent_hosts: recent_of(db@.hosts),
                ..old(self)@
            }),
    {
        self.favorite_hosts = favorites(&db.hosts);
        self.recent_hosts = recent(&db.hosts);
    }

    /// The selected host, when the selection is inside the list.
    pub fn current_host(&self) -> (r: Option<&SshHost>)
        ensures
            match r {
                Some(h) => self.filtered_index < self@.filtered_hosts.len() && h@
                    == self@.filtered_hosts[self.filtered_index as int],
                None => self.filtered_index >= self@.filtered_hosts.len(),
            },
    {
        if self.filtered_index < self.filtered_hosts.len() {
            Some(&self.filtered_hosts[self.filtered_index])
        } else {
            None
        }
    }

    /// The selected group, when the selection is inside the group list.
    pub fn current_group(&self) -> (r: Option<&Group>)
        ensures
            match r {
                Some(g) => self.selected_group_index < self@.groups.len() && g@
                    == self@.groups[self.selected_group_index as int],
                None => self.selected_group_index >= self@.groups.len(),
            },
    {
        if self.selected_group_index < self.groups.len() {
            Some(&self.groups[self.selected_group_index])
        } else {
            None
        }
    }

    /// Recomputes the list and keeps the selection inside it.
    pub fn filter_hosts(&mut self)
        ensures
            final(self)@ == refiltered(old(self)@),
            final(self)@.filtered_hosts.len() == 0 ==> final(self)@.filtered_index == 0,
            final(self)@.filtered_hosts.len() > 0 ==> final(self)@.filtered_index
                < final(self)@.filtered_hosts.len(),
            old(self)@.filtered_index < final(self)@.filtered_hosts.len()
                ==> final(self)@.filtered_index == old(self)@.filtered_index,
            old(self)@.search_query.len() == 0 ==> final(self)@.filtered_hosts == sorted_in_mode(
                base_hosts(old(self)@),
                old(self)@.sort_mode,
            ),
    {
        self.apply_filter_and_sort();
    }

    /// The hosts the list starts from.
    fn base(&self) -> (r: Vec<SshHost>)
        ensures
            host_views(r@) == base_hosts(self@),
    {
        match self.filter_mode {
            FilterMode::All => copy_hosts(&self.db.hosts),
            FilterMode::Favorites => copy_hosts(&self.favorite_hosts),
            FilterMode::Recent => copy_hosts(&self.recent_hosts),
            FilterMode::Group(idx) => {
                if idx < self.groups.len() {
                    hosts_in_group(&self.db.hosts, &self.groups[idx].hosts)
                } else {
                    copy_hosts(&self.db.hosts)
                }
            },
        }
    }

    fn apply_filter_and_sort(&mut self)
        ensures
            final(self)@ == refiltered(old(self)@),
            old(self)@.search_query.len() == 0 ==> final(self)@.filtered_hosts == sorted_in_mode(
                base_hosts(old(self)@),
                old(self)@.sort_mode,
            ),
    {
        let query = crate::search::to_lowercase(self.search_query.as_str());
        let base = self.base();
        let listed = if query.as_str().unicode_len() == 0 {
            base
        } else {
            search_hosts(&base, query.as_str())
        };
        assert(host_views(listed@) == listed_hosts(old(self)@));
        self.filtered_hosts = sort_in_mode(&listed, self.sort_mode);
        let len = self.filtered_hosts.len();
        if self.filtered_index >= len {
            self.filtered_index = if len == 0 {
                0
            } else {
                len - 1
            };
        }
    }

    /// Moves the selection one up, unless at the top.
    pub fn move_selection_up(&mut self)
        ensures
            final(self)@ == moved_up(old(self)@),
    {
        if self.filtered_index > 0 {
            self.filtered_index -= 1;
        }
    }

    /// Moves the selection one down, unless at the bottom.
    pub fn move_selection_down(&mut self)
        ensures
            final(self)@ == moved_down(old(self)@),
    {
        let len = self.filtered_hosts.len();
        let last = if len == 0 {
            0
        } else {
            len - 1
        };
        if self.filtered_index < last {
            self.filtered_index += 1;
        }
    }

    /// Selects the first host.
    pub fn move_to_top(&mut self)
        ensures
            final(self)@ == (AppStateView { filtered_index: 0, ..old(self)@ }),
    {
        self.filtered_index = 0;
    }

    /// Selects the last host (position 0 when the list is empty).
    pub fn move_to_bottom(&mut self)
        ensures
            final(self)@ == (AppStateView {
                filtered_index: last_position(old(self)@.filtered_hosts.len()),
                ..old(self)@
            }),
    {
        let len = self.filtered_hosts.len();
        self.filtered_index = if len == 0 {
            0
        } else {
            len - 1
        };
    }

    /// Opens the empty form for a new host.
    pub fn start_add_host(&mut self)
        ensures
            final(self)@ == add_started(old(self)@),
    {
        self.form_data = HostFormData::default();
        self.form_field_index = 0;
        self.view_mode = ViewMode::AddHost;
        self.input_mode = InputMode::Insert;
    }

    /// Opens the form on the selected host, when one is selected.
    pub fn start_edit_host(&mut self)
        ensures
            final(self)@ == edit_started(old(self)@),
    {
        let form = match self.current_host() {
            Some(host) => Some(HostFormData::from_host(host)),
            None => None,
        };
        match form {
            Some(f) => {
                self.form_data = f;
                self.form_field_index = 0;
                self.view_mode = ViewMode::EditHost;
                self.input_mode = InputMode::Insert;
            },
            None => {},
        }
    }

    /// Saves the form. Without a name, host name and user name it only sets a
    /// message and answers `false`. In the add view it appends the form's host
    /// with a fresh identifier; in the edit view it replaces the selected host.
    /// Either way the list is recomputed, the form closed, and the answer is
    /// `true`: the database then needs writing. In any other view nothing
    /// changes and the answer is `false`.
    pub fn save_host(&mut self) -> (r: bool)
        ensures
            saved(old(self)@, final(self)@, r),
    {
        if self.form_data.name.as_str().unicode_len() == 0
            || self.form_data.hostname.as_str().unicode_len() == 0
            || self.form_data.username.as_str().unicode_len() == 0 {
            self.message = Some(owned("Name, hostname and username are required"));
            return false;
        }
        match self.view_mode {
            ViewMode::AddHost => {
                let host = self.form_data.to_host(None);
                let ghost hv = host@;
                let ghost before = self.db.hosts@;
                self.db.hosts.push(host);
                assert(host_views(self.db.hosts@) =~= host_views(before).push(hv));
                self.message = Some(owned("Host added"));
            },
            ViewMode::EditHost => {
                let host_id = match self.current_host() {
                    Some(h) => Some(h.id.clone()),
                    None => None,
                };
                match host_id {
                    Some(id) => {
                        match crate::storage::find_host_index(&self.db.hosts, id.as_str()) {
                            Some(i) => {
                                let ghost hid = id@;
                                let new_host = self.form_data.to_host(Some(id));
                                let ghost before = self.db.hosts@;
                                self.db.hosts.set(i, new_host);
                                assert(host_views(self.db.hosts@) =~= host_views(before).update(
                                    i as int,
                                    form_host(old(self)@.form_data, hid),
                                ));
                                self.message = Some(owned("Host updated"));
                            },
                            None => {},
                        }
                    },
                    None => {},
                }
            },
            _ => {
                return false;
            },
        }
        self.filter_hosts();
        self.view_mode = ViewMode::Normal;
        self.input_mode = InputMode::Normal;
        true
    }

    /// Records that writing the database failed: the message becomes
    /// `Error saving: ` and the error.
    pub fn report_save_error(&mut self, error: &str)
        ensures
            final(self)@ == (AppStateView {
                message: Some("Error saving: "@ + error@),
                ..old(self)@
            }),
    {
        let mut m = owned("Error saving: ");
        crate::text::push_str(&mut m, error);
        self.message = Some(m);
    }

    /// Deletes every host with the selected host's identifier; on success the
    /// favourite and recent lists and the list are recomputed, the message is
    /// `Host deleted`, and the answer is `true`: the database then needs writing.
    pub fn delete_current_host(&mut self) -> (r: bool)
        ensures
            (final(self)@, r) == deleted_current(old(self)@),
    {
        let host_id = match self.current_host() {
            Some(h) => Some(h.id.clone()),
            None => None,
        };
        match host_id {
            Some(id) => {
                let len_before = self.db.hosts.len();
                let kept = crate::storage::retain_hosts_without(&self.db.hosts, id.as_str());
                proof {
                    crate::storage::lemma_hosts_without_len(host_views(self.db.hosts@), id@);
                }
                if kept.len() < len_before {
                    self.db.hosts = kept;
                    let db_copy = self.db.copy();
                    self.update_special_hosts(&db_copy);
                    self.message = Some(owned("Host deleted"));
                    self.filter_hosts();
                    return true;
                }
                false
            },
            None => false,
        }
    }

    /// Adds a group with a fresh identifier to the database and to the group list.
    /// The database then needs writing.
    pub fn add_group(&mut self, name: String)
        ensures
            final(self)@.groups.len() == old(self)@.groups.len() + 1,
            final(self)@ == (AppStateView {
                db: HostsDatabaseView {
                    groups: old(self)@.db.groups.push(final(self)@.groups.last()),
                    ..old(self)@.db
                },
                groups: old(self)@.groups.push(final(self)@.groups.last()),
                ..old(self)@
            }),
            final(self)@.groups.last().name == name@,
            final(self)@.groups.last().hosts.len() == 0,
            final(self)@.groups.last().is_expanded,
            uuid_v4_text(final(self)@.groups.last().id),
    {
        let group = Group::new(name);
        let ghost gv = group@;
        let ghost before_db = self.db.groups@;
        let ghost before = self.groups@;
        self.db.groups.push(group.copy());
        self.groups.push(group);
        assert(group_views(self.db.groups@) =~= group_views(before_db).push(gv));
        assert(group_views(self.groups@) =~= group_views(before).push(gv));
    }

    /// Deletes the group at a position of the group list from the list and from
    /// the database, keeping the group selection inside the panel. When a group
    /// was deleted, the database then needs writing.
    pub fn delete_group(&mut self, index: usize) -> (r: bool)
        requires
            old(self)@.groups.len() + 3 <= usize::MAX,
        ensures
            (final(self)@, r) == group_deleted(old(self)@, index),
    {
        if index < self.groups.len() {
            let id = self.groups[index].id.clone();
            let kept_db = crate::storage::retain_groups_without(&self.db.groups, id.as_str());
            let kept = crate::storage::retain_groups_without(&self.groups, id.as_str());
            proof {
                crate::storage::lemma_groups_without_len(group_views(self.groups@), id@);
            }
            self.db.groups = kept_db;
            self.groups = kept;
            if self.selected_group_index >= self.groups.len() + 3 {
                self.selected_group_index = self.groups.len() + 1;
            }
            return true;
        }
        false
    }

    /// Changes the filter mode and recomputes the list.
    pub fn set_filter_mode(&mut self, mode: FilterMode)
        ensures
            final(self)@ == refiltered(AppStateView { filter_mode: mode, ..old(self)@ }),
    {
        self.filter_mode = mode;
        self.filter_hosts();
    }

    /// Changes the sort mode and recomputes the list.
    pub fn set_sort_mode(&mut self, mode: SortMode)
        ensures
            final(self)@ == refiltered(AppStateView { sort_mode: mode, ..old(self)@ }),
    {
        self.sort_mode = mode;
        self.filter_hosts();
    }

    /// Sets the filter that the group panel's selection stands for and
    /// recomputes the list.
    pub fn update_filter_from_group(&mut self)
        ensures
            final(self)@ == refiltered(
                AppStateView { filter_mode: group_filter(old(self)@), ..old(self)@ },
            ),
    {
        let mode = if self.selected_group_index < 3 {
            if self.selected_group_index == 0 {
                FilterMode::All
            } else if self.selected_group_index == 1 {
                FilterMode::Favorites
            } else {
                FilterMode::Recent
            }
        } else {
            let group_idx = self.selected_group_index - 3;
            if group_idx < self.groups.len() {
                FilterMode::Group(group_idx)
            } else {
                FilterMode::All
            }
        };
        self.filter_mode = mode;
        self.filter_hosts();
    }

    /// Switches to the next theme in cycling order and its colours.
    pub fn cycle_theme(&mut self)
        ensures
            final(self)@ == theme_cycled(old(self)@),
    {
        let themes = Theme::all();
        let mut current_idx: usize = 0;
        let mut k: usize = 0;
        let mut found = false;
        while k < themes.len()
            invariant
                themes@ == theme_order(),
                k <= themes@.len(),
                found ==> current_idx < 5 && themes@[current_idx as int] == self.config.theme,
                !found ==> current_idx == 0 && forall|m: int| 0 <= m < k ==> themes@[m]
                    != self.config.theme,
            decreases themes@.len() - k,
        {
            if !found && themes[k] == self.config.theme {
                current_idx = k;
                found = true;
            }
            k += 1;
        }
        assert(found) by {
            if !found {
                let t = self.config.theme;
                match t {
                    Theme::Dark => assert(themes@[0] == t),
                    Theme::Light => assert(themes@[1] == t),
                    Theme::Nord => assert(themes@[2] == t),
                    Theme::Gruvbox => assert(themes@[3] == t),
                    Theme::Catppuccin => assert(themes@[4] == t),
                }
            }
        }
        let next_idx = (current_idx + 1) % themes.len();
        self.config.theme = themes[next_idx];
        self.theme_colors = ThemeColors::from_theme(self.config.theme);
    }

    /// The name of the current theme.
    pub fn current_theme_name(&self) -> (r: &'static str)
        ensures
            r@ == theme_name(self.config.theme),
    {
        self.config.theme.name()
    }
}

} // verus!
