//! What the screen shows: the texts of the panels, the form, the details and
//! the status bar, computed from the state; drawing them is left to the caller.
use vstd::prelude::*;
use vstd::string::*;
use vstd::utf8::encode_utf8;
use crate::app::{panel_name, AppState, AppStateView, FilterMode, InputMode, Panel, ViewMode};
use crate::config::theme_name;
use crate::models::{GroupView, SshHost, SshHostView};
use crate::ssh_config::or_empty;
use crate::text::{decimal, framed, join, join_strings, owned, push_decimal, push_str};

verus! {

/// Which screen is drawn.
#[derive(Debug, Clone, Copy, PartialEq, Eq, Structural)]
pub enum Screen {
    /// The add/edit form.
    Form,
    /// The key help.
    Help,
    /// Groups, hosts, details and the status bar.
    Panels,
}

/// The screen a view mode draws.
pub open spec fn screen_of(v: ViewMode) -> Screen {
    match v {
        ViewMode::AddHost | ViewMode::EditHost => Screen::Form,
        ViewMode::Help => Screen::Help,
        _ => Screen::Panels,
    }
}

/// The screen a view mode draws.
pub fn screen_for(v: ViewMode) -> (r: Screen)
    ensures
        r == screen_of(v),
{
    match v {
        ViewMode::AddHost | ViewMode::EditHost => Screen::Form,
        ViewMode::Help => Screen::Help,
        _ => Screen::Panels,
    }
}

/// How a line of a list is drawn.
#[derive(Debug, Clone, Copy, PartialEq, Eq, Structural)]
pub enum LineStyle {
    /// White.
    Plain,
    /// Cyan and bold: the selected line.
    Selected,
    /// Magenta: the favourites entry.
    Favorites,
    /// Yellow: the recent entry.
    Recent,
    /// Dark grey: a separator.
    Separator,
}

/// A line of a list and how it is drawn.
pub struct ListLine {
    pub text: String,
    pub style: LineStyle,
}

/// The views of a list of lines.
pub open spec fn line_views(lines: Seq<ListLine>) -> Seq<(Seq<char>, LineStyle)> {
    lines.map_values(|l: ListLine| (l.text@, l.style))
}

/// The title of the form.
pub open spec fn form_title_text(v: ViewMode) -> Seq<char> {
    match v {
        ViewMode::AddHost => "Add New Host"@,
        ViewMode::EditHost => "Edit Host"@,
        _ => "Form"@,
    }
}

/// The title of the form.
pub fn form_title(v: ViewMode) -> (r: &'static str)
    ensures
        r@ == form_title_text(v),
{
    match v {
        ViewMode::AddHost => "Add New Host",
        ViewMode::EditHost => "Edit Host",
        _ => "Form",
    }
}

/// The help line under the form.
pub open spec fn form_help_text(m: InputMode) -> Seq<char> {
    if m == InputMode::Insert {
        "Tab: next field | ESC: cancel | Enter: save"@
    } else {
        "Use keys to navigate"@
    }
}

/// The help line under the form.
pub fn form_help(m: InputMode) -> (r: &'static str)
    ensures
        r@ == form_help_text(m),
{
    if m == InputMode::Insert {
        "Tab: next field | ESC: cancel | Enter: save"
    } else {
        "Use keys to navigate"
    }
}

/// The labels of the form's fields, in order.
pub open spec fn field_labels() -> Seq<Seq<char>> {
    seq![
        "Name"@,
        "Hostname"@,
        "Username"@,
        "Port"@,
        "Identity File"@,
        "Proxy Jump"@,
        "Tags (comma separated)"@,
        "Notes"@,
    ]
}

/// `Label: value`, with `[Label]` standing for an empty value.
pub open spec fn field_line(label: Seq<char>, value: Seq<char>) -> Seq<char> {
    label + ": "@ + if value.len() == 0 {
        "["@ + label + "]"@
    } else {
        value
    }
}

/// The lines of the form: one per field, the field being typed in selected.
pub open spec fn form_lines_spec(s: AppStateView) -> Seq<(Seq<char>, LineStyle)> {
    let f = s.form_data;
    let values = seq![
        f.name,
        f.hostname,
        f.username,
        f.port,
        f.identity_file,
        f.proxy_jump,
        f.tags,
        f.notes,
    ];
    Seq::new(
        8,
        |i: int|
            (
                field_line(field_labels()[i], values[i]),
                if i == s.form_field_index {
                    LineStyle::Selected
                } else {
                    LineStyle::Plain
                },
            ),
    )
}

fn field_line_text(label: &str, value: &String) -> (r: String)
    ensures
        r@ == field_line(label@, value@),
{
    let mut line = owned(label);
    push_str(&mut line, ": ");
    if value.as_str().unicode_len() == 0 {
        let shown = framed("[", label, "]");
        push_str(&mut line, shown.as_str());
    } else {
        push_str(&mut line, value.as_str());
    }
    assert(line@ =~= field_line(label@, value@));
    line
}

fn style_at(i: usize, selected: usize) -> (r: LineStyle)
    ensures
        r == if i == selected {
            LineStyle::Selected
        } else {
            LineStyle::Plain
        },
{
    if i == selected {
        LineStyle::Selected
    } else {
        LineStyle::Plain
    }
}

/// The lines of the form.
pub fn form_lines(state: &AppState) -> (r: Vec<ListLine>)
    ensures
        line_views(r@) == form_lines_spec(state@),
{
    let f = &state.form_data;
    let idx = state.form_field_index;
    let mut lines: Vec<ListLine> = Vec::new();
    lines.push(ListLine { text: field_line_text("Name", &f.name), style: style_at(0, idx) });
    lines.push(ListLine { text: field_line_text("Hostname", &f.hostname), style: style_at(1, idx) });
    lines.push(ListLine { text: field_line_text("Username", &f.username), style: style_at(2, idx) });
    lines.push(ListLine { text: field_line_text("Port", &f.port), style: style_at(3, idx) });
    lines.push(
        ListLine {
            text: field_line_text("Identity File", &f.identity_file),
            style: style_at(4, idx),
        },
    );
    lines.push(
        ListLine { text: field_line_text("Proxy Jump", &f.proxy_jump), style: style_at(5, idx) },
    );
    lines.push(
        ListLine {
            text: field_line_text("Tags (comma separated)", &f.tags),
            style: style_at(6, idx),
        },
    );
    lines.push(ListLine { text: field_line_text("Notes", &f.notes), style: style_at(7, idx) });
    assert(line_views(lines@) =~= form_lines_spec(state@));
    lines
}

/// The lines of the group panel: all hosts, favourites, recent, then, when
/// there are groups, a separator and the group names; a group is selected
/// when the panel has the focus and the selection is on it.
pub open spec fn group_lines_spec(s: AppStateView) -> Seq<(Seq<char>, LineStyle)> {
    seq![
        ("★ All Hosts"@, LineStyle::Plain),
        ("♥ Favorites"@, LineStyle::Favorites),
        ("⏰ Recent"@, LineStyle::Recent),
    ] + if s.groups.len() == 0 {
        Seq::<(Seq<char>, LineStyle)>::empty()
    } else {
        seq![("--- Groups ---"@, LineStyle::Separator)] + Seq::new(
            s.groups.len(),
            |i: int|
                (
                    s.groups[i].name,
                    if i + 3 == s.selected_group_index && s.active_panel == Panel::Groups {
                        LineStyle::Selected
                    } else {
                        LineStyle::Plain
                    },
                ),
        )
    }
}

/// The lines of the group panel.
pub fn group_lines(state: &AppState) -> (r: Vec<ListLine>)
    ensures
        line_views(r@) == group_lines_spec(state@),
{
    let mut lines: Vec<ListLine> = Vec::new();
    lines.push(ListLine { text: owned("★ All Hosts"), style: LineStyle::Plain });
    lines.push(ListLine { text: owned("♥ Favorites"), style: LineStyle::Favorites });
    lines.push(ListLine { text: owned("⏰ Recent"), style: LineStyle::Recent });
    let ghost head = line_views(lines@);
    if state.groups.len() > 0 {
        lines.push(ListLine { text: owned("--- Groups ---"), style: LineStyle::Separator });
        let ghost want = group_lines_spec(state@);
        let mut i: usize = 0;
        while i < state.groups.len()
            invariant
                i <= state.groups@.len(),
                state.groups@.len() > 0,
                want == group_lines_spec(state@),
                lines@.len() == 4 + i,
                forall|k: int| 0 <= k < 4 + i ==> #[trigger] line_views(lines@)[k] == want[k],
            decreases state.groups@.len() - i,
        {
            let style = if state.selected_group_index >= 3 && i == state.selected_group_index - 3
                && state.active_panel == Panel::Groups {
                LineStyle::Selected
            } else {
                LineStyle::Plain
            };
            let ghost before = lines@;
            lines.push(ListLine { text: state.groups[i].name.clone(), style });
            assert forall|k: int| 0 <= k < 4 + i + 1 implies #[trigger] line_views(lines@)[k]
                == want[k] by {
                if k < 4 + i {
                    assert(lines@[k] == before[k]);
                    assert(line_views(before)[k] == want[k]);
                }
            }
            i += 1;
        }
        assert(line_views(lines@) =~= want);
    } else {
        assert(line_views(lines@) =~= group_lines_spec(state@));
    }
    lines
}

/// The name of a filter mode, as shown in the group panel's title.
pub open spec fn filter_label_text(m: FilterMode) -> Seq<char> {
    match m {
        FilterMode::All => "All Hosts"@,
        FilterMode::Favorites => "Favorites"@,
        FilterMode::Recent => "Recent"@,
        FilterMode::Group(_) => "Group"@,
    }
}

/// The title of the group panel: `Filter: ` and the filter's name.
pub fn groups_title(m: FilterMode) -> (r: String)
    ensures
        r@ == "Filter: "@ + filter_label_text(m),
{
    let label = match m {
        FilterMode::All => "All Hosts",
        FilterMode::Favorites => "Favorites",
        FilterMode::Recent => "Recent",
        FilterMode::Group(_) => "Group",
    };
    let mut t = owned("Filter: ");
    push_str(&mut t, label);
    t
}

/// The line of a host in the host panel: a star for a favourite (a circle
/// otherwise), then `user@host:port`.
pub open spec fn host_line(h: SshHostView) -> Seq<char> {
    (if h.is_favorite {
        "★"@
    } else {
        "○"@
    }) + " "@ + h.username + "@"@ + h.hostname + ":"@ + decimal(h.port as nat)
}

/// The lines of the host panel: one per listed host, the selected one
/// selected while the panel has the focus.
pub open spec fn host_lines_spec(s: AppStateView) -> Seq<(Seq<char>, LineStyle)> {
    Seq::new(
        s.filtered_hosts.len(),
        |i: int|
            (
                host_line(s.filtered_hosts[i]),
                if i == s.filtered_index && s.active_panel == Panel::Hosts {
                    LineStyle::Selected
                } else {
                    LineStyle::Plain
                },
            ),
    )
}

fn host_line_text(h: &SshHost) -> (r: String)
    ensures
        r@ == host_line(h@),
{
    let mut t = if h.is_favorite {
        owned("★")
    } else {
        owned("○")
    };
    push_str(&mut t, " ");
    push_str(&mut t, h.username.as_str());
    push_str(&mut t, "@");
    push_str(&mut t, h.hostname.as_str());
    push_str(&mut t, ":");
    push_decimal(&mut t, h.port as u64);
    assert(t@ =~= host_line(h@));
    t
}

/// The lines of the host panel.
pub fn host_lines(state: &AppState) -> (r: Vec<ListLine>)
    ensures
        line_views(r@) == host_lines_spec(state@),
{
    let mut lines: Vec<ListLine> = Vec::new();
    let mut i: usize = 0;
    while i < state.filtered_hosts.len()
        invariant
            i <= state.filtered_hosts@.len(),
            lines@.len() == i,
            forall|k: int| 0 <= k < i ==> #[trigger] line_views(lines@)[k] == host_lines_spec(
                state@,
            )[k],
        decreases state.filtered_hosts@.len() - i,
    {
        let style = if i == state.filtered_index && state.active_panel == Panel::Hosts {
            LineStyle::Selected
        } else {
            LineStyle::Plain
        };
        let ghost before = lines@;
        lines.push(ListLine { text: host_line_text(&state.filtered_hosts[i]), style });
        assert forall|k: int| 0 <= k < i + 1 implies #[trigger] line_views(lines@)[k]
            == host_lines_spec(state@)[k] by {
            if k < i {
                assert(lines@[k] == before[k]);
                assert(line_views(before)[k] == host_lines_spec(state@)[k]);
            }
        }
        i += 1;
    }
    assert(line_views(lines@) =~= host_lines_spec(state@));
    lines
}

/// The title of the host panel: the count of listed hosts, with the query
/// while one is typed.
pub open spec fn hosts_title_text(s: AppStateView) -> Seq<char> {
    if s.search_query.len() == 0 {
        "Hosts ("@ + decimal(s.filtered_hosts.len()) + ")"@
    } else {
        "Search: "@ + s.search_query + " ("@ + decimal(s.filtered_hosts.len()) + ")"@
    }
}

/// The title of the host panel.
pub fn hosts_title(state: &AppState) -> (r: String)
    ensures
        r@ == hosts_title_text(state@),
{
    let n = state.filtered_hosts.len();
    assert(state@.filtered_hosts.len() == n);
    let mut t = if state.search_query.as_str().unicode_len() == 0 {
        owned("Hosts (")
    } else {
        let mut t0 = owned("Search: ");
        push_str(&mut t0, state.search_query.as_str());
        push_str(&mut t0, " (");
        t0
    };
    push_decimal(&mut t, n as u64);
    push_str(&mut t, ")");
    assert(t@ =~= hosts_title_text(state@));
    t
}

/// The `%Y-%m-%d %H:%M` text of a Unix time in UTC, when chrono can represent it.
pub uninterp spec fn utc_minute(t: i64) -> Option<Seq<char>>;

/// `chrono::DateTime::from_timestamp(t, 0)` formatted with `%Y-%m-%d %H:%M`;
/// the result is the named value [`utc_minute`] of the time.
#[verifier::external_body]
fn format_utc_minute(t: i64) -> (r: Option<String>)
    ensures
        crate::models::opt_view(r) == utc_minute(t),
{
    match chrono::DateTime::from_timestamp(t, 0) {
        Some(dt) => Some(dt.format("%Y-%m-%d %H:%M").to_string()),
        None => None,
    }
}

/// The time text of a host's last connection, when it has one and chrono can
/// represent it.
pub open spec fn minute_of(h: SshHostView) -> Option<Seq<char>> {
    match h.last_connected {
        Some(t) => utc_minute(t),
        None => None,
    }
}

/// When a host was last connected to, given the text of that time: `never`,
/// the text, or `unknown` when there is no text.
pub open spec fn last_text(h: SshHostView, minute: Option<Seq<char>>) -> Seq<char> {
    match h.last_connected {
        None => "never"@,
        Some(_) => match minute {
            Some(x) => x,
            None => "unknown"@,
        },
    }
}

/// An optional text, or `none`.
pub open spec fn or_none(o: Option<Seq<char>>) -> Seq<char> {
    match o {
        Some(v) => v,
        None => "none"@,
    }
}

/// The details of a host, given the text of its last connection time.
pub open spec fn details_with(h: SshHostView, minute: Option<Seq<char>>) -> Seq<char> {
    h.name + "\n\nHost: "@ + h.hostname + ":"@ + decimal(h.port as nat) + "\nUser: "@ + h.username
        + "@"@ + h.hostname + "\nIdentity: "@ + or_none(h.identity_file) + "\nProxy: "@ + or_none(
        h.proxy_jump,
    ) + "\nTags: "@ + join(h.tags, ", "@) + "\n\nNotes:\n"@ + or_none(h.notes)
        + "\n\nConnections: "@ + decimal(h.connect_count as nat) + "\nLast: "@ + last_text(
        h,
        minute,
    )
}

/// The details of a host.
pub open spec fn details_spec(h: SshHostView) -> Seq<char> {
    details_with(h, minute_of(h))
}

fn push_or_none(t: &mut String, o: &Option<String>)
    ensures
        final(t)@ == old(t)@ + or_none(crate::models::opt_view(*o)),
{
    match o {
        Some(v) => push_str(t, v.as_str()),
        None => push_str(t, "none"),
    }
}

/// The details of a host, given the text of its last connection time.
#[verifier::rlimit(30)]
pub fn details_text_with(h: &SshHost, minute: Option<String>) -> (r: String)
    ensures
        r@ == details_with(h@, crate::models::opt_view(minute)),
{
    let mut t = h.name.clone();
    push_str(&mut t, "\n\nHost: ");
    push_str(&mut t, h.hostname.as_str());
    push_str(&mut t, ":");
    push_decimal(&mut t, h.port as u64);
    push_str(&mut t, "\nUser: ");
    push_str(&mut t, h.username.as_str());
    push_str(&mut t, "@");
    push_str(&mut t, h.hostname.as_str());
    let ghost a = t@;
    push_str(&mut t, "\nIdentity: ");
    push_or_none(&mut t, &h.identity_file);
    push_str(&mut t, "\nProxy: ");
    push_or_none(&mut t, &h.proxy_jump);
    push_str(&mut t, "\nTags: ");
    let tags = join_strings(&h.tags, ", ");
    push_str(&mut t, tags.as_str());
    let ghost b = t@;
    push_str(&mut t, "\n\nNotes:\n");
    push_or_none(&mut t, &h.notes);
    push_str(&mut t, "\n\nConnections: ");
    push_decimal(&mut t, h.connect_count as u64);
    push_str(&mut t, "\nLast: ");
    match h.last_connected {
        None => push_str(&mut t, "never"),
        Some(_) => match minute {
            Some(x) => push_str(&mut t, x.as_str()),
            None => push_str(&mut t, "unknown"),
        },
    }
    t
}

/// The details of a host.
pub fn details_text(h: &SshHost) -> (r: String)
    ensures
        r@ == details_spec(h@),
{
    let minute = match h.last_connected {
        Some(when) => format_utc_minute(when),
        None => None,
    };
    details_text_with(h, minute)
}

/// The details of the selected host, or `No host selected`.
pub open spec fn details_panel_text(s: AppStateView) -> Seq<char> {
    if s.filtered_index < s.filtered_hosts.len() {
        details_spec(s.filtered_hosts[s.filtered_index as int])
    } else {
        "No host selected"@
    }
}

/// The text of the details panel, and whether a host is selected.
pub fn details_panel(state: &AppState) -> (r: (String, bool))
    ensures
        r.0@ == details_panel_text(state@),
        r.1 == (state@.filtered_index < state@.filtered_hosts.len()),
{
    match state.current_host() {
        Some(h) => (details_text(h), true),
        None => (owned("No host selected"), false),
    }
}

/// The left part of the status bar.
pub open spec fn status_left_text(s: AppStateView) -> Seq<char> {
    match s.input_mode {
        InputMode::Normal => "["@ + panel_name(s.active_panel) + "] "@ + decimal(
            s.filtered_hosts.len(),
        ) + " hosts"@,
        InputMode::Search => "Search: "@ + s.search_query,
        InputMode::Command => ":"@ + s.command_buffer,
        InputMode::Insert => "Edit mode"@,
    }
}

/// The right part of the status bar: the message, or the keys of the mode.
pub open spec fn status_right_text(s: AppStateView) -> Seq<char> {
    match s.message {
        Some(m) => m,
        None => match s.input_mode {
            InputMode::Normal => "q:quit /:search s:sort t:theme a:add e:edit d:delete p:ping Enter:connect ["@
                + theme_name(s.config.theme) + "]"@,
            InputMode::Search => "ESC:cancel Enter:search"@,
            InputMode::Command => "ESC:cancel Enter:execute"@,
            InputMode::Insert => "Tab:next field ESC:cancel Enter:save"@,
        },
    }
}

/// The left part of the status bar.
pub fn status_left(state: &AppState) -> (r: String)
    ensures
        r@ == status_left_text(state@),
{
    match state.input_mode {
        InputMode::Normal => {
            let mut t = framed("[", state.active_panel.name(), "] ");
            let n = state.filtered_hosts.len();
            assert(state@.filtered_hosts.len() == n);
            push_decimal(&mut t, n as u64);
            push_str(&mut t, " hosts");
            t
        },
        InputMode::Search => {
            let mut t = owned("Search: ");
            push_str(&mut t, state.search_query.as_str());
            t
        },
        InputMode::Command => {
            let mut t = owned(":");
            push_str(&mut t, state.command_buffer.as_str());
            t
        },
        InputMode::Insert => owned("Edit mode"),
    }
}

/// The right part of the status bar.
pub fn status_right(state: &AppState) -> (r: String)
    ensures
        r@ == status_right_text(state@),
{
    match &state.message {
        Some(m) => m.clone(),
        None => match state.input_mode {
            InputMode::Normal => framed(
                "q:quit /:search s:sort t:theme a:add e:edit d:delete p:ping Enter:connect [",
                state.current_theme_name(),
                "]",
            ),
            InputMode::Search => owned("ESC:cancel Enter:search"),
            InputMode::Command => owned("ESC:cancel Enter:execute"),
            InputMode::Insert => owned("Tab:next field ESC:cancel Enter:save"),
        },
    }
}

/// The spaces between the two parts of the status bar: the width less both
/// parts' lengths in UTF-8 bytes, or none when they do not fit.
pub open spec fn status_padding_spec(width: u16, left: Seq<char>, right: Seq<char>) -> nat {
    let used = encode_utf8(left).len() + encode_utf8(right).len();
    if width >= used {
        (width - used) as nat
    } else {
        0
    }
}

/// The spaces between the two parts of the status bar.
pub fn status_padding(width: u16, left: &str, right: &str) -> (r: usize)
    requires
        encode_utf8(left@).len() <= usize::MAX,
        encode_utf8(right@).len() <= usize::MAX,
    ensures
        r == status_padding_spec(width, left@, right@),
{
    let w = width as usize;
    let l = left.len();
    let rl = right.len();
    if l > w {
        0
    } else if rl > w - l {
        0
    } else {
        w - l - rl
    }
}

/// The line of a host in the command-line listing: `name user@host:port`.
pub open spec fn listing_line_spec(h: SshHostView) -> Seq<char> {
    h.name + " "@ + h.username + "@"@ + h.hostname + ":"@ + decimal(h.port as nat)
}

/// The line of a host in the command-line listing.
pub fn listing_line(h: &SshHost) -> (r: String)
    ensures
        r@ == listing_line_spec(h@),
{
    let mut t = h.name.clone();
    push_str(&mut t, " ");
    push_str(&mut t, h.username.as_str());
    push_str(&mut t, "@");
    push_str(&mut t, h.hostname.as_str());
    push_str(&mut t, ":");
    push_decimal(&mut t, h.port as u64);
    assert(t@ =~= listing_line_spec(h@));
    t
}

} // verus!
