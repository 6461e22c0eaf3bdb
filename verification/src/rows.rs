//! The table rows of the dashboard: one per alive port, then the offline
//! registered apps, each with its HTML.
use std::collections::HashMap;
use vstd::prelude::*;

use crate::model::{App, ContainerPort, KnownPort};
use crate::text::{
    bool_text, class_chars, css_class_name, decimal, escaped, html_escape, push_bool,
    push_decimal, push_signed_decimal, signed_decimal, count_of, is_markup_char, markup_of,
    lemma_markup_concat, lemma_markup_of_class_chars, lemma_markup_of_escaped, lemma_count_in_markup,
};

verus! {

/// Per-row data sent over SSE for targeted DOM patching.
#[derive(Debug, Clone)]
pub struct RowData {
    pub port: u16,
    pub name: String,
    pub category: String,
    pub app_id: i64,
    pub alive: bool,
    pub source: String,
    pub html: String,
}

/// A row with its texts taken as character sequences.
#[verifier::ext_equal]
pub struct RowView {
    pub port: u16,
    pub name: Seq<char>,
    pub category: Seq<char>,
    pub app_id: i64,
    pub alive: bool,
    pub source: Seq<char>,
    pub html: Seq<char>,
}

impl View for RowData {
    type V = RowView;

    open spec fn view(&self) -> RowView {
        RowView {
            port: self.port,
            name: self.name@,
            category: self.category@,
            app_id: self.app_id,
            alive: self.alive,
            source: self.source@,
            html: self.html@,
        }
    }
}

pub const BADGE_OPEN: &'static str = r#"<span class="badge badge-"#;
pub const BADGE_LABEL: &'static str = r#"">"#;
pub const SPAN_CLOSE: &'static str = r#"</span>"#;

/// The badge of a category that is already escaped; nothing for an empty one.
pub open spec fn badge_html(category: Seq<char>) -> Seq<char> {
    if category.len() == 0 {
        Seq::empty()
    } else {
        BADGE_OPEN@ + class_chars(category) + BADGE_LABEL@ + category + SPAN_CLOSE@
    }
}

/// Expects a pre-escaped category string for the display text.
/// The CSS class uses only alphanumeric/hyphen characters.
pub fn category_badge(category: &str) -> (out: String)
    ensures
        out@ == badge_html(category@),
{
    if category.is_empty() {
        return String::new();
    }
    let css_class = css_class_name(category);
    let mut out = String::new();
    out.append(BADGE_OPEN);
    out.append(css_class.as_str());
    out.append(BADGE_LABEL);
    out.append(category);
    out.append(SPAN_CLOSE);
    out
}

pub const UNNAMED_OPEN: &'static str = r#"<span class="unnamed">port "#;
pub const UNNAMED_CLOSE: &'static str = r#"</span><span class="add-label" onclick="event.stopPropagation();inlineEdit(event, this.closest('.row'))">add details</span>"#;
pub const STATUS_ALIVE: &'static str = "alive";
pub const STATUS_DOWN: &'static str = "down";
pub const CLASS_ALIVE: &'static str = "row";
pub const CLASS_DOWN: &'static str = "row is-down";
pub const OFFLINE_PILL: &'static str = r#"<span class="offline-pill">offline</span>"#;
pub const SOURCE_PILL_OPEN: &'static str = r#"<span class="source-pill">"#;

pub const ROW_OPEN: &'static str = r#"
        <tr class=""#;
pub const ROW_PORT: &'static str = r#"" data-port=""#;
pub const ROW_APP_ID: &'static str = r#"" data-app-id=""#;
pub const ROW_NAME: &'static str = r#"" data-name=""#;
pub const ROW_CATEGORY: &'static str = r#"" data-category=""#;
pub const ROW_ALIVE: &'static str = r#"" data-alive=""#;
pub const ROW_SOURCE: &'static str = r#"" data-source=""#;
pub const ROW_ONCLICK: &'static str = r#""
            onclick="go("#;
pub const ROW_STATUS: &'static str = r#")" oncontextmenu="showRowMenu(event, this)">
          <td class="c-status"><span class="dot "#;
pub const ROW_DISPLAY: &'static str = r#""></span></td>
          <td class="c-name">
            <span class="c-name-text">"#;
pub const ROW_NAME_INPUT: &'static str = r#"</span>
            <input class="inline-input" data-field="name" value=""#;
pub const ROW_BADGE: &'static str = r#"" placeholder="name" style="display:none" />
          </td>
          <td class="c-badge">
            <span class="c-badge-text">"#;
pub const ROW_CATEGORY_INPUT: &'static str = r#"</span>
            <input class="inline-input cat-inline" data-field="category" value=""#;
pub const ROW_SOURCE_CELL: &'static str = r#"" placeholder="tag" style="display:none" />
          </td>
          <td class="c-source">"#;
pub const ROW_PORT_CELL: &'static str = r#"</td>
          <td class="c-port">"#;
pub const ROW_END: &'static str = r#"</td>
          <td class="c-actions"><button class="act-edit" onclick="event.stopPropagation();inlineEdit(event, this.closest('.row'))" title="Edit"><svg width="13" height="13" viewBox="0 0 24 24" fill="none" stroke="currentColor" stroke-width="2" stroke-linecap="round" stroke-linejoin="round"><path d="M17 3a2.85 2.83 0 1 1 4 4L7.5 20.5 2 22l1.5-5.5Z"/></svg></button><button class="act-more" onclick="event.stopPropagation();showRowMenu(event, this.closest('.row'))" title="More"><svg width="13" height="13" viewBox="0 0 24 24" fill="currentColor"><circle cx="12" cy="5" r="1.5"/><circle cx="12" cy="12" r="1.5"/><circle cx="12" cy="19" r="1.5"/></svg></button></td>
        </tr>"#;

/// What the name cell shows: the escaped name, or the port with an "add details" link.
pub open spec fn display_name_html(port: u16, name: Seq<char>) -> Seq<char> {
    if name.len() == 0 {
        UNNAMED_OPEN@ + decimal(port as nat) + UNNAMED_CLOSE@
    } else {
        escaped(name)
    }
}

/// The pill naming where a port comes from; nothing for an empty source.
pub open spec fn source_pill_html(source: Seq<char>) -> Seq<char> {
    if source.len() == 0 {
        Seq::empty()
    } else {
        SOURCE_PILL_OPEN@ + escaped(source) + SPAN_CLOSE@
    }
}

/// The `<tr>` of one port.
pub open spec fn row_html(
    port: u16,
    name: Seq<char>,
    category: Seq<char>,
    app_id: i64,
    alive: bool,
    source: Seq<char>,
) -> Seq<char> {
    let name_val = escaped(name);
    let cat_esc = escaped(category);
    let row_class = if alive { CLASS_ALIVE@ } else { CLASS_DOWN@ };
    let status = if alive { STATUS_ALIVE@ } else { STATUS_DOWN@ };
    let offline_pill = if alive { Seq::empty() } else { OFFLINE_PILL@ };
    ROW_OPEN@ + row_class + ROW_PORT@ + decimal(port as nat) + ROW_APP_ID@ + signed_decimal(
        app_id as int,
    ) + ROW_NAME@ + name_val + ROW_CATEGORY@ + cat_esc + ROW_ALIVE@ + bool_text(alive)
        + ROW_SOURCE@ + escaped(source) + ROW_ONCLICK@ + decimal(port as nat) + ROW_STATUS@
        + status + ROW_DISPLAY@ + display_name_html(port, name) + ROW_NAME_INPUT@ + name_val
        + ROW_BADGE@ + badge_html(cat_esc) + ROW_CATEGORY_INPUT@ + cat_esc + ROW_SOURCE_CELL@
        + source_pill_html(source) + offline_pill + ROW_PORT_CELL@ + decimal(port as nat)
        + ROW_END@
}

/// The row of one port, with its HTML.
pub open spec fn row_view(
    port: u16,
    name: Seq<char>,
    category: Seq<char>,
    app_id: i64,
    alive: bool,
    source: Seq<char>,
) -> RowView {
    RowView {
        port,
        name,
        category,
        app_id,
        alive,
        source,
        html: row_html(port, name, category, app_id, alive, source),
    }
}

fn display_name_text(port: u16, name: &str, name_esc: &String) -> (out: String)
    requires
        name_esc@ == escaped(name@),
    ensures
        out@ == display_name_html(port, name@),
{
    if name.is_empty() {
        let mut out = String::new();
        out.append(UNNAMED_OPEN);
        push_decimal(&mut out, port as u64);
        out.append(UNNAMED_CLOSE);
        out
    } else {
        name_esc.clone()
    }
}

fn source_pill_text(source: &str, source_esc: &String) -> (out: String)
    requires
        source_esc@ == escaped(source@),
    ensures
        out@ == source_pill_html(source@),
{
    if source.is_empty() {
        String::new()
    } else {
        let mut out = String::new();
        out.append(SOURCE_PILL_OPEN);
        out.append(source_esc.as_str());
        out.append(SPAN_CLOSE);
        out
    }
}

fn row_text(
    port: u16,
    name: &str,
    category: &str,
    app_id: i64,
    alive: bool,
    source: &str,
) -> (html: String)
    ensures
        html@ == row_html(port, name@, category@, app_id, alive, source@),
{
    let name_esc = html_escape(name);
    let cat_esc = html_escape(category);
    let display_name = display_name_text(port, name, &name_esc);
    let badge = category_badge(cat_esc.as_str());
    let status = if alive { STATUS_ALIVE } else { STATUS_DOWN };
    let row_class = if alive { CLASS_ALIVE } else { CLASS_DOWN };
    let offline_pill = if alive { String::new() } else { OFFLINE_PILL.to_owned() };
    let source_esc = html_escape(source);
    let source_pill = source_pill_text(source, &source_esc);

    let mut html = String::new();
    html.append(ROW_OPEN);
    html.append(row_class);
    html.append(ROW_PORT);
    push_decimal(&mut html, port as u64);
    html.append(ROW_APP_ID);
    push_signed_decimal(&mut html, app_id);
    html.append(ROW_NAME);
    html.append(name_esc.as_str());
    html.append(ROW_CATEGORY);
    html.append(cat_esc.as_str());
    html.append(ROW_ALIVE);
    push_bool(&mut html, alive);
    html.append(ROW_SOURCE);
    html.append(source_esc.as_str());
    html.append(ROW_ONCLICK);
    push_decimal(&mut html, port as u64);
    html.append(ROW_STATUS);
    html.append(status);
    html.append(ROW_DISPLAY);
    html.append(display_name.as_str());
    html.append(ROW_NAME_INPUT);
    html.append(name_esc.as_str());
    html.append(ROW_BADGE);
    html.append(badge.as_str());
    html.append(ROW_CATEGORY_INPUT);
    html.append(cat_esc.as_str());
    html.append(ROW_SOURCE_CELL);
    html.append(source_pill.as_str());
    html.append(offline_pill.as_str());
    html.append(ROW_PORT_CELL);
    push_decimal(&mut html, port as u64);
    html.append(ROW_END);
    html
}

/// The row of one port: its fields and its `<tr>`.
pub fn render_single_row(
    port: u16,
    name: &str,
    category: &str,
    app_id: i64,
    alive: bool,
    source: &str,
) -> (row: RowData)
    ensures
        row@ == row_view(port, name@, category@, app_id, alive, source@),
{
    let html = row_text(port, name, category, app_id, alive, source);
    RowData {
        port,
        name: name.to_owned(),
        category: category.to_owned(),
        app_id,
        alive,
        source: source.to_owned(),
        html,
    }
}


/// The first app registered on `port`.
pub open spec fn app_at(apps: Seq<App>, port: int) -> Option<int>
    decreases apps.len(),
{
    if apps.len() == 0 {
        None
    } else {
        match app_at(apps.drop_last(), port) {
            Some(i) => Some(i),
            None => if apps.last().port == port {
                Some(apps.len() - 1)
            } else {
                None
            },
        }
    }
}

/// The last container entry published on `port` (later entries replace earlier ones).
pub open spec fn container_at(containers: Seq<ContainerPort>, port: u16) -> Option<int>
    decreases containers.len(),
{
    if containers.len() == 0 {
        None
    } else if containers.last().port == port {
        Some(containers.len() - 1)
    } else {
        container_at(containers.drop_last(), port)
    }
}

/// The first well-known service on `port`.
pub open spec fn known_at(known: Seq<KnownPort>, port: u16) -> Option<int>
    decreases known.len(),
{
    if known.len() == 0 {
        None
    } else {
        match known_at(known.drop_last(), port) {
            Some(i) => Some(i),
            None => if known.last().port == port {
                Some(known.len() - 1)
            } else {
                None
            },
        }
    }
}

/// Whether an alive port is shown among the well-known services: it is
/// neither a registered app nor a container port, and is a known service.
pub open spec fn is_known_service(
    port: u16,
    apps: Seq<App>,
    containers: Seq<ContainerPort>,
    known: Seq<KnownPort>,
) -> bool {
    app_at(apps, port as int) is None && container_at(containers, port) is None && known_at(
        known,
        port,
    ) is Some
}

/// The row of an alive port.
pub open spec fn alive_row(
    port: u16,
    apps: Seq<App>,
    containers: Seq<ContainerPort>,
    known: Seq<KnownPort>,
) -> RowView {
    let source = match container_at(containers, port) {
        Some(c) => containers[c].source@,
        None => Seq::empty(),
    };
    match app_at(apps, port as int) {
        Some(a) => row_view(port, apps[a].name@, apps[a].category@, apps[a].id, true, source),
        None => match container_at(containers, port) {
            Some(c) => row_view(
                port,
                containers[c].container_name@,
                Seq::empty(),
                0,
                true,
                containers[c].source@,
            ),
            None => match known_at(known, port) {
                Some(k) => row_view(port, known[k].name@, "macos"@, 0, true, Seq::empty()),
                None => row_view(port, Seq::empty(), Seq::empty(), 0, true, Seq::empty()),
            },
        },
    }
}

/// The rows of the alive ports that are not well-known services, in port order.
pub open spec fn alive_rows(
    ports: Seq<u16>,
    apps: Seq<App>,
    containers: Seq<ContainerPort>,
    known: Seq<KnownPort>,
) -> Seq<RowView>
    decreases ports.len(),
{
    if ports.len() == 0 {
        Seq::empty()
    } else {
        let rest = alive_rows(ports.drop_last(), apps, containers, known);
        if is_known_service(ports.last(), apps, containers, known) {
            rest
        } else {
            rest.push(alive_row(ports.last(), apps, containers, known))
        }
    }
}

/// The rows of the alive ports that are well-known services, in port order.
pub open spec fn known_rows(
    ports: Seq<u16>,
    apps: Seq<App>,
    containers: Seq<ContainerPort>,
    known: Seq<KnownPort>,
) -> Seq<RowView>
    decreases ports.len(),
{
    if ports.len() == 0 {
        Seq::empty()
    } else {
        let rest = known_rows(ports.drop_last(), apps, containers, known);
        if is_known_service(ports.last(), apps, containers, known) {
            rest.push(alive_row(ports.last(), apps, containers, known))
        } else {
            rest
        }
    }
}

/// The port an app is shown on: its port as a `u16`, or 0 when it does not fit.
pub open spec fn shown_port(port: i64) -> u16 {
    if 0 <= port <= u16::MAX {
        port as u16
    } else {
        0
    }
}

/// The rows of the registered apps whose shown port is not alive, in app order.
pub open spec fn down_rows(apps: Seq<App>, alive: Seq<u16>) -> Seq<RowView>
    decreases apps.len(),
{
    if apps.len() == 0 {
        Seq::empty()
    } else {
        let rest = down_rows(apps.drop_last(), alive);
        let app = apps.last();
        let port = shown_port(app.port);
        if alive.contains(port) {
            rest
        } else {
            rest.push(row_view(port, app.name@, app.category@, app.id, false, Seq::empty()))
        }
    }
}

/// All rows: alive ports, then well-known services, then offline registered apps.
pub open spec fn all_rows(
    alive: Seq<u16>,
    apps: Seq<App>,
    containers: Seq<ContainerPort>,
    known: Seq<KnownPort>,
) -> Seq<RowView> {
    alive_rows(alive, apps, containers, known) + known_rows(alive, apps, containers, known)
        + down_rows(apps, alive)
}

/// The views of a list of rows.
pub open spec fn row_views(rows: Seq<RowData>) -> Seq<RowView> {
    rows.map_values(|r: RowData| r@)
}

fn find_app(apps: &[App], port: i64) -> (r: Option<usize>)
    ensures
        match r {
            Some(i) => i < apps@.len() && app_at(apps@, port as int) == Some(i as int),
            None => app_at(apps@, port as int) is None,
        },
{
    let mut i: usize = 0;
    while i < apps.len()
        invariant
            i <= apps@.len(),
            app_at(apps@.take(i as int), port as int) is None,
        decreases apps@.len() - i,
    {
        assert(apps@.take(i + 1).drop_last() =~= apps@.take(i as int));
        if apps[i].port == port {
            proof { lemma_app_at_prefix(apps@, i as int + 1, port as int); }
            return Some(i);
        }
        i = i + 1;
    }
    assert(apps@.take(apps@.len() as int) =~= apps@);
    None
}

proof fn lemma_app_at_prefix(apps: Seq<App>, n: int, port: int)
    requires
        0 <= n <= apps.len(),
        app_at(apps.take(n), port) is Some,
    ensures
        app_at(apps, port) == app_at(apps.take(n), port),
    decreases apps.len() - n,
{
    if n < apps.len() {
        assert(apps.take(n + 1).drop_last() =~= apps.take(n));
        lemma_app_at_prefix(apps, n + 1, port);
    } else {
        assert(apps.take(n) =~= apps);
    }
}

proof fn lemma_known_at_prefix(known: Seq<KnownPort>, n: int, port: u16)
    requires
        0 <= n <= known.len(),
        known_at(known.take(n), port) is Some,
    ensures
        known_at(known, port) == known_at(known.take(n), port),
    decreases known.len() - n,
{
    if n < known.len() {
        assert(known.take(n + 1).drop_last() =~= known.take(n));
        lemma_known_at_prefix(known, n + 1, port);
    } else {
        assert(known.take(n) =~= known);
    }
}

pub(crate) fn find_known(known: &[KnownPort], port: u16) -> (r: Option<usize>)
    ensures
        match r {
            Some(i) => i < known@.len() && known_at(known@, port) == Some(i as int),
            None => known_at(known@, port) is None,
        },
{
    let mut i: usize = 0;
    while i < known.len()
        invariant
            i <= known@.len(),
            known_at(known@.take(i as int), port) is None,
        decreases known@.len() - i,
    {
        assert(known@.take(i + 1).drop_last() =~= known@.take(i as int));
        if known[i].port == port {
            proof { lemma_known_at_prefix(known@, i as int + 1, port); }
            return Some(i);
        }
        i = i + 1;
    }
    assert(known@.take(known@.len() as int) =~= known@);
    None
}

/// Indexes each published port by its last container entry.
pub(crate) fn container_index(containers: &[ContainerPort]) -> (m: HashMap<u16, usize>)
    ensures
        forall|p: u16| #[trigger] m@.contains_key(p) <==> container_at(containers@, p) is Some,
        forall|p: u16| m@.contains_key(p) ==> container_at(containers@, p) == Some(#[trigger] m@[p] as int),
        forall|p: u16| m@.contains_key(p) ==> #[trigger] m@[p] < containers@.len(),
{
    broadcast use vstd::std_specs::hash::group_hash_axioms;
    let mut m: HashMap<u16, usize> = HashMap::new();
    let mut i: usize = 0;
    while i < containers.len()
        invariant
            i <= containers@.len(),
            forall|p: u16| #[trigger] m@.contains_key(p) <==> container_at(containers@.take(i as int), p) is Some,
            forall|p: u16| m@.contains_key(p) ==> container_at(containers@.take(i as int), p) == Some(#[trigger] m@[p] as int),
            forall|p: u16| m@.contains_key(p) ==> #[trigger] m@[p] < i,
        decreases containers@.len() - i,
    {
        assert(containers@.take(i + 1).drop_last() =~= containers@.take(i as int));
        m.insert(containers[i].port, i);
        i = i + 1;
    }
    assert(containers@.take(containers@.len() as int) =~= containers@);
    m
}

pub(crate) fn contains_port(ports: &[u16], port: u16) -> (r: bool)
    ensures
        r == ports@.contains(port),
{
    let mut i: usize = 0;
    while i < ports.len()
        invariant
            i <= ports@.len(),
            forall|j: int| 0 <= j < i ==> ports@[j] != port,
        decreases ports@.len() - i,
    {
        if ports[i] == port {
            assert(ports@[i as int] == port);
            return true;
        }
        i = i + 1;
    }
    false
}

/// Build row data for all ports. Returns individual [`RowData`] entries
/// so the SSE handler can diff at the row level.
pub fn build_rows(
    alive_ports: &[u16],
    apps: &[App],
    container_ports: &[ContainerPort],
    known_ports: &[KnownPort],
) -> (rows: Vec<RowData>)
    ensures
        row_views(rows@) == all_rows(alive_ports@, apps@, container_ports@, known_ports@),
{
    let container_map = container_index(container_ports);
    let ghost aps = apps@;
    let ghost cps = container_ports@;
    let ghost kps = known_ports@;

    let mut alive_list: Vec<RowData> = Vec::new();
    let mut known_list: Vec<RowData> = Vec::new();
    let mut down_list: Vec<RowData> = Vec::new();

    let mut i: usize = 0;
    while i < alive_ports.len()
        invariant
            i <= alive_ports@.len(),
            aps == apps@,
            cps == container_ports@,
            kps == known_ports@,
            forall|p: u16| #[trigger] container_map@.contains_key(p) <==> container_at(cps, p) is Some,
            forall|p: u16| container_map@.contains_key(p) ==> container_at(cps, p) == Some(#[trigger] container_map@[p] as int),
            forall|p: u16| container_map@.contains_key(p) ==> #[trigger] container_map@[p] < cps.len(),
            row_views(alive_list@) == alive_rows(alive_ports@.take(i as int), aps, cps, kps),
            row_views(known_list@) == known_rows(alive_ports@.take(i as int), aps, cps, kps),
        decreases alive_ports@.len() - i,
    {
        broadcast use vstd::std_specs::hash::group_hash_axioms;
        let port = alive_ports[i];
        let ghost pre = alive_ports@.take(i as int);
        proof {
            assert(alive_ports@.take(i + 1).drop_last() =~= pre);
            assert(alive_ports@.take(i + 1).last() == port);
        }
        let app = find_app(apps, port as i64);
        let known = find_known(known_ports, port);
        let container: Option<usize> = match container_map.get(&port) {
            Some(c) => Some(*c),
            None => None,
        };
        let source: &str = match container {
            Some(c) => container_ports[c].source.as_str(),
            None => "",
        };
        proof {
            reveal_strlit("");
        }
        let ghost expected = alive_row(port, aps, cps, kps);
        let is_known: bool = app.is_none() && container.is_none() && known.is_some();
        let row = if let Some(a) = app {
            render_single_row(port, apps[a].name.as_str(), apps[a].category.as_str(), apps[a].id, true, source)
        } else if let Some(c) = container {
            render_single_row(port, container_ports[c].container_name.as_str(), "", 0, true, container_ports[c].source.as_str())
        } else if let Some(k) = known {
            render_single_row(port, known_ports[k].name.as_str(), "macos", 0, true, "")
        } else {
            render_single_row(port, "", "", 0, true, "")
        };
        assert(row@ =~= expected);
        assert(is_known == is_known_service(port, aps, cps, kps));
        let ghost old_alive = alive_list@;
        let ghost old_known = known_list@;
        if is_known {
            known_list.push(row);
        } else {
            alive_list.push(row);
        }
        proof {
            assert(row_views(old_alive.push(row)) =~= row_views(old_alive).push(row@));
            assert(row_views(old_known.push(row)) =~= row_views(old_known).push(row@));
        }
        i = i + 1;
    }

    let mut j: usize = 0;
    while j < apps.len()
        invariant
            j <= apps@.len(),
            row_views(down_list@) == down_rows(apps@.take(j as int), alive_ports@),
        decreases apps@.len() - j,
    {
        let app = &apps[j];
        proof {
            assert(apps@.take(j + 1).drop_last() =~= apps@.take(j as int));
            assert(apps@.take(j + 1).last() == *app);
        }
        let port: u16 = if 0 <= app.port && app.port <= 65535 { app.port as u16 } else { 0 };
        assert(port == shown_port(app.port));
        let ghost old_down = down_list@;
        if !contains_port(alive_ports, port) {
            let row = render_single_row(port, app.name.as_str(), app.category.as_str(), app.id, false, "");
            proof { reveal_strlit(""); }
            assert(row@ =~= row_view(port, app.name@, app.category@, app.id, false, Seq::empty()));
            down_list.push(row);
            assert(row_views(old_down.push(row)) =~= row_views(old_down).push(row@));
        }
        j = j + 1;
    }

    proof {
        assert(alive_ports@.take(alive_ports@.len() as int) =~= alive_ports@);
        assert(apps@.take(apps@.len() as int) =~= apps@);
    }
    let ghost a = alive_list@;
    let ghost k = known_list@;
    let ghost d = down_list@;
    alive_list.append(&mut known_list);
    alive_list.append(&mut down_list);
    proof {
        assert(alive_list@ =~= a + k + d);
        assert(row_views(alive_list@) =~= row_views(a) + row_views(k) + row_views(d));
    }
    alive_list
}


proof fn lemma_alive_groups(
    ports: Seq<u16>,
    apps: Seq<App>,
    containers: Seq<ContainerPort>,
    known: Seq<KnownPort>,
)
    ensures
        alive_rows(ports, apps, containers, known).len() + known_rows(
            ports,
            apps,
            containers,
            known,
        ).len() == ports.len(),
        forall|i: int|
            0 <= i < alive_rows(ports, apps, containers, known).len() ==> (#[trigger] alive_rows(
                ports,
                apps,
                containers,
                known,
            )[i]).alive && ports.contains(alive_rows(ports, apps, containers, known)[i].port),
        forall|i: int|
            0 <= i < known_rows(ports, apps, containers, known).len() ==> (#[trigger] known_rows(
                ports,
                apps,
                containers,
                known,
            )[i]).alive && ports.contains(known_rows(ports, apps, containers, known)[i].port),
        forall|j: int|
            #![trigger ports[j]]
            0 <= j < ports.len() ==> (exists|i: int|
                0 <= i < alive_rows(ports, apps, containers, known).len() && #[trigger] alive_rows(
                    ports,
                    apps,
                    containers,
                    known,
                )[i].port == ports[j]) || (exists|i: int|
                0 <= i < known_rows(ports, apps, containers, known).len() && #[trigger] known_rows(
                    ports,
                    apps,
                    containers,
                    known,
                )[i].port == ports[j]),
    decreases ports.len(),
{
    if ports.len() > 0 {
        let init = ports.drop_last();
        lemma_alive_groups(init, apps, containers, known);
        let a0 = alive_rows(init, apps, containers, known);
        let k0 = known_rows(init, apps, containers, known);
        let a = alive_rows(ports, apps, containers, known);
        let k = known_rows(ports, apps, containers, known);
        let p = ports.last();
        let r = alive_row(p, apps, containers, known);
        assert(r.alive && r.port == p);
        assert(ports.contains(p)) by {
            assert(ports[ports.len() - 1] == p);
        }
        assert forall|x: u16| init.contains(x) implies ports.contains(x) by {
            let m = choose|m: int| 0 <= m < init.len() && init[m] == x;
            assert(ports[m] == x);
        }
        assert forall|j: int| #![trigger ports[j]] 0 <= j < ports.len() implies (exists|i: int|
            0 <= i < a.len() && #[trigger] a[i].port == ports[j]) || (exists|i: int|
            0 <= i < k.len() && #[trigger] k[i].port == ports[j]) by {
            if j == ports.len() - 1 {
                if is_known_service(p, apps, containers, known) {
                    assert(k[k.len() - 1].port == ports[j]);
                } else {
                    assert(a[a.len() - 1].port == ports[j]);
                }
            } else {
                assert(init[j] == ports[j]);
                if exists|i: int| 0 <= i < a0.len() && #[trigger] a0[i].port == init[j] {
                    let i = choose|i: int| 0 <= i < a0.len() && #[trigger] a0[i].port == init[j];
                    assert(a[i] == a0[i]);
                } else {
                    let i = choose|i: int| 0 <= i < k0.len() && #[trigger] k0[i].port == init[j];
                    assert(k[i] == k0[i]);
                }
            }
        }
    }
}

proof fn lemma_down_rows_offline(apps: Seq<App>, alive: Seq<u16>)
    ensures
        forall|i: int|
            0 <= i < down_rows(apps, alive).len() ==> !(#[trigger] down_rows(apps, alive)[i]).alive
                && !alive.contains(down_rows(apps, alive)[i].port),
    decreases apps.len(),
{
    if apps.len() > 0 {
        lemma_down_rows_offline(apps.drop_last(), alive);
        let prev = down_rows(apps.drop_last(), alive);
        let d = down_rows(apps, alive);
        assert forall|i: int| 0 <= i < d.len() implies !(#[trigger] d[i]).alive && !alive.contains(d[i].port) by {
            if i < prev.len() {
                assert(d[i] == prev[i]);
            }
        }
    }
}

/// Whether an app is shown offline: the port it is shown on (its own, or 0 when
/// that does not fit a `u16`) is not alive.
pub open spec fn is_offline(alive: Seq<u16>) -> spec_fn(App) -> bool {
    |a: App| !alive.contains(if 0 <= a.port <= u16::MAX { a.port as u16 } else { 0 })
}

/// The offline row of an app: its shown port, name, category and id, not alive,
/// no source.
pub open spec fn offline_row_of() -> spec_fn(App) -> RowView {
    |a: App|
        row_view(
            if 0 <= a.port <= u16::MAX { a.port as u16 } else { 0 },
            a.name@,
            a.category@,
            a.id,
            false,
            Seq::empty(),
        )
}

proof fn lemma_down_rows_are_offline_apps(apps: Seq<App>, alive: Seq<u16>)
    ensures
        down_rows(apps, alive) == apps.filter(is_offline(alive)).map_values(offline_row_of()),
    decreases apps.len(),
{
    reveal(Seq::filter);
    if apps.len() > 0 {
        let init = apps.drop_last();
        lemma_down_rows_are_offline_apps(init, alive);
        let f = init.filter(is_offline(alive));
        if is_offline(alive)(apps.last()) {
            assert(f.push(apps.last()).map_values(offline_row_of()) =~= f.map_values(offline_row_of()).push(
                offline_row_of()(apps.last()),
            ));
        }
    } else {
        assert(apps.filter(is_offline(alive)).map_values(offline_row_of()) =~= Seq::<RowView>::empty());
    }
}

/// After the rows of the alive ports come exactly the registered apps whose
/// shown port is not alive, one row each, in app order, named or not: each with
/// that app's port, name, category and id, shown offline.
pub proof fn lemma_offline_rows(
    alive: Seq<u16>,
    apps: Seq<App>,
    containers: Seq<ContainerPort>,
    known: Seq<KnownPort>,
)
    ensures
        all_rows(alive, apps, containers, known).skip(alive.len() as int) == apps.filter(
            is_offline(alive),
        ).map_values(offline_row_of()),
{
    let a = alive_rows(alive, apps, containers, known);
    let k = known_rows(alive, apps, containers, known);
    let d = down_rows(apps, alive);
    assert(a.len() + k.len() == alive.len()) by {
        lemma_alive_groups(alive, apps, containers, known);
    }
    lemma_skip_front(a, k, d);
    lemma_down_rows_are_offline_apps(apps, alive);
}

proof fn lemma_skip_front(x: Seq<RowView>, y: Seq<RowView>, z: Seq<RowView>)
    ensures
        (x + y + z).skip((x.len() + y.len()) as int) == z,
{
    assert((x + y + z).skip((x.len() + y.len()) as int) =~= z);
}

/// Row order: the first rows are exactly one per alive port, all alive, and every
/// alive port has one of them; the rest are registered apps whose port is not
/// alive, shown offline.
pub proof fn lemma_rows_order(
    alive: Seq<u16>,
    apps: Seq<App>,
    containers: Seq<ContainerPort>,
    known: Seq<KnownPort>,
)
    ensures
        all_rows(alive, apps, containers, known).len() == alive.len() + down_rows(apps, alive).len(),
        forall|i: int|
            0 <= i < alive.len() ==> (#[trigger] all_rows(alive, apps, containers, known)[i]).alive
                && alive.contains(all_rows(alive, apps, containers, known)[i].port),
        forall|i: int|
            alive.len() <= i < all_rows(alive, apps, containers, known).len() ==> !(
            #[trigger] all_rows(alive, apps, containers, known)[i]).alive && !alive.contains(
                all_rows(alive, apps, containers, known)[i].port,
            ),
        forall|j: int|
            #![trigger alive[j]]
            0 <= j < alive.len() ==> exists|i: int|
                0 <= i < alive.len() && #[trigger] all_rows(alive, apps, containers, known)[i].port
                    == alive[j],
{
    lemma_alive_groups(alive, apps, containers, known);
    lemma_down_rows_offline(apps, alive);
    let a = alive_rows(alive, apps, containers, known);
    let k = known_rows(alive, apps, containers, known);
    let d = down_rows(apps, alive);
    let rows = all_rows(alive, apps, containers, known);
    assert(rows == a + k + d);
    assert forall|i: int| 0 <= i < alive.len() implies (#[trigger] rows[i]).alive && alive.contains(
        rows[i].port,
    ) by {
        if i < a.len() {
            assert(rows[i] == a[i]);
        } else {
            assert(rows[i] == k[i - a.len()]);
        }
    }
    assert forall|i: int| alive.len() <= i < rows.len() implies !(#[trigger] rows[i]).alive
        && !alive.contains(rows[i].port) by {
        assert(rows[i] == d[i - alive.len()]);
    }
    assert forall|j: int| #![trigger alive[j]] 0 <= j < alive.len() implies exists|i: int|
        0 <= i < alive.len() && #[trigger] rows[i].port == alive[j] by {
        if exists|i: int| 0 <= i < a.len() && #[trigger] a[i].port == alive[j] {
            let i = choose|i: int| 0 <= i < a.len() && #[trigger] a[i].port == alive[j];
            assert(rows[i] == a[i]);
        } else {
            let i = choose|i: int| 0 <= i < k.len() && #[trigger] k[i].port == alive[j];
            assert(rows[a.len() + i] == k[i]);
        }
    }
}

/// The markup characters (`<`, `>`, `"`, `'`) of a row's `<tr>`, in order, and so
/// how often each occurs, depend only on which of name, category and source are
/// empty: no text a user enters adds markup or leaves an attribute value.
pub proof fn lemma_row_markup_fixed(
    port: u16,
    app_id: i64,
    alive: bool,
    name1: Seq<char>,
    category1: Seq<char>,
    source1: Seq<char>,
    name2: Seq<char>,
    category2: Seq<char>,
    source2: Seq<char>,
)
    requires
        (name1.len() == 0) == (name2.len() == 0),
        (category1.len() == 0) == (category2.len() == 0),
        (source1.len() == 0) == (source2.len() == 0),
    ensures
        markup_of(row_html(port, name1, category1, app_id, alive, source1)) == markup_of(
            row_html(port, name2, category2, app_id, alive, source2),
        ),
        forall|m: char|
            is_markup_char(m) ==> #[trigger] count_of(row_html(port, name1, category1, app_id, alive, source1), m)
                == count_of(row_html(port, name2, category2, app_id, alive, source2), m),
{
    broadcast use lemma_markup_concat;

    lemma_markup_of_escaped(name1);
    lemma_markup_of_escaped(name2);
    lemma_markup_of_escaped(category1);
    lemma_markup_of_escaped(category2);
    lemma_markup_of_escaped(source1);
    lemma_markup_of_escaped(source2);
    lemma_markup_of_class_chars(escaped(category1));
    lemma_markup_of_class_chars(escaped(category2));
    let d1 = markup_of(display_name_html(port, name1));
    let d2 = markup_of(display_name_html(port, name2));
    assert(d1 == d2);
    let b1 = markup_of(badge_html(escaped(category1)));
    let b2 = markup_of(badge_html(escaped(category2)));
    assert(b1 == b2);
    let p1 = markup_of(source_pill_html(source1));
    let p2 = markup_of(source_pill_html(source2));
    assert(p1 == p2);
    let h1 = row_html(port, name1, category1, app_id, alive, source1);
    let h2 = row_html(port, name2, category2, app_id, alive, source2);
    assert(markup_of(h1) =~= markup_of(h2));
    assert forall|m: char| is_markup_char(m) implies #[trigger] count_of(h1, m) == count_of(h2, m) by {
        lemma_count_in_markup(h1, m);
        lemma_count_in_markup(h2, m);
    }
}

} // verus!
