//! The port table of the `list` command: portmap itself, the registered apps
//! sorted by port, then the open ports nobody registered.
use std::collections::{HashMap, HashSet};
use vstd::prelude::*;
use vstd::utf8::encode_utf8;

use crate::cli::{pad_right, push_padded};
use crate::model::{App, ContainerPort, KnownPort};
use crate::rows::{container_at, container_index, contains_port, find_known, known_at, shown_port};
use crate::text::{decimal, push_char, push_decimal};

verus! {

/// One line of the port table.
#[derive(Debug, Clone)]
pub struct ListRow {
    pub name: String,
    pub port: u16,
    pub category: String,
    pub source: String,
    pub status: &'static str,
}

/// A line of the port table with its texts as character sequences.
#[verifier::ext_equal]
pub struct ListRowView {
    pub name: Seq<char>,
    pub port: u16,
    pub category: Seq<char>,
    pub source: Seq<char>,
    pub status: Seq<char>,
}

impl View for ListRow {
    type V = ListRowView;

    open spec fn view(&self) -> ListRowView {
        ListRowView {
            name: self.name@,
            port: self.port,
            category: self.category@,
            source: self.source@,
            status: self.status@,
        }
    }
}

pub const UP: &'static str = "up";
pub const DOWN: &'static str = "down";
pub const NO_NAME: &'static str = "-";
pub const PORTMAP: &'static str = "portmap";

/// `up` for a port that answers, `down` for one that does not.
pub open spec fn status_word(up: bool) -> Seq<char> {
    if up {
        UP@
    } else {
        DOWN@
    }
}

/// The line of portmap's own dashboard.
pub open spec fn portmap_line(alive: Seq<u16>, dashboard_port: u16) -> ListRowView {
    ListRowView {
        name: PORTMAP@,
        port: dashboard_port,
        category: PORTMAP@,
        source: Seq::empty(),
        status: status_word(alive.contains(dashboard_port)),
    }
}

/// The line of a registered app.
pub open spec fn registered_line(app: App, alive: Seq<u16>, containers: Seq<ContainerPort>) -> ListRowView {
    let port = shown_port(app.port);
    ListRowView {
        name: if app.name@.len() == 0 { NO_NAME@ } else { app.name@ },
        port,
        category: app.category@,
        source: match container_at(containers, port) {
            Some(c) => containers[c].source@,
            None => Seq::empty(),
        },
        status: status_word(alive.contains(port)),
    }
}

/// `row` inserted after every row whose port is not greater than its own.
pub open spec fn insert_by_port(rows: Seq<ListRowView>, row: ListRowView) -> Seq<ListRowView>
    decreases rows.len(),
{
    if rows.len() == 0 || rows.last().port <= row.port {
        rows.push(row)
    } else {
        insert_by_port(rows.drop_last(), row).push(rows.last())
    }
}

/// `rows` stably sorted by port: equal ports keep their order.
pub open spec fn sort_by_port(rows: Seq<ListRowView>) -> Seq<ListRowView>
    decreases rows.len(),
{
    if rows.len() == 0 {
        rows
    } else {
        insert_by_port(sort_by_port(rows.drop_last()), rows.last())
    }
}

/// The lines of the registered apps, in app order.
pub open spec fn registered_lines(apps: Seq<App>, alive: Seq<u16>, containers: Seq<ContainerPort>) -> Seq<ListRowView>
    decreases apps.len(),
{
    if apps.len() == 0 {
        Seq::empty()
    } else {
        registered_lines(apps.drop_last(), alive, containers).push(
            registered_line(apps.last(), alive, containers),
        )
    }
}

/// Some app is shown on port `p`.
pub open spec fn is_registered_port(apps: Seq<App>, p: u16) -> bool {
    exists|i: int| 0 <= i < apps.len() && #[trigger] shown_port(apps[i].port) == p
}

/// The line of an open port that no app registered.
pub open spec fn open_port_line(port: u16, containers: Seq<ContainerPort>, known: Seq<KnownPort>) -> ListRowView {
    match container_at(containers, port) {
        Some(c) => ListRowView {
            name: containers[c].container_name@,
            port,
            category: containers[c].source@,
            source: Seq::empty(),
            status: UP@,
        },
        None => ListRowView {
            name: match known_at(known, port) {
                Some(k) => known[k].name@,
                None => NO_NAME@,
            },
            port,
            category: Seq::empty(),
            source: Seq::empty(),
            status: UP@,
        },
    }
}

/// The lines of the open ports that are neither registered nor the dashboard's.
pub open spec fn open_port_lines(
    ports: Seq<u16>,
    apps: Seq<App>,
    containers: Seq<ContainerPort>,
    known: Seq<KnownPort>,
    dashboard_port: u16,
) -> Seq<ListRowView>
    decreases ports.len(),
{
    if ports.len() == 0 {
        Seq::empty()
    } else {
        let rest = open_port_lines(ports.drop_last(), apps, containers, known, dashboard_port);
        let p = ports.last();
        if is_registered_port(apps, p) || p == dashboard_port {
            rest
        } else {
            rest.push(open_port_line(p, containers, known))
        }
    }
}

/// All lines of the table, in order.
pub open spec fn list_lines(
    apps: Seq<App>,
    alive: Seq<u16>,
    containers: Seq<ContainerPort>,
    known: Seq<KnownPort>,
    dashboard_port: u16,
) -> Seq<ListRowView> {
    seq![portmap_line(alive, dashboard_port)] + sort_by_port(registered_lines(apps, alive, containers))
        + open_port_lines(alive, apps, containers, known, dashboard_port)
}

proof fn lemma_insert_by_port_at(rows: Seq<ListRowView>, row: ListRowView, k: int)
    requires
        0 <= k <= rows.len(),
        k == 0 || rows[k - 1].port <= row.port,
        forall|j: int| k <= j < rows.len() ==> (#[trigger] rows[j]).port > row.port,
    ensures
        insert_by_port(rows, row) == rows.insert(k, row),
    decreases rows.len(),
{
    if k == rows.len() {
        assert(rows.push(row) =~= rows.insert(k, row));
    } else {
        assert(rows.last().port > row.port);
        let init = rows.drop_last();
        lemma_insert_by_port_at(init, row, k);
        assert(init.insert(k, row).push(rows.last()) =~= rows.insert(k, row));
    }
}

/// Ports never decrease along `rows`.
pub open spec fn ascending_by_port(rows: Seq<ListRowView>) -> bool {
    forall|i: int, j: int| 0 <= i < j < rows.len() ==> #[trigger] rows[i].port <= #[trigger] rows[j].port
}

/// The rows of `rows` on port `p`, in their order.
pub open spec fn rows_on_port(rows: Seq<ListRowView>, p: u16) -> Seq<ListRowView> {
    rows.filter(|r: ListRowView| r.port == p)
}

proof fn lemma_rows_on_port_push(rows: Seq<ListRowView>, row: ListRowView, p: u16)
    ensures
        rows_on_port(rows.push(row), p) == if row.port == p {
            rows_on_port(rows, p).push(row)
        } else {
            rows_on_port(rows, p)
        },
{
    reveal(Seq::filter);
    assert(rows.push(row).drop_last() =~= rows);
}

proof fn lemma_insert_by_port_keeps(rows: Seq<ListRowView>, row: ListRowView)
    ensures
        insert_by_port(rows, row).to_multiset() =~= rows.to_multiset().insert(row),
        insert_by_port(rows, row).len() == rows.len() + 1,
        forall|k: int| 0 <= k < rows.len() + 1 ==> #[trigger] insert_by_port(rows, row)[k] == row
            || rows.contains(insert_by_port(rows, row)[k]),
        ascending_by_port(rows) ==> ascending_by_port(insert_by_port(rows, row)),
        forall|p: u16| #[trigger] rows_on_port(insert_by_port(rows, row), p) == if row.port == p {
            rows_on_port(rows, p).push(row)
        } else {
            rows_on_port(rows, p)
        },
    decreases rows.len(),
{
    broadcast use vstd::seq_lib::group_to_multiset_ensures;
    let result = insert_by_port(rows, row);
    if rows.len() == 0 || rows.last().port <= row.port {
        assert forall|p: u16| #[trigger] rows_on_port(result, p) == if row.port == p {
            rows_on_port(rows, p).push(row)
        } else {
            rows_on_port(rows, p)
        } by {
            lemma_rows_on_port_push(rows, row, p);
        }
        assert forall|k: int| 0 <= k < rows.len() + 1 implies #[trigger] result[k] == row || rows.contains(result[k]) by {
            if k < rows.len() {
                assert(result[k] == rows[k]);
            }
        }
    } else {
        let init = rows.drop_last();
        let last = rows.last();
        let inner = insert_by_port(init, row);
        lemma_insert_by_port_keeps(init, row);
        assert(rows =~= init.push(last));
        assert forall|k: int| 0 <= k < rows.len() + 1 implies #[trigger] result[k] == row || rows.contains(result[k]) by {
            if k < rows.len() {
                if inner[k] != row {
                    let m = choose|m: int| 0 <= m < init.len() && init[m] == inner[k];
                    assert(rows[m] == init[m]);
                }
            } else {
                assert(rows[rows.len() - 1] == last);
            }
        }
        if ascending_by_port(rows) {
            assert forall|i: int, j: int| 0 <= i < j < result.len() implies #[trigger] result[i].port <= #[trigger] result[j].port by {
                if j == result.len() - 1 {
                    if inner[i] != row {
                        let m = choose|m: int| 0 <= m < init.len() && init[m] == inner[i];
                        assert(rows[m] == init[m]);
                        assert(rows[rows.len() - 1] == last);
                    }
                } else {
                    assert(ascending_by_port(init));
                }
            }
        }
        assert forall|p: u16| #[trigger] rows_on_port(result, p) == if row.port == p {
            rows_on_port(rows, p).push(row)
        } else {
            rows_on_port(rows, p)
        } by {
            lemma_rows_on_port_push(inner, last, p);
            lemma_rows_on_port_push(init, last, p);
        }
    }
}

/// Sorting the registered lines by port puts their ports in ascending order,
/// keeps every line exactly as often as it was, and keeps the lines on each
/// port in the order of the apps.
pub proof fn lemma_sort_by_port(rows: Seq<ListRowView>)
    ensures
        ascending_by_port(sort_by_port(rows)),
        sort_by_port(rows).to_multiset() =~= rows.to_multiset(),
        forall|p: u16| #[trigger] rows_on_port(sort_by_port(rows), p) == rows_on_port(rows, p),
    decreases rows.len(),
{
    broadcast use vstd::seq_lib::group_to_multiset_ensures;
    if rows.len() > 0 {
        let init = rows.drop_last();
        lemma_sort_by_port(init);
        lemma_insert_by_port_keeps(sort_by_port(init), rows.last());
        assert(rows =~= init.push(rows.last()));
        assert forall|p: u16| #[trigger] rows_on_port(sort_by_port(rows), p) == rows_on_port(rows, p) by {
            lemma_rows_on_port_push(init, rows.last(), p);
        }
    } else {
        reveal(Seq::filter);
    }
}

proof fn lemma_registered_lines_len(apps: Seq<App>, alive: Seq<u16>, containers: Seq<ContainerPort>)
    ensures
        registered_lines(apps, alive, containers).len() == apps.len(),
    decreases apps.len(),
{
    if apps.len() > 0 {
        lemma_registered_lines_len(apps.drop_last(), alive, containers);
    }
}

/// A line for an open port: the port answers, no app is shown on it, it is not
/// the dashboard's, and it reads `up`.
pub open spec fn is_open_port_line(line: ListRowView, alive: Seq<u16>, apps: Seq<App>, dashboard_port: u16) -> bool {
    &&& alive.contains(line.port)
    &&& !is_registered_port(apps, line.port)
    &&& line.port != dashboard_port
    &&& line.status == UP@
}

proof fn lemma_open_port_lines(
    ports: Seq<u16>,
    apps: Seq<App>,
    containers: Seq<ContainerPort>,
    known: Seq<KnownPort>,
    dashboard_port: u16,
)
    ensures
        forall|k: int| 0 <= k < open_port_lines(ports, apps, containers, known, dashboard_port).len()
            ==> is_open_port_line(#[trigger] open_port_lines(ports, apps, containers, known, dashboard_port)[k], ports, apps, dashboard_port),
    decreases ports.len(),
{
    if ports.len() > 0 {
        let init = ports.drop_last();
        lemma_open_port_lines(init, apps, containers, known, dashboard_port);
        let rest = open_port_lines(init, apps, containers, known, dashboard_port);
        let all = open_port_lines(ports, apps, containers, known, dashboard_port);
        assert forall|k: int| 0 <= k < all.len() implies is_open_port_line(#[trigger] all[k], ports, apps, dashboard_port) by {
            if k < rest.len() {
                assert(all[k] == rest[k]);
                let m = choose|m: int| 0 <= m < init.len() && init[m] == all[k].port;
                assert(ports[m] == init[m]);
            } else {
                assert(ports[ports.len() - 1] == ports.last());
            }
        }
    }
}

/// The table starts with portmap's own line; the registered apps follow, one line
/// each, in ascending port order; then come the open ports that no app is shown
/// on, apart from the dashboard's, all `up`.
pub proof fn lemma_list_lines_shape(
    apps: Seq<App>,
    alive: Seq<u16>,
    containers: Seq<ContainerPort>,
    known: Seq<KnownPort>,
    dashboard_port: u16,
)
    ensures
        ({
            let lines = list_lines(apps, alive, containers, known, dashboard_port);
            let registered = lines.subrange(1, 1 + apps.len() as int);
            &&& lines.len() == 1 + apps.len() + open_port_lines(alive, apps, containers, known, dashboard_port).len()
            &&& lines[0] == portmap_line(alive, dashboard_port)
            &&& ascending_by_port(registered)
            &&& registered.to_multiset() =~= registered_lines(apps, alive, containers).to_multiset()
            &&& forall|k: int| 1 + apps.len() <= k < lines.len()
                ==> is_open_port_line(#[trigger] lines[k], alive, apps, dashboard_port)
        }),
{
    broadcast use vstd::seq_lib::group_to_multiset_ensures;
    let reg = registered_lines(apps, alive, containers);
    let sorted = sort_by_port(reg);
    let opens = open_port_lines(alive, apps, containers, known, dashboard_port);
    let lines = list_lines(apps, alive, containers, known, dashboard_port);
    lemma_registered_lines_len(apps, alive, containers);
    lemma_sort_by_port(reg);
    lemma_open_port_lines(alive, apps, containers, known, dashboard_port);
    assert(sorted.to_multiset().len() == reg.to_multiset().len());
    assert(sorted.len() == apps.len());
    assert(lines.subrange(1, 1 + apps.len() as int) =~= sorted);
    assert forall|k: int| 1 + apps.len() <= k < lines.len() implies is_open_port_line(#[trigger] lines[k], alive, apps, dashboard_port) by {
        assert(lines[k] == opens[k - 1 - apps.len()]);
    }
}

fn list_row_of_app(app: &App, alive: &[u16], containers: &[ContainerPort], index: &HashMap<u16, usize>) -> (row: ListRow)
    requires
        forall|p: u16| #[trigger] index@.contains_key(p) <==> container_at(containers@, p) is Some,
        forall|p: u16| index@.contains_key(p) ==> container_at(containers@, p) == Some(#[trigger] index@[p] as int),
        forall|p: u16| index@.contains_key(p) ==> #[trigger] index@[p] < containers@.len(),
    ensures
        row@ =~= registered_line(*app, alive@, containers@),
{
    broadcast use vstd::std_specs::hash::group_hash_axioms;
    let port: u16 = if 0 <= app.port && app.port <= 65535 { app.port as u16 } else { 0 };
    let name = if app.name.as_str().is_empty() { NO_NAME.to_owned() } else { app.name.clone() };
    let source = match index.get(&port) {
        Some(c) => containers[*c].source.clone(),
        None => String::new(),
    };
    let status = if contains_port(alive, port) { UP } else { DOWN };
    ListRow { name, port, category: app.category.clone(), source, status }
}

fn open_port_row(port: u16, containers: &[ContainerPort], known: &[KnownPort], index: &HashMap<u16, usize>) -> (row: ListRow)
    requires
        forall|p: u16| #[trigger] index@.contains_key(p) <==> container_at(containers@, p) is Some,
        forall|p: u16| index@.contains_key(p) ==> container_at(containers@, p) == Some(#[trigger] index@[p] as int),
        forall|p: u16| index@.contains_key(p) ==> #[trigger] index@[p] < containers@.len(),
    ensures
        row@ =~= open_port_line(port, containers@, known@),
{
    broadcast use vstd::std_specs::hash::group_hash_axioms;
    match index.get(&port) {
        Some(c) => ListRow {
            name: containers[*c].container_name.clone(),
            port,
            category: containers[*c].source.clone(),
            source: String::new(),
            status: UP,
        },
        None => {
            let name = match find_known(known, port) {
                Some(k) => known[k].name.clone(),
                None => NO_NAME.to_owned(),
            };
            ListRow { name, port, category: String::new(), source: String::new(), status: UP }
        },
    }
}

/// The lines of the port table: portmap, registered apps by port, then open ports.
pub fn list_rows(
    apps: &[App],
    alive: &[u16],
    containers: &[ContainerPort],
    known: &[KnownPort],
    dashboard_port: u16,
) -> (rows: Vec<ListRow>)
    ensures
        rows@.map_values(|r: ListRow| r@) =~= list_lines(apps@, alive@, containers@, known@, dashboard_port),
{
    broadcast use vstd::std_specs::hash::group_hash_axioms;
    let index = container_index(containers);
    let ghost cps = containers@;
    let mut registered: HashSet<u16> = HashSet::new();
    let mut sorted: Vec<ListRow> = Vec::new();
    let mut i: usize = 0;
    while i < apps.len()
        invariant
            i <= apps@.len(),
            cps == containers@,
            forall|p: u16| #[trigger] index@.contains_key(p) <==> container_at(cps, p) is Some,
            forall|p: u16| index@.contains_key(p) ==> container_at(cps, p) == Some(#[trigger] index@[p] as int),
            forall|p: u16| index@.contains_key(p) ==> #[trigger] index@[p] < cps.len(),
            forall|p: u16| #[trigger] registered@.contains(p) <==> is_registered_port(apps@.take(i as int), p),
            sorted@.map_values(|r: ListRow| r@) =~= sort_by_port(registered_lines(apps@.take(i as int), alive@, cps)),
        decreases apps@.len() - i,
    {
        let row = list_row_of_app(&apps[i], alive, containers, &index);
        let ghost prev = sorted@.map_values(|r: ListRow| r@);
        proof {
            assert(apps@.take(i + 1).drop_last() =~= apps@.take(i as int));
            assert(apps@.take(i + 1).last() == apps@[i as int]);
        }
        registered.insert(row.port);
        let mut k: usize = sorted.len();
        while k > 0 && sorted[k - 1].port > row.port
            invariant
                k <= sorted@.len(),
                prev =~= sorted@.map_values(|r: ListRow| r@),
                forall|j: int| k <= j < sorted@.len() ==> (#[trigger] sorted@[j]).port > row.port,
            decreases k,
        {
            k = k - 1;
        }
        proof {
            lemma_insert_by_port_at(prev, row@, k as int);
        }
        let ghost row_view = row@;
        sorted.insert(k, row);
        proof {
            assert(sorted@.map_values(|r: ListRow| r@) =~= prev.insert(k as int, row_view));
            let pre_lines = registered_lines(apps@.take(i as int), alive@, cps);
            let post_lines = registered_lines(apps@.take(i + 1), alive@, cps);
            assert(post_lines == pre_lines.push(row_view));
            assert(post_lines.drop_last() =~= pre_lines);
            assert(sort_by_port(post_lines) == insert_by_port(sort_by_port(pre_lines), row_view));
            assert forall|p: u16| #[trigger] registered@.contains(p) <==> is_registered_port(apps@.take(i + 1), p) by {
                let pre = apps@.take(i as int);
                let post = apps@.take(i + 1);
                if is_registered_port(pre, p) {
                    let m = choose|m: int| 0 <= m < pre.len() && #[trigger] shown_port(pre[m].port) == p;
                    assert(post[m] == pre[m]);
                }
                if is_registered_port(post, p) && p != row_view.port {
                    let m = choose|m: int| 0 <= m < post.len() && #[trigger] shown_port(post[m].port) == p;
                    assert(m != i);
                    assert(pre[m] == post[m]);
                }
                if p == row_view.port {
                    assert(shown_port(post[i as int].port) == p);
                }
            }
        }
        i = i + 1;
    }
    proof {
        assert(apps@.take(apps@.len() as int) =~= apps@);
    }

    let mut opens: Vec<ListRow> = Vec::new();
    let mut j: usize = 0;
    while j < alive.len()
        invariant
            j <= alive@.len(),
            cps == containers@,
            forall|p: u16| #[trigger] index@.contains_key(p) <==> container_at(cps, p) is Some,
            forall|p: u16| index@.contains_key(p) ==> container_at(cps, p) == Some(#[trigger] index@[p] as int),
            forall|p: u16| index@.contains_key(p) ==> #[trigger] index@[p] < cps.len(),
            forall|p: u16| #[trigger] registered@.contains(p) <==> is_registered_port(apps@, p),
            opens@.map_values(|r: ListRow| r@) =~= open_port_lines(alive@.take(j as int), apps@, cps, known@, dashboard_port),
        decreases alive@.len() - j,
    {
        let port = alive[j];
        proof {
            assert(alive@.take(j + 1).drop_last() =~= alive@.take(j as int));
            assert(alive@.take(j + 1).last() == port);
        }
        if !(registered.contains(&port) || port == dashboard_port) {
            let row = open_port_row(port, containers, known, &index);
            opens.push(row);
        }
        j = j + 1;
    }
    proof {
        assert(alive@.take(alive@.len() as int) =~= alive@);
    }

    let mut rows: Vec<ListRow> = Vec::new();
    let status = if contains_port(alive, dashboard_port) { UP } else { DOWN };
    rows.push(ListRow {
        name: PORTMAP.to_owned(),
        port: dashboard_port,
        category: PORTMAP.to_owned(),
        source: String::new(),
        status,
    });
    let ghost first = rows@;
    let ghost s = sorted@;
    let ghost o = opens@;
    rows.append(&mut sorted);
    rows.append(&mut opens);
    proof {
        assert(rows@ =~= first + s + o);
        assert(rows@.map_values(|r: ListRow| r@) =~= first.map_values(|r: ListRow| r@) + s.map_values(
            |r: ListRow| r@,
        ) + o.map_values(|r: ListRow| r@));
    }
    rows
}


pub const NO_PORTS: &'static str = "No ports found.\n";
pub const HEAD_PORT: &'static str = "PORT";
pub const HEAD_NAME: &'static str = "NAME";
pub const HEAD_CATEGORY: &'static str = "CATEGORY";
pub const HEAD_STATUS: &'static str = "  STATUS\n";

/// The length in bytes of a text, as `str::len` gives it.
pub open spec fn byte_len(s: Seq<char>) -> usize {
    encode_utf8(s).len() as usize
}

/// The width of the NAME column: the longest name in bytes, and at least 4.
pub open spec fn name_width(rows: Seq<ListRowView>) -> usize
    decreases rows.len(),
{
    if rows.len() == 0 {
        4
    } else {
        let w = name_width(rows.drop_last());
        let l = byte_len(rows.last().name);
        if l > w { l } else { w }
    }
}

/// The width of the CATEGORY column: the longest category in bytes, and at least 8.
pub open spec fn category_width(rows: Seq<ListRowView>) -> usize
    decreases rows.len(),
{
    if rows.len() == 0 {
        8
    } else {
        let w = category_width(rows.drop_last());
        let l = byte_len(rows.last().category);
        if l > w { l } else { w }
    }
}

/// The heading line of the table.
pub open spec fn header_text(name_w: usize, category_w: usize) -> Seq<char> {
    pad_right(HEAD_PORT@, 6) + seq![' '] + pad_right(HEAD_NAME@, name_w as nat) + seq![' ', ' ']
        + pad_right(HEAD_CATEGORY@, category_w as nat) + HEAD_STATUS@
}

/// One line of the table; the source follows the status in brackets when there is one.
pub open spec fn line_text(row: ListRowView, name_w: usize, category_w: usize) -> Seq<char> {
    let tail = if row.source.len() == 0 {
        seq!['\n']
    } else {
        seq![' ', '('] + row.source + seq![')', '\n']
    };
    pad_right(decimal(row.port as nat), 6) + seq![' '] + pad_right(row.name, name_w as nat) + seq![' ', ' ']
        + pad_right(row.category, category_w as nat) + seq![' ', ' '] + row.status + tail
}

/// The lines of the table, one after the other.
pub open spec fn lines_text(rows: Seq<ListRowView>, name_w: usize, category_w: usize) -> Seq<char>
    decreases rows.len(),
{
    if rows.len() == 0 {
        Seq::empty()
    } else {
        lines_text(rows.drop_last(), name_w, category_w) + line_text(rows.last(), name_w, category_w)
    }
}

/// The table: heading, then every line, with columns as wide as their longest entry.
pub open spec fn table_text(rows: Seq<ListRowView>) -> Seq<char> {
    header_text(name_width(rows), category_width(rows))
        + lines_text(rows, name_width(rows), category_width(rows))
}

/// What `list` prints.
pub open spec fn list_text(
    apps: Seq<App>,
    alive: Seq<u16>,
    containers: Seq<ContainerPort>,
    known: Seq<KnownPort>,
    dashboard_port: u16,
) -> Seq<char> {
    if apps.len() == 0 && alive.len() == 0 {
        NO_PORTS@
    } else {
        table_text(list_lines(apps, alive, containers, known, dashboard_port))
    }
}

proof fn lemma_bytes_at_least_chars(s: Seq<char>)
    ensures
        s.len() <= encode_utf8(s).len(),
    decreases s.len(),
{
    if s.len() > 0 {
        lemma_bytes_at_least_chars(s.drop_first());
    }
}

/// `10` to the power `d`.
pub open spec fn ten_to(d: nat) -> nat
    decreases d,
{
    if d == 0 {
        1
    } else {
        10 * ten_to((d - 1) as nat)
    }
}

proof fn lemma_decimal_digits(n: nat, d: nat)
    requires
        1 <= d,
        n < ten_to(d),
    ensures
        decimal(n).len() <= d,
    decreases d,
{
    if n >= 10 {
        if d == 1 {
            assert(ten_to(1) == 10 * ten_to(0));
        } else {
            assert(ten_to(d) == 10 * ten_to((d - 1) as nat));
            lemma_decimal_digits(n / 10, (d - 1) as nat);
        }
    }
}

proof fn lemma_widths_cover(rows: Seq<ListRowView>)
    requires
        forall|k: int| 0 <= k < rows.len() ==> encode_utf8(#[trigger] rows[k].name).len() <= usize::MAX,
        forall|k: int| 0 <= k < rows.len() ==> encode_utf8(#[trigger] rows[k].category).len() <= usize::MAX,
    ensures
        4 <= name_width(rows),
        8 <= category_width(rows),
        forall|k: int| 0 <= k < rows.len() ==> (#[trigger] rows[k]).name.len() <= name_width(rows)
            && rows[k].category.len() <= category_width(rows),
    decreases rows.len(),
{
    if rows.len() > 0 {
        let init = rows.drop_last();
        lemma_widths_cover(init);
        let last = rows.last();
        lemma_bytes_at_least_chars(last.name);
        lemma_bytes_at_least_chars(last.category);
        assert(encode_utf8(rows[rows.len() - 1].name).len() <= usize::MAX);
        assert(encode_utf8(rows[rows.len() - 1].category).len() <= usize::MAX);
        assert forall|k: int| 0 <= k < rows.len() implies (#[trigger] rows[k]).name.len() <= name_width(rows)
            && rows[k].category.len() <= category_width(rows) by {
            if k < init.len() {
                assert(rows[k] == init[k]);
            }
        }
    }
}

proof fn lemma_pad_right_exact(s: Seq<char>, width: nat)
    requires
        s.len() <= width,
    ensures
        pad_right(s, width).len() == width,
        pad_right(s, width).subrange(0, s.len() as int) == s,
{
    assert(pad_right(s, width).subrange(0, s.len() as int) =~= s);
}

/// The columns of the table line up: on the heading and on every line, the
/// NAME column starts at character 7 and spans the name width, CATEGORY follows
/// after two spaces and spans the category width, and STATUS follows after two
/// more spaces. (Widths are counted in bytes and padding in characters, so a
/// field is never shorter than its width.)
pub proof fn lemma_table_columns_aligned(rows: Seq<ListRowView>)
    requires
        forall|k: int| 0 <= k < rows.len() ==> encode_utf8(#[trigger] rows[k].name).len() <= usize::MAX,
        forall|k: int| 0 <= k < rows.len() ==> encode_utf8(#[trigger] rows[k].category).len() <= usize::MAX,
    ensures
        ({
            let w = name_width(rows) as int;
            let c = category_width(rows) as int;
            let head = header_text(name_width(rows), category_width(rows));
            &&& head.subrange(7, 7 + w) == pad_right(HEAD_NAME@, w as nat)
            &&& head.subrange(9 + w, 9 + w + c) == pad_right(HEAD_CATEGORY@, c as nat)
            &&& head.subrange(11 + w + c, 17 + w + c) == "STATUS"@
            &&& forall|k: int| 0 <= k < rows.len() ==> {
                let line = #[trigger] line_text(rows[k], name_width(rows), category_width(rows));
                &&& line.subrange(7, 7 + w) == pad_right(rows[k].name, w as nat)
                &&& line.subrange(9 + w, 9 + w + c) == pad_right(rows[k].category, c as nat)
                &&& line.subrange(11 + w + c, 11 + w + c + rows[k].status.len()) == rows[k].status
            }
        }),
{
    let wn = name_width(rows);
    let wc = category_width(rows);
    let w = wn as int;
    let c = wc as int;
    lemma_widths_cover(rows);
    reveal_strlit("PORT");
    reveal_strlit("NAME");
    reveal_strlit("CATEGORY");
    reveal_strlit("  STATUS\n");
    reveal_strlit("STATUS");
    lemma_pad_right_exact(HEAD_PORT@, 6);
    lemma_pad_right_exact(HEAD_NAME@, wn as nat);
    lemma_pad_right_exact(HEAD_CATEGORY@, wc as nat);
    let head = header_text(wn, wc);
    assert(head.subrange(7, 7 + w) =~= pad_right(HEAD_NAME@, wn as nat));
    assert(head.subrange(9 + w, 9 + w + c) =~= pad_right(HEAD_CATEGORY@, wc as nat));
    assert(head.subrange(11 + w + c, 17 + w + c) =~= "STATUS"@);
    assert forall|k: int| 0 <= k < rows.len() implies {
        let line = #[trigger] line_text(rows[k], wn, wc);
        &&& line.subrange(7, 7 + w) == pad_right(rows[k].name, w as nat)
        &&& line.subrange(9 + w, 9 + w + c) == pad_right(rows[k].category, c as nat)
        &&& line.subrange(11 + w + c, 11 + w + c + rows[k].status.len()) == rows[k].status
    } by {
        let r = rows[k];
        assert(ten_to(5) == 100000) by {
            reveal_with_fuel(ten_to, 6);
        }
        lemma_decimal_digits(r.port as nat, 5);
        lemma_pad_right_exact(decimal(r.port as nat), 6);
        lemma_pad_right_exact(r.name, wn as nat);
        lemma_pad_right_exact(r.category, wc as nat);
        let line = line_text(r, wn, wc);
        assert(line.subrange(7, 7 + w) =~= pad_right(r.name, wn as nat));
        assert(line.subrange(9 + w, 9 + w + c) =~= pad_right(r.category, wc as nat));
        assert(line.subrange(11 + w + c, 11 + w + c + r.status.len()) =~= r.status);
    }
}

fn push_line(out: &mut String, row: &ListRow, name_w: usize, category_w: usize)
    ensures
        final(out)@ == old(out)@ + line_text(row@, name_w, category_w),
{
    let mut port = String::new();
    push_decimal(&mut port, row.port as u64);
    push_padded(out, port.as_str(), 6);
    push_char(out, ' ');
    push_padded(out, row.name.as_str(), name_w);
    push_char(out, ' ');
    push_char(out, ' ');
    push_padded(out, row.category.as_str(), category_w);
    push_char(out, ' ');
    push_char(out, ' ');
    out.append(row.status);
    if row.source.as_str().is_empty() {
        push_char(out, '\n');
    } else {
        push_char(out, ' ');
        push_char(out, '(');
        out.append(row.source.as_str());
        push_char(out, ')');
        push_char(out, '\n');
    }
    assert(final(out)@ =~= old(out)@ + line_text(row@, name_w, category_w));
}

/// The text of the `list` command for the apps, the open ports (container
/// ports merged in), the containers and the known services.
pub fn list_output(
    apps: &[App],
    alive: &[u16],
    containers: &[ContainerPort],
    known: &[KnownPort],
    dashboard_port: u16,
) -> (out: String)
    ensures
        out@ == list_text(apps@, alive@, containers@, known@, dashboard_port),
{
    if apps.len() == 0 && alive.len() == 0 {
        return NO_PORTS.to_owned();
    }
    let rows = list_rows(apps, alive, containers, known, dashboard_port);
    let ghost views = rows@.map_values(|r: ListRow| r@);
    let mut name_w: usize = 4;
    let mut category_w: usize = 8;
    let mut i: usize = 0;
    while i < rows.len()
        invariant
            i <= rows@.len(),
            views == rows@.map_values(|r: ListRow| r@),
            name_w == name_width(views.take(i as int)),
            category_w == category_width(views.take(i as int)),
        decreases rows@.len() - i,
    {
        proof {
            assert(views.take(i + 1).drop_last() =~= views.take(i as int));
        }
        let l = rows[i].name.as_str().len();
        if l > name_w {
            name_w = l;
        }
        let c = rows[i].category.as_str().len();
        if c > category_w {
            category_w = c;
        }
        i = i + 1;
    }
    proof {
        assert(views.take(rows@.len() as int) =~= views);
    }
    let mut out = String::new();
    push_padded(&mut out, HEAD_PORT, 6);
    push_char(&mut out, ' ');
    push_padded(&mut out, HEAD_NAME, name_w);
    push_char(&mut out, ' ');
    push_char(&mut out, ' ');
    push_padded(&mut out, HEAD_CATEGORY, category_w);
    out.append(HEAD_STATUS);
    let ghost head = out@;
    assert(head =~= header_text(name_w, category_w));
    let mut j: usize = 0;
    while j < rows.len()
        invariant
            j <= rows@.len(),
            views == rows@.map_values(|r: ListRow| r@),
            out@ == head + lines_text(views.take(j as int), name_w, category_w),
        decreases rows@.len() - j,
    {
        proof {
            assert(views.take(j + 1).drop_last() =~= views.take(j as int));
        }
        push_line(&mut out, &rows[j], name_w, category_w);
        proof {
            assert(views.take(j + 1).last() == rows@[j as int]@);
        }
        j = j + 1;
    }
    proof {
        assert(views.take(rows@.len() as int) =~= views);
    }
    out
}

} // verus!
