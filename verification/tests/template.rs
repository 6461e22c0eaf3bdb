use portmap::color::{color_dot, default_color, hex_to_rgb, render_custom_css, render_filters};
use portmap::categories::extract_categories;
use portmap::model::{App, ContainerPort, KnownPort, TagColor};
use portmap::page::render;
use portmap::rows::{build_rows, category_badge, render_single_row};
use portmap::text::html_escape;

fn app(id: i64, name: &str, port: i64, category: &str) -> App {
    App { id, name: name.to_string(), port, category: category.to_string() }
}

fn tag(category: &str, color: &str) -> TagColor {
    TagColor { category: category.to_string(), color: color.to_string() }
}

fn container(port: u16, name: &str, source: &str) -> ContainerPort {
    ContainerPort { port, container_name: name.to_string(), source: source.to_string() }
}

fn known(port: u16, name: &str) -> KnownPort {
    KnownPort { port, name: name.to_string() }
}

#[test]
fn html_escape_replaces_markup_characters() {
    assert_eq!(html_escape("<a href=\"x\">Tom & 'Jerry'</a>"), "&lt;a href=&quot;x&quot;&gt;Tom &amp; &#x27;Jerry&#x27;&lt;/a&gt;");
}

#[test]
fn html_escape_keeps_plain_text() {
    assert_eq!(html_escape("my app: port 3000 (élan)"), "my app: port 3000 (élan)");
    assert_eq!(html_escape(""), "");
}

#[test]
fn hex_to_rgb_reads_lowercase_and_uppercase() {
    assert_eq!(hex_to_rgb("#38bdf8"), Some((56, 189, 248)));
    assert_eq!(hex_to_rgb("#FFFFFF"), Some((255, 255, 255)));
    assert_eq!(hex_to_rgb("#000000"), Some((0, 0, 0)));
}

#[test]
fn hex_to_rgb_rejects_malformed_colors() {
    assert_eq!(hex_to_rgb("38bdf8"), None);
    assert_eq!(hex_to_rgb("#38bdf"), None);
    assert_eq!(hex_to_rgb("#38bdf8a"), None);
    assert_eq!(hex_to_rgb("#zz0000"), None);
    assert_eq!(hex_to_rgb("#-f0000"), None);
    assert_eq!(hex_to_rgb(""), None);
    assert_eq!(hex_to_rgb("#é1234"), None);
}

#[test]
fn hex_to_rgb_rejects_signs_in_groups() {
    assert_eq!(hex_to_rgb("#+f+f+f"), None);
    assert_eq!(hex_to_rgb("#++0000"), None);
    assert_eq!(hex_to_rgb("#-10000"), None);
}

#[test]
fn hex_to_rgb_rejects_multibyte_text_without_panicking() {
    assert_eq!(hex_to_rgb("#aé123"), None);
    assert_eq!(hex_to_rgb("#éé12"), None);
    assert_eq!(hex_to_rgb("#12345é"), None);
    assert_eq!(hex_to_rgb("#€123"), None);
}

#[test]
fn render_custom_css_skips_multibyte_colors() {
    assert_eq!(render_custom_css(&[tag("web", "#aé123"), tag("api", "#€123")]), "");
}

#[test]
fn default_color_palette() {
    assert_eq!(default_color("frontend"), Some("#38bdf8"));
    assert_eq!(default_color("backend"), Some("#4ade80"));
    assert_eq!(default_color("mcp"), Some("#a855f7"));
    assert_eq!(default_color("macos"), Some("#949494"));
    assert_eq!(default_color("other"), None);
    assert_eq!(default_color("Frontend"), None);
}

#[test]
fn extract_categories_sorted_unique_non_empty() {
    let apps = vec![
        app(1, "web", 3000, "frontend"),
        app(2, "api", 8080, "backend"),
        app(3, "", 3001, ""),
        app(4, "admin", 3002, "frontend"),
        app(5, "tools", 9000, "mcp"),
        app(6, "x", 9001, "Zeta"),
    ];
    assert_eq!(extract_categories(&apps), vec!["Zeta", "backend", "frontend", "mcp"]);
    assert!(extract_categories(&[]).is_empty());
}

#[test]
fn category_badge_shapes() {
    assert_eq!(category_badge("frontend"), "<span class=\"badge badge-frontend\">frontend</span>");
    assert_eq!(category_badge(""), "");
    assert_eq!(category_badge("a&amp;b c-d"), "<span class=\"badge badge-aampbc-d\">a&amp;b c-d</span>");
}

#[test]
fn color_dot_prefers_custom_then_default_then_hollow() {
    let tcs = vec![tag("frontend", "#ff0000"), tag("ops", "#00ff00")];
    assert_eq!(color_dot("frontend", &tcs), "<span class=\"color-dot\" style=\"background:#ff0000\" data-category=\"frontend\"></span>");
    assert_eq!(color_dot("backend", &tcs), "<span class=\"color-dot\" style=\"background:#4ade80\" data-category=\"backend\"></span>");
    assert_eq!(color_dot("misc<1>", &tcs), "<span class=\"color-dot color-dot-hollow\" data-category=\"misc&lt;1&gt;\"></span>");
}

#[test]
fn render_filters_lists_buttons() {
    let tcs = vec![tag("ops", "#00ff00")];
    let cats = vec!["backend".to_string(), "ops".to_string(), "q\"x".to_string()];
    assert_eq!(render_filters(&cats, &tcs), "<button class=\"filter active\">all</button><button class=\"filter\" data-category=\"backend\">backend<span class=\"color-dot\" style=\"background:#4ade80\" data-category=\"backend\"></span></button><button class=\"filter\" data-category=\"ops\">ops<span class=\"color-dot\" style=\"background:#00ff00\" data-category=\"ops\"></span></button><button class=\"filter\" data-category=\"q&quot;x\">q&quot;x<span class=\"color-dot color-dot-hollow\" data-category=\"q&quot;x\"></span></button>");
    assert_eq!(render_filters(&[], &tcs), "<button class=\"filter active\">all</button>");
}

#[test]
fn render_custom_css_skips_invalid_colors() {
    let tcs = vec![tag("my tag", "#38bdf8"), tag("bad", "red"), tag("x&y", "#0A0b0C")];
    assert_eq!(render_custom_css(&tcs), "\n  .badge.badge-mytag {\n    background: rgba(56, 189, 248, 0.08);\n    color: rgba(56, 189, 248, 0.7);\n    border: 1px solid rgba(56, 189, 248, 0.1);\n  }\n  .filter[data-category=\"my tag\"] {\n    border-color: rgba(56, 189, 248, 0.2);\n  }\n  .filter[data-category=\"my tag\"].active {\n    background: rgba(56, 189, 248, 0.12);\n    color: rgba(56, 189, 248, 0.8);\n    border-color: rgba(56, 189, 248, 0.3);\n  }\n  .badge.badge-xy {\n    background: rgba(10, 11, 12, 0.08);\n    color: rgba(10, 11, 12, 0.7);\n    border: 1px solid rgba(10, 11, 12, 0.1);\n  }\n  .filter[data-category=\"x&amp;y\"] {\n    border-color: rgba(10, 11, 12, 0.2);\n  }\n  .filter[data-category=\"x&amp;y\"].active {\n    background: rgba(10, 11, 12, 0.12);\n    color: rgba(10, 11, 12, 0.8);\n    border-color: rgba(10, 11, 12, 0.3);\n  }");
    assert_eq!(render_custom_css(&[]), "");
}

#[test]
fn render_single_row_named_alive() {
    let row = render_single_row(3000, "web", "frontend", 1, true, "docker");
    assert_eq!(row.port, 3000);
    assert_eq!(row.name, "web");
    assert_eq!(row.category, "frontend");
    assert_eq!(row.app_id, 1);
    assert!(row.alive);
    assert_eq!(row.source, "docker");
    assert_eq!(row.html, "\n        <tr class=\"row\" data-port=\"3000\" data-app-id=\"1\" data-name=\"web\" data-category=\"frontend\" data-alive=\"true\" data-source=\"docker\"\n            onclick=\"go(3000)\" oncontextmenu=\"showRowMenu(event, this)\">\n          <td class=\"c-status\"><span class=\"dot alive\"></span></td>\n          <td class=\"c-name\">\n            <span class=\"c-name-text\">web</span>\n            <input class=\"inline-input\" data-field=\"name\" value=\"web\" placeholder=\"name\" style=\"display:none\" />\n          </td>\n          <td class=\"c-badge\">\n            <span class=\"c-badge-text\"><span class=\"badge badge-frontend\">frontend</span></span>\n            <input class=\"inline-input cat-inline\" data-field=\"category\" value=\"frontend\" placeholder=\"tag\" style=\"display:none\" />\n          </td>\n          <td class=\"c-source\"><span class=\"source-pill\">docker</span></td>\n          <td class=\"c-port\">3000</td>\n          <td class=\"c-actions\"><button class=\"act-edit\" onclick=\"event.stopPropagation();inlineEdit(event, this.closest('.row'))\" title=\"Edit\"><svg width=\"13\" height=\"13\" viewBox=\"0 0 24 24\" fill=\"none\" stroke=\"currentColor\" stroke-width=\"2\" stroke-linecap=\"round\" stroke-linejoin=\"round\"><path d=\"M17 3a2.85 2.83 0 1 1 4 4L7.5 20.5 2 22l1.5-5.5Z\"/></svg></button><button class=\"act-more\" onclick=\"event.stopPropagation();showRowMenu(event, this.closest('.row'))\" title=\"More\"><svg width=\"13\" height=\"13\" viewBox=\"0 0 24 24\" fill=\"currentColor\"><circle cx=\"12\" cy=\"5\" r=\"1.5\"/><circle cx=\"12\" cy=\"12\" r=\"1.5\"/><circle cx=\"12\" cy=\"19\" r=\"1.5\"/></svg></button></td>\n        </tr>");
}

#[test]
fn render_single_row_unnamed_down() {
    let row = render_single_row(8080, "", "", -7, false, "");
    assert!(!row.alive);
    assert_eq!(row.html, "\n        <tr class=\"row is-down\" data-port=\"8080\" data-app-id=\"-7\" data-name=\"\" data-category=\"\" data-alive=\"false\" data-source=\"\"\n            onclick=\"go(8080)\" oncontextmenu=\"showRowMenu(event, this)\">\n          <td class=\"c-status\"><span class=\"dot down\"></span></td>\n          <td class=\"c-name\">\n            <span class=\"c-name-text\"><span class=\"unnamed\">port 8080</span><span class=\"add-label\" onclick=\"event.stopPropagation();inlineEdit(event, this.closest('.row'))\">add details</span></span>\n            <input class=\"inline-input\" data-field=\"name\" value=\"\" placeholder=\"name\" style=\"display:none\" />\n          </td>\n          <td class=\"c-badge\">\n            <span class=\"c-badge-text\"></span>\n            <input class=\"inline-input cat-inline\" data-field=\"category\" value=\"\" placeholder=\"tag\" style=\"display:none\" />\n          </td>\n          <td class=\"c-source\"><span class=\"offline-pill\">offline</span></td>\n          <td class=\"c-port\">8080</td>\n          <td class=\"c-actions\"><button class=\"act-edit\" onclick=\"event.stopPropagation();inlineEdit(event, this.closest('.row'))\" title=\"Edit\"><svg width=\"13\" height=\"13\" viewBox=\"0 0 24 24\" fill=\"none\" stroke=\"currentColor\" stroke-width=\"2\" stroke-linecap=\"round\" stroke-linejoin=\"round\"><path d=\"M17 3a2.85 2.83 0 1 1 4 4L7.5 20.5 2 22l1.5-5.5Z\"/></svg></button><button class=\"act-more\" onclick=\"event.stopPropagation();showRowMenu(event, this.closest('.row'))\" title=\"More\"><svg width=\"13\" height=\"13\" viewBox=\"0 0 24 24\" fill=\"currentColor\"><circle cx=\"12\" cy=\"5\" r=\"1.5\"/><circle cx=\"12\" cy=\"12\" r=\"1.5\"/><circle cx=\"12\" cy=\"19\" r=\"1.5\"/></svg></button></td>\n        </tr>");
}

#[test]
fn build_rows_orders_alive_known_offline() {
    let apps = vec![
        app(1, "web", 3000, "frontend"),
        app(2, "api", 8080, "backend"),
        app(3, "db", 4000, ""),
        app(4, "big", 70000, "x"),
    ];
    let containers = vec![
        container(7000, "redis", "docker"),
        container(4000, "pg-old", "podman"),
        container(4000, "pg", "docker"),
    ];
    let known_ports = vec![known(5000, "AirPlay Receiver"), known(7000, "AirPlay Streaming")];
    let rows = build_rows(&[5000, 3000, 7000, 9958, 4000], &apps, &containers, &known_ports);
    assert_eq!(rows.len(), 7);
    assert_eq!((rows[0].port, rows[0].name.as_str(), rows[0].category.as_str(), rows[0].app_id, rows[0].alive, rows[0].source.as_str()), (3000, "web", "frontend", 1, true, ""));
    assert_eq!(rows[0].html, "\n        <tr class=\"row\" data-port=\"3000\" data-app-id=\"1\" data-name=\"web\" data-category=\"frontend\" data-alive=\"true\" data-source=\"\"\n            onclick=\"go(3000)\" oncontextmenu=\"showRowMenu(event, this)\">\n          <td class=\"c-status\"><span class=\"dot alive\"></span></td>\n          <td class=\"c-name\">\n            <span class=\"c-name-text\">web</span>\n            <input class=\"inline-input\" data-field=\"name\" value=\"web\" placeholder=\"name\" style=\"display:none\" />\n          </td>\n          <td class=\"c-badge\">\n            <span class=\"c-badge-text\"><span class=\"badge badge-frontend\">frontend</span></span>\n            <input class=\"inline-input cat-inline\" data-field=\"category\" value=\"frontend\" placeholder=\"tag\" style=\"display:none\" />\n          </td>\n          <td class=\"c-source\"></td>\n          <td class=\"c-port\">3000</td>\n          <td class=\"c-actions\"><button class=\"act-edit\" onclick=\"event.stopPropagation();inlineEdit(event, this.closest('.row'))\" title=\"Edit\"><svg width=\"13\" height=\"13\" viewBox=\"0 0 24 24\" fill=\"none\" stroke=\"currentColor\" stroke-width=\"2\" stroke-linecap=\"round\" stroke-linejoin=\"round\"><path d=\"M17 3a2.85 2.83 0 1 1 4 4L7.5 20.5 2 22l1.5-5.5Z\"/></svg></button><button class=\"act-more\" onclick=\"event.stopPropagation();showRowMenu(event, this.closest('.row'))\" title=\"More\"><svg width=\"13\" height=\"13\" viewBox=\"0 0 24 24\" fill=\"currentColor\"><circle cx=\"12\" cy=\"5\" r=\"1.5\"/><circle cx=\"12\" cy=\"12\" r=\"1.5\"/><circle cx=\"12\" cy=\"19\" r=\"1.5\"/></svg></button></td>\n        </tr>");
    assert_eq!((rows[1].port, rows[1].name.as_str(), rows[1].category.as_str(), rows[1].app_id, rows[1].alive, rows[1].source.as_str()), (7000, "redis", "", 0, true, "docker"));
    assert_eq!(rows[1].html, "\n        <tr class=\"row\" data-port=\"7000\" data-app-id=\"0\" data-name=\"redis\" data-category=\"\" data-alive=\"true\" data-source=\"docker\"\n            onclick=\"go(7000)\" oncontextmenu=\"showRowMenu(event, this)\">\n          <td class=\"c-status\"><span class=\"dot alive\"></span></td>\n          <td class=\"c-name\">\n            <span class=\"c-name-text\">redis</span>\n            <input class=\"inline-input\" data-field=\"name\" value=\"redis\" placeholder=\"name\" style=\"display:none\" />\n          </td>\n          <td class=\"c-badge\">\n            <span class=\"c-badge-text\"></span>\n            <input class=\"inline-input cat-inline\" data-field=\"category\" value=\"\" placeholder=\"tag\" style=\"display:none\" />\n          </td>\n          <td class=\"c-source\"><span class=\"source-pill\">docker</span></td>\n          <td class=\"c-port\">7000</td>\n          <td class=\"c-actions\"><button class=\"act-edit\" onclick=\"event.stopPropagation();inlineEdit(event, this.closest('.row'))\" title=\"Edit\"><svg width=\"13\" height=\"13\" viewBox=\"0 0 24 24\" fill=\"none\" stroke=\"currentColor\" stroke-width=\"2\" stroke-linecap=\"round\" stroke-linejoin=\"round\"><path d=\"M17 3a2.85 2.83 0 1 1 4 4L7.5 20.5 2 22l1.5-5.5Z\"/></svg></button><button class=\"act-more\" onclick=\"event.stopPropagation();showRowMenu(event, this.closest('.row'))\" title=\"More\"><svg width=\"13\" height=\"13\" viewBox=\"0 0 24 24\" fill=\"currentColor\"><circle cx=\"12\" cy=\"5\" r=\"1.5\"/><circle cx=\"12\" cy=\"12\" r=\"1.5\"/><circle cx=\"12\" cy=\"19\" r=\"1.5\"/></svg></button></td>\n        </tr>");
    assert_eq!((rows[2].port, rows[2].name.as_str(), rows[2].category.as_str(), rows[2].app_id, rows[2].alive, rows[2].source.as_str()), (9958, "", "", 0, true, ""));
    assert_eq!(rows[2].html, "\n        <tr class=\"row\" data-port=\"9958\" data-app-id=\"0\" data-name=\"\" data-category=\"\" data-alive=\"true\" data-source=\"\"\n            onclick=\"go(9958)\" oncontextmenu=\"showRowMenu(event, this)\">\n          <td class=\"c-status\"><span class=\"dot alive\"></span></td>\n          <td class=\"c-name\">\n            <span class=\"c-name-text\"><span class=\"unnamed\">port 9958</span><span class=\"add-label\" onclick=\"event.stopPropagation();inlineEdit(event, this.closest('.row'))\">add details</span></span>\n            <input class=\"inline-input\" data-field=\"name\" value=\"\" placeholder=\"name\" style=\"display:none\" />\n          </td>\n          <td class=\"c-badge\">\n            <span class=\"c-badge-text\"></span>\n            <input class=\"inline-input cat-inline\" data-field=\"category\" value=\"\" placeholder=\"tag\" style=\"display:none\" />\n          </td>\n          <td class=\"c-source\"></td>\n          <td class=\"c-port\">9958</td>\n          <td class=\"c-actions\"><button class=\"act-edit\" onclick=\"event.stopPropagation();inlineEdit(event, this.closest('.row'))\" title=\"Edit\"><svg width=\"13\" height=\"13\" viewBox=\"0 0 24 24\" fill=\"none\" stroke=\"currentColor\" stroke-width=\"2\" stroke-linecap=\"round\" stroke-linejoin=\"round\"><path d=\"M17 3a2.85 2.83 0 1 1 4 4L7.5 20.5 2 22l1.5-5.5Z\"/></svg></button><button class=\"act-more\" onclick=\"event.stopPropagation();showRowMenu(event, this.closest('.row'))\" title=\"More\"><svg width=\"13\" height=\"13\" viewBox=\"0 0 24 24\" fill=\"currentColor\"><circle cx=\"12\" cy=\"5\" r=\"1.5\"/><circle cx=\"12\" cy=\"12\" r=\"1.5\"/><circle cx=\"12\" cy=\"19\" r=\"1.5\"/></svg></button></td>\n        </tr>");
    assert_eq!((rows[3].port, rows[3].name.as_str(), rows[3].category.as_str(), rows[3].app_id, rows[3].alive, rows[3].source.as_str()), (4000, "db", "", 3, true, "docker"));
    assert_eq!(rows[3].html, "\n        <tr class=\"row\" data-port=\"4000\" data-app-id=\"3\" data-name=\"db\" data-category=\"\" data-alive=\"true\" data-source=\"docker\"\n            onclick=\"go(4000)\" oncontextmenu=\"showRowMenu(event, this)\">\n          <td class=\"c-status\"><span class=\"dot alive\"></span></td>\n          <td class=\"c-name\">\n            <span class=\"c-name-text\">db</span>\n            <input class=\"inline-input\" data-field=\"name\" value=\"db\" placeholder=\"name\" style=\"display:none\" />\n          </td>\n          <td class=\"c-badge\">\n            <span class=\"c-badge-text\"></span>\n            <input class=\"inline-input cat-inline\" data-field=\"category\" value=\"\" placeholder=\"tag\" style=\"display:none\" />\n          </td>\n          <td class=\"c-source\"><span class=\"source-pill\">docker</span></td>\n          <td class=\"c-port\">4000</td>\n          <td class=\"c-actions\"><button class=\"act-edit\" onclick=\"event.stopPropagation();inlineEdit(event, this.closest('.row'))\" title=\"Edit\"><svg width=\"13\" height=\"13\" viewBox=\"0 0 24 24\" fill=\"none\" stroke=\"currentColor\" stroke-width=\"2\" stroke-linecap=\"round\" stroke-linejoin=\"round\"><path d=\"M17 3a2.85 2.83 0 1 1 4 4L7.5 20.5 2 22l1.5-5.5Z\"/></svg></button><button class=\"act-more\" onclick=\"event.stopPropagation();showRowMenu(event, this.closest('.row'))\" title=\"More\"><svg width=\"13\" height=\"13\" viewBox=\"0 0 24 24\" fill=\"currentColor\"><circle cx=\"12\" cy=\"5\" r=\"1.5\"/><circle cx=\"12\" cy=\"12\" r=\"1.5\"/><circle cx=\"12\" cy=\"19\" r=\"1.5\"/></svg></button></td>\n        </tr>");
    assert_eq!((rows[4].port, rows[4].name.as_str(), rows[4].category.as_str(), rows[4].app_id, rows[4].alive, rows[4].source.as_str()), (5000, "AirPlay Receiver", "macos", 0, true, ""));
    assert_eq!(rows[4].html, "\n        <tr class=\"row\" data-port=\"5000\" data-app-id=\"0\" data-name=\"AirPlay Receiver\" data-category=\"macos\" data-alive=\"true\" data-source=\"\"\n            onclick=\"go(5000)\" oncontextmenu=\"showRowMenu(event, this)\">\n          <td class=\"c-status\"><span class=\"dot alive\"></span></td>\n          <td class=\"c-name\">\n            <span class=\"c-name-text\">AirPlay Receiver</span>\n            <input class=\"inline-input\" data-field=\"name\" value=\"AirPlay Receiver\" placeholder=\"name\" style=\"display:none\" />\n          </td>\n          <td class=\"c-badge\">\n            <span class=\"c-badge-text\"><span class=\"badge badge-macos\">macos</span></span>\n            <input class=\"inline-input cat-inline\" data-field=\"category\" value=\"macos\" placeholder=\"tag\" style=\"display:none\" />\n          </td>\n          <td class=\"c-source\"></td>\n          <td class=\"c-port\">5000</td>\n          <td class=\"c-actions\"><button class=\"act-edit\" onclick=\"event.stopPropagation();inlineEdit(event, this.closest('.row'))\" title=\"Edit\"><svg width=\"13\" height=\"13\" viewBox=\"0 0 24 24\" fill=\"none\" stroke=\"currentColor\" stroke-width=\"2\" stroke-linecap=\"round\" stroke-linejoin=\"round\"><path d=\"M17 3a2.85 2.83 0 1 1 4 4L7.5 20.5 2 22l1.5-5.5Z\"/></svg></button><button class=\"act-more\" onclick=\"event.stopPropagation();showRowMenu(event, this.closest('.row'))\" title=\"More\"><svg width=\"13\" height=\"13\" viewBox=\"0 0 24 24\" fill=\"currentColor\"><circle cx=\"12\" cy=\"5\" r=\"1.5\"/><circle cx=\"12\" cy=\"12\" r=\"1.5\"/><circle cx=\"12\" cy=\"19\" r=\"1.5\"/></svg></button></td>\n        </tr>");
    assert_eq!((rows[5].port, rows[5].name.as_str(), rows[5].category.as_str(), rows[5].app_id, rows[5].alive, rows[5].source.as_str()), (8080, "api", "backend", 2, false, ""));
    assert_eq!(rows[5].html, "\n        <tr class=\"row is-down\" data-port=\"8080\" data-app-id=\"2\" data-name=\"api\" data-category=\"backend\" data-alive=\"false\" data-source=\"\"\n            onclick=\"go(8080)\" oncontextmenu=\"showRowMenu(event, this)\">\n          <td class=\"c-status\"><span class=\"dot down\"></span></td>\n          <td class=\"c-name\">\n            <span class=\"c-name-text\">api</span>\n            <input class=\"inline-input\" data-field=\"name\" value=\"api\" placeholder=\"name\" style=\"display:none\" />\n          </td>\n          <td class=\"c-badge\">\n            <span class=\"c-badge-text\"><span class=\"badge badge-backend\">backend</span></span>\n            <input class=\"inline-input cat-inline\" data-field=\"category\" value=\"backend\" placeholder=\"tag\" style=\"display:none\" />\n          </td>\n          <td class=\"c-source\"><span class=\"offline-pill\">offline</span></td>\n          <td class=\"c-port\">8080</td>\n          <td class=\"c-actions\"><button class=\"act-edit\" onclick=\"event.stopPropagation();inlineEdit(event, this.closest('.row'))\" title=\"Edit\"><svg width=\"13\" height=\"13\" viewBox=\"0 0 24 24\" fill=\"none\" stroke=\"currentColor\" stroke-width=\"2\" stroke-linecap=\"round\" stroke-linejoin=\"round\"><path d=\"M17 3a2.85 2.83 0 1 1 4 4L7.5 20.5 2 22l1.5-5.5Z\"/></svg></button><button class=\"act-more\" onclick=\"event.stopPropagation();showRowMenu(event, this.closest('.row'))\" title=\"More\"><svg width=\"13\" height=\"13\" viewBox=\"0 0 24 24\" fill=\"currentColor\"><circle cx=\"12\" cy=\"5\" r=\"1.5\"/><circle cx=\"12\" cy=\"12\" r=\"1.5\"/><circle cx=\"12\" cy=\"19\" r=\"1.5\"/></svg></button></td>\n        </tr>");
    assert_eq!((rows[6].port, rows[6].name.as_str(), rows[6].category.as_str(), rows[6].app_id, rows[6].alive, rows[6].source.as_str()), (0, "big", "x", 4, false, ""));
    assert_eq!(rows[6].html, "\n        <tr class=\"row is-down\" data-port=\"0\" data-app-id=\"4\" data-name=\"big\" data-category=\"x\" data-alive=\"false\" data-source=\"\"\n            onclick=\"go(0)\" oncontextmenu=\"showRowMenu(event, this)\">\n          <td class=\"c-status\"><span class=\"dot down\"></span></td>\n          <td class=\"c-name\">\n            <span class=\"c-name-text\">big</span>\n            <input class=\"inline-input\" data-field=\"name\" value=\"big\" placeholder=\"name\" style=\"display:none\" />\n          </td>\n          <td class=\"c-badge\">\n            <span class=\"c-badge-text\"><span class=\"badge badge-x\">x</span></span>\n            <input class=\"inline-input cat-inline\" data-field=\"category\" value=\"x\" placeholder=\"tag\" style=\"display:none\" />\n          </td>\n          <td class=\"c-source\"><span class=\"offline-pill\">offline</span></td>\n          <td class=\"c-port\">0</td>\n          <td class=\"c-actions\"><button class=\"act-edit\" onclick=\"event.stopPropagation();inlineEdit(event, this.closest('.row'))\" title=\"Edit\"><svg width=\"13\" height=\"13\" viewBox=\"0 0 24 24\" fill=\"none\" stroke=\"currentColor\" stroke-width=\"2\" stroke-linecap=\"round\" stroke-linejoin=\"round\"><path d=\"M17 3a2.85 2.83 0 1 1 4 4L7.5 20.5 2 22l1.5-5.5Z\"/></svg></button><button class=\"act-more\" onclick=\"event.stopPropagation();showRowMenu(event, this.closest('.row'))\" title=\"More\"><svg width=\"13\" height=\"13\" viewBox=\"0 0 24 24\" fill=\"currentColor\"><circle cx=\"12\" cy=\"5\" r=\"1.5\"/><circle cx=\"12\" cy=\"12\" r=\"1.5\"/><circle cx=\"12\" cy=\"19\" r=\"1.5\"/></svg></button></td>\n        </tr>");
}

#[test]
fn build_rows_out_of_range_port_shown_as_zero() {
    let apps = vec![app(9, "far", 70000, "")];
    let rows = build_rows(&[], &apps, &[], &[]);
    assert_eq!(rows.len(), 1);
    assert_eq!(rows[0].port, 0);
    assert!(!rows[0].alive);
    let rows = build_rows(&[0], &apps, &[], &[]);
    assert_eq!(rows.len(), 1);
    assert!(rows[0].alive);
}

#[test]
fn render_empty_dashboard() {
    let page = render(&[], &[], 1000, 9999, 1337, &[], &[], &[]);
    assert!(page.starts_with("<!DOCTYPE html>"));
    assert!(page.ends_with("</body>\n</html>"));
    assert!(page.contains("<span class=\"pill\" id=\"pill\">0 ports <span class=\"pill-range\">&middot; range 1000&ndash;9999</span></span>"));
    assert!(page.contains("<p class=\"empty\">No active ports found.</p>"));
    assert!(page.contains("<div class=\"filters\"><button class=\"filter active\">all</button></div>"));
    assert!(page.contains("<span class=\"links-port\">:1337</span>"));
    assert!(page.contains("<div class=\"card\">\n      <p class=\"empty\">No active ports found.</p>\n    </div>"));
}

#[test]
fn render_single_port_and_custom_colors() {
    let apps = vec![app(1, "web", 3000, "frontend")];
    let tcs = vec![tag("frontend", "#ff0000")];
    let page = render(&[3000], &apps, 1000, 9999, 1337, &tcs, &[], &[]);
    assert!(page.contains("1 port <span class=\"pill-range\">"));
    let rows = build_rows(&[3000], &apps, &[], &[]);
    assert!(page.contains(&format!("<table>{}</table>", rows[0].html)));
    assert!(page.contains(&render_custom_css(&tcs)));
    assert!(page.contains(&render_filters(&["frontend".to_string()], &tcs)));
}

#[test]
fn html_escape_keeps_different_texts_apart() {
    assert_ne!(html_escape("&lt;"), html_escape("<"));
    assert_eq!(html_escape("&lt;"), "&amp;lt;");
    assert_eq!(html_escape("<"), "&lt;");
}

#[test]
fn hex_to_rgb_reads_two_digit_hex_back() {
    for (r, g, b) in [(0u8, 0u8, 0u8), (255, 255, 255), (1, 16, 171), (56, 189, 248), (10, 11, 12)] {
        assert_eq!(hex_to_rgb(&format!("#{:02x}{:02x}{:02x}", r, g, b)), Some((r, g, b)));
        assert_eq!(hex_to_rgb(&format!("#{:02X}{:02X}{:02X}", r, g, b)), Some((r, g, b)));
    }
}

#[test]
fn render_custom_css_of_joined_lists() {
    let a = vec![tag("web", "#38bdf8"), tag("bad", "red")];
    let b = vec![tag("db", "#0A0b0C"), tag("x&y", "#aé123")];
    let mut both = vec![tag("web", "#38bdf8"), tag("bad", "red")];
    both.extend(vec![tag("db", "#0A0b0C"), tag("x&y", "#aé123")]);
    assert_eq!(render_custom_css(&both), render_custom_css(&a) + &render_custom_css(&b));
}

#[test]
fn render_single_row_markup_does_not_depend_on_user_text() {
    let plain = render_single_row(3000, "web", "frontend", 1, true, "docker");
    let hostile = render_single_row(3000, "<b>\"x'</b>", "a\"><script>", 1, true, "'\"<>");
    for ch in ['<', '>', '"', '\''] {
        assert_eq!(plain.html.matches(ch).count(), hostile.html.matches(ch).count());
    }
}
