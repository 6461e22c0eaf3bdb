//! Category tag colors: parsing `#RRGGBB`, the built-in palette, color dots,
//! the filter buttons and the CSS rules for custom colors.
use vstd::prelude::*;

use crate::model::TagColor;
use crate::text::{chars_of, escaped, html_escape, same_text, class_chars, css_class_name, decimal, push_decimal};

verus! {

/// The value of a hexadecimal digit, as `from_str_radix(.., 16)` reads it.
pub open spec fn hex_digit_value(c: char) -> Option<u8> {
    if '0' <= c && c <= '9' {
        Some((c as u32 - '0' as u32) as u8)
    } else if 'a' <= c && c <= 'f' {
        Some((c as u32 - 'a' as u32 + 10) as u8)
    } else if 'A' <= c && c <= 'F' {
        Some((c as u32 - 'A' as u32 + 10) as u8)
    } else {
        None
    }
}

/// The byte written by the two hexadecimal digits `a b`; `None` unless both
/// are hexadecimal digits.
pub open spec fn hex_pair(a: char, b: char) -> Option<u8> {
    match (hex_digit_value(a), hex_digit_value(b)) {
        (Some(x), Some(y)) => Some((x * 16 + y) as u8),
        _ => None,
    }
}

/// `#RRGGBB` read as three bytes; `None` for any other text.
pub open spec fn rgb_of(s: Seq<char>) -> Option<(u8, u8, u8)> {
    if s.len() == 7 && s[0] == '#' {
        match (hex_pair(s[1], s[2]), hex_pair(s[3], s[4]), hex_pair(s[5], s[6])) {
            (Some(r), Some(g), Some(b)) => Some((r, g, b)),
            _ => None,
        }
    } else {
        None
    }
}

fn hex_digit(c: char) -> (r: Option<u8>)
    ensures
        r == hex_digit_value(c),
{
    if '0' <= c && c <= '9' {
        Some((c as u32 - '0' as u32) as u8)
    } else if 'a' <= c && c <= 'f' {
        Some((c as u32 - 'a' as u32 + 10) as u8)
    } else if 'A' <= c && c <= 'F' {
        Some((c as u32 - 'A' as u32 + 10) as u8)
    } else {
        None
    }
}

fn parse_hex_pair(a: char, b: char) -> (r: Option<u8>)
    ensures
        r == hex_pair(a, b),
{
    match (hex_digit(a), hex_digit(b)) {
        (Some(x), Some(y)) => Some(x * 16 + y),
        _ => None,
    }
}

/// Parse `#RRGGBB` into `(r, g, b)`. Returns `None` on invalid input.
pub fn hex_to_rgb(hex: &str) -> (r: Option<(u8, u8, u8)>)
    ensures
        r == rgb_of(hex@),
{
    let cs = chars_of(hex);
    if cs.len() != 7 || cs[0] != '#' {
        return None;
    }
    match (parse_hex_pair(cs[1], cs[2]), parse_hex_pair(cs[3], cs[4]), parse_hex_pair(cs[5], cs[6])) {
        (Some(r), Some(g), Some(b)) => Some((r, g, b)),
        _ => None,
    }
}


/// The built-in color of a category, if it has one.
pub open spec fn default_color_of(category: Seq<char>) -> Option<Seq<char>> {
    if category == "frontend"@ {
        Some("#38bdf8"@)
    } else if category == "backend"@ {
        Some("#4ade80"@)
    } else if category == "mcp"@ {
        Some("#a855f7"@)
    } else if category == "macos"@ {
        Some("#949494"@)
    } else {
        None
    }
}

/// Built-in default colors for common categories.
pub fn default_color(category: &str) -> (r: Option<&'static str>)
    ensures
        match r {
            Some(c) => default_color_of(category@) == Some(c@),
            None => default_color_of(category@) is None,
        },
{
    if same_text(category, "frontend") {
        Some("#38bdf8")
    } else if same_text(category, "backend") {
        Some("#4ade80")
    } else if same_text(category, "mcp") {
        Some("#a855f7")
    } else if same_text(category, "macos") {
        Some("#949494")
    } else {
        None
    }
}

/// The color of the first custom tag color set for `category`.
pub open spec fn custom_color_of(category: Seq<char>, tag_colors: Seq<TagColor>) -> Option<Seq<char>>
    decreases tag_colors.len(),
{
    if tag_colors.len() == 0 {
        None
    } else if tag_colors[0].category@ == category {
        Some(tag_colors[0].color@)
    } else {
        custom_color_of(category, tag_colors.drop_first())
    }
}

/// The color a category is shown in: its custom color, else its built-in one.
pub open spec fn color_of(category: Seq<char>, tag_colors: Seq<TagColor>) -> Option<Seq<char>> {
    match custom_color_of(category, tag_colors) {
        Some(c) => Some(c),
        None => default_color_of(category),
    }
}

pub const DOT_SOLID_OPEN: &'static str = r#"<span class="color-dot" style="background:"#;
pub const DOT_CATEGORY: &'static str = r#"" data-category=""#;
pub const DOT_HOLLOW_OPEN: &'static str = r#"<span class="color-dot color-dot-hollow" data-category=""#;
pub const DOT_CLOSE: &'static str = r#""></span>"#;

/// The color dot shown for a category.
pub open spec fn color_dot_html(category: Seq<char>, tag_colors: Seq<TagColor>) -> Seq<char> {
    match color_of(category, tag_colors) {
        Some(hex) => DOT_SOLID_OPEN@ + escaped(hex) + DOT_CATEGORY@ + escaped(category) + DOT_CLOSE@,
        None => DOT_HOLLOW_OPEN@ + escaped(category) + DOT_CLOSE@,
    }
}

fn find_custom_color<'a>(category: &str, tag_colors: &'a [TagColor]) -> (r: Option<&'a String>)
    ensures
        match r {
            Some(c) => custom_color_of(category@, tag_colors@) == Some(c@),
            None => custom_color_of(category@, tag_colors@) is None,
        },
{
    let mut i: usize = 0;
    assert(tag_colors@.skip(0) =~= tag_colors@);
    while i < tag_colors.len()
        invariant
            i <= tag_colors@.len(),
            custom_color_of(category@, tag_colors@) == custom_color_of(category@, tag_colors@.skip(i as int)),
        decreases tag_colors@.len() - i,
    {
        let ghost rest = tag_colors@.skip(i as int);
        if same_text(tag_colors[i].category.as_str(), category) {
            return Some(&tag_colors[i].color);
        }
        assert(rest.drop_first() =~= tag_colors@.skip(i + 1));
        i = i + 1;
    }
    None
}

/// Render a small color dot for a category. Uses custom color, then built-in default, then hollow.
pub fn color_dot(category: &str, tag_colors: &[TagColor]) -> (out: String)
    ensures
        out@ == color_dot_html(category@, tag_colors@),
{
    let color: Option<&str> = match find_custom_color(category, tag_colors) {
        Some(c) => Some(c.as_str()),
        None => default_color(category),
    };
    let cat_esc = html_escape(category);
    let mut out = String::new();
    match color {
        Some(hex) => {
            let hex_esc = html_escape(hex);
            out.append(DOT_SOLID_OPEN);
            out.append(hex_esc.as_str());
            out.append(DOT_CATEGORY);
            out.append(cat_esc.as_str());
            out.append(DOT_CLOSE);
        },
        None => {
            out.append(DOT_HOLLOW_OPEN);
            out.append(cat_esc.as_str());
            out.append(DOT_CLOSE);
        },
    }
    out
}


pub const FILTER_ALL: &'static str = r#"<button class="filter active">all</button>"#;
pub const FILTER_OPEN: &'static str = r#"<button class="filter" data-category=""#;
pub const FILTER_LABEL: &'static str = r#"">"#;
pub const FILTER_CLOSE: &'static str = r#"</button>"#;

/// The filter button of one category.
pub open spec fn filter_button_html(category: Seq<char>, tag_colors: Seq<TagColor>) -> Seq<char> {
    FILTER_OPEN@ + escaped(category) + FILTER_LABEL@ + escaped(category) + color_dot_html(
        category,
        tag_colors,
    ) + FILTER_CLOSE@
}

/// The "all" button followed by one button per category, in order.
pub open spec fn filters_html(categories: Seq<Seq<char>>, tag_colors: Seq<TagColor>) -> Seq<char>
    decreases categories.len(),
{
    if categories.len() == 0 {
        FILTER_ALL@
    } else {
        filters_html(categories.drop_last(), tag_colors) + filter_button_html(
            categories.last(),
            tag_colors,
        )
    }
}

/// Render filter button HTML. Uses event delegation (no inline onclick).
/// Color dots use the tag's custom color if set.
pub fn render_filters(categories: &[String], tag_colors: &[TagColor]) -> (html: String)
    ensures
        html@ == filters_html(categories@.map_values(|c: String| c@), tag_colors@),
{
    let ghost cats = categories@.map_values(|c: String| c@);
    let mut html = String::new();
    html.append(FILTER_ALL);
    let mut i: usize = 0;
    while i < categories.len()
        invariant
            i <= categories@.len(),
            cats == categories@.map_values(|c: String| c@),
            html@ == filters_html(cats.take(i as int), tag_colors@),
        decreases categories@.len() - i,
    {
        let cat = categories[i].as_str();
        let cat_esc = html_escape(cat);
        let dot = color_dot(cat, tag_colors);
        html.append(FILTER_OPEN);
        html.append(cat_esc.as_str());
        html.append(FILTER_LABEL);
        html.append(cat_esc.as_str());
        html.append(dot.as_str());
        html.append(FILTER_CLOSE);
        proof {
            assert(cats.take(i + 1).drop_last() =~= cats.take(i as int));
            assert(cats.take(i + 1).last() == cat@);
        }
        i = i + 1;
    }
    assert(cats.take(categories@.len() as int) =~= cats);
    html
}

pub const RGB_SEP: &'static str = ", ";
pub const RULE_BADGE: &'static str = r#"
  .badge.badge-"#;
pub const RULE_BADGE_BACKGROUND: &'static str = r#" {
    background: rgba("#;
pub const RULE_BADGE_COLOR: &'static str = r#", 0.08);
    color: rgba("#;
pub const RULE_BADGE_BORDER: &'static str = r#", 0.7);
    border: 1px solid rgba("#;
pub const RULE_FILTER: &'static str = r#", 0.1);
  }
  .filter[data-category=""#;
pub const RULE_FILTER_BORDER: &'static str = r#""] {
    border-color: rgba("#;
pub const RULE_ACTIVE: &'static str = r#", 0.2);
  }
  .filter[data-category=""#;
pub const RULE_ACTIVE_BACKGROUND: &'static str = r#""].active {
    background: rgba("#;
pub const RULE_ACTIVE_COLOR: &'static str = r#", 0.12);
    color: rgba("#;
pub const RULE_ACTIVE_BORDER: &'static str = r#", 0.8);
    border-color: rgba("#;
pub const RULE_END: &'static str = r#", 0.3);
  }"#;

/// `r, g, b` in decimal.
pub open spec fn rgb_text(r: u8, g: u8, b: u8) -> Seq<char> {
    decimal(r as nat) + RGB_SEP@ + decimal(g as nat) + RGB_SEP@ + decimal(b as nat)
}

/// The CSS rules that color a category's badge and filter button.
pub open spec fn color_rules(class: Seq<char>, category_esc: Seq<char>, r: u8, g: u8, b: u8) -> Seq<
    char,
> {
    let rgb = rgb_text(r, g, b);
    RULE_BADGE@ + class + RULE_BADGE_BACKGROUND@ + rgb + RULE_BADGE_COLOR@ + rgb
        + RULE_BADGE_BORDER@ + rgb + RULE_FILTER@ + category_esc + RULE_FILTER_BORDER@ + rgb
        + RULE_ACTIVE@ + category_esc + RULE_ACTIVE_BACKGROUND@ + rgb + RULE_ACTIVE_COLOR@ + rgb
        + RULE_ACTIVE_BORDER@ + rgb + RULE_END@
}

/// The rules of one custom tag color; nothing when its color is not `#RRGGBB`.
pub open spec fn tag_color_css(tc: TagColor) -> Seq<char> {
    match rgb_of(tc.color@) {
        Some((r, g, b)) => color_rules(class_chars(tc.category@), escaped(tc.category@), r, g, b),
        None => Seq::empty(),
    }
}

/// The rules of all custom tag colors, in order.
pub open spec fn custom_css(tag_colors: Seq<TagColor>) -> Seq<char>
    decreases tag_colors.len(),
{
    if tag_colors.len() == 0 {
        Seq::empty()
    } else {
        custom_css(tag_colors.drop_last()) + tag_color_css(tag_colors.last())
    }
}

fn push_rgb(out: &mut String, r: u8, g: u8, b: u8)
    ensures
        final(out)@ == old(out)@ + rgb_text(r, g, b),
{
    push_decimal(out, r as u64);
    out.append(RGB_SEP);
    push_decimal(out, g as u64);
    out.append(RGB_SEP);
    push_decimal(out, b as u64);
    assert(final(out)@ =~= old(out)@ + rgb_text(r, g, b));
}

fn color_rules_text(class: &str, category_esc: &str, r: u8, g: u8, b: u8) -> (out: String)
    ensures
        out@ == color_rules(class@, category_esc@, r, g, b),
{
    let ghost rgb = rgb_text(r, g, b);
    let mut out = String::new();
    out.append(RULE_BADGE);
    out.append(class);
    out.append(RULE_BADGE_BACKGROUND);
    push_rgb(&mut out, r, g, b);
    out.append(RULE_BADGE_COLOR);
    push_rgb(&mut out, r, g, b);
    out.append(RULE_BADGE_BORDER);
    push_rgb(&mut out, r, g, b);
    out.append(RULE_FILTER);
    out.append(category_esc);
    out.append(RULE_FILTER_BORDER);
    push_rgb(&mut out, r, g, b);
    out.append(RULE_ACTIVE);
    out.append(category_esc);
    out.append(RULE_ACTIVE_BACKGROUND);
    push_rgb(&mut out, r, g, b);
    out.append(RULE_ACTIVE_COLOR);
    push_rgb(&mut out, r, g, b);
    out.append(RULE_ACTIVE_BORDER);
    push_rgb(&mut out, r, g, b);
    out.append(RULE_END);
    out
}

/// Render dynamic CSS rules for custom tag colors.
pub fn render_custom_css(tag_colors: &[TagColor]) -> (css: String)
    ensures
        css@ == custom_css(tag_colors@),
{
    let mut css = String::new();
    let mut i: usize = 0;
    while i < tag_colors.len()
        invariant
            i <= tag_colors@.len(),
            css@ == custom_css(tag_colors@.take(i as int)),
        decreases tag_colors@.len() - i,
    {
        let tc = &tag_colors[i];
        let css_class = css_class_name(tc.category.as_str());
        proof {
            assert(tag_colors@.take(i + 1).drop_last() =~= tag_colors@.take(i as int));
            assert(tag_colors@.take(i + 1).last() == *tc);
        }
        if let Some((r, g, b)) = hex_to_rgb(tc.color.as_str()) {
            let cat_esc = html_escape(tc.category.as_str());
            let rules = color_rules_text(css_class.as_str(), cat_esc.as_str(), r, g, b);
            css.append(rules.as_str());
        } else {
            assert(tag_color_css(*tc) =~= Seq::<char>::empty());
            assert(css@ =~= css@ + Seq::<char>::empty());
        }
        i = i + 1;
    }
    assert(tag_colors@.take(tag_colors@.len() as int) =~= tag_colors@);
    css
}

/// The hexadecimal digit of `d` (below 16), in lower or upper case, as `{:x}` and
/// `{:X}` write it.
pub open spec fn hex_digit_char(d: nat, upper: bool) -> char {
    if upper {
        seq!['0', '1', '2', '3', '4', '5', '6', '7', '8', '9', 'A', 'B', 'C', 'D', 'E', 'F'][d as int]
    } else {
        seq!['0', '1', '2', '3', '4', '5', '6', '7', '8', '9', 'a', 'b', 'c', 'd', 'e', 'f'][d as int]
    }
}

/// `#rrggbb` (or `#RRGGBB` when `upper`), as `{:02x}` (or `{:02X}`) writes each byte.
pub open spec fn hex_color_text(r: u8, g: u8, b: u8, upper: bool) -> Seq<char> {
    seq![
        '#',
        hex_digit_char((r / 16) as nat, upper),
        hex_digit_char((r % 16) as nat, upper),
        hex_digit_char((g / 16) as nat, upper),
        hex_digit_char((g % 16) as nat, upper),
        hex_digit_char((b / 16) as nat, upper),
        hex_digit_char((b % 16) as nat, upper),
    ]
}

proof fn lemma_hex_digit_char(d: nat, upper: bool)
    requires
        d < 16,
    ensures
        hex_digit_value(hex_digit_char(d, upper)) == Some(d as u8),
{
    if d == 0 {} else if d == 1 {} else if d == 2 {} else if d == 3 {} else if d == 4 {}
    else if d == 5 {} else if d == 6 {} else if d == 7 {} else if d == 8 {} else if d == 9 {}
    else if d == 10 {} else if d == 11 {} else if d == 12 {} else if d == 13 {} else if d == 14 {}
    else {}
}

proof fn lemma_hex_byte(x: u8, upper: bool)
    ensures
        hex_pair(hex_digit_char((x / 16) as nat, upper), hex_digit_char((x % 16) as nat, upper)) == Some(x),
{
    lemma_hex_digit_char((x / 16) as nat, upper);
    lemma_hex_digit_char((x % 16) as nat, upper);
    assert(((x / 16) as u8) * 16 + ((x % 16) as u8) == x);
}

/// Every color written as two hexadecimal digits per byte, in lower or upper
/// case, is read back as the same three bytes.
pub proof fn lemma_rgb_of_hex_color_text(r: u8, g: u8, b: u8, upper: bool)
    ensures
        rgb_of(hex_color_text(r, g, b, upper)) == Some((r, g, b)),
{
    lemma_hex_byte(r, upper);
    lemma_hex_byte(g, upper);
    lemma_hex_byte(b, upper);
}

/// The rules of two lists of tag colors one after the other are the rules of
/// the first list followed by those of the second: each tag color adds its own
/// rules, in order, whatever the others are.
pub proof fn lemma_custom_css_concat(a: Seq<TagColor>, b: Seq<TagColor>)
    ensures
        custom_css(a + b) == custom_css(a) + custom_css(b),
    decreases b.len(),
{
    if b.len() == 0 {
        assert(a + b =~= a);
        assert(custom_css(a) + custom_css(b) =~= custom_css(a));
    } else {
        lemma_custom_css_concat(a, b.drop_last());
        assert((a + b).drop_last() =~= a + b.drop_last());
        assert((a + b).last() == b.last());
        assert(custom_css(a) + custom_css(b.drop_last()) + tag_color_css(b.last())
            =~= custom_css(a) + custom_css(b));
    }
}

} // verus!
