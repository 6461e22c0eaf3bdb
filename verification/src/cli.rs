//! The decisions and texts of the command line: reading port numbers, naming
//! apps in messages, home-relative paths, the service status box and the
//! startup service files.
use vstd::prelude::*;

use crate::model::App;
use crate::text::{chars_of, decimal, digit_char, push_char, push_decimal, push_signed_decimal, signed_decimal};

verus! {

/// Whether every character of `s` is an ASCII decimal digit.
pub open spec fn all_digits(s: Seq<char>) -> bool {
    forall|i: int| 0 <= i < s.len() ==> '0' <= #[trigger] s[i] && s[i] <= '9'
}

/// The number that a text of decimal digits stands for.
pub open spec fn digits_value(s: Seq<char>) -> nat
    decreases s.len(),
{
    if s.len() == 0 {
        0
    } else {
        digits_value(s.drop_last()) * 10 + (s.last() as nat - '0' as nat) as nat
    }
}

/// The magnitude of an integer text as `str::parse` reads it for an unsigned
/// type: an optional `+`, then one or more decimal digits.
pub open spec fn unsigned_text_value(s: Seq<char>) -> Option<nat> {
    let digits = if s.len() > 0 && s[0] == '+' { s.drop_first() } else { s };
    if digits.len() > 0 && all_digits(digits) {
        Some(digits_value(digits))
    } else {
        None
    }
}

/// An integer text as `str::parse` reads it for a signed type: an optional `+`
/// or `-`, then one or more decimal digits.
pub open spec fn signed_text_value(s: Seq<char>) -> Option<int> {
    let negative = s.len() > 0 && s[0] == '-';
    let digits = if s.len() > 0 && (s[0] == '+' || s[0] == '-') { s.drop_first() } else { s };
    if digits.len() > 0 && all_digits(digits) {
        Some(if negative { -digits_value(digits) } else { digits_value(digits) as int })
    } else {
        None
    }
}

/// `s` read as a `u16`, as `s.parse::<u16>()` does; `None` when it is not a
/// number or does not fit.
pub open spec fn u16_of_text(s: Seq<char>) -> Option<u16> {
    match unsigned_text_value(s) {
        Some(v) => if v <= u16::MAX {
            Some(v as u16)
        } else {
            None
        },
        None => None,
    }
}

/// `s` read as an `i64`, as `s.parse::<i64>()` does.
pub open spec fn i64_of_text(s: Seq<char>) -> Option<i64> {
    match signed_text_value(s) {
        Some(v) => if i64::MIN <= v <= i64::MAX {
            Some(v as i64)
        } else {
            None
        },
        None => None,
    }
}

proof fn lemma_digit_char(d: nat)
    requires
        d < 10,
    ensures
        '0' <= digit_char(d) <= '9',
        digit_char(d) as nat - '0' as nat == d,
        (digit_char(d) == '0') == (d == 0),
{
}

/// `decimal(n)` is the base-10 numeral of `n`: one or more decimal digits, with
/// no leading zero unless `n` is zero, that read back as `n`.
pub proof fn lemma_decimal_is_numeral(n: nat)
    ensures
        decimal(n).len() >= 1,
        all_digits(decimal(n)),
        decimal(n)[0] == '0' ==> n == 0,
        digits_value(decimal(n)) == n,
    decreases n,
{
    let s = decimal(n);
    if n < 10 {
        lemma_digit_char(n);
        assert(s.drop_last() =~= Seq::<char>::empty());
        assert(s.last() == digit_char(n));
        assert(digits_value(s.drop_last()) == 0);
        assert(digits_value(s) == digits_value(s.drop_last()) * 10 + n);
    } else {
        lemma_decimal_is_numeral(n / 10);
        lemma_digit_char(n % 10);
        let prev = decimal(n / 10);
        assert(s == prev.push(digit_char(n % 10)));
        assert(s.drop_last() =~= prev);
        assert(s[0] == prev[0]);
        assert forall|i: int| 0 <= i < s.len() implies '0' <= #[trigger] s[i] && s[i] <= '9' by {
            if i < prev.len() {
                assert(s[i] == prev[i]);
            }
        }
        assert(s.last() == digit_char(n % 10));
        assert(digits_value(s) == digits_value(prev) * 10 + n % 10);
        assert((n / 10) * 10 + n % 10 == n);
    }
}

/// A port written in decimal reads back as the same port.
pub proof fn lemma_port_text_reads_back(p: u16)
    ensures
        u16_of_text(decimal(p as nat)) == Some(p),
{
    lemma_decimal_is_numeral(p as nat);
    let s = decimal(p as nat);
    assert('0' <= s[0] <= '9');
}

/// A signed integer written as `Display` writes it reads back as the same integer.
pub proof fn lemma_signed_text_reads_back(n: i64)
    ensures
        i64_of_text(signed_decimal(n as int)) == Some(n),
{
    if n < 0 {
        lemma_decimal_is_numeral((-n) as nat);
        let s = signed_decimal(n as int);
        assert(s.drop_first() =~= decimal((-n) as nat));
    } else {
        lemma_decimal_is_numeral(n as nat);
        let s = decimal(n as nat);
        assert('0' <= s[0] <= '9');
    }
}

/// Reads the digits of `cs` from `start`, stopping the count at `cap + 1`.
fn capped_digits(cs: &Vec<char>, start: usize, cap: u64) -> (r: Option<u64>)
    requires
        start <= cs@.len(),
        cap < u64::MAX,
    ensures
        match r {
            Some(v) => all_digits(cs@.skip(start as int)) && v as nat == if digits_value(
                cs@.skip(start as int),
            ) <= cap {
                digits_value(cs@.skip(start as int))
            } else {
                (cap + 1) as nat
            },
            None => !all_digits(cs@.skip(start as int)),
        },
{
    let ghost digits = cs@.skip(start as int);
    let mut acc: u128 = 0;
    let mut i: usize = start;
    while i < cs.len()
        invariant
            start <= i <= cs@.len(),
            cap < u64::MAX,
            digits == cs@.skip(start as int),
            all_digits(digits.take(i - start)),
            acc <= cap + 1,
            acc as nat == if digits_value(digits.take(i - start)) <= cap {
                digits_value(digits.take(i - start))
            } else {
                (cap + 1) as nat
            },
        decreases cs@.len() - i,
    {
        let c = cs[i];
        let ghost before = digits.take(i - start);
        let ghost after = digits.take(i - start + 1);
        assert(after.drop_last() =~= before);
        assert(after.last() == c);
        if !('0' <= c && c <= '9') {
            assert(digits[i - start] == c);
            return None;
        }
        let d: u128 = (c as u32 - '0' as u32) as u128;
        assert(d as nat == (c as nat - '0' as nat) as nat);
        assert(digits_value(after) == digits_value(before) * 10 + d);
        if acc > cap as u128 {
            assert(digits_value(before) > cap);
            assert(digits_value(after) > cap) by (nonlinear_arith)
                requires
                    digits_value(after) == digits_value(before) * 10 + d,
                    digits_value(before) > cap,
            ;
        } else {
            let next = acc * 10 + d;
            if next > cap as u128 {
                acc = cap as u128 + 1;
            } else {
                acc = next;
            }
        }
        i = i + 1;
    }
    assert(digits.take(i - start) =~= digits);
    Some(acc as u64)
}

/// Reads a port number as `s.parse::<u16>()` does.
pub fn parse_u16(s: &str) -> (r: Option<u16>)
    ensures
        r == u16_of_text(s@),
{
    let cs = chars_of(s);
    let start: usize = if cs.len() > 0 && cs[0] == '+' { 1 } else { 0 };
    assert(cs@.skip(start as int) =~= if cs@.len() > 0 && cs@[0] == '+' { cs@.drop_first() } else { cs@ });
    if start >= cs.len() {
        return None;
    }
    match capped_digits(&cs, start, 65535) {
        Some(v) => if v <= 65535 {
            Some(v as u16)
        } else {
            None
        },
        None => None,
    }
}

/// Reads an integer as `s.parse::<i64>()` does.
pub fn parse_i64(s: &str) -> (r: Option<i64>)
    ensures
        r == i64_of_text(s@),
{
    let cs = chars_of(s);
    let negative = cs.len() > 0 && cs[0] == '-';
    let start: usize = if cs.len() > 0 && (cs[0] == '+' || cs[0] == '-') { 1 } else { 0 };
    assert(cs@.skip(start as int) =~= if cs@.len() > 0 && (cs@[0] == '+' || cs@[0] == '-') {
        cs@.drop_first()
    } else {
        cs@
    });
    if start >= cs.len() {
        return None;
    }
    let limit: u64 = 0x8000_0000_0000_0000;
    match capped_digits(&cs, start, limit) {
        Some(v) => if negative {
            if v <= limit {
                if v == limit {
                    Some(i64::MIN)
                } else {
                    Some(-(v as i64))
                }
            } else {
                None
            }
        } else {
            if v < limit {
                Some(v as i64)
            } else {
                None
            }
        },
        None => None,
    }
}


/// The port of an app, as `u16::try_from`; `None` when it does not fit.
pub open spec fn app_port(port: i64) -> Option<u16> {
    if 0 <= port <= u16::MAX {
        Some(port as u16)
    } else {
        None
    }
}

/// Resolve a target to a port number (from DB or direct parse).
pub fn resolve_port(target: &str, app: Option<&App>) -> (r: Option<u16>)
    ensures
        r == match app {
            Some(a) => app_port(a.port),
            None => u16_of_text(target@),
        },
{
    match app {
        Some(a) => if 0 <= a.port && a.port <= 65535 {
            Some(a.port as u16)
        } else {
            None
        },
        None => parse_u16(target),
    }
}

/// How messages name an app: its name, or `:port` when it has none.
pub open spec fn app_label_text(name: Seq<char>, port: i64) -> Seq<char> {
    if name.len() == 0 {
        seq![':'] + signed_decimal(port as int)
    } else {
        name
    }
}

/// The name of an app in messages: its name, or `:port` when it has none.
pub fn app_label(name: &str, port: i64) -> (out: String)
    ensures
        out@ == app_label_text(name@, port),
{
    if name.is_empty() {
        let mut out = String::new();
        push_char(&mut out, ':');
        push_signed_decimal(&mut out, port);
        assert(out@ =~= seq![':'] + signed_decimal(port as int));
        out
    } else {
        name.to_owned()
    }
}

/// `path` with a leading `~/` replaced by the home directory, when one is known.
pub open spec fn expanded_path(path: Seq<char>, home: Option<Seq<char>>) -> Seq<char> {
    if path.len() >= 2 && path[0] == '~' && path[1] == '/' && home is Some {
        home->0 + seq!['/'] + path.skip(2)
    } else {
        path
    }
}

/// Expands a leading `~/` of `path` with the home directory `home`.
pub fn expand_home(path: &str, home: Option<&str>) -> (out: String)
    ensures
        out@ == expanded_path(path@, match home {
            Some(h) => Some(h@),
            None => None,
        }),
{
    let cs = chars_of(path);
    if cs.len() >= 2 && cs[0] == '~' && cs[1] == '/' {
        if let Some(h) = home {
            let mut out = h.to_owned();
            push_char(&mut out, '/');
            let mut i: usize = 2;
            while i < cs.len()
                invariant
                    2 <= i <= cs@.len(),
                    cs@ == path@,
                    out@ == h@ + seq!['/'] + cs@.subrange(2, i as int),
                decreases cs@.len() - i,
            {
                push_char(&mut out, cs[i]);
                assert(cs@.subrange(2, i + 1) =~= cs@.subrange(2, i as int).push(cs@[i as int]));
                i = i + 1;
            }
            assert(cs@.subrange(2, cs@.len() as int) =~= path@.skip(2));
            return out;
        }
    }
    path.to_owned()
}

/// Whether `needle` occurs in `text`.
pub open spec fn contains_text(text: Seq<char>, needle: Seq<char>) -> bool {
    exists|i: int| 0 <= i <= text.len() - needle.len() && #[trigger] text.subrange(i, i + needle.len()) == needle
}

fn text_contains(text: &str, needle: &str) -> (r: bool)
    ensures
        r == contains_text(text@, needle@),
{
    let t = chars_of(text);
    let n = chars_of(needle);
    if n.len() > t.len() {
        return false;
    }
    let mut i: usize = 0;
    while i <= t.len() - n.len()
        invariant
            t@ == text@,
            n@ == needle@,
            n@.len() <= t@.len(),
            i <= t@.len() - n@.len() + 1,
            forall|k: int| 0 <= k < i ==> #[trigger] t@.subrange(k, k + n@.len()) != n@,
        decreases t@.len() - n@.len() + 1 - i,
    {
        let mut j: usize = 0;
        while j < n.len() && t[i + j] == n[j]
            invariant
                t@ == text@,
                n@ == needle@,
                i + n@.len() <= t@.len(),
                t@.len() <= usize::MAX,
                j <= n@.len(),
                forall|m: int| 0 <= m < j ==> t@[i + m] == n@[m],
            decreases n@.len() - j,
        {
            j = j + 1;
        }
        if j == n.len() {
            assert(t@.subrange(i as int, i + n@.len()) =~= n@);
            return true;
        }
        assert(t@.subrange(i as int, i + n@.len())[j as int] != n@[j as int]);
        i = i + 1;
    }
    false
}

/// The directory part that marks a Homebrew installation.
pub const HOMEBREW_CELLAR: &'static str = "/Cellar/";

/// Whether an executable path lies in a Homebrew cellar.
pub fn is_homebrew_path(path: &str) -> (r: bool)
    ensures
        r == contains_text(path@, HOMEBREW_CELLAR@),
{
    text_contains(path, HOMEBREW_CELLAR)
}

/// The service manager that runs portmap at startup, from what was probed:
/// on macOS a Homebrew service, then a launch agent; elsewhere a systemd unit.
pub open spec fn service_manager_name(macos: bool, homebrew: bool, launchd: bool, systemd: bool) -> Seq<char> {
    if macos {
        if homebrew {
            "homebrew"@
        } else if launchd {
            "launchd"@
        } else {
            "none"@
        }
    } else if systemd {
        "systemd"@
    } else {
        "none"@
    }
}

/// How the probes decide the service manager: on macOS a successful Homebrew
/// probe wins whatever the launch-agent probe says, then a launch agent, else
/// none, and the systemd probe does not count; elsewhere only the systemd probe
/// counts.
pub proof fn lemma_service_manager_probes(macos: bool, homebrew: bool, launchd: bool, systemd: bool)
    ensures
        macos && homebrew ==> service_manager_name(macos, homebrew, launchd, systemd) == "homebrew"@,
        macos && !homebrew && launchd ==> service_manager_name(macos, homebrew, launchd, systemd) == "launchd"@,
        macos && !homebrew && !launchd ==> service_manager_name(macos, homebrew, launchd, systemd) == "none"@,
        !macos && systemd ==> service_manager_name(macos, homebrew, launchd, systemd) == "systemd"@,
        !macos && !systemd ==> service_manager_name(macos, homebrew, launchd, systemd) == "none"@,
        service_manager_name(true, homebrew, launchd, systemd) == service_manager_name(true, homebrew, launchd, !systemd),
        service_manager_name(false, homebrew, launchd, systemd) == service_manager_name(false, !homebrew, !launchd, systemd),
{
}

/// Names the service manager from the results of the probes.
pub fn service_manager(macos: bool, homebrew: bool, launchd: bool, systemd: bool) -> (r: &'static str)
    ensures
        r@ == service_manager_name(macos, homebrew, launchd, systemd),
{
    if macos {
        if homebrew {
            "homebrew"
        } else if launchd {
            "launchd"
        } else {
            "none"
        }
    } else if systemd {
        "systemd"
    } else {
        "none"
    }
}

/// `s` padded with spaces on the right to `width` characters, as `{:<width}` does.
pub open spec fn pad_right(s: Seq<char>, width: nat) -> Seq<char> {
    if s.len() < width {
        s + Seq::new((width - s.len()) as nat, |i: int| ' ')
    } else {
        s
    }
}

/// Appends `s` padded with spaces on the right to `width` characters.
pub fn push_padded(out: &mut String, s: &str, width: usize)
    ensures
        final(out)@ == old(out)@ + pad_right(s@, width as nat),
{
    out.append(s);
    let n = chars_of(s).len();
    let mut k: usize = n;
    while k < width
        invariant
            n == s@.len(),
            n <= k <= width || (k == n && n >= width),
            out@ == old(out)@ + s@ + Seq::new((k - n) as nat, |i: int| ' '),
        decreases width - k,
    {
        push_char(out, ' ');
        assert(Seq::new((k - n) as nat, |i: int| ' ').push(' ') =~= Seq::new((k + 1 - n) as nat, |i: int| ' '));
        k = k + 1;
    }
    if n >= width {
        assert(out@ =~= old(out)@ + s@);
    } else {
        assert(out@ =~= old(out)@ + pad_right(s@, width as nat));
    }
}

pub const STATUS_BORDER: &'static str = "+------------+-------------------------------+\n";
pub const STATUS_PORTMAP: &'static str = "| portmap    | ";
pub const STATUS_DASHBOARD: &'static str = "| dashboard  | ";
pub const STATUS_SERVICE: &'static str = "| service    | ";
pub const STATUS_STARTUP: &'static str = "| on startup | ";
pub const STATUS_CELL_END: &'static str = " |\n";
pub const DASHBOARD_URL: &'static str = "http://localhost:";

/// The status box that `status` prints.
pub open spec fn status_text(running: bool, listen: u16, service: Seq<char>) -> Seq<char> {
    let dot = if running { "\u{25cf}"@ } else { "\u{25cb}"@ };
    let state = if running { "running"@ } else { "stopped"@ };
    let startup = if service == "none"@ { "no"@ } else { "yes"@ };
    let dashboard = if running {
        STATUS_DASHBOARD@ + pad_right(DASHBOARD_URL@ + decimal(listen as nat), 29) + STATUS_CELL_END@
    } else {
        Seq::empty()
    };
    STATUS_BORDER@ + STATUS_PORTMAP@ + dot + seq![' '] + pad_right(state, 27) + STATUS_CELL_END@
        + STATUS_BORDER@ + dashboard + STATUS_SERVICE@ + pad_right(service, 29) + STATUS_CELL_END@
        + STATUS_STARTUP@ + pad_right(startup, 29) + STATUS_CELL_END@ + STATUS_BORDER@
}

/// The status box: whether the dashboard runs, its URL, the service manager and
/// whether portmap starts at login.
pub fn status_report(running: bool, listen: u16, service: &str) -> (out: String)
    ensures
        out@ == status_text(running, listen, service@),
{
    let dot = if running { "\u{25cf}" } else { "\u{25cb}" };
    let state = if running { "running" } else { "stopped" };
    let startup = if crate::text::same_text(service, "none") { "no" } else { "yes" };
    let mut out = String::new();
    out.append(STATUS_BORDER);
    out.append(STATUS_PORTMAP);
    out.append(dot);
    push_char(&mut out, ' ');
    push_padded(&mut out, state, 27);
    out.append(STATUS_CELL_END);
    out.append(STATUS_BORDER);
    let ghost before_dashboard = out@;
    if running {
        let mut url = String::new();
        url.append(DASHBOARD_URL);
        push_decimal(&mut url, listen as u64);
        out.append(STATUS_DASHBOARD);
        push_padded(&mut out, url.as_str(), 29);
        out.append(STATUS_CELL_END);
    }
    out.append(STATUS_SERVICE);
    push_padded(&mut out, service, 29);
    out.append(STATUS_CELL_END);
    out.append(STATUS_STARTUP);
    push_padded(&mut out, startup, 29);
    out.append(STATUS_CELL_END);
    out.append(STATUS_BORDER);
    out
}

pub const PLIST_HEAD: &'static str = r#"<?xml version="1.0" encoding="UTF-8"?>
<!DOCTYPE plist PUBLIC "-//Apple//DTD PLIST 1.0//EN" "http://www.apple.com/DTDs/PropertyList-1.0.dtd">
<plist version="1.0">
<dict>
    <key>Label</key>
    <string>dev.portmap</string>
    <key>ProgramArguments</key>
    <array>
        <string>"#;
pub const PLIST_LISTEN: &'static str = r#"</string>
        <string>serve</string>
        <string>--listen</string>
        <string>"#;
pub const PLIST_SCAN_START: &'static str = r#"</string>
        <string>--scan-start</string>
        <string>"#;
pub const PLIST_SCAN_END: &'static str = r#"</string>
        <string>--scan-end</string>
        <string>"#;
pub const PLIST_TAIL: &'static str = r#"</string>
    </array>
    <key>RunAtLoad</key>
    <true/>
    <key>KeepAlive</key>
    <true/>
    <key>StandardOutPath</key>
    <string>/tmp/portmap.log</string>
    <key>StandardErrorPath</key>
    <string>/tmp/portmap.log</string>
</dict>
</plist>"#;

/// The launch agent that starts the dashboard at login on macOS.
pub open spec fn launchd_plist_text(exe: Seq<char>, port: u16, scan_start: u16, scan_end: u16) -> Seq<char> {
    PLIST_HEAD@ + exe + PLIST_LISTEN@ + decimal(port as nat) + PLIST_SCAN_START@ + decimal(
        scan_start as nat,
    ) + PLIST_SCAN_END@ + decimal(scan_end as nat) + PLIST_TAIL@
}

/// The launch agent property list for `exe serve --listen port --scan-start .. --scan-end ..`.
pub fn launchd_plist(exe: &str, port: u16, scan_start: u16, scan_end: u16) -> (out: String)
    ensures
        out@ == launchd_plist_text(exe@, port, scan_start, scan_end),
{
    let mut out = String::new();
    out.append(PLIST_HEAD);
    out.append(exe);
    out.append(PLIST_LISTEN);
    push_decimal(&mut out, port as u64);
    out.append(PLIST_SCAN_START);
    push_decimal(&mut out, scan_start as u64);
    out.append(PLIST_SCAN_END);
    push_decimal(&mut out, scan_end as u64);
    out.append(PLIST_TAIL);
    out
}

pub const UNIT_HEAD: &'static str = "[Unit]\nDescription=portmap\n\n[Service]\nExecStart=";
pub const UNIT_LISTEN: &'static str = " serve --listen ";
pub const UNIT_SCAN_START: &'static str = " --scan-start ";
pub const UNIT_SCAN_END: &'static str = " --scan-end ";
pub const UNIT_TAIL: &'static str = "\nRestart=always\n\n[Install]\nWantedBy=default.target\n";

/// The systemd user unit that starts the dashboard at login on Linux.
pub open spec fn systemd_unit_text(exe: Seq<char>, port: u16, scan_start: u16, scan_end: u16) -> Seq<char> {
    UNIT_HEAD@ + exe + UNIT_LISTEN@ + decimal(port as nat) + UNIT_SCAN_START@ + decimal(
        scan_start as nat,
    ) + UNIT_SCAN_END@ + decimal(scan_end as nat) + UNIT_TAIL@
}

/// The systemd unit for `exe serve --listen port --scan-start .. --scan-end ..`.
pub fn systemd_unit(exe: &str, port: u16, scan_start: u16, scan_end: u16) -> (out: String)
    ensures
        out@ == systemd_unit_text(exe@, port, scan_start, scan_end),
{
    let mut out = String::new();
    out.append(UNIT_HEAD);
    out.append(exe);
    out.append(UNIT_LISTEN);
    push_decimal(&mut out, port as u64);
    out.append(UNIT_SCAN_START);
    push_decimal(&mut out, scan_start as u64);
    out.append(UNIT_SCAN_END);
    push_decimal(&mut out, scan_end as u64);
    out.append(UNIT_TAIL);
    out
}

} // verus!
