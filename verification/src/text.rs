//! Character-level string building blocks: escaping, decimal rendering,
//! character filters and comparisons over the `Seq<char>` view of strings.
use vstd::prelude::*;

verus! {

/// Appends one character to a `String` (std's `String::push`).
///
/// Trusted: the contract states what std documents for `String::push`,
/// namely that the character is appended at the end.
#[verifier::external_body]
pub(crate) fn push_char(s: &mut String, c: char)
    ensures
        final(s)@ == old(s)@.push(c),
{
    s.push(c);
}

/// The HTML entity (or the character itself) that stands for `c`.
pub open spec fn escape_char(c: char) -> Seq<char> {
    if c == '&' {
        seq!['&', 'a', 'm', 'p', ';']
    } else if c == '<' {
        seq!['&', 'l', 't', ';']
    } else if c == '>' {
        seq!['&', 'g', 't', ';']
    } else if c == '"' {
        seq!['&', 'q', 'u', 'o', 't', ';']
    } else if c == '\'' {
        seq!['&', '#', 'x', '2', '7', ';']
    } else {
        seq![c]
    }
}

/// `s` with each character replaced by `escape_char` of it.
pub open spec fn escaped(s: Seq<char>) -> Seq<char>
    decreases s.len(),
{
    if s.len() == 0 {
        Seq::empty()
    } else {
        escaped(s.drop_last()) + escape_char(s.last())
    }
}

/// Escape a string for safe inclusion in HTML text and double-quoted attributes.
pub fn html_escape(s: &str) -> (out: String)
    ensures
        out@ == escaped(s@),
{
    let mut out = String::new();
    for c in it: s.chars()
        invariant
            it.seq() == s@,
            out@ == escaped(s@.take(it.index() as int)),
    {
        proof {
            assert(s@.take(it.index() + 1).drop_last() == s@.take(it.index() as int));
        }
        if c == '&' {
            out.append("&amp;");
            proof { reveal_strlit("&amp;"); }
        } else if c == '<' {
            out.append("&lt;");
            proof { reveal_strlit("&lt;"); }
        } else if c == '>' {
            out.append("&gt;");
            proof { reveal_strlit("&gt;"); }
        } else if c == '"' {
            out.append("&quot;");
            proof { reveal_strlit("&quot;"); }
        } else if c == '\'' {
            out.append("&#x27;");
            proof { reveal_strlit("&#x27;"); }
        } else {
            push_char(&mut out, c);
        }
    }
    assert(s@.take(s@.len() as int) =~= s@);
    out
}

} // verus!

verus! {

/// The character for a decimal digit `d < 10`.
pub open spec fn digit_char(d: nat) -> char {
    if d == 0 { '0' }
    else if d == 1 { '1' }
    else if d == 2 { '2' }
    else if d == 3 { '3' }
    else if d == 4 { '4' }
    else if d == 5 { '5' }
    else if d == 6 { '6' }
    else if d == 7 { '7' }
    else if d == 8 { '8' }
    else { '9' }
}

/// The decimal representation of `n`, without sign or leading zeros.
pub open spec fn decimal(n: nat) -> Seq<char>
    decreases n,
{
    if n < 10 {
        seq![digit_char(n)]
    } else {
        decimal(n / 10).push(digit_char(n % 10))
    }
}

/// The decimal representation of a signed integer, as `Display` writes it.
pub open spec fn signed_decimal(n: int) -> Seq<char> {
    if n < 0 {
        seq!['-'] + decimal((-n) as nat)
    } else {
        decimal(n as nat)
    }
}

/// How `Display` writes a `bool`.
pub open spec fn bool_text(b: bool) -> Seq<char> {
    if b {
        seq!['t', 'r', 'u', 'e']
    } else {
        seq!['f', 'a', 'l', 's', 'e']
    }
}

fn digit(d: u64) -> (c: char)
    requires
        d < 10,
    ensures
        c == digit_char(d as nat),
{
    if d == 0 { '0' }
    else if d == 1 { '1' }
    else if d == 2 { '2' }
    else if d == 3 { '3' }
    else if d == 4 { '4' }
    else if d == 5 { '5' }
    else if d == 6 { '6' }
    else if d == 7 { '7' }
    else if d == 8 { '8' }
    else { '9' }
}

/// Appends the decimal representation of `n`.
pub fn push_decimal(out: &mut String, n: u64)
    ensures
        final(out)@ == old(out)@ + decimal(n as nat),
    decreases n,
{
    if n < 10 {
        push_char(out, digit(n));
        assert(old(out)@.push(digit_char(n as nat)) =~= old(out)@ + decimal(n as nat));
    } else {
        push_decimal(out, n / 10);
        push_char(out, digit(n % 10));
        assert(old(out)@ + decimal((n / 10) as nat) + seq![digit_char((n % 10) as nat)]
            =~= old(out)@ + decimal(n as nat));
    }
}

/// Appends the decimal representation of a signed integer.
pub fn push_signed_decimal(out: &mut String, n: i64)
    ensures
        final(out)@ == old(out)@ + signed_decimal(n as int),
{
    if n < 0 {
        push_char(out, '-');
        let magnitude: u64 = ((-(n + 1)) as u64) + 1;
        push_decimal(out, magnitude);
        assert(old(out)@.push('-') + decimal(magnitude as nat)
            =~= old(out)@ + signed_decimal(n as int));
    } else {
        push_decimal(out, n as u64);
    }
}

/// Appends `true` or `false`.
pub fn push_bool(out: &mut String, b: bool)
    ensures
        final(out)@ == old(out)@ + bool_text(b),
{
    if b {
        out.append("true");
        proof { reveal_strlit("true"); }
    } else {
        out.append("false");
        proof { reveal_strlit("false"); }
    }
}

/// The characters of `s`, in order.
pub fn chars_of(s: &str) -> (v: Vec<char>)
    ensures
        v@ == s@,
{
    let mut v: Vec<char> = Vec::new();
    for c in it: s.chars()
        invariant
            it.seq() == s@,
            v@ == s@.take(it.index() as int),
    {
        v.push(c);
        assert(v@ =~= s@.take(it.index() + 1));
    }
    assert(s@.take(s@.len() as int) =~= s@);
    v
}

/// Whether two strings hold the same characters.
pub fn same_text(a: &str, b: &str) -> (r: bool)
    ensures
        r == (a@ == b@),
{
    let x = chars_of(a);
    let y = chars_of(b);
    if x.len() != y.len() {
        return false;
    }
    let mut i: usize = 0;
    while i < x.len()
        invariant
            x@ == a@,
            y@ == b@,
            x@.len() == y@.len(),
            i <= x@.len(),
            forall|j: int| 0 <= j < i ==> x@[j] == y@[j],
        decreases x@.len() - i,
    {
        if x[i] != y[i] {
            return false;
        }
        i = i + 1;
    }
    assert(x@ =~= y@);
    true
}

/// Whether `c` is kept in a CSS class name: an ASCII letter or digit, or `-`.
pub open spec fn is_class_char(c: char) -> bool {
    ('a' <= c && c <= 'z') || ('A' <= c && c <= 'Z') || ('0' <= c && c <= '9') || c == '-'
}

/// The characters of `s` that may stand in a CSS class name, in order.
pub open spec fn class_chars(s: Seq<char>) -> Seq<char> {
    s.filter(|c: char| is_class_char(c))
}

/// Keeps the ASCII letters, digits and hyphens of `s`.
pub fn css_class_name(s: &str) -> (out: String)
    ensures
        out@ == class_chars(s@),
{
    let mut out = String::new();
    for c in it: s.chars()
        invariant
            it.seq() == s@,
            out@ == class_chars(s@.take(it.index() as int)),
    {
        proof {
            assert(s@.take(it.index() + 1).drop_last() =~= s@.take(it.index() as int));
        }
        let ghost before = s@.take(it.index() as int);
        let ghost after = s@.take(it.index() + 1);
        if ('a' <= c && c <= 'z') || ('A' <= c && c <= 'Z') || ('0' <= c && c <= '9') || c == '-' {
            push_char(&mut out, c);
        }
        proof {
            reveal(Seq::filter);
            assert(after.last() == c);
            assert(after.drop_last() == before);
            assert(class_chars(after) == if is_class_char(c) {
                class_chars(before).push(c)
            } else {
                class_chars(before)
            });
        }
    }
    assert(s@.take(s@.len() as int) =~= s@);
    out
}


/// Whether `c` would end a text or an attribute value in HTML.
pub open spec fn is_markup_char(c: char) -> bool {
    c == '<' || c == '>' || c == '"' || c == '\''
}

/// Escaped text holds no `<`, `>`, `"` or `'`: it cannot open a tag or close
/// a quoted attribute, whatever the input.
pub proof fn lemma_escaped_has_no_markup(s: Seq<char>)
    ensures
        forall|i: int| 0 <= i < escaped(s).len() ==> !is_markup_char(#[trigger] escaped(s)[i]),
    decreases s.len(),
{
    if s.len() > 0 {
        lemma_escaped_has_no_markup(s.drop_last());
        let e = escape_char(s.last());
        assert forall|i: int| 0 <= i < e.len() implies !is_markup_char(#[trigger] e[i]) by {}
        let prev = escaped(s.drop_last());
        assert forall|i: int| 0 <= i < escaped(s).len() implies !is_markup_char(#[trigger] escaped(s)[i]) by {
            if i < prev.len() {
                assert(escaped(s)[i] == prev[i]);
            } else {
                assert(escaped(s)[i] == e[i - prev.len()]);
            }
        }
    }
}

/// Text without `&`, `<`, `>`, `"` or `'` is left as it is by escaping.
pub proof fn lemma_escape_keeps_plain_text(s: Seq<char>)
    requires
        forall|i: int| 0 <= i < s.len() ==> !is_markup_char(#[trigger] s[i]) && s[i] != '&',
    ensures
        escaped(s) == s,
    decreases s.len(),
{
    if s.len() > 0 {
        assert(!is_markup_char(s[s.len() - 1]) && s[s.len() - 1] != '&');
        lemma_escape_keeps_plain_text(s.drop_last());
        assert(s.drop_last().push(s.last()) =~= s);
    } else {
        assert(s =~= Seq::<char>::empty());
    }
}

/// A CSS class name built by `class_chars` holds only ASCII letters, digits and hyphens.
pub proof fn lemma_class_chars_only_class_chars(s: Seq<char>)
    ensures
        forall|i: int| 0 <= i < class_chars(s).len() ==> is_class_char(#[trigger] class_chars(s)[i]),
{
    assert forall|i: int| 0 <= i < class_chars(s).len() implies is_class_char(#[trigger] class_chars(s)[i]) by {
        s.lemma_filter_pred(|c: char| is_class_char(c), i);
    }
}


/// Whether `t` begins with `p`.
pub open spec fn starts_with(t: Seq<char>, p: Seq<char>) -> bool {
    p.len() <= t.len() && t.take(p.len() as int) == p
}

/// Escaped text read back: from left to right, each of the five entities that
/// escaping writes turns back into its character; every other character stays.
pub open spec fn unescape(t: Seq<char>) -> Seq<char>
    decreases t.len(),
{
    if t.len() == 0 {
        t
    } else if starts_with(t, escape_char('&')) {
        seq!['&'] + unescape(t.skip(5))
    } else if starts_with(t, escape_char('<')) {
        seq!['<'] + unescape(t.skip(4))
    } else if starts_with(t, escape_char('>')) {
        seq!['>'] + unescape(t.skip(4))
    } else if starts_with(t, escape_char('"')) {
        seq!['"'] + unescape(t.skip(6))
    } else if starts_with(t, escape_char('\'')) {
        seq!['\''] + unescape(t.skip(6))
    } else {
        seq![t[0]] + unescape(t.skip(1))
    }
}

proof fn lemma_escaped_concat(a: Seq<char>, b: Seq<char>)
    ensures
        escaped(a + b) == escaped(a) + escaped(b),
    decreases b.len(),
{
    if b.len() == 0 {
        assert(a + b =~= a);
        assert(escaped(a) + escaped(b) =~= escaped(a));
    } else {
        lemma_escaped_concat(a, b.drop_last());
        assert((a + b).drop_last() =~= a + b.drop_last());
        assert((a + b).last() == b.last());
        assert(escaped(a) + escaped(b.drop_last()) + escape_char(b.last()) =~= escaped(a) + escaped(b));
    }
}

proof fn lemma_unescape_entity(c: char, rest: Seq<char>)
    ensures
        unescape(escape_char(c) + rest) == seq![c] + unescape(rest),
{
    let e = escape_char(c);
    let t = e + rest;
    assert(t.skip(e.len() as int) =~= rest);
    assert(t.take(e.len() as int) =~= e);
    assert(t[0] == e[0]);
    if c != '&' {
        if escape_char('&').len() <= t.len() {
            assert(t.take(5)[1] == t[1]);
        }
    }
    if c != '&' && c != '<' {
        if escape_char('<').len() <= t.len() {
            assert(t.take(4)[1] == t[1]);
        }
    }
    if c != '&' && c != '<' && c != '>' {
        if escape_char('>').len() <= t.len() {
            assert(t.take(4)[1] == t[1]);
        }
    }
    if c != '&' && c != '<' && c != '>' && c != '"' {
        if escape_char('"').len() <= t.len() {
            assert(t.take(6)[1] == t[1]);
        }
    }
}

proof fn lemma_unescape_escaped_once(s: Seq<char>)
    ensures
        unescape(escaped(s)) == s,
    decreases s.len(),
{
    if s.len() > 0 {
        let rest = s.drop_first();
        lemma_unescape_escaped_once(rest);
        lemma_escaped_concat(seq![s[0]], rest);
        assert(seq![s[0]] + rest =~= s);
        let one = seq![s[0]];
        assert(one.drop_last() =~= Seq::<char>::empty());
        assert(escaped(one.drop_last()) == Seq::<char>::empty());
        assert(one.last() == s[0]);
        assert(escaped(one) =~= escape_char(s[0]));
        lemma_unescape_entity(s[0], escaped(rest));
        assert(seq![s[0]] + unescape(escaped(rest)) =~= s);
    } else {
        assert(escaped(s) =~= s);
    }
}

/// Escaping loses nothing: reading the escaped text back with `unescape` gives
/// the input again, so two different texts never escape to the same text.
pub proof fn lemma_unescape_escaped(s: Seq<char>)
    ensures
        unescape(escaped(s)) == s,
        forall|t: Seq<char>| #[trigger] escaped(t) == escaped(s) ==> t == s,
{
    lemma_unescape_escaped_once(s);
    assert forall|t: Seq<char>| #[trigger] escaped(t) == escaped(s) implies t == s by {
        lemma_unescape_escaped_once(t);
    }
}

/// The test that picks markup characters.
pub open spec fn markup_pred() -> spec_fn(char) -> bool {
    |c: char| is_markup_char(c)
}

/// The markup characters of `s`, in order.
pub open spec fn markup_of(s: Seq<char>) -> Seq<char> {
    s.filter(markup_pred())
}

/// How often `c` occurs in `s`.
pub open spec fn count_of(s: Seq<char>, c: char) -> nat
    decreases s.len(),
{
    if s.len() == 0 {
        0
    } else {
        count_of(s.drop_last(), c) + if s.last() == c { 1nat } else { 0nat }
    }
}

/// The markup of two texts side by side is the markup of the one, then of the other.
pub broadcast proof fn lemma_markup_concat(a: Seq<char>, b: Seq<char>)
    ensures
        #[trigger] markup_of(a + b) == markup_of(a) + markup_of(b),
{
    Seq::filter_distributes_over_add(a, b, markup_pred());
}

/// A text without markup characters has no markup.
pub proof fn lemma_markup_of_plain(s: Seq<char>)
    requires
        forall|i: int| 0 <= i < s.len() ==> !is_markup_char(#[trigger] s[i]),
    ensures
        markup_of(s) == Seq::<char>::empty(),
    decreases s.len(),
{
    reveal(Seq::filter);
    if s.len() > 0 {
        assert(!is_markup_char(s[s.len() - 1]));
        lemma_markup_of_plain(s.drop_last());
    }
}

/// Escaped text has no markup, and is empty exactly when its input is.
pub proof fn lemma_markup_of_escaped(s: Seq<char>)
    ensures
        markup_of(escaped(s)) == Seq::<char>::empty(),
        escaped(s).len() == 0 <==> s.len() == 0,
    decreases s.len(),
{
    lemma_escaped_has_no_markup(s);
    lemma_markup_of_plain(escaped(s));
    if s.len() > 0 {
        lemma_markup_of_escaped(s.drop_last());
    }
}

/// A CSS class name has no markup.
pub proof fn lemma_markup_of_class_chars(s: Seq<char>)
    ensures
        markup_of(class_chars(s)) == Seq::<char>::empty(),
{
    lemma_class_chars_only_class_chars(s);
    lemma_markup_of_plain(class_chars(s));
}

/// For a markup character `m`, counting it in `s` or in the markup of `s` gives
/// the same number.
pub proof fn lemma_count_in_markup(s: Seq<char>, m: char)
    requires
        is_markup_char(m),
    ensures
        count_of(s, m) == count_of(markup_of(s), m),
    decreases s.len(),
{
    reveal(Seq::filter);
    if s.len() > 0 {
        lemma_count_in_markup(s.drop_last(), m);
        let prev = markup_of(s.drop_last());
        if is_markup_char(s.last()) {
            assert(markup_of(s) == prev.push(s.last()));
            assert(prev.push(s.last()).drop_last() =~= prev);
        }
    }
}

} // verus!
