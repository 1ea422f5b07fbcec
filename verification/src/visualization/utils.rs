use vstd::prelude::*;

use crate::text::{chars_of, expand, lemma_expand_push, push_char, push_str, text_of};

verus! {

/// How many categories a distribution chart shows.
pub const TOP_K_CATEGORIES: usize = 10;

/// The Unicode `White_Space` characters (`char::is_whitespace`).
pub open spec fn unicode_whitespace(c: char) -> bool {
    let u = c as int;
    (0x9 <= u <= 0xd) || u == 0x20 || u == 0x85 || u == 0xa0 || u == 0x1680 || (0x2000 <= u
        <= 0x200a) || u == 0x2028 || u == 0x2029 || u == 0x202f || u == 0x205f || u == 0x3000
}

/// Whether `c` is Unicode white space.
pub fn is_whitespace(c: char) -> (res: bool)
    ensures
        res == unicode_whitespace(c),
{
    ('\u{9}' <= c && c <= '\u{d}') || c == ' ' || c == '\u{85}' || c == '\u{a0}' || c == '\u{1680}'
        || ('\u{2000}' <= c && c <= '\u{200a}') || c == '\u{2028}' || c == '\u{2029}' || c
        == '\u{202f}' || c == '\u{205f}' || c == '\u{3000}'
}

/// An ASCII letter or digit.
pub open spec fn ascii_alphanumeric(c: char) -> bool {
    ('0' <= c && c <= '9') || ('a' <= c && c <= 'z') || ('A' <= c && c <= 'Z')
}

/// A character a file name keeps as it is.
pub open spec fn filename_safe(c: char) -> bool {
    ascii_alphanumeric(c) || c == '_' || c == '-'
}

/// What a character of a column name becomes in a file name.
pub open spec fn filename_piece(c: char) -> Seq<char> {
    if filename_safe(c) {
        seq![c]
    } else if unicode_whitespace(c) || c == '.' {
        seq!['_']
    } else {
        Seq::empty()
    }
}

/// The characters of `name` as a file name keeps or turns them.
pub open spec fn filename_chars(name: Seq<char>) -> Seq<char> {
    expand(name, |c: char| filename_piece(c))
}

/// The file-name stem for a column name: safe characters kept, white space
/// and dots turned into underscores, the rest dropped; "column" if nothing is left.
pub open spec fn sanitized(name: Seq<char>) -> Seq<char> {
    let out = filename_chars(name);
    if out.len() == 0 {
        "column"@
    } else {
        out
    }
}

/// The file-name stem for a column name.
pub fn sanitize_filename(name: &str) -> (res: String)
    ensures
        res@ == sanitized(name@),
{
    let cs = chars_of(name);
    let mut out = String::new();
    let mut n: usize = 0;
    let ghost piece = |c: char| filename_piece(c);
    for i in 0..cs.len()
        invariant
            cs@ == name@,
            n == out@.len(),
            n <= i,
            piece == (|c: char| filename_piece(c)),
            out@ == expand(cs@.take(i as int), piece),
    {
        let ch = cs[i];
        proof {
            lemma_expand_push(cs@.take(i as int), ch, piece);
            assert(cs@.take(i + 1) =~= cs@.take(i as int).push(ch));
        }
        let alnum = ('0' <= ch && ch <= '9') || ('a' <= ch && ch <= 'z') || ('A' <= ch && ch <= 'Z');
        if alnum || ch == '_' || ch == '-' {
            push_char(&mut out, ch);
            n = n + 1;
            assert(piece(ch) =~= seq![ch]);
        } else if is_whitespace(ch) || ch == '.' {
            push_char(&mut out, '_');
            n = n + 1;
            assert(piece(ch) =~= seq!['_']);
        } else {
            assert(piece(ch) =~= Seq::<char>::empty());
            assert(out@ + piece(ch) =~= out@);
        }
    }
    assert(cs@.take(cs.len() as int) =~= cs@);
    if n == 0 {
        text_of("column")
    } else {
        out
    }
}


proof fn lemma_sanitized_pieces_safe(s: Seq<char>)
    ensures
        forall|i: int| 0 <= i < filename_chars(s).len() ==> filename_safe(#[trigger] filename_chars(s)[i]),
    decreases s.len(),
{
    let piece = |c: char| filename_piece(c);
    if s.len() > 0 {
        lemma_sanitized_pieces_safe(s.drop_first());
        let p = piece(s[0]);
        let r = expand(s.drop_first(), piece);
        assert forall|i: int| 0 <= i < (p + r).len() implies filename_safe(#[trigger] (p + r)[i]) by {
            if i >= p.len() {
                assert((p + r)[i] == r[i - p.len()]);
                assert(r == filename_chars(s.drop_first()));
            }
        }
        assert(filename_chars(s) == p + r);
    }
}

proof fn lemma_safe_expands_to_itself(s: Seq<char>)
    requires
        forall|i: int| 0 <= i < s.len() ==> filename_safe(#[trigger] s[i]),
    ensures
        filename_chars(s) == s,
    decreases s.len(),
{
    if s.len() > 0 {
        lemma_safe_expands_to_itself(s.drop_first());
        assert(filename_safe(s[0]));
        assert(filename_chars(s) =~= seq![s[0]] + s.drop_first());
        assert(seq![s[0]] + s.drop_first() =~= s);
    }
}

/// Sanitizing a file-name stem again changes nothing.
pub proof fn lemma_sanitize_idempotent(name: Seq<char>)
    ensures
        sanitized(sanitized(name)) == sanitized(name),
{
    let once = sanitized(name);
    reveal_strlit("column");
    if filename_chars(name).len() == 0 {
        assert(once == seq!['c', 'o', 'l', 'u', 'm', 'n']);
        assert forall|i: int| 0 <= i < once.len() implies filename_safe(#[trigger] once[i]) by {}
    } else {
        lemma_sanitized_pieces_safe(name);
    }
    lemma_safe_expands_to_itself(once);
}

/// What a character of text becomes in HTML: the markup characters as entities.
pub open spec fn html_piece(c: char) -> Seq<char> {
    if c == '&' {
        seq!['&', 'a', 'm', 'p', ';']
    } else if c == '<' {
        seq!['&', 'l', 't', ';']
    } else if c == '>' {
        seq!['&', 'g', 't', ';']
    } else if c == '"' {
        seq!['&', 'q', 'u', 'o', 't', ';']
    } else {
        seq![c]
    }
}

/// `s` with `&`, `<`, `>` and `"` written as entities.
pub open spec fn html_escaped(s: Seq<char>) -> Seq<char> {
    expand(s, |c: char| html_piece(c))
}

/// Reads escaped text back: each entity stands for its character.
pub open spec fn html_unescaped(t: Seq<char>) -> Seq<char>
    decreases t.len(),
{
    if t.len() == 0 {
        Seq::empty()
    } else if t[0] == '&' && t.len() >= 5 && t[1] == 'a' {
        seq!['&'] + html_unescaped(t.skip(5))
    } else if t[0] == '&' && t.len() >= 4 && t[1] == 'l' {
        seq!['<'] + html_unescaped(t.skip(4))
    } else if t[0] == '&' && t.len() >= 4 && t[1] == 'g' {
        seq!['>'] + html_unescaped(t.skip(4))
    } else if t[0] == '&' && t.len() >= 6 && t[1] == 'q' {
        seq!['"'] + html_unescaped(t.skip(6))
    } else {
        seq![t[0]] + html_unescaped(t.skip(1))
    }
}

/// Reading escaped text back gives the text.
pub proof fn lemma_html_unescape_escape(s: Seq<char>)
    ensures
        html_unescaped(html_escaped(s)) == s,
    decreases s.len(),
{
    if s.len() > 0 {
        let piece = |c: char| html_piece(c);
        let c = s[0];
        let r = expand(s.drop_first(), piece);
        lemma_html_unescape_escape(s.drop_first());
        let t = piece(c) + r;
        assert(html_escaped(s) == t);
        assert(t.skip(piece(c).len() as int) =~= r);
        assert(t[0] == piece(c)[0]);
        if piece(c).len() > 1 {
            assert(t[1] == piece(c)[1]);
        }
        assert(s =~= seq![c] + s.drop_first());
    } else {
        assert(html_escaped(s) =~= Seq::<char>::empty());
    }
}

/// Escaping never maps two different texts to the same HTML.
pub proof fn lemma_html_escape_injective(a: Seq<char>, b: Seq<char>)
    requires
        html_escaped(a) == html_escaped(b),
    ensures
        a == b,
{
    lemma_html_unescape_escape(a);
    lemma_html_unescape_escape(b);
}

proof fn lemma_html_escaped_plain(s: Seq<char>)
    ensures
        forall|i: int| 0 <= i < html_escaped(s).len() ==> #[trigger] html_escaped(s)[i] != '<'
            && html_escaped(s)[i] != '>' && html_escaped(s)[i] != '"',
    decreases s.len(),
{
    if s.len() > 0 {
        let piece = |c: char| html_piece(c);
        lemma_html_escaped_plain(s.drop_first());
        let p = piece(s[0]);
        let r = expand(s.drop_first(), piece);
        assert forall|i: int| 0 <= i < (p + r).len() implies #[trigger] (p + r)[i] != '<' && (p
            + r)[i] != '>' && (p + r)[i] != '"' by {
            if i >= p.len() {
                assert((p + r)[i] == r[i - p.len()]);
                assert(r == html_escaped(s.drop_first()));
            }
        }
        assert(html_escaped(s) == p + r);
    }
}

/// `input` with `&`, `<`, `>` and `"` written as HTML entities.
pub fn escape_html(input: &str) -> (res: String)
    ensures
        res@ == html_escaped(input@),
        forall|i: int| 0 <= i < res@.len() ==> #[trigger] res@[i] != '<' && res@[i] != '>' && res@[i] != '"',
{
    let cs = chars_of(input);
    let mut out = String::new();
    let ghost piece = |c: char| html_piece(c);
    for i in 0..cs.len()
        invariant
            cs@ == input@,
            piece == (|c: char| html_piece(c)),
            out@ == expand(cs@.take(i as int), piece),
    {
        let ch = cs[i];
        proof {
            lemma_expand_push(cs@.take(i as int), ch, piece);
            assert(cs@.take(i + 1) =~= cs@.take(i as int).push(ch));
        }
        if ch == '&' {
            push_str(&mut out, "&amp;");
            proof { reveal_strlit("&amp;"); }
        } else if ch == '<' {
            push_str(&mut out, "&lt;");
            proof { reveal_strlit("&lt;"); }
        } else if ch == '>' {
            push_str(&mut out, "&gt;");
            proof { reveal_strlit("&gt;"); }
        } else if ch == '"' {
            push_str(&mut out, "&quot;");
            proof { reveal_strlit("&quot;"); }
        } else {
            push_char(&mut out, ch);
        }
        assert(out@ == expand(cs@.take(i as int), piece) + piece(ch));
    }
    assert(cs@.take(cs.len() as int) =~= cs@);
    proof {
        lemma_html_escaped_plain(input@);
    }
    out
}


/// The file name of a chart image for column `name`: its sanitized stem, then `suffix`.
pub fn chart_filename(name: &str, suffix: &str) -> (res: String)
    ensures
        res@ == sanitized(name@) + suffix@,
{
    let mut out = sanitize_filename(name);
    push_str(&mut out, suffix);
    out
}

} // verus!
