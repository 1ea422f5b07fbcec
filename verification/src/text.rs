use vstd::prelude::*;

verus! {

broadcast use vstd::string::group_string_axioms;

/// The characters of `s`, one per element.
pub fn chars_of(s: &str) -> (res: Vec<char>)
    ensures
        res@ == s@,
{
    let mut out: Vec<char> = Vec::new();
    for c in it: s.chars()
        invariant
            out@ == it.seq().take(it.index()),
            it.seq() == s@,
    {
        out.push(c);
    }
    out
}

/// Appends `c` to `s`: calls `String::push`. Trusted: the contract claims
/// that the text afterwards is the text before with `c` added at the end,
/// as std documents for `push`.
#[verifier::external_body]
pub(crate) fn push_char(s: &mut String, c: char)
    ensures
        final(s)@ == old(s)@.push(c),
{
    s.push(c);
}

/// Appends every character of `tail` to `s`.
pub fn push_str(s: &mut String, tail: &str)
    ensures
        final(s)@ == old(s)@ + tail@,
{
    let cs = chars_of(tail);
    let ghost start = s@;
    for i in 0..cs.len()
        invariant
            cs@ == tail@,
            s@ == start + cs@.take(i as int),
    {
        push_char(s, cs[i]);
        assert(cs@.take(i + 1) == cs@.take(i as int).push(cs@[i as int]));
    }
    assert(cs@.take(cs.len() as int) == cs@);
}

/// A new string holding the characters of `s`.
pub fn text_of(s: &str) -> (res: String)
    ensures
        res@ == s@,
{
    let mut out = String::new();
    push_str(&mut out, s);
    out
}

/// Whether `a` and `b` hold the same characters.
pub fn same_text(a: &str, b: &str) -> (res: bool)
    ensures
        res == (a@ == b@),
{
    let x = chars_of(a);
    let y = chars_of(b);
    if x.len() != y.len() {
        return false;
    }
    for i in 0..x.len()
        invariant
            x@ == a@,
            y@ == b@,
            x.len() == y.len(),
            forall|j: int| 0 <= j < i ==> x@[j] == y@[j],
    {
        if x[i] != y[i] {
            return false;
        }
    }
    assert(x@ =~= y@);
    true
}


/// Lexicographic order on character sequences by code point, which is the
/// order of `String`s (byte order of UTF-8 preserves code point order).
pub open spec fn text_lt(a: Seq<char>, b: Seq<char>) -> bool
    decreases a.len(),
{
    if a.len() == 0 {
        b.len() > 0
    } else if b.len() == 0 {
        false
    } else if a[0] != b[0] {
        (a[0] as int) < (b[0] as int)
    } else {
        text_lt(a.drop_first(), b.drop_first())
    }
}

/// `text_lt` is irreflexive.
pub proof fn lemma_text_lt_irreflexive(a: Seq<char>)
    ensures
        !text_lt(a, a),
    decreases a.len(),
{
    if a.len() > 0 {
        lemma_text_lt_irreflexive(a.drop_first());
    }
}

/// Two different sequences are ordered one way or the other, never both.
pub proof fn lemma_text_lt_total(a: Seq<char>, b: Seq<char>)
    ensures
        a != b ==> (text_lt(a, b) || text_lt(b, a)),
        !(text_lt(a, b) && text_lt(b, a)),
    decreases a.len(),
{
    if a.len() > 0 && b.len() > 0 {
        if a[0] == b[0] {
            lemma_text_lt_total(a.drop_first(), b.drop_first());
            if a != b {
                assert(a =~= seq![a[0]] + a.drop_first());
                assert(b =~= seq![b[0]] + b.drop_first());
            }
        } else {
            assert(a[0] as int != b[0] as int);
        }
    } else if a.len() == 0 && b.len() == 0 {
        assert(a =~= b);
    }
}

/// `text_lt` is transitive.
pub proof fn lemma_text_lt_transitive(a: Seq<char>, b: Seq<char>, c: Seq<char>)
    requires
        text_lt(a, b),
        text_lt(b, c),
    ensures
        text_lt(a, c),
    decreases a.len(),
{
    if a.len() > 0 && b.len() > 0 && c.len() > 0 {
        if a[0] == b[0] && b[0] == c[0] {
            lemma_text_lt_transitive(a.drop_first(), b.drop_first(), c.drop_first());
        }
    }
}

proof fn lemma_text_lt_common_prefix(a: Seq<char>, b: Seq<char>, i: int)
    requires
        0 <= i <= a.len(),
        i <= b.len(),
        a.take(i) == b.take(i),
    ensures
        text_lt(a, b) == text_lt(a.skip(i), b.skip(i)),
    decreases i,
{
    if i > 0 {
        assert(a[0] == a.take(i)[0]);
        assert(b[0] == b.take(i)[0]);
        assert(a.drop_first().take(i - 1) =~= a.take(i).drop_first());
        assert(b.drop_first().take(i - 1) =~= b.take(i).drop_first());
        lemma_text_lt_common_prefix(a.drop_first(), b.drop_first(), i - 1);
        assert(a.drop_first().skip(i - 1) =~= a.skip(i));
        assert(b.drop_first().skip(i - 1) =~= b.skip(i));
    } else {
        assert(a.skip(0) =~= a);
        assert(b.skip(0) =~= b);
    }
}

/// Whether `a` comes before `b` in the order of `String`s.
pub fn chars_lt(a: &Vec<char>, b: &Vec<char>) -> (res: bool)
    ensures
        res == text_lt(a@, b@),
{
    let mut i: usize = 0;
    while i < a.len() && i < b.len() && a[i] == b[i]
        invariant
            i <= a.len(),
            i <= b.len(),
            a@.take(i as int) == b@.take(i as int),
        decreases a.len() - i,
    {
        assert(a@.take(i + 1) =~= a@.take(i as int).push(a@[i as int]));
        assert(b@.take(i + 1) =~= b@.take(i as int).push(b@[i as int]));
        i = i + 1;
    }
    proof {
        lemma_text_lt_common_prefix(a@, b@, i as int);
    }
    if i == a.len() {
        i < b.len()
    } else if i == b.len() {
        false
    } else {
        assert(a@.skip(i as int)[0] == a@[i as int]);
        assert(b@.skip(i as int)[0] == b@[i as int]);
        a[i] < b[i]
    }
}


/// The concatenation of `piece(c)` over the characters `c` of `s`.
pub open spec fn expand(s: Seq<char>, piece: spec_fn(char) -> Seq<char>) -> Seq<char>
    decreases s.len(),
{
    if s.len() == 0 {
        Seq::empty()
    } else {
        piece(s[0]) + expand(s.drop_first(), piece)
    }
}

/// Expanding a sequence with one more character appends that character's piece.
pub proof fn lemma_expand_push(s: Seq<char>, c: char, piece: spec_fn(char) -> Seq<char>)
    ensures
        expand(s.push(c), piece) == expand(s, piece) + piece(c),
    decreases s.len(),
{
    if s.len() == 0 {
        let e = Seq::<char>::empty();
        assert(s.push(c).drop_first() =~= e);
        assert(expand(e, piece) == e);
        assert(s.push(c)[0] == c);
        assert(expand(s.push(c), piece) == piece(c) + expand(e, piece));
        assert(expand(s, piece) == e);
        assert(expand(s.push(c), piece) =~= expand(s, piece) + piece(c));
    } else {
        assert(s.push(c).drop_first() =~= s.drop_first().push(c));
        lemma_expand_push(s.drop_first(), c, piece);
        assert(expand(s.push(c), piece) =~= piece(s[0]) + (expand(s.drop_first(), piece) + piece(c)));
    }
}

/// `s` ends with `suffix`.
pub open spec fn ends_with(s: Seq<char>, suffix: Seq<char>) -> bool {
    suffix.len() <= s.len() && s.subrange(s.len() - suffix.len(), s.len() as int) == suffix
}

/// `s` holds `part` somewhere.
pub open spec fn holds_part(s: Seq<char>, part: Seq<char>) -> bool {
    exists|i: int| 0 <= i && i + part.len() <= s.len() && #[trigger] s.subrange(i, i + part.len()) == part
}

/// A part of `x` is a part of any text that has `x` in it.
pub proof fn lemma_holds_part_within(a: Seq<char>, x: Seq<char>, b: Seq<char>, part: Seq<char>)
    requires
        holds_part(x, part),
    ensures
        holds_part(a + x + b, part),
{
    let i = choose|i: int| 0 <= i && i + part.len() <= x.len() && #[trigger] x.subrange(i, i + part.len()) == part;
    let j = a.len() + i;
    assert((a + x + b).subrange(j, j + part.len()) =~= x.subrange(i, i + part.len()));
}

/// A part of `x` is a part of `a + x` and of `x + b`.
pub proof fn lemma_holds_part_extend(a: Seq<char>, x: Seq<char>, b: Seq<char>, part: Seq<char>)
    requires
        holds_part(x, part),
    ensures
        holds_part(a + x, part),
        holds_part(x + b, part),
{
    let i = choose|i: int| 0 <= i && i + part.len() <= x.len() && #[trigger] x.subrange(i, i + part.len()) == part;
    let j = a.len() + i;
    assert((a + x).subrange(j, j + part.len()) =~= x.subrange(i, i + part.len()));
    assert((x + b).subrange(i, i + part.len()) =~= x.subrange(i, i + part.len()));
}

/// A text is a part of itself.
pub proof fn lemma_holds_part_self(x: Seq<char>)
    ensures
        holds_part(x, x),
{
    assert(x.subrange(0int, 0int + x.len()) =~= x);
}

/// Whether `part` stands in `s` at position `at`.
pub fn matches_at(s: &Vec<char>, part: &Vec<char>, at: usize) -> (res: bool)
    requires
        at + part.len() <= s.len(),
    ensures
        res == (s@.subrange(at as int, at + part.len()) == part@),
{
    for k in 0..part.len()
        invariant
            at + part.len() <= s.len(),
            forall|j: int| 0 <= j < k ==> s@[at + j] == part@[j],
    {
        if s[at + k] != part[k] {
            assert(s@.subrange(at as int, at + part.len())[k as int] != part@[k as int]);
            return false;
        }
    }
    assert(s@.subrange(at as int, at + part.len()) =~= part@);
    true
}

/// Whether `s` ends with `suffix`.
pub fn chars_end_with(s: &Vec<char>, suffix: &Vec<char>) -> (res: bool)
    ensures
        res == ends_with(s@, suffix@),
{
    if suffix.len() > s.len() {
        false
    } else {
        matches_at(s, suffix, s.len() - suffix.len())
    }
}

/// Whether `part` stands somewhere in `s`.
pub fn chars_hold(s: &Vec<char>, part: &Vec<char>) -> (res: bool)
    ensures
        res == holds_part(s@, part@),
{
    if part.len() > s.len() {
        return false;
    }
    if part.len() == 0 {
        assert(s@.subrange(0int, 0int + part@.len()) =~= part@);
        return true;
    }
    let last = s.len() - part.len();
    let mut i: usize = 0;
    while i <= last
        invariant
            last + part.len() == s.len(),
            part.len() > 0,
            i <= last + 1,
            forall|j: int| 0 <= j < i ==> #[trigger] s@.subrange(j, j + part.len()) != part@,
        decreases last + 1 - i,
    {
        if matches_at(s, part, i) {
            return true;
        }
        i = i + 1;
    }
    false
}


/// The texts of a list of strings.
pub open spec fn texts(v: Seq<String>) -> Seq<Seq<char>> {
    v.map_values(|s: String| s@)
}

/// `parts` written one after another with `sep` between neighbours.
pub open spec fn joined(parts: Seq<Seq<char>>, sep: Seq<char>) -> Seq<char>
    decreases parts.len(),
{
    if parts.len() == 0 {
        Seq::empty()
    } else if parts.len() == 1 {
        parts[0]
    } else {
        joined(parts.drop_last(), sep) + sep + parts.last()
    }
}

/// Joins `parts` with `sep` between neighbours (`[String]::join`).
pub fn join_texts(parts: &Vec<String>, sep: &str) -> (res: String)
    ensures
        res@ == joined(texts(parts@), sep@),
{
    let mut out = String::new();
    for i in 0..parts.len()
        invariant
            out@ == joined(texts(parts@.take(i as int)), sep@),
    {
        assert(texts(parts@.take(i + 1)).drop_last() =~= texts(parts@.take(i as int)));
        assert(texts(parts@.take(i + 1)).last() == parts@[i as int]@);
        if i > 0 {
            push_str(&mut out, sep);
        } else {
            assert(texts(parts@.take(1)) =~= seq![parts@[0]@]);
        }
        push_str(&mut out, parts[i].as_str());
    }
    assert(parts@.take(parts.len() as int) =~= parts@);
    out
}

/// `c` with ASCII capitals made small.
pub open spec fn ascii_lower(c: char) -> char {
    if 'A' <= c && c <= 'Z' {
        ((c as int) + 32) as char
    } else {
        c
    }
}

/// The characters of `s` with ASCII capitals made small (`to_ascii_lowercase`).
pub fn ascii_lowercase(s: &str) -> (res: Vec<char>)
    ensures
        res@ == s@.map_values(|c: char| ascii_lower(c)),
{
    let cs = chars_of(s);
    let mut lower: Vec<char> = Vec::new();
    for i in 0..cs.len()
        invariant
            cs@ == s@,
            lower@ == cs@.take(i as int).map_values(|c: char| ascii_lower(c)),
    {
        let c = cs[i];
        let l = if 'A' <= c && c <= 'Z' {
            ((c as u8) + 32) as char
        } else {
            c
        };
        lower.push(l);
        assert(cs@.take(i + 1).map_values(|c: char| ascii_lower(c)) =~= cs@.take(i as int).map_values(
            |c: char| ascii_lower(c),
        ).push(ascii_lower(c)));
    }
    assert(cs@.take(cs.len() as int) =~= cs@);
    lower
}

} // verus!
