//! JSON string literals: how a sequence of characters is written between
//! double quotes, and how such a literal is read back.

use vstd::prelude::*;

verus! {

/// What stands at one position inside a string literal.
pub enum Piece {
    /// The closing quote.
    End,
    /// One character of the content, written with the given number of
    /// characters.
    Char(char, usize),
    /// Nothing that a string literal may hold at this place.
    Bad,
}

/// The value of a hexadecimal digit, in either case.
pub open spec fn hex_value(c: char) -> Option<int> {
    if '0' <= c && c <= '9' {
        Some(c as int - '0' as int)
    } else if 'a' <= c && c <= 'f' {
        Some(c as int - 'a' as int + 10)
    } else if 'A' <= c && c <= 'F' {
        Some(c as int - 'A' as int + 10)
    } else {
        None
    }
}

/// The number that the four hexadecimal digits from position `i` write.
pub open spec fn hex4(s: Seq<char>, i: int) -> Option<int> {
    if 0 <= i && i + 4 <= s.len() && hex_value(s[i]) is Some && hex_value(s[i + 1]) is Some
        && hex_value(s[i + 2]) is Some && hex_value(s[i + 3]) is Some {
        Some(
            hex_value(s[i])->0 * 4096 + hex_value(s[i + 1])->0 * 256 + hex_value(s[i + 2])->0 * 16
                + hex_value(s[i + 3])->0,
        )
    } else {
        None
    }
}

/// The character that a one-letter escape stands for.
pub open spec fn letter_escape(letter: char) -> Option<char> {
    if letter == '"' {
        Some('"')
    } else if letter == '\\' {
        Some('\\')
    } else if letter == '/' {
        Some('/')
    } else if letter == 'b' {
        Some('\u{8}')
    } else if letter == 'f' {
        Some('\u{c}')
    } else if letter == 'n' {
        Some('\n')
    } else if letter == 'r' {
        Some('\r')
    } else if letter == 't' {
        Some('\t')
    } else {
        None
    }
}

/// What the `\u` escape beginning with the backslash at position `i` stands
/// for.
///
/// Such an escape names a UTF-16 code unit. A high surrogate must be followed
/// by a second `\u` escape that holds a low surrogate, and the two together
/// name one character; a low surrogate alone names nothing.
pub open spec fn unicode_escape_at(s: Seq<char>, i: int) -> Piece {
    match hex4(s, i + 2) {
        None => Piece::Bad,
        Some(hi) => if 0xD800 <= hi && hi < 0xDC00 {
            if i + 7 < s.len() && s[i + 6] == '\\' && s[i + 7] == 'u' {
                match hex4(s, i + 8) {
                    Some(lo) => if 0xDC00 <= lo && lo < 0xE000 {
                        Piece::Char((0x10000 + (hi - 0xD800) * 0x400 + (lo - 0xDC00)) as char, 12)
                    } else {
                        Piece::Bad
                    },
                    None => Piece::Bad,
                }
            } else {
                Piece::Bad
            }
        } else if 0xDC00 <= hi && hi < 0xE000 {
            Piece::Bad
        } else {
            Piece::Char(hi as char, 6)
        },
    }
}

/// What the escape beginning with the backslash at position `i` stands for.
pub open spec fn escape_at(s: Seq<char>, i: int) -> Piece {
    if i + 1 >= s.len() {
        Piece::Bad
    } else if s[i + 1] == 'u' {
        unicode_escape_at(s, i)
    } else {
        match letter_escape(s[i + 1]) {
            Some(c) => Piece::Char(c, 2),
            None => Piece::Bad,
        }
    }
}

/// What stands at position `i` of `s`, read as the inside of a string
/// literal. A control character may only appear escaped.
#[verifier::opaque]
pub open spec fn piece_at(s: Seq<char>, i: int) -> Piece {
    if i < 0 || i >= s.len() {
        Piece::Bad
    } else if s[i] == '"' {
        Piece::End
    } else if s[i] == '\\' {
        escape_at(s, i)
    } else if (s[i] as u32) < 0x20 {
        Piece::Bad
    } else {
        Piece::Char(s[i], 1)
    }
}

/// Reads the inside of a string literal from position `i`, which follows the
/// opening quote: the characters it stands for, and the position after its
/// closing quote. `None` where no well-formed literal ends in `s`.
pub open spec fn string_from(s: Seq<char>, i: int) -> Option<(Seq<char>, int)>
    decreases s.len() - i,
{
    if i < 0 || i >= s.len() {
        None
    } else {
        match piece_at(s, i) {
            Piece::Bad => None,
            Piece::End => Some((Seq::empty(), i + 1)),
            Piece::Char(c, w) => if 1 <= w && i + w <= s.len() {
                match string_from(s, i + w) {
                    None => None,
                    Some((rest, end)) => Some((seq![c] + rest, end)),
                }
            } else {
                None
            },
        }
    }
}

/// Reads the string literal whose opening quote is at position `i`.
pub open spec fn literal_at(s: Seq<char>, i: int) -> Option<(Seq<char>, int)> {
    if 0 <= i && i < s.len() && s[i] == '"' {
        string_from(s, i + 1)
    } else {
        None
    }
}

fn hex_digit_value(c: char) -> (r: Option<u32>)
    ensures
        r is Some <==> hex_value(c) is Some,
        r is Some ==> r->0 == hex_value(c)->0 && r->0 < 16,
{
    if '0' <= c && c <= '9' {
        Some(c as u32 - '0' as u32)
    } else if 'a' <= c && c <= 'f' {
        Some(c as u32 - 'a' as u32 + 10)
    } else if 'A' <= c && c <= 'F' {
        Some(c as u32 - 'A' as u32 + 10)
    } else {
        None
    }
}

fn read_hex4(s: &Vec<char>, i: usize) -> (r: Option<u32>)
    ensures
        r is Some <==> hex4(s@, i as int) is Some,
        r is Some ==> r->0 == hex4(s@, i as int)->0 && r->0 < 0x10000,
{
    if s.len() < 4 || i > s.len() - 4 {
        return None;
    }
    let a = hex_digit_value(s[i]);
    let b = hex_digit_value(s[i + 1]);
    let c = hex_digit_value(s[i + 2]);
    let d = hex_digit_value(s[i + 3]);
    match (a, b, c, d) {
        (Some(a), Some(b), Some(c), Some(d)) => Some(a * 4096 + b * 256 + c * 16 + d),
        _ => None,
    }
}

fn read_letter_escape(letter: char) -> (r: Option<char>)
    ensures
        r == letter_escape(letter),
{
    if letter == '"' {
        Some('"')
    } else if letter == '\\' {
        Some('\\')
    } else if letter == '/' {
        Some('/')
    } else if letter == 'b' {
        Some('\u{8}')
    } else if letter == 'f' {
        Some('\u{c}')
    } else if letter == 'n' {
        Some('\n')
    } else if letter == 'r' {
        Some('\r')
    } else if letter == 't' {
        Some('\t')
    } else {
        None
    }
}

fn read_unicode_escape(s: &Vec<char>, i: usize) -> (p: Piece)
    requires
        i + 1 < s.len(),
    ensures
        p == unicode_escape_at(s@, i as int),
{
    let hi = match read_hex4(s, i + 2) {
        Some(hi) => hi,
        None => {
            return Piece::Bad;
        },
    };
    if 0xD800 <= hi && hi < 0xDC00 {
        if s.len() - i < 12 || s[i + 6] != '\\' || s[i + 7] != 'u' {
            return Piece::Bad;
        }
        match read_hex4(s, i + 8) {
            Some(lo) => {
                if 0xDC00 <= lo && lo < 0xE000 {
                    match char::from_u32(0x10000 + (hi - 0xD800) * 0x400 + (lo - 0xDC00)) {
                        Some(c) => Piece::Char(c, 12),
                        None => Piece::Bad,
                    }
                } else {
                    Piece::Bad
                }
            },
            None => Piece::Bad,
        }
    } else {
        match char::from_u32(hi) {
            Some(c) => Piece::Char(c, 6),
            None => Piece::Bad,
        }
    }
}

fn read_escape(s: &Vec<char>, i: usize) -> (p: Piece)
    requires
        i < s.len(),
    ensures
        p == escape_at(s@, i as int),
{
    if s.len() - i < 2 {
        return Piece::Bad;
    }
    let letter = s[i + 1];
    if letter == 'u' {
        read_unicode_escape(s, i)
    } else {
        match read_letter_escape(letter) {
            Some(c) => Piece::Char(c, 2),
            None => Piece::Bad,
        }
    }
}

fn read_piece(s: &Vec<char>, i: usize) -> (p: Piece)
    ensures
        p == piece_at(s@, i as int),
        p matches Piece::Char(_, w) ==> 1 <= w && i + w <= s.len(),
        p is End ==> i < s.len(),
{
    reveal(piece_at);
    if i >= s.len() {
        return Piece::Bad;
    }
    let c = s[i];
    if c == '"' {
        Piece::End
    } else if c == '\\' {
        read_escape(s, i)
    } else if (c as u32) < 0x20 {
        Piece::Bad
    } else {
        Piece::Char(c, 1)
    }
}

/// Reads the inside of a string literal from position `start`, which follows
/// the opening quote.
pub fn read_string_from(s: &Vec<char>, start: usize) -> (r: Option<(Vec<char>, usize)>)
    ensures
        match r {
            Some((content, end)) => string_from(s@, start as int) == Some((content@, end as int))
                && start < end && end <= s.len(),
            None => string_from(s@, start as int) is None,
        },
{
    let mut content: Vec<char> = Vec::new();
    let mut i: usize = start;
    loop
        invariant
            start <= i,
            string_from(s@, start as int) == match string_from(s@, i as int) {
                None => None::<(Seq<char>, int)>,
                Some((rest, end)) => Some((content@ + rest, end)),
            },
        decreases s.len() - i,
    {
        match read_piece(s, i) {
            Piece::Bad => {
                return None;
            },
            Piece::End => {
                assert(content@ + Seq::<char>::empty() == content@);
                return Some((content, i + 1));
            },
            Piece::Char(c, w) => {
                proof {
                    if let Some((rest, _)) = string_from(s@, i + w) {
                        assert(content@ + (seq![c] + rest) == content@.push(c) + rest);
                    }
                }
                content.push(c);
                i = i + w;
            },
        }
    }
}

/// Reads the string literal whose opening quote is at position `i`.
pub fn read_literal(s: &Vec<char>, i: usize) -> (r: Option<(Vec<char>, usize)>)
    ensures
        match r {
            Some((content, end)) => literal_at(s@, i as int) == Some((content@, end as int))
                && i < end && end <= s.len(),
            None => literal_at(s@, i as int) is None,
        },
{
    if i < s.len() && s[i] == '"' {
        read_string_from(s, i + 1)
    } else {
        None
    }
}

/// The lower-case hexadecimal digit for a number below sixteen.
pub open spec fn hex_digit(n: int) -> char {
    if n < 10 {
        ('0' as int + n) as char
    } else {
        ('a' as int + n - 10) as char
    }
}

/// The letter of the one-letter escape that writes `c`, where it has one.
pub open spec fn escape_letter(c: char) -> Option<char> {
    if c == '"' {
        Some('"')
    } else if c == '\\' {
        Some('\\')
    } else if c == '\u{8}' {
        Some('b')
    } else if c == '\u{c}' {
        Some('f')
    } else if c == '\n' {
        Some('n')
    } else if c == '\r' {
        Some('r')
    } else if c == '\t' {
        Some('t')
    } else {
        None
    }
}

/// How one character is written inside a string literal: the quote, the
/// backslash and the control characters escaped, every other character as
/// itself.
pub open spec fn escape_of(c: char) -> Seq<char> {
    match escape_letter(c) {
        Some(letter) => seq!['\\', letter],
        None => if (c as u32) < 0x20 {
            seq!['\\', 'u', '0', '0', hex_digit(c as int / 16), hex_digit(c as int % 16)]
        } else {
            seq![c]
        },
    }
}

/// The inside of the string literal that stands for `s`.
pub open spec fn escaped(s: Seq<char>) -> Seq<char>
    decreases s.len(),
{
    if s.len() == 0 {
        Seq::empty()
    } else {
        escaped(s.drop_last()) + escape_of(s.last())
    }
}

/// The string literal that stands for `s`.
pub open spec fn quoted(s: Seq<char>) -> Seq<char> {
    seq!['"'] + escaped(s) + seq!['"']
}

fn hex_digit_of(n: u32) -> (c: char)
    requires
        n < 16,
    ensures
        c == hex_digit(n as int),
{
    if n < 10 {
        (0x30u8 + n as u8) as char
    } else {
        (0x61u8 + (n as u8 - 10)) as char
    }
}

fn escape_letter_of(c: char) -> (r: Option<char>)
    ensures
        r == escape_letter(c),
{
    if c == '"' {
        Some('"')
    } else if c == '\\' {
        Some('\\')
    } else if c == '\u{8}' {
        Some('b')
    } else if c == '\u{c}' {
        Some('f')
    } else if c == '\n' {
        Some('n')
    } else if c == '\r' {
        Some('r')
    } else if c == '\t' {
        Some('t')
    } else {
        None
    }
}

fn push_escape(out: &mut Vec<char>, c: char)
    ensures
        final(out)@ == old(out)@ + escape_of(c),
{
    let ghost before = out@;
    match escape_letter_of(c) {
        Some(letter) => {
            out.push('\\');
            out.push(letter);
        },
        None => {
            if (c as u32) < 0x20 {
                out.push('\\');
                out.push('u');
                out.push('0');
                out.push('0');
                out.push(hex_digit_of(c as u32 / 16));
                out.push(hex_digit_of(c as u32 % 16));
            } else {
                out.push(c);
            }
        },
    }
    assert(out@ == before + escape_of(c));
}

/// Appends to `out` the string literal that stands for `s`.
pub fn push_quoted(out: &mut Vec<char>, s: &Vec<char>)
    ensures
        final(out)@ == old(out)@ + quoted(s@),
{
    let ghost before = out@;
    out.push('"');
    let mut i: usize = 0;
    while i < s.len()
        invariant
            i <= s.len(),
            out@ == before + seq!['"'] + escaped(s@.take(i as int)),
        decreases s.len() - i,
    {
        proof {
            let next = s@.take(i + 1);
            assert(next.drop_last() == s@.take(i as int));
            assert(next.last() == s@[i as int]);
        }
        push_escape(out, s[i]);
        i += 1;
    }
    assert(s@.take(s.len() as int) == s@);
    out.push('"');
    assert(out@ == before + quoted(s@));
}

proof fn lemma_letter_read_back(t: Seq<char>, i: int, c: char)
    requires
        0 <= i,
        i + 2 <= t.len(),
        escape_letter(c) is Some,
        t[i] == '\\',
        t[i + 1] == escape_letter(c)->0,
    ensures
        piece_at(t, i) == Piece::Char(c, 2),
{
    reveal(piece_at);
}

proof fn lemma_control_read_back(t: Seq<char>, i: int, c: char)
    requires
        0 <= i,
        i + 6 <= t.len(),
        (c as u32) < 0x20,
        t[i] == '\\',
        t[i + 1] == 'u',
        t[i + 2] == '0',
        t[i + 3] == '0',
        t[i + 4] == hex_digit(c as int / 16),
        t[i + 5] == hex_digit(c as int % 16),
    ensures
        piece_at(t, i) == Piece::Char(c, 6),
{
    reveal(piece_at);
    let hi = c as int / 16;
    let lo = c as int % 16;
    assert(hex_value('0') == Some(0int));
    assert(hex_value(hex_digit(hi)) == Some(hi));
    assert(hex_value(hex_digit(lo)) == Some(lo));
    assert(hex4(t, i + 2) == Some(c as int));
    assert(unicode_escape_at(t, i) == Piece::Char(c, 6));
}

/// A character written by `escape_of` is read back as that character.
pub proof fn lemma_escape_read_back(t: Seq<char>, i: int, c: char)
    requires
        0 <= i,
        i + escape_of(c).len() <= t.len(),
        t.subrange(i, i + escape_of(c).len()) == escape_of(c),
    ensures
        1 <= escape_of(c).len() <= 6,
        piece_at(t, i) == Piece::Char(c, escape_of(c).len() as usize),
{
    let e = escape_of(c);
    let part = t.subrange(i, i + e.len());
    assert(part[0] == t[i]);
    if escape_letter(c) is Some {
        assert(part[1] == t[i + 1]);
        lemma_letter_read_back(t, i, c);
    } else if (c as u32) < 0x20 {
        assert(part[1] == t[i + 1]);
        assert(part[2] == t[i + 2]);
        assert(part[3] == t[i + 3]);
        assert(part[4] == t[i + 4]);
        assert(part[5] == t[i + 5]);
        lemma_control_read_back(t, i, c);
    } else {
        reveal(piece_at);
    }
}

/// Reading passes over the written form of `s` and yields `s` before
/// whatever follows it.
pub proof fn lemma_escaped_read_back(t: Seq<char>, i: int, s: Seq<char>)
    requires
        0 <= i,
        i + escaped(s).len() <= t.len(),
        t.subrange(i, i + escaped(s).len()) == escaped(s),
    ensures
        string_from(t, i) == match string_from(t, i + escaped(s).len()) {
            None => None::<(Seq<char>, int)>,
            Some((rest, end)) => Some((s + rest, end)),
        },
    decreases s.len(),
{
    if s.len() == 0 {
        if let Some((rest, _)) = string_from(t, i) {
            assert(s + rest == rest);
        }
    } else {
        let head = s.drop_last();
        let c = s.last();
        let n = escaped(head).len() as int;
        let w = escape_of(c).len() as int;
        let j = i + n;
        let whole = t.subrange(i, i + escaped(s).len());
        assert(escaped(s) == escaped(head) + escape_of(c));
        assert(t.subrange(i, j) == escaped(head)) by {
            assert(t.subrange(i, j) == whole.subrange(0, n));
            assert((escaped(head) + escape_of(c)).subrange(0, n) == escaped(head));
        }
        assert(t.subrange(j, j + w) == escape_of(c)) by {
            assert(t.subrange(j, j + w) == whole.subrange(n, n + w));
            assert((escaped(head) + escape_of(c)).subrange(n, n + w) == escape_of(c));
        }
        lemma_escaped_read_back(t, i, head);
        lemma_escape_read_back(t, j, c);
        lemma_step(t, j, c, w);
        if let Some((rest, _)) = string_from(t, j + w) {
            assert(head + (seq![c] + rest) == s + rest) by {
                assert(head.push(c) == s);
                assert(head + (seq![c] + rest) == head.push(c) + rest);
            }
        }
    }
}

proof fn lemma_step(t: Seq<char>, j: int, c: char, w: int)
    requires
        1 <= w <= 12,
        piece_at(t, j) == Piece::Char(c, w as usize),
    ensures
        string_from(t, j) == match string_from(t, j + w) {
            None => None::<(Seq<char>, int)>,
            Some((rest, end)) => Some((seq![c] + rest, end)),
        },
{
    lemma_piece_bounds(t, j);
}

proof fn lemma_end(t: Seq<char>, j: int)
    requires
        0 <= j < t.len(),
        t[j] == '"',
    ensures
        string_from(t, j) == Some((Seq::<char>::empty(), j + 1)),
{
    reveal(piece_at);
}

/// A written string literal reads back as the string it stands for, whatever
/// surrounds it.
pub proof fn lemma_quoted_read_back(t: Seq<char>, i: int, s: Seq<char>)
    requires
        0 <= i,
        i + quoted(s).len() <= t.len(),
        t.subrange(i, i + quoted(s).len()) == quoted(s),
    ensures
        literal_at(t, i) == Some((s, i + quoted(s).len())),
{
    let q = quoted(s);
    let n = escaped(s).len() as int;
    let part = t.subrange(i, i + q.len());
    assert(q.len() == n + 2);
    assert(part[0] == t[i]);
    assert(part[n + 1] == t[i + n + 1]);
    assert(q[0] == '"');
    assert(q[n + 1] == '"');
    assert(t.subrange(i + 1, i + 1 + n) == escaped(s)) by {
        assert(t.subrange(i + 1, i + 1 + n) == part.subrange(1, 1 + n));
        assert(q.subrange(1, 1 + n) == escaped(s));
    }
    lemma_escaped_read_back(t, i + 1, s);
    lemma_end(t, i + 1 + n);
    assert(s + Seq::<char>::empty() == s);
}

/// A literal that was read ends after the place where it began, and inside
/// the text.
pub proof fn lemma_string_from_bounds(s: Seq<char>, i: int)
    requires
        0 <= i,
    ensures
        string_from(s, i) matches Some((_, end)) ==> i < end <= s.len(),
    decreases s.len() - i,
{
    lemma_piece_bounds(s, i);
    match piece_at(s, i) {
        Piece::Char(c, w) => {
            lemma_string_from_bounds(s, i + w);
        },
        _ => {},
    }
}

/// A piece lies inside the text.
pub proof fn lemma_piece_bounds(s: Seq<char>, i: int)
    ensures
        piece_at(s, i) is End ==> 0 <= i < s.len(),
        piece_at(s, i) matches Piece::Char(_, w) ==> 0 <= i && 1 <= w <= 12 && i + w <= s.len(),
{
    reveal(piece_at);
}

proof fn lemma_hex4_is_local(t: Seq<char>, lit: Seq<char>, p: int, k: int)
    requires
        0 <= p,
        p + lit.len() <= t.len(),
        t.subrange(p, p + lit.len()) == lit,
        hex4(lit, k) is Some,
    ensures
        hex4(t, p + k) == hex4(lit, k),
{
    let part = t.subrange(p, p + lit.len());
    assert(part[k] == t[p + k]);
    assert(part[k + 1] == t[p + k + 1]);
    assert(part[k + 2] == t[p + k + 2]);
    assert(part[k + 3] == t[p + k + 3]);
}

proof fn lemma_piece_is_local(t: Seq<char>, lit: Seq<char>, p: int, k: int)
    requires
        0 <= p,
        p + lit.len() <= t.len(),
        t.subrange(p, p + lit.len()) == lit,
        !(piece_at(lit, k) is Bad),
    ensures
        piece_at(t, p + k) == piece_at(lit, k),
{
    reveal(piece_at);
    let part = t.subrange(p, p + lit.len());
    assert(part[k] == t[p + k]);
    if lit[k] == '\\' {
        assert(part[k + 1] == t[p + k + 1]);
        if lit[k + 1] == 'u' {
            lemma_hex4_is_local(t, lit, p, k + 2);
            let hi = hex4(lit, k + 2)->0;
            if 0xD800 <= hi && hi < 0xDC00 {
                assert(part[k + 6] == t[p + k + 6]);
                assert(part[k + 7] == t[p + k + 7]);
                lemma_hex4_is_local(t, lit, p, k + 8);
            }
        }
    }
}

proof fn lemma_string_is_local(t: Seq<char>, lit: Seq<char>, p: int, k: int)
    requires
        0 <= p,
        0 <= k,
        p + lit.len() <= t.len(),
        t.subrange(p, p + lit.len()) == lit,
        string_from(lit, k) is Some,
    ensures
        string_from(lit, k) matches Some((content, end)) && string_from(t, p + k) == Some(
            (content, p + end),
        ),
    decreases lit.len() - k,
{
    lemma_piece_bounds(lit, k);
    lemma_piece_is_local(t, lit, p, k);
    match piece_at(lit, k) {
        Piece::Char(c, w) => {
            lemma_string_is_local(t, lit, p, k + w);
        },
        _ => {},
    }
}

/// Reading a string literal looks at the literal alone: a text that is one
/// literal from its first to its last character reads as the same, and
/// ends where it ends, wherever it stands in a longer text.
pub proof fn lemma_literal_is_local(t: Seq<char>, lit: Seq<char>, p: int)
    requires
        0 <= p,
        p + lit.len() <= t.len(),
        t.subrange(p, p + lit.len()) == lit,
        literal_at(lit, 0) matches Some((_, end)) && end == lit.len(),
    ensures
        literal_at(lit, 0) matches Some((content, _)) && literal_at(t, p) == Some(
            (content, p + lit.len()),
        ),
{
    assert(t.subrange(p, p + lit.len())[0] == t[p]);
    lemma_string_is_local(t, lit, p, 1);
}


proof fn lemma_hex4_restricts(t: Seq<char>, p: int, end: int, k: int)
    requires
        0 <= p <= end <= t.len(),
        0 <= k,
        p + k + 4 <= end,
    ensures
        hex4(t.subrange(p, end), k) == hex4(t, p + k),
{
    let lit = t.subrange(p, end);
    assert(lit[k] == t[p + k]);
    assert(lit[k + 1] == t[p + k + 1]);
    assert(lit[k + 2] == t[p + k + 2]);
    assert(lit[k + 3] == t[p + k + 3]);
}

proof fn lemma_piece_restricts(t: Seq<char>, p: int, end: int, k: int)
    requires
        0 <= p <= end <= t.len(),
        0 <= k,
        piece_at(t, p + k) is End ==> p + k < end,
        piece_at(t, p + k) matches Piece::Char(_, w) ==> p + k + w <= end,
        !(piece_at(t, p + k) is Bad),
    ensures
        piece_at(t.subrange(p, end), k) == piece_at(t, p + k),
{
    reveal(piece_at);
    let lit = t.subrange(p, end);
    assert(lit[k] == t[p + k]);
    if t[p + k] == '\\' {
        assert(lit[k + 1] == t[p + k + 1]);
        if t[p + k + 1] == 'u' {
            lemma_hex4_restricts(t, p, end, k + 2);
            let hi = hex4(t, p + k + 2)->0;
            if 0xD800 <= hi && hi < 0xDC00 {
                assert(lit[k + 6] == t[p + k + 6]);
                assert(lit[k + 7] == t[p + k + 7]);
                lemma_hex4_restricts(t, p, end, k + 8);
            }
        }
    }
}

proof fn lemma_string_restricts(t: Seq<char>, p: int, end: int, k: int)
    requires
        0 <= p,
        0 <= k,
        string_from(t, p + k) matches Some((_, stop)) && stop == end,
    ensures
        p + k < end <= t.len(),
        string_from(t, p + k) matches Some((content, _)) && string_from(t.subrange(p, end), k)
            == Some((content, end - p)),
    decreases t.len() - (p + k),
{
    lemma_string_from_bounds(t, p + k);
    lemma_piece_bounds(t, p + k);
    match piece_at(t, p + k) {
        Piece::Char(c, w) => {
            lemma_string_from_bounds(t, p + k + w);
            lemma_string_restricts(t, p, end, k + w);
            lemma_piece_restricts(t, p, end, k);
        },
        _ => {
            lemma_piece_restricts(t, p, end, k);
        },
    }
}

/// A string literal that is read inside a longer text is, cut out of that
/// text, one literal from its first to its last character.
pub proof fn lemma_literal_restricts(t: Seq<char>, p: int)
    requires
        literal_at(t, p) is Some,
    ensures
        literal_at(t, p) matches Some((content, end)) && p + 2 <= end <= t.len() && literal_at(
            t.subrange(p, end),
            0,
        ) == Some((content, end - p)),
{
    if let Some((_, end)) = literal_at(t, p) {
        lemma_string_restricts(t, p, end, 1);
        assert(t.subrange(p, end)[0] == t[p]);
    }
}


} // verus!
