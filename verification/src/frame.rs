//! The envelope of a frame: a JSON object with exactly one member, whose name
//! is the packet's tag and whose value is the packet's body.
//!
//! The envelope is read without looking into the body: the object's opening
//! brace, the tag as a string literal, a colon, and then everything up to the
//! frame's last closing brace. A reader that also checks that the body is a
//! single JSON value has thereby checked that the frame is a JSON object with
//! one member.

use vstd::prelude::*;
use crate::json::{
    lemma_literal_is_local, lemma_literal_restricts, lemma_quoted_read_back,
    lemma_string_from_bounds, literal_at, push_quoted, quoted, read_literal,
};

verus! {

/// The tag that names a packet's variant on the wire.
#[derive(Clone, Copy, Debug, PartialEq, Eq, Structural)]
pub enum Tag {
    Start,
    RequestOffer,
    Offer,
    Answer,
    Candidate,
}

/// The member name that stands for a tag.
pub open spec fn tag_name(tag: Tag) -> Seq<char> {
    match tag {
        Tag::Start => seq!['S', 't', 'a', 'r', 't'],
        Tag::RequestOffer => seq!['R', 'e', 'q', 'u', 'e', 's', 't', 'O', 'f', 'f', 'e', 'r'],
        Tag::Offer => seq!['O', 'f', 'f', 'e', 'r'],
        Tag::Answer => seq!['A', 'n', 's', 'w', 'e', 'r'],
        Tag::Candidate => seq!['C', 'a', 'n', 'd', 'i', 'd', 'a', 't', 'e'],
    }
}

/// The tag that a member name stands for, if any.
pub open spec fn tag_of(name: Seq<char>) -> Option<Tag> {
    if name == tag_name(Tag::Start) {
        Some(Tag::Start)
    } else if name == tag_name(Tag::RequestOffer) {
        Some(Tag::RequestOffer)
    } else if name == tag_name(Tag::Offer) {
        Some(Tag::Offer)
    } else if name == tag_name(Tag::Answer) {
        Some(Tag::Answer)
    } else if name == tag_name(Tag::Candidate) {
        Some(Tag::Candidate)
    } else {
        None
    }
}

/// JSON's insignificant whitespace.
pub open spec fn is_ws(c: char) -> bool {
    c == ' ' || c == '\t' || c == '\n' || c == '\r'
}

/// The first position from `i` on that holds no whitespace, or the length of
/// `s` where only whitespace follows.
pub open spec fn skip_ws(s: Seq<char>, i: int) -> int
    decreases s.len() - i,
{
    if 0 <= i && i < s.len() && is_ws(s[i]) {
        skip_ws(s, i + 1)
    } else {
        i
    }
}

/// The end of `s[..n]` once the whitespace at its end is cut off.
pub open spec fn trim_end(s: Seq<char>, n: int) -> int
    decreases n,
{
    if 0 < n && n <= s.len() && is_ws(s[n - 1]) {
        trim_end(s, n - 1)
    } else {
        n
    }
}

/// The part of `s` between `from` and `to` without the whitespace at its two
/// ends.
pub open spec fn trimmed_part(s: Seq<char>, from: int, to: int) -> Seq<char> {
    let b = skip_ws(s, from);
    let e = trim_end(s, to);
    if b < e {
        s.subrange(b, e)
    } else {
        Seq::empty()
    }
}

/// Whether `s` neither begins nor ends with whitespace.
pub open spec fn is_trimmed(s: Seq<char>) -> bool {
    s.len() > 0 ==> !is_ws(s[0]) && !is_ws(s.last())
}

/// Reads a frame's envelope: the tag and the body, the body without the
/// whitespace around it. `None` where `s` is not an opening brace, a string
/// literal that names a tag, a colon, a body and a closing brace, with
/// nothing but whitespace before, between and after them.
pub open spec fn envelope(s: Seq<char>) -> Option<(Tag, Seq<char>)> {
    let open = skip_ws(s, 0);
    let close = trim_end(s, s.len() as int) - 1;
    if 0 <= open && open < close && s[open] == '{' && s[close] == '}' {
        match literal_at(s, skip_ws(s, open + 1)) {
            Some((name, after)) => {
                let colon = skip_ws(s, after);
                if colon < close && s[colon] == ':' {
                    match tag_of(name) {
                        Some(tag) => Some((tag, trimmed_part(s, colon + 1, close))),
                        None => None,
                    }
                } else {
                    None
                }
            },
            None => None,
        }
    } else {
        None
    }
}

/// The frame that holds `body` under `tag`, written without whitespace.
pub open spec fn enveloped(tag: Tag, body: Seq<char>) -> Seq<char> {
    seq!['{'] + quoted(tag_name(tag)) + seq![':'] + body + seq!['}']
}

fn is_space(c: char) -> (r: bool)
    ensures
        r == is_ws(c),
{
    c == ' ' || c == '\t' || c == '\n' || c == '\r'
}

fn skip_spaces(s: &Vec<char>, from: usize) -> (r: usize)
    requires
        from <= s.len(),
    ensures
        r == skip_ws(s@, from as int),
        from <= r <= s.len(),
{
    let mut i: usize = from;
    while i < s.len() && is_space(s[i])
        invariant
            from <= i <= s.len(),
            skip_ws(s@, from as int) == skip_ws(s@, i as int),
        decreases s.len() - i,
    {
        i += 1;
    }
    i
}

fn trim_spaces(s: &Vec<char>, to: usize) -> (r: usize)
    requires
        to <= s.len(),
    ensures
        r == trim_end(s@, to as int),
        r <= to,
{
    let mut n: usize = to;
    while n > 0 && is_space(s[n - 1])
        invariant
            n <= to <= s.len(),
            trim_end(s@, to as int) == trim_end(s@, n as int),
        decreases n,
    {
        n -= 1;
    }
    n
}

fn copy_part(s: &Vec<char>, from: usize, to: usize) -> (r: Vec<char>)
    requires
        from <= to <= s.len(),
    ensures
        r@ == s@.subrange(from as int, to as int),
{
    let mut r: Vec<char> = Vec::new();
    let mut i: usize = from;
    while i < to
        invariant
            from <= i <= to <= s.len(),
            r@ == s@.subrange(from as int, i as int),
        decreases to - i,
    {
        r.push(s[i]);
        i += 1;
        assert(s@.subrange(from as int, i as int) == s@.subrange(from as int, i - 1).push(
            s@[i - 1],
        ));
    }
    r
}

/// The part of `s` between `from` and `to` without the whitespace at its two
/// ends.
pub fn trimmed_copy(s: &Vec<char>, from: usize, to: usize) -> (r: Vec<char>)
    requires
        from <= s.len(),
        to <= s.len(),
    ensures
        r@ == trimmed_part(s@, from as int, to as int),
        is_trimmed(r@),
{
    proof {
        lemma_trimmed_part_is_trimmed(s@, from as int, to as int);
    }
    let b = skip_spaces(s, from);
    let e = trim_spaces(s, to);
    if b < e {
        copy_part(s, b, e)
    } else {
        Vec::new()
    }
}

/// Whether two sequences of characters are the same.
pub fn same_chars(a: &Vec<char>, b: &Vec<char>) -> (r: bool)
    ensures
        r == (a@ == b@),
{
    if a.len() != b.len() {
        return false;
    }
    let mut i: usize = 0;
    while i < a.len()
        invariant
            a.len() == b.len(),
            i <= a.len(),
            a@.take(i as int) == b@.take(i as int),
        decreases a.len() - i,
    {
        if a[i] != b[i] {
            return false;
        }
        i += 1;
        assert(a@.take(i as int) == a@.take(i - 1).push(a@[i - 1]));
        assert(b@.take(i as int) == b@.take(i - 1).push(b@[i - 1]));
    }
    assert(a@.take(a.len() as int) == a@);
    assert(b@.take(b.len() as int) == b@);
    true
}

/// The member name that stands for a tag.
pub fn name_of(tag: Tag) -> (name: Vec<char>)
    ensures
        name@ == tag_name(tag),
{
    let name = match tag {
        Tag::Start => vec!['S', 't', 'a', 'r', 't'],
        Tag::RequestOffer => vec!['R', 'e', 'q', 'u', 'e', 's', 't', 'O', 'f', 'f', 'e', 'r'],
        Tag::Offer => vec!['O', 'f', 'f', 'e', 'r'],
        Tag::Answer => vec!['A', 'n', 's', 'w', 'e', 'r'],
        Tag::Candidate => vec!['C', 'a', 'n', 'd', 'i', 'd', 'a', 't', 'e'],
    };
    assert(name@ == tag_name(tag));
    name
}

/// The tag that a member name stands for, if any.
pub fn read_tag(name: &Vec<char>) -> (tag: Option<Tag>)
    ensures
        tag == tag_of(name@),
{
    if same_chars(name, &name_of(Tag::Start)) {
        Some(Tag::Start)
    } else if same_chars(name, &name_of(Tag::RequestOffer)) {
        Some(Tag::RequestOffer)
    } else if same_chars(name, &name_of(Tag::Offer)) {
        Some(Tag::Offer)
    } else if same_chars(name, &name_of(Tag::Answer)) {
        Some(Tag::Answer)
    } else if same_chars(name, &name_of(Tag::Candidate)) {
        Some(Tag::Candidate)
    } else {
        None
    }
}

/// Reads a frame's envelope.
pub fn read_envelope(s: &Vec<char>) -> (r: Option<(Tag, Vec<char>)>)
    ensures
        match r {
            Some((tag, body)) => envelope(s@) == Some((tag, body@)) && is_trimmed(body@),
            None => envelope(s@) is None,
        },
{
    let open = skip_spaces(s, 0);
    let end = trim_spaces(s, s.len());
    if end < 2 || open >= end - 1 {
        return None;
    }
    let close = end - 1;
    if s[open] != '{' || s[close] != '}' {
        return None;
    }
    let at = skip_spaces(s, open + 1);
    match read_literal(s, at) {
        None => None,
        Some((name, after)) => {
            let colon = skip_spaces(s, after);
            if colon >= close || s[colon] != ':' {
                return None;
            }
            match read_tag(&name) {
                None => None,
                Some(tag) => Some((tag, trimmed_copy(s, colon + 1, close))),
            }
        },
    }
}

/// Writes the frame that holds `body` under `tag`.
pub fn write_envelope(tag: Tag, body: &Vec<char>) -> (s: Vec<char>)
    ensures
        s@ == enveloped(tag, body@),
{
    let mut s: Vec<char> = Vec::new();
    s.push('{');
    let name = name_of(tag);
    push_quoted(&mut s, &name);
    s.push(':');
    let mut i: usize = 0;
    let ghost head = s@;
    while i < body.len()
        invariant
            i <= body.len(),
            s@ == head + body@.take(i as int),
        decreases body.len() - i,
    {
        s.push(body[i]);
        i += 1;
        assert(body@.take(i as int) == body@.take(i - 1).push(body@[i - 1]));
    }
    assert(body@.take(body.len() as int) == body@);
    s.push('}');
    s
}

/// Where skipping whitespace stops, no whitespace stands.
pub proof fn lemma_skip_ws_stops(s: Seq<char>, i: int)
    requires
        0 <= i <= s.len(),
    ensures
        i <= skip_ws(s, i) <= s.len(),
        skip_ws(s, i) < s.len() ==> !is_ws(s[skip_ws(s, i)]),
    decreases s.len() - i,
{
    if i < s.len() && is_ws(s[i]) {
        lemma_skip_ws_stops(s, i + 1);
    }
}

/// Before the place where trimming stops, no whitespace stands.
pub proof fn lemma_trim_end_stops(s: Seq<char>, n: int)
    requires
        0 <= n <= s.len(),
    ensures
        0 <= trim_end(s, n) <= n,
        trim_end(s, n) > 0 ==> !is_ws(s[trim_end(s, n) - 1]),
    decreases n,
{
    if 0 < n && is_ws(s[n - 1]) {
        lemma_trim_end_stops(s, n - 1);
    }
}

/// What trimming leaves neither begins nor ends with whitespace.
pub proof fn lemma_trimmed_part_is_trimmed(s: Seq<char>, from: int, to: int)
    requires
        0 <= from <= s.len(),
        0 <= to <= s.len(),
    ensures
        is_trimmed(trimmed_part(s, from, to)),
{
    lemma_skip_ws_stops(s, from);
    lemma_trim_end_stops(s, to);
}

/// Different tags have different names.
pub proof fn lemma_tag_read_back(tag: Tag)
    ensures
        tag_of(tag_name(tag)) == Some(tag),
{
    assert(tag_name(Tag::Start)[0] == 'S');
    assert(tag_name(Tag::RequestOffer)[0] == 'R');
    assert(tag_name(Tag::Offer)[0] == 'O');
    assert(tag_name(Tag::Answer)[0] == 'A');
    assert(tag_name(Tag::Candidate)[0] == 'C');
}

/// Whether `s` is whitespace throughout.
pub open spec fn all_ws(s: Seq<char>) -> bool {
    forall|i: int| 0 <= i < s.len() ==> is_ws(#[trigger] s[i])
}

/// A frame as it may be written: the braces, the tag as a string literal,
/// the colon and the body, with any whitespace before, between and after
/// them.
pub open spec fn spaced(
    w1: Seq<char>,
    w2: Seq<char>,
    name: Seq<char>,
    w3: Seq<char>,
    w4: Seq<char>,
    body: Seq<char>,
    w5: Seq<char>,
    w6: Seq<char>,
) -> Seq<char> {
    w1 + seq!['{'] + w2 + name + w3 + seq![':'] + w4 + body + w5 + seq!['}'] + w6
}

proof fn lemma_skip_run(s: Seq<char>, i: int, j: int)
    requires
        0 <= i <= j <= s.len(),
        forall|k: int| i <= k < j ==> is_ws(#[trigger] s[k]),
        j < s.len() ==> !is_ws(s[j]),
    ensures
        skip_ws(s, i) == j,
    decreases j - i,
{
    if i < j {
        lemma_skip_run(s, i + 1, j);
    }
}

proof fn lemma_trim_run(s: Seq<char>, i: int, j: int)
    requires
        0 <= i <= j <= s.len(),
        forall|k: int| i <= k < j ==> is_ws(#[trigger] s[k]),
        i > 0 ==> !is_ws(s[i - 1]),
    ensures
        trim_end(s, j) == i,
    decreases j - i,
{
    if i < j {
        lemma_trim_run(s, i, j - 1);
    }
}

proof fn lemma_envelope_of_spaced(
    w1: Seq<char>,
    w2: Seq<char>,
    name: Seq<char>,
    w3: Seq<char>,
    w4: Seq<char>,
    body: Seq<char>,
    w5: Seq<char>,
    w6: Seq<char>,
    tag: Tag,
)
    requires
        all_ws(w1),
        all_ws(w2),
        all_ws(w3),
        all_ws(w4),
        all_ws(w5),
        all_ws(w6),
        literal_at(name, 0) == Some((tag_name(tag), name.len() as int)),
        is_trimmed(body),
    ensures
        envelope(spaced(w1, w2, name, w3, w4, body, w5, w6)) == Some((tag, body)),
{
    let s = spaced(w1, w2, name, w3, w4, body, w5, w6);
    let open = w1.len() as int;
    let at = open + 1 + w2.len();
    let after = at + name.len();
    let colon = after + w3.len();
    let from = colon + 1 + w4.len();
    let to = from + body.len();
    let close = to + w5.len();
    assert(s.len() == close + 1 + w6.len());
    assert forall|k: int| 0 <= k < open implies s[k] == w1[k] by {}
    assert(s[open] == '{');
    assert forall|k: int| open + 1 <= k < at implies s[k] == w2[k - open - 1] by {}
    assert forall|k: int| at <= k < after implies s[k] == name[k - at] by {}
    assert forall|k: int| after <= k < colon implies s[k] == w3[k - after] by {}
    assert(s[colon] == ':');
    assert forall|k: int| colon + 1 <= k < from implies s[k] == w4[k - colon - 1] by {}
    assert forall|k: int| from <= k < to implies s[k] == body[k - from] by {}
    assert forall|k: int| to <= k < close implies s[k] == w5[k - to] by {}
    assert(s[close] == '}');
    assert forall|k: int| close + 1 <= k < s.len() implies s[k] == w6[k - close - 1] by {}

    assert(name.len() >= 2 && name[0] == '"') by {
        lemma_string_from_bounds(name, 1);
    }
    assert(s[at] == name[0]);

    assert forall|k: int| 0 <= k < open implies is_ws(#[trigger] s[k]) by {
        assert(is_ws(w1[k]));
    }
    lemma_skip_run(s, 0, open);
    assert forall|k: int| close + 1 <= k < s.len() implies is_ws(#[trigger] s[k]) by {
        assert(is_ws(w6[k - close - 1]));
    }
    lemma_trim_run(s, close + 1, s.len() as int);
    assert forall|k: int| open + 1 <= k < at implies is_ws(#[trigger] s[k]) by {
        assert(is_ws(w2[k - open - 1]));
    }
    lemma_skip_run(s, open + 1, at);
    assert(s.subrange(at, after) == name);
    lemma_literal_is_local(s, name, at);
    assert forall|k: int| after <= k < colon implies is_ws(#[trigger] s[k]) by {
        assert(is_ws(w3[k - after]));
    }
    lemma_skip_run(s, after, colon);
    lemma_tag_read_back(tag);

    assert forall|k: int| colon + 1 <= k < from implies is_ws(#[trigger] s[k]) by {
        assert(is_ws(w4[k - colon - 1]));
    }
    assert forall|k: int| to <= k < close implies is_ws(#[trigger] s[k]) by {
        assert(is_ws(w5[k - to]));
    }
    if body.len() > 0 {
        assert(s[from] == body[0]);
        assert(s[to - 1] == body.last());
        lemma_skip_run(s, colon + 1, from);
        lemma_trim_run(s, to, close);
        assert(s.subrange(from, to) == body);
    } else {
        lemma_skip_run(s, colon + 1, close);
        lemma_trim_run(s, colon + 1, close);
        assert(body == Seq::<char>::empty());
    }
}


/// A written frame reads back as the tag and the body that were written,
/// provided the body neither begins nor ends with whitespace.
pub proof fn lemma_envelope_read_back(tag: Tag, body: Seq<char>)
    requires
        is_trimmed(body),
    ensures
        envelope(enveloped(tag, body)) == Some((tag, body)),
{
    let none = Seq::<char>::empty();
    let name = quoted(tag_name(tag));
    assert(name.subrange(0, name.len() as int) == name);
    lemma_quoted_read_back(name, 0, tag_name(tag));
    lemma_envelope_of_spaced(none, none, name, none, none, body, none, none, tag);
    assert(spaced(none, none, name, none, none, body, none, none) == enveloped(tag, body));
}


/// How a frame is written around its body: the string literal that names
/// the tag, and the whitespace before the opening brace, after it, before
/// the colon, after it, after the body and after the closing brace.
pub struct Layout {
    pub before_open: Seq<char>,
    pub after_open: Seq<char>,
    pub name: Seq<char>,
    pub before_colon: Seq<char>,
    pub after_colon: Seq<char>,
    pub after_body: Seq<char>,
    pub after_close: Seq<char>,
}

impl Layout {
    /// Whether the layout holds whitespace where whitespace belongs, and as
    /// its name one string literal that stands for the name of `tag`.
    pub open spec fn fits(self, tag: Tag) -> bool {
        &&& all_ws(self.before_open)
        &&& all_ws(self.after_open)
        &&& literal_at(self.name, 0) == Some((tag_name(tag), self.name.len() as int))
        &&& all_ws(self.before_colon)
        &&& all_ws(self.after_colon)
        &&& all_ws(self.after_body)
        &&& all_ws(self.after_close)
    }

    /// The frame that holds `body` in this layout.
    pub open spec fn frame(self, body: Seq<char>) -> Seq<char> {
        spaced(
            self.before_open,
            self.after_open,
            self.name,
            self.before_colon,
            self.after_colon,
            body,
            self.after_body,
            self.after_close,
        )
    }
}

proof fn lemma_skipped_is_ws(s: Seq<char>, i: int)
    requires
        0 <= i <= s.len(),
    ensures
        i <= skip_ws(s, i) <= s.len(),
        all_ws(s.subrange(i, skip_ws(s, i))),
    decreases s.len() - i,
{
    if i < s.len() && is_ws(s[i]) {
        lemma_skipped_is_ws(s, i + 1);
        let j = skip_ws(s, i);
        assert forall|k: int| 0 <= k < j - i implies is_ws(#[trigger] s.subrange(i, j)[k]) by {
            if k > 0 {
                assert(s.subrange(i + 1, j)[k - 1] == s[i + k]);
            }
        }
    }
}

proof fn lemma_trimmed_off_is_ws(s: Seq<char>, n: int)
    requires
        0 <= n <= s.len(),
    ensures
        0 <= trim_end(s, n) <= n,
        all_ws(s.subrange(trim_end(s, n), n)),
    decreases n,
{
    if 0 < n && is_ws(s[n - 1]) {
        lemma_trimmed_off_is_ws(s, n - 1);
        let j = trim_end(s, n);
        assert forall|k: int| 0 <= k < n - j implies is_ws(#[trigger] s.subrange(j, n)[k]) by {
            if k < n - 1 - j {
                assert(s.subrange(j, n - 1)[k] == s[j + k]);
            }
        }
    }
}

/// The body that the reader finds in a frame, empty where it finds none.
pub open spec fn body_of(s: Seq<char>) -> Seq<char> {
    match envelope(s) {
        Some((_, body)) => body,
        None => Seq::empty(),
    }
}

/// The layout in which a frame that the reader accepts holds its body.
pub open spec fn layout_of(s: Seq<char>) -> Layout {
    let open = skip_ws(s, 0);
    let end = trim_end(s, s.len() as int);
    let at = skip_ws(s, open + 1);
    let after = match literal_at(s, at) {
        Some((_, after)) => after,
        None => at,
    };
    let colon = skip_ws(s, after);
    let from = skip_ws(s, colon + 1);
    let to = trim_end(s, end - 1);
    Layout {
        before_open: s.subrange(0, open),
        after_open: s.subrange(open + 1, at),
        name: s.subrange(at, after),
        before_colon: s.subrange(after, colon),
        after_colon: s.subrange(colon + 1, from),
        after_body: if from < to {
            s.subrange(to, end - 1)
        } else {
            Seq::empty()
        },
        after_close: s.subrange(end, s.len() as int),
    }
}

/// The reader accepts nothing else: a frame that reads as a tag and a body
/// is that body in a layout that fits the tag.
pub proof fn lemma_envelope_is_laid_out(s: Seq<char>)
    requires
        envelope(s) is Some,
    ensures
        envelope(s) matches Some((tag, body)) && layout_of(s).fits(tag) && is_trimmed(body) && s
            == layout_of(s).frame(body),
{
    let open = skip_ws(s, 0);
    let end = trim_end(s, s.len() as int);
    let close = end - 1;
    let at = skip_ws(s, open + 1);
    lemma_skipped_is_ws(s, 0);
    lemma_trimmed_off_is_ws(s, s.len() as int);
    lemma_skipped_is_ws(s, open + 1);
    lemma_literal_restricts(s, at);
    if let Some((name, after)) = literal_at(s, at) {
        let colon = skip_ws(s, after);
        lemma_skipped_is_ws(s, after);
        lemma_skipped_is_ws(s, colon + 1);
        lemma_trimmed_off_is_ws(s, close);
        lemma_trimmed_part_is_trimmed(s, colon + 1, close);
        let from = skip_ws(s, colon + 1);
        let to = trim_end(s, close);
        let body = trimmed_part(s, colon + 1, close);
        if from >= to {
            assert(from == close) by {
                lemma_skip_stops_before(s, colon + 1, close);
                if from < close {
                    lemma_skip_ws_stops(s, colon + 1);
                    lemma_trim_stops_after(s, from, close);
                }
            }
        }
        assert(s =~= layout_of(s).frame(body));
    }
}

proof fn lemma_skip_stops_before(s: Seq<char>, i: int, at: int)
    requires
        0 <= i <= at < s.len(),
        !is_ws(s[at]),
    ensures
        skip_ws(s, i) <= at,
    decreases at - i,
{
    if i < at && is_ws(s[i]) {
        lemma_skip_stops_before(s, i + 1, at);
    }
}

proof fn lemma_trim_stops_after(s: Seq<char>, at: int, n: int)
    requires
        0 <= at < n <= s.len(),
        !is_ws(s[at]),
    ensures
        trim_end(s, n) > at,
    decreases n,
{
    if is_ws(s[n - 1]) {
        lemma_trim_stops_after(s, at, n - 1);
    }
}

/// Whitespace does not matter to the reader, nor how the tag's name is
/// written: a body without whitespace at its ends, held in a layout that
/// fits a tag, reads as that tag and that body.
pub proof fn lemma_envelope_of_layout(layout: Layout, tag: Tag, body: Seq<char>)
    requires
        layout.fits(tag),
        is_trimmed(body),
    ensures
        envelope(layout.frame(body)) == Some((tag, body)),
{
    lemma_envelope_of_spaced(
        layout.before_open,
        layout.after_open,
        layout.name,
        layout.before_colon,
        layout.after_colon,
        body,
        layout.after_body,
        layout.after_close,
        tag,
    );
}

} // verus!
