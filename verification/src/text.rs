//! Editing UTF-8 text at byte offsets.
//!
//! A `String` is modelled by its characters. An offset into it is a byte
//! offset, so the offsets that matter are those between two characters.
use vstd::prelude::*;
use vstd::utf8::{
    char_is_scalar, has_width_1_encoding, has_width_2_encoding, has_width_3_encoding,
    leading_byte_width_1, leading_byte_width_2, leading_byte_width_3, leading_byte_width_4,
    decode_utf8, decode_utf8_encode_utf8, decode_utf8_split, encode_scalar, encode_utf8,
    encode_utf8_decode_utf8, encode_utf8_first_scalar, encode_utf8_valid_utf8, is_char_boundary,
    pop_first_scalar, valid_utf8, valid_utf8_split,
};

verus! {

/// How many bytes `t` takes as UTF-8.
pub open spec fn byte_len(t: Seq<char>) -> nat {
    encode_utf8(t).len()
}

/// Byte `b` of `t` falls between two characters.
pub open spec fn on_boundary(t: Seq<char>, b: int) -> bool {
    is_char_boundary(encode_utf8(t), b)
}

/// The characters of `t` before byte `b`.
pub open spec fn chars_before(t: Seq<char>, b: int) -> Seq<char> {
    decode_utf8(encode_utf8(t).subrange(0, b))
}

/// The characters of `t` from byte `b` on.
pub open spec fn chars_after(t: Seq<char>, b: int) -> Seq<char> {
    decode_utf8(encode_utf8(t).subrange(b, encode_utf8(t).len() as int))
}

/// `String::insert` puts `ch` at byte `idx`, which must be a boundary.
pub assume_specification[ String::insert ](s: &mut String, idx: usize, ch: char)
    requires
        on_boundary(old(s)@, idx as int),
    ensures
        final(s)@ == chars_before(old(s)@, idx as int).push(ch) + chars_after(
            old(s)@,
            idx as int,
        ),
;

/// `String::remove` takes out the character that starts at byte `idx`.
pub assume_specification[ String::remove ](s: &mut String, idx: usize) -> (ch: char)
    requires
        on_boundary(old(s)@, idx as int),
        idx < byte_len(old(s)@),
    ensures
        ch == chars_after(old(s)@, idx as int)[0],
        final(s)@ == chars_before(old(s)@, idx as int) + chars_after(
            old(s)@,
            idx as int,
        ).drop_first(),
;

proof fn scalar_takes_a_byte(c: char)
    ensures
        1 <= encode_scalar(c as u32).len() <= 4,
{
}

/// Encoding is character by character.
pub proof fn encode_concat(l: Seq<char>, r: Seq<char>)
    ensures
        encode_utf8(l + r) == encode_utf8(l) + encode_utf8(r),
    decreases l.len(),
{
    if l.len() == 0 {
        assert(l + r =~= r);
        assert(encode_utf8(l) =~= Seq::<u8>::empty());
        assert(encode_utf8(l) + encode_utf8(r) =~= encode_utf8(r));
    } else {
        encode_concat(l.drop_first(), r);
        assert((l + r).drop_first() =~= l.drop_first() + r);
        assert((l + r)[0] == l[0]);
        assert(encode_utf8(l + r) =~= encode_scalar(l[0] as u32) + (encode_utf8(l.drop_first())
            + encode_utf8(r)));
        assert(encode_utf8(l) + encode_utf8(r) =~= encode_scalar(l[0] as u32) + (encode_utf8(
            l.drop_first(),
        ) + encode_utf8(r)));
    }
}

pub proof fn byte_len_concat(l: Seq<char>, r: Seq<char>)
    ensures
        byte_len(l + r) == byte_len(l) + byte_len(r),
{
    encode_concat(l, r);
}

/// Only the empty text takes no bytes.
pub proof fn byte_len_positive(t: Seq<char>)
    ensures
        byte_len(t) == 0 <==> t.len() == 0,
{
    if t.len() > 0 {
        scalar_takes_a_byte(t[0]);
    }
}

/// A character takes four bytes at most.
pub proof fn byte_len_bounded(t: Seq<char>)
    ensures
        byte_len(t) <= 4 * t.len(),
    decreases t.len(),
{
    if t.len() > 0 {
        byte_len_bounded(t.drop_first());
        scalar_takes_a_byte(t[0]);
    }
}

proof fn prefix_on_boundary(l: Seq<char>, r: Seq<char>)
    ensures
        on_boundary(l + r, byte_len(l) as int),
    decreases l.len(),
{
    let t = l + r;
    let bytes = encode_utf8(t);
    encode_utf8_valid_utf8(t);
    byte_len_concat(l, r);
    byte_len_positive(l);
    if l.len() > 0 {
        prefix_on_boundary(l.drop_first(), r);
        assert(t.drop_first() =~= l.drop_first() + r);
        encode_utf8_first_scalar(t);
        assert(pop_first_scalar(bytes) =~= encode_utf8(t.drop_first()));
        assert(t[0] == l[0]);
        scalar_takes_a_byte(l[0]);
        assert(byte_len(l) == encode_scalar(l[0] as u32).len() + byte_len(l.drop_first()));
    }
}

/// Splitting `l + r` after the bytes of `l` gives back `l` and `r`.
pub proof fn split_of_concat(l: Seq<char>, r: Seq<char>)
    ensures
        on_boundary(l + r, byte_len(l) as int),
        chars_before(l + r, byte_len(l) as int) == l,
        chars_after(l + r, byte_len(l) as int) == r,
        byte_len(l) <= byte_len(l + r),
{
    prefix_on_boundary(l, r);
    encode_concat(l, r);
    assert(encode_utf8(l + r).subrange(0, byte_len(l) as int) =~= encode_utf8(l));
    assert(encode_utf8(l + r).subrange(
        byte_len(l) as int,
        encode_utf8(l + r).len() as int,
    ) =~= encode_utf8(r));
    encode_utf8_decode_utf8(l);
    encode_utf8_decode_utf8(r);
}

proof fn boundary_in_range(bytes: Seq<u8>, b: int)
    requires
        valid_utf8(bytes),
        is_char_boundary(bytes, b),
    ensures
        0 <= b <= bytes.len(),
    decreases bytes.len(),
{
}

/// A boundary cuts the text in two.
pub proof fn split_at_boundary(t: Seq<char>, b: int)
    requires
        on_boundary(t, b),
    ensures
        0 <= b <= byte_len(t),
        t == chars_before(t, b) + chars_after(t, b),
        byte_len(chars_before(t, b)) == b,
        byte_len(chars_after(t, b)) == byte_len(t) - b,
{
    let bytes = encode_utf8(t);
    encode_utf8_valid_utf8(t);
    boundary_in_range(bytes, b);
    valid_utf8_split(bytes, b);
    decode_utf8_split(bytes, b);
    encode_utf8_decode_utf8(t);
    decode_utf8_encode_utf8(bytes.subrange(0, b));
    decode_utf8_encode_utf8(bytes.subrange(b, bytes.len() as int));
}

pub proof fn ends_on_boundary(t: Seq<char>)
    ensures
        on_boundary(t, 0),
        on_boundary(t, byte_len(t) as int),
        chars_before(t, 0) == Seq::<char>::empty(),
        chars_after(t, 0) == t,
        chars_before(t, byte_len(t) as int) == t,
        chars_after(t, byte_len(t) as int) == Seq::<char>::empty(),
{
    let none = Seq::<char>::empty();
    byte_len_positive(none);
    assert(none + t =~= t);
    assert(t + none =~= t);
    split_of_concat(none, t);
    split_of_concat(t, none);
}

/// Two prefixes compare by bytes as they do by characters.
proof fn prefixes_compare(t: Seq<char>, p: int, q: int)
    requires
        0 <= p < q <= t.len(),
    ensures
        byte_len(t.take(p)) < byte_len(t.take(q)),
{
    let mid = t.subrange(p, q);
    assert(t.take(q) =~= t.take(p) + mid);
    byte_len_concat(t.take(p), mid);
    byte_len_positive(mid);
}

/// The nearest boundary before `b` is one character back.
pub proof fn boundary_one_back(t: Seq<char>, b: int, r: int)
    requires
        on_boundary(t, b),
        on_boundary(t, r),
        r < b,
        forall|j: int| r < j < b ==> !on_boundary(t, j),
    ensures
        chars_before(t, b).len() > 0,
        chars_before(t, r) == chars_before(t, b).drop_last(),
        chars_after(t, r) == seq![chars_before(t, b).last()] + chars_after(t, b),
{
    split_at_boundary(t, b);
    split_at_boundary(t, r);
    let l = chars_before(t, b);
    let q = chars_before(t, r);
    byte_len_positive(l);
    let l1 = l.drop_last();
    let rest = seq![l.last()] + chars_after(t, b);
    assert(t =~= l1 + rest);
    split_of_concat(l1, rest);
    assert(t.take(l.len() as int) =~= l);
    assert(t.take(l1.len() as int) =~= l1);
    assert(t.take(q.len() as int) =~= q);
    prefixes_compare(t, l1.len() as int, l.len() as int);
    assert(byte_len(l1) <= r);
    if q.len() > l1.len() {
        if q.len() > l.len() {
            prefixes_compare(t, l.len() as int, q.len() as int);
        }
        assert(q.len() == l.len());
    } else if q.len() < l1.len() {
        prefixes_compare(t, q.len() as int, l1.len() as int);
    }
}

/// The nearest boundary after `b` is one character on.
pub proof fn boundary_one_on(t: Seq<char>, b: int, r: int)
    requires
        on_boundary(t, b),
        on_boundary(t, r),
        b < r,
        forall|j: int| b < j < r ==> !on_boundary(t, j),
    ensures
        chars_after(t, b).len() > 0,
        chars_before(t, r) == chars_before(t, b).push(chars_after(t, b)[0]),
        chars_after(t, r) == chars_after(t, b).drop_first(),
{
    split_at_boundary(t, b);
    split_at_boundary(t, r);
    let a = chars_after(t, b);
    byte_len_positive(a);
    let l = chars_before(t, b).push(a[0]);
    let rest = a.drop_first();
    assert(t =~= l + rest);
    split_of_concat(l, rest);
    let q = chars_before(t, r);
    assert(t.take(l.len() as int) =~= l);
    assert(t.take(q.len() as int) =~= q);
    assert(t.take(chars_before(t, b).len() as int) =~= chars_before(t, b));
    prefixes_compare(t, chars_before(t, b).len() as int, l.len() as int);
    assert(r <= byte_len(l));
    if q.len() > l.len() {
        prefixes_compare(t, l.len() as int, q.len() as int);
    } else if q.len() < l.len() {
        if q.len() < chars_before(t, b).len() {
            prefixes_compare(t, q.len() as int, chars_before(t, b).len() as int);
        }
        assert(q.len() == chars_before(t, b).len());
    }
}

/// The length of `s` in bytes.
pub fn len_bytes(s: &str) -> (n: usize)
    ensures
        n == byte_len(s@),
{
    s.as_bytes().len()
}

/// The nearest boundary before byte `idx`, or 0.
pub fn prev_char_boundary(s: &str, idx: usize) -> (r: usize)
    ensures
        idx == 0 ==> r == 0,
        idx > 0 ==> r < idx,
        on_boundary(s@, r as int),
        forall|j: int| r < j < idx ==> !on_boundary(s@, j),
{
    proof {
        ends_on_boundary(s@);
    }
    if idx == 0 {
        return 0;
    }
    let mut i: usize = idx - 1;
    while i > 0 && !s.is_char_boundary(i)
        invariant
            i < idx,
            forall|j: int| i < j < idx ==> !on_boundary(s@, j),
        decreases i,
    {
        i = i - 1;
    }
    i
}

/// The nearest boundary after byte `idx`, or the end.
pub fn next_char_boundary(s: &str, idx: usize) -> (r: usize)
    ensures
        idx >= byte_len(s@) ==> r == byte_len(s@),
        idx < byte_len(s@) ==> idx < r <= byte_len(s@),
        on_boundary(s@, r as int),
        forall|j: int| idx < j < r ==> !on_boundary(s@, j),
{
    proof {
        ends_on_boundary(s@);
    }
    let end: usize = len_bytes(s);
    if idx >= end {
        return end;
    }
    let mut i: usize = idx + 1;
    while i < end && !s.is_char_boundary(i)
        invariant
            idx < i <= end,
            end == byte_len(s@),
            forall|j: int| idx < j < i ==> !on_boundary(s@, j),
        decreases end - i,
    {
        i = i + 1;
    }
    i
}

// --- text as characters ---------------------------------------------------------

/// Unicode's `White_Space` property.
pub open spec fn is_white_space(c: char) -> bool {
    let n = c as u32;
    ||| 0x9 <= n <= 0xD
    ||| n == 0x20
    ||| n == 0x85
    ||| n == 0xA0
    ||| n == 0x1680
    ||| 0x2000 <= n <= 0x200A
    ||| n == 0x2028
    ||| n == 0x2029
    ||| n == 0x202F
    ||| n == 0x205F
    ||| n == 0x3000
}

/// `char::is_whitespace` tells whether a character has Unicode's `White_Space`
/// property.
pub assume_specification[ char::is_whitespace ](c: char) -> (r: bool)
    ensures
        r == is_white_space(c),
;

/// `String::push` appends one character.
pub assume_specification[ String::push ](s: &mut String, ch: char)
    ensures
        final(s)@ == old(s)@.push(ch),
;

pub fn chars_of(s: &str) -> (v: Vec<char>)
    ensures
        v@ == s@,
{
    let mut v: Vec<char> = Vec::new();
    for c in it: s.chars()
        invariant
            it.seq() == s@,
            v@ == s@.take(it.index() as int),
    {
        v.push(c);
        assert(v@ =~= s@.take(it.index() + 1));
    }
    assert(s@.take(s@.len() as int) =~= s@);
    v
}

/// The characters from `from` up to `to`, as a string.
pub fn string_of(v: &Vec<char>, from: usize, to: usize) -> (s: String)
    requires
        from <= to <= v@.len(),
    ensures
        s@ == v@.subrange(from as int, to as int),
{
    let mut s = String::new();
    let mut i: usize = from;
    assert(s@ =~= v@.subrange(from as int, from as int));
    while i < to
        invariant
            from <= i <= to <= v@.len(),
            s@ == v@.subrange(from as int, i as int),
        decreases to - i,
    {
        s.push(v[i]);
        assert(v@.subrange(from as int, i + 1) =~= v@.subrange(from as int, i as int).push(
            v@[i as int],
        ));
        i = i + 1;
    }
    s
}

/// Where the first line feed is, or the end.
pub open spec fn first_break(t: Seq<char>) -> int
    decreases t.len(),
{
    if t.len() == 0 {
        0
    } else if t[0] == '\n' {
        0
    } else {
        1 + first_break(t.drop_first())
    }
}

/// The first line of `t`, without its line ending. A carriage return counts
/// as part of the ending only where a line feed follows.
pub open spec fn first_line(t: Seq<char>) -> Seq<char> {
    let n = first_break(t);
    if n < t.len() && n > 0 && t[n - 1] == '\r' {
        t.take(n - 1)
    } else {
        t.take(n)
    }
}

/// `t` without the white space at its start.
pub open spec fn trim_start(t: Seq<char>) -> Seq<char>
    decreases t.len(),
{
    if t.len() > 0 && is_white_space(t[0]) {
        trim_start(t.drop_first())
    } else {
        t
    }
}

/// `t` without the white space at its end.
pub open spec fn trim_end(t: Seq<char>) -> Seq<char>
    decreases t.len(),
{
    if t.len() > 0 && is_white_space(t.last()) {
        trim_end(t.drop_last())
    } else {
        t
    }
}

pub open spec fn trimmed(t: Seq<char>) -> Seq<char> {
    trim_end(trim_start(t))
}

proof fn no_break_before_the_first(t: Seq<char>)
    ensures
        0 <= first_break(t) <= t.len(),
        forall|i: int| 0 <= i < first_break(t) ==> #[trigger] t[i] != '\n',
    decreases t.len(),
{
    if t.len() > 0 && t[0] != '\n' {
        let rest = t.drop_first();
        no_break_before_the_first(rest);
        assert forall|i: int| 0 <= i < first_break(t) implies #[trigger] t[i] != '\n' by {
            if i > 0 {
                assert(rest[i - 1] != '\n');
            }
        }
    }
}

/// The first line holds no line feed.
pub proof fn first_line_is_one(t: Seq<char>)
    ensures
        !first_line(t).contains('\n'),
{
    no_break_before_the_first(t);
    if first_line(t).contains('\n') {
        let i = first_line(t).index_of('\n');
        assert(t[i] == '\n');
    }
}

proof fn trimming_start_adds_nothing(t: Seq<char>, c: char)
    requires
        trim_start(t).contains(c),
    ensures
        t.contains(c),
    decreases t.len(),
{
    if t.len() > 0 && is_white_space(t[0]) {
        let rest = t.drop_first();
        trimming_start_adds_nothing(rest, c);
        assert(t[rest.index_of(c) + 1] == c);
    }
}

proof fn trimming_end_adds_nothing(t: Seq<char>, c: char)
    requires
        trim_end(t).contains(c),
    ensures
        t.contains(c),
    decreases t.len(),
{
    if t.len() > 0 && is_white_space(t.last()) {
        let rest = t.drop_last();
        trimming_end_adds_nothing(rest, c);
        assert(t[rest.index_of(c)] == c);
    }
}

/// Every character of the trimmed text is one of the text.
pub proof fn trimming_adds_nothing(t: Seq<char>, c: char)
    requires
        trimmed(t).contains(c),
    ensures
        t.contains(c),
{
    trimming_end_adds_nothing(trim_start(t), c);
    trimming_start_adds_nothing(t, c);
}

/// At most `max` characters of `t`, the last of them an ellipsis if some are
/// left out.
pub open spec fn shortened(t: Seq<char>, max: int) -> Seq<char> {
    if t.len() <= max {
        t
    } else {
        t.take(max - 1).push('\u{2026}')
    }
}

/// Where the trimmed text between `start` and `end` begins and ends.
pub fn trim_range(v: &Vec<char>, start: usize, end: usize) -> (r: (usize, usize))
    requires
        start <= end <= v@.len(),
    ensures
        start <= r.0 <= r.1 <= end,
        v@.subrange(r.0 as int, r.1 as int) == trimmed(v@.subrange(start as int, end as int)),
{
    let ghost line = v@.subrange(start as int, end as int);
    let mut from: usize = start;
    assert(line.skip(0) =~= line);
    while from < end && v[from].is_whitespace()
        invariant
            start <= from <= end <= v@.len(),
            line == v@.subrange(start as int, end as int),
            trim_start(line) == trim_start(line.skip(from - start)),
        decreases end - from,
    {
        assert(line.skip(from - start)[0] == v@[from as int]);
        assert(line.skip(from - start).drop_first() =~= line.skip(from + 1 - start));
        from = from + 1;
    }
    let ghost rest = line.skip(from - start);
    proof {
        if from < end {
            assert(rest[0] == v@[from as int]);
        }
        assert(rest == trim_start(line));
    }
    let mut to: usize = end;
    assert(rest.take(to - from) =~= rest);
    while to > from && v[to - 1].is_whitespace()
        invariant
            start <= from <= to <= end <= v@.len(),
            line == v@.subrange(start as int, end as int),
            rest == line.skip(from - start),
            trim_end(rest) == trim_end(rest.take(to - from)),
        decreases to,
    {
        assert(rest.take(to - from).last() == v@[to - 1]);
        assert(rest.take(to - from).drop_last() =~= rest.take(to - from - 1));
        to = to - 1;
    }
    proof {
        let mid = rest.take(to - from);
        if to > from {
            assert(mid.last() == v@[to - 1]);
        }
        assert(mid == trimmed(line));
        assert(mid =~= v@.subrange(from as int, to as int));
    }
    (from, to)
}

/// Trimmed, the first line of `s`, cut to `max` characters.
pub fn one_line(s: &str, max: usize) -> (r: String)
    requires
        max > 0,
    ensures
        r@ == shortened(trimmed(first_line(s@)), max as int),
{
    let v = chars_of(s);
    let ghost t = v@;
    let n: usize = v.len();
    let mut end: usize = 0;
    proof {
        assert(t.skip(0) =~= t);
    }
    while end < n && v[end] != '\n'
        invariant
            end <= n,
            n == v@.len(),
            t == v@,
            first_break(t) == end + first_break(t.skip(end as int)),
        decreases n - end,
    {
        assert(t.skip(end as int).drop_first() =~= t.skip(end + 1));
        end = end + 1;
    }
    assert(first_break(t) == end);
    if end < n && end > 0 && v[end - 1] == '\r' {
        end = end - 1;
    }
    assert(t.subrange(0, end as int) =~= first_line(t));
    let (from, to): (usize, usize) = trim_range(&v, 0, end);
    let ghost mid = t.subrange(from as int, to as int);
    if to - from <= max {
        return string_of(&v, from, to);
    }
    let mut out = string_of(&v, from, from + (max - 1));
    assert(t.subrange(from as int, from + (max - 1)) =~= mid.take(max - 1));
    out.push('\u{2026}');
    out
}

// --- searching ------------------------------------------------------------------------

/// What `str::to_lowercase` makes of a text.
pub uninterp spec fn lowercase(t: Seq<char>) -> Seq<char>;

/// `str::to_lowercase`: the text with every character in lower case, by
/// Unicode's rules, which the name [`lowercase`] stands for. It maps the text
/// character by character, so that nothing becomes nothing.
#[verifier::external_body]
pub(crate) fn to_lowercase(s: &str) -> (r: String)
    ensures
        r@ == lowercase(s@),
        s@.len() == 0 ==> r@.len() == 0,
{
    s.to_lowercase()
}

pub open spec fn occurs_at(needle: Seq<char>, hay: Seq<char>, i: int) -> bool {
    0 <= i && i + needle.len() <= hay.len() && hay.subrange(i, i + needle.len()) == needle
}

/// `needle` stands somewhere in `hay`.
pub open spec fn occurs_in(needle: Seq<char>, hay: Seq<char>) -> bool {
    exists|i: int| occurs_at(needle, hay, i)
}

/// Whether `needle` stands somewhere in `hay`.
pub fn contains_text(hay: &str, needle: &str) -> (r: bool)
    ensures
        r == occurs_in(needle@, hay@),
{
    let h = chars_of(hay);
    let n = chars_of(needle);
    let size: usize = h.len();
    if n.len() > size {
        return false;
    }
    let last: usize = size - n.len();
    let mut i: usize = 0;
    while i <= last
        invariant
            h@ == hay@,
            n@ == needle@,
            size == h@.len(),
            last == h@.len() - n@.len(),
            i <= last + 1,
            last < usize::MAX || i <= last,
            forall|k: int| 0 <= k < i ==> !occurs_at(n@, h@, k),
        decreases last + 1 - i,
    {
        let mut j: usize = 0;
        while j < n.len() && h[i + j] == n[j]
            invariant
                j <= n@.len(),
                i + n@.len() <= h@.len(),
                size == h@.len(),
                forall|k: int| 0 <= k < j ==> h@[i + k] == n@[k],
            decreases n@.len() - j,
        {
            j = j + 1;
        }
        if j == n.len() {
            assert(h@.subrange(i as int, i + n@.len()) =~= n@);
            assert(occurs_at(n@, h@, i as int));
            return true;
        }
        assert(!occurs_at(n@, h@, i as int)) by {
            if occurs_at(n@, h@, i as int) {
                assert(h@.subrange(i as int, i + n@.len())[j as int] == n@[j as int]);
            }
        }
        if i == last {
            assert forall|k: int| !occurs_at(n@, h@, k) by {}
            return false;
        }
        i = i + 1;
    }
    false
}

// --- lines --------------------------------------------------------------------------

/// Where the last line of `t` starts: after the last line feed, or at the
/// start.
pub open spec fn last_line_start(t: Seq<char>) -> int
    decreases t.len(),
{
    if t.len() == 0 {
        0
    } else if t.last() == '\n' {
        t.len() as int
    } else {
        last_line_start(t.drop_last())
    }
}

pub proof fn last_line_start_in_range(t: Seq<char>)
    ensures
        0 <= last_line_start(t) <= t.len(),
    decreases t.len(),
{
    if t.len() > 0 && t.last() != '\n' {
        last_line_start_in_range(t.drop_last());
    }
}

proof fn line_feed_scalar(ch: char)
    ensures
        (encode_scalar(ch as u32)[0] == 0x0A) == (ch == '\n'),
{
    let c = ch as u32;
    assert(c <= 0x7F ==> (c & 0x7F) as u8 == c) by (bit_vector);
    assert((0xC0 | ((c >> 6) & 0x1F) as u8) != 0x0A) by (bit_vector);
    assert((0xE0 | ((c >> 12) & 0x0F) as u8) != 0x0A) by (bit_vector);
    assert((0xF0 | ((c >> 18) & 0x7) as u8) != 0x0A) by (bit_vector);
    char_is_scalar(ch);
    let first = encode_scalar(c)[0];
    if has_width_1_encoding(c) {
        assert(first == leading_byte_width_1(c));
    } else if has_width_2_encoding(c) {
        assert(first == leading_byte_width_2(c));
    } else if has_width_3_encoding(c) {
        assert(first == leading_byte_width_3(c));
    } else {
        assert(first == leading_byte_width_4(c));
    }
}

/// The byte of a line feed is no part of any other character.
proof fn line_feed_byte(t: Seq<char>, b: int)
    requires
        on_boundary(t, b),
        b < byte_len(t),
    ensures
        chars_after(t, b).len() > 0,
        (encode_utf8(t)[b] == 0x0A) == (chars_after(t, b)[0] == '\n'),
{
    split_at_boundary(t, b);
    let a = chars_after(t, b);
    byte_len_positive(a);
    encode_concat(chars_before(t, b), a);
    assert(encode_utf8(t)[b] == encode_utf8(a)[0]);
    scalar_takes_a_byte(a[0]);
    assert(encode_utf8(a)[0] == encode_scalar(a[0] as u32)[0]);
    line_feed_scalar(a[0]);
}

/// The byte at which the line starts that byte `end` is on.
pub fn line_start(s: &str, end: usize) -> (r: usize)
    requires
        on_boundary(s@, end as int),
    ensures
        on_boundary(s@, r as int),
        r <= end,
        chars_before(s@, r as int) == chars_before(s@, end as int).take(
            last_line_start(chars_before(s@, end as int)),
        ),
{
    let ghost t = s@;
    let ghost whole = chars_before(t, end as int);
    let mut i: usize = end;
    proof {
        assert(whole.take(whole.len() as int) =~= whole);
    }
    while i > 0
        invariant
            i <= end,
            t == s@,
            on_boundary(t, i as int),
            whole == chars_before(t, end as int),
            chars_before(t, i as int).len() <= whole.len(),
            chars_before(t, i as int) == whole.take(chars_before(t, i as int).len() as int),
            last_line_start(whole) == last_line_start(chars_before(t, i as int)),
        decreases i,
    {
        let p: usize = prev_char_boundary(s, i);
        proof {
            boundary_one_back(t, i as int, p as int);
            split_at_boundary(t, i as int);
            line_feed_byte(t, p as int);
        }
        if s.as_bytes()[p] == 0x0A {
            return i;
        }
        assert(chars_before(t, i as int).drop_last() =~= whole.take(
            chars_before(t, p as int).len() as int,
        ));
        i = p;
    }
    proof {
        ends_on_boundary(t);
    }
    0
}

// --- decimal numbers --------------------------------------------------------------

pub open spec fn is_digit(c: char) -> bool {
    '0' <= c <= '9'
}

pub open spec fn all_digits(t: Seq<char>) -> bool {
    forall|i: int| 0 <= i < t.len() ==> is_digit(#[trigger] t[i])
}

/// The number that the digits of `t` write.
pub open spec fn decimal(t: Seq<char>) -> int
    decreases t.len(),
{
    if t.len() == 0 {
        0
    } else {
        10 * decimal(t.drop_last()) + (t.last() as int - '0' as int)
    }
}

pub open spec fn is_signed(t: Seq<char>) -> bool {
    t.len() > 0 && (t[0] == '+' || t[0] == '-')
}

/// The digits after the sign, if there is one.
pub open spec fn magnitude(t: Seq<char>) -> Seq<char> {
    if is_signed(t) {
        t.skip(1)
    } else {
        t
    }
}

/// The integer that `t` writes: a sign or none, then one digit or more.
pub open spec fn integer(t: Seq<char>) -> Option<int> {
    let m = magnitude(t);
    if m.len() == 0 || !all_digits(m) {
        None
    } else if is_signed(t) && t[0] == '-' {
        Some(-decimal(m))
    } else {
        Some(decimal(m))
    }
}

/// The integer that `t` writes, if it fits.
pub open spec fn integer_i32(t: Seq<char>) -> Option<i32> {
    match integer(t) {
        Some(n) => if i32::MIN <= n <= i32::MAX {
            Some(n as i32)
        } else {
            None
        },
        None => None,
    }
}

/// Reads a decimal `i32`: an optional sign and digits, nothing else.
pub fn parse_i32(s: &str) -> (r: Option<i32>)
    ensures
        r == integer_i32(s@),
{
    let v = chars_of(s);
    let ghost t = v@;
    let n: usize = v.len();
    let signed: bool = n > 0 && (v[0] == '+' || v[0] == '-');
    let start: usize = if signed {
        1
    } else {
        0
    };
    let ghost m = magnitude(t);
    assert(m =~= t.skip(start as int));
    if start >= n {
        return None;
    }
    let mut i: usize = start;
    let mut acc: i64 = 0;
    let mut over: bool = false;
    assert(m.take(0) =~= Seq::<char>::empty());
    while i < n
        invariant
            start <= i <= n,
            n == v@.len(),
            t == v@,
            t == s@,
            m == magnitude(t),
            m == t.skip(start as int),
            forall|j: int| 0 <= j < i - start ==> is_digit(#[trigger] m[j]),
            0 <= acc <= 21_474_836_490,
            !over ==> acc == decimal(m.take(i - start)) && acc <= 2_147_483_648,
            over ==> decimal(m.take(i - start)) > 2_147_483_648,
        decreases n - i,
    {
        let c: char = v[i];
        assert(c == m[i - start]);
        if !('0' <= c && c <= '9') {
            assert(!is_digit(m[i - start]));
            return None;
        }
        let ghost k = i - start;
        assert(m.take(k + 1).drop_last() =~= m.take(k));
        if !over {
            acc = acc * 10 + (c as u32 - '0' as u32) as i64;
            if acc > 2_147_483_648 {
                over = true;
            }
        }
        i = i + 1;
    }
    assert(m.take(n - start) =~= m);
    assert(all_digits(m));
    if over {
        return None;
    }
    if signed && v[0] == '-' {
        Some((-acc) as i32)
    } else if acc <= 2_147_483_647 {
        Some(acc as i32)
    } else {
        None
    }
}

} // verus!
