//! Text helpers: trimming, suffixes, truncation and decimal rendering.

use vstd::prelude::*;
use vstd::string::*;
use vstd::utf8::*;

verus! {

/// `std::string::String::push`: appends one character to the end of the string.
pub assume_specification[ String::push ](s: &mut String, c: char)
    ensures
        final(s)@ == old(s)@.push(c),
;

/// Whether `c` has the Unicode `White_Space` property.
pub open spec fn is_space(c: char) -> bool {
    ||| '\u{9}' <= c <= '\u{d}'
    ||| c == ' '
    ||| c == '\u{85}'
    ||| c == '\u{a0}'
    ||| c == '\u{1680}'
    ||| '\u{2000}' <= c <= '\u{200a}'
    ||| c == '\u{2028}'
    ||| c == '\u{2029}'
    ||| c == '\u{202f}'
    ||| c == '\u{205f}'
    ||| c == '\u{3000}'
}

/// `s` without its leading white space.
pub open spec fn trim_left(s: Seq<char>) -> Seq<char>
    decreases s.len(),
{
    if s.len() > 0 && is_space(s[0]) {
        trim_left(s.drop_first())
    } else {
        s
    }
}

/// `s` without its trailing white space.
pub open spec fn trim_right(s: Seq<char>) -> Seq<char>
    decreases s.len(),
{
    if s.len() > 0 && is_space(s.last()) {
        trim_right(s.drop_last())
    } else {
        s
    }
}

/// `s` without leading and trailing white space.
pub open spec fn trimmed(s: Seq<char>) -> Seq<char> {
    trim_right(trim_left(s))
}

/// Whether nothing but white space stands in `s`.
pub open spec fn blank(s: Seq<char>) -> bool {
    forall|i: int| 0 <= i < s.len() ==> is_space(#[trigger] s[i])
}

/// `s` without the characters `c` that it starts with.
pub open spec fn strip_left(s: Seq<char>, c: char) -> Seq<char>
    decreases s.len(),
{
    if s.len() > 0 && s[0] == c {
        strip_left(s.drop_first(), c)
    } else {
        s
    }
}

/// `s` without the characters `c` that it ends with.
pub open spec fn strip_right(s: Seq<char>, c: char) -> Seq<char>
    decreases s.len(),
{
    if s.len() > 0 && s.last() == c {
        strip_right(s.drop_last(), c)
    } else {
        s
    }
}

/// `c` with an ASCII capital letter made small.
pub open spec fn lower_char(c: char) -> char {
    if 'A' <= c <= 'Z' {
        (c as u32 + 32) as char
    } else {
        c
    }
}

/// `s` with its ASCII capital letters made small.
pub open spec fn lowered(s: Seq<char>) -> Seq<char> {
    s.map_values(|c: char| lower_char(c))
}

/// The longest prefix of `text` whose UTF-8 encoding takes at most `max_bytes`.
pub open spec fn truncated(text: Seq<char>, max_bytes: nat) -> Seq<char>
    decreases text.len(),
{
    if text.len() == 0 || encode_utf8(text).len() <= max_bytes {
        text
    } else {
        truncated(text.drop_last(), max_bytes)
    }
}

/// The first `count` characters of `text`, or all of it when it is shorter.
pub open spec fn leading(text: Seq<char>, count: nat) -> Seq<char> {
    if text.len() <= count {
        text
    } else {
        text.take(count as int)
    }
}

/// The character that stands for a decimal digit.
pub open spec fn digit_char(d: nat) -> char {
    ('0' as u32 + d) as char
}

/// The decimal digits of `n`, most significant first.
pub open spec fn decimal_text(n: nat) -> Seq<char>
    decreases n,
{
    if n < 10 {
        seq![digit_char(n)]
    } else {
        decimal_text(n / 10).push(digit_char(n % 10))
    }
}

/// What `String::from_utf8_lossy` makes of these bytes.
pub uninterp spec fn lossy_text(bytes: Seq<u8>) -> Seq<char>;

/// How a text is printed with `{:?}`.
pub uninterp spec fn quoted_text(text: Seq<char>) -> Seq<char>;

/// `String::from_utf8_lossy`: the bytes as text, with replacement characters
/// where they are not UTF-8. What stands there is named; bytes that are UTF-8
/// give the text that they encode.
#[verifier::external_body]
pub(crate) fn lossy(bytes: &[u8]) -> (r: String)
    ensures
        r@ == lossy_text(bytes@),
        forall|text: Seq<char>| #[trigger] encode_utf8(text) == bytes@ ==> r@ == text,
{
    String::from_utf8_lossy(bytes).into_owned()
}

/// `format!` with `{:?}` on a string: the text in quotes, with escapes. What
/// they are is named.
#[verifier::external_body]
pub(crate) fn quoted(text: &str) -> (r: String)
    ensures
        r@ == quoted_text(text@),
{
    format!("{:?}", text)
}

/// Whether `c` is white space.
pub fn white_space(c: char) -> (r: bool)
    ensures
        r == is_space(c),
{
    ('\u{9}' <= c && c <= '\u{d}') || c == ' ' || c == '\u{85}' || c == '\u{a0}' || c == '\u{1680}'
        || ('\u{2000}' <= c && c <= '\u{200a}') || c == '\u{2028}' || c == '\u{2029}' || c
        == '\u{202f}' || c == '\u{205f}' || c == '\u{3000}'
}

/// The characters of `s`.
pub fn chars_of(s: &str) -> (r: Vec<char>)
    ensures
        r@ == s@,
{
    let mut out: Vec<char> = Vec::new();
    for c in it: s.chars()
        invariant
            it.seq() == s@,
            out@ == s@.take(it.index() as int),
    {
        out.push(c);
    }
    out
}

/// The string made of `chars[from..to]`.
pub fn string_of(chars: &Vec<char>, from: usize, to: usize) -> (r: String)
    requires
        from <= to <= chars@.len(),
    ensures
        r@ == chars@.subrange(from as int, to as int),
{
    let mut out = String::new();
    let mut i: usize = from;
    while i < to
        invariant
            from <= i <= to <= chars@.len(),
            out@ == chars@.subrange(from as int, i as int),
        decreases to - i,
    {
        out.push(chars[i]);
        i = i + 1;
    }
    out
}

/// Whether two strings hold the same text.
pub fn text_eq(a: &str, b: &str) -> (r: bool)
    ensures
        r == (a@ == b@),
{
    a.to_owned() == b.to_owned()
}

proof fn trim_left_by_index(s: Seq<char>, from: int)
    requires
        0 <= from <= s.len(),
        forall|i: int| 0 <= i < from ==> is_space(#[trigger] s[i]),
        from < s.len() ==> !is_space(s[from]),
    ensures
        trim_left(s) == s.subrange(from, s.len() as int),
    decreases from,
{
    if from > 0 {
        assert(is_space(s[0]));
        assert forall|i: int| 0 <= i < from - 1 implies is_space(#[trigger] s.drop_first()[i]) by {
            assert(is_space(s[i + 1]));
        }
        trim_left_by_index(s.drop_first(), from - 1);
        assert(s.drop_first().subrange(from - 1, s.len() - 1) =~= s.subrange(from, s.len() as int));
    } else {
        assert(s.subrange(0, s.len() as int) =~= s);
    }
}

proof fn trim_right_by_index(s: Seq<char>, to: int)
    requires
        0 <= to <= s.len(),
        forall|i: int| to <= i < s.len() ==> is_space(#[trigger] s[i]),
        to > 0 ==> !is_space(s[to - 1]),
    ensures
        trim_right(s) == s.subrange(0, to),
    decreases s.len() - to,
{
    if to < s.len() {
        assert(is_space(s[s.len() - 1]));
        trim_right_by_index(s.drop_last(), to);
        assert(s.drop_last().subrange(0, to) =~= s.subrange(0, to));
    } else {
        assert(s.subrange(0, to) =~= s);
    }
}

/// Trimming leaves nothing exactly where the text is blank.
pub proof fn trimmed_is_empty_when_blank(s: Seq<char>)
    ensures
        trimmed(s).len() == 0 <==> blank(s),
    decreases s.len(),
{
    if s.len() > 0 && is_space(s[0]) {
        let rest = s.drop_first();
        trimmed_is_empty_when_blank(rest);
        assert(trimmed(s) == trimmed(rest));
        if blank(rest) {
            assert forall|i: int| 0 <= i < s.len() implies is_space(#[trigger] s[i]) by {
                if i > 0 {
                    assert(is_space(rest[i - 1]));
                }
            }
        } else {
            let i = choose|i: int| 0 <= i < rest.len() && !is_space(#[trigger] rest[i]);
            assert(!is_space(s[i + 1]));
        }
    } else if s.len() > 0 {
        trim_right_keeps_solid_first(s);
        assert(!is_space(s[0]));
    }
}

proof fn trim_right_keeps_solid_first(s: Seq<char>)
    requires
        s.len() > 0,
        !is_space(s[0]),
    ensures
        trim_right(s).len() > 0,
    decreases s.len(),
{
    if is_space(s.last()) {
        trim_right_keeps_solid_first(s.drop_last());
    }
}

/// `s` without leading and trailing white space.
pub fn trim(s: &str) -> (r: String)
    ensures
        r@ == trimmed(s@),
{
    let chars = chars_of(s);
    let mut from: usize = 0;
    while from < chars.len() && white_space(chars[from])
        invariant
            from <= chars@.len(),
            forall|i: int| 0 <= i < from ==> is_space(#[trigger] chars@[i]),
        decreases chars@.len() - from,
    {
        from = from + 1;
    }
    let mut to: usize = chars.len();
    while from < to && white_space(chars[to - 1])
        invariant
            from <= to <= chars@.len(),
            forall|i: int| to <= i < chars@.len() ==> is_space(#[trigger] chars@[i]),
        decreases to,
    {
        to = to - 1;
    }
    proof {
        let all = chars@;
        let rest = all.subrange(from as int, all.len() as int);
        trim_left_by_index(all, from as int);
        assert forall|i: int| to - from <= i < rest.len() implies is_space(#[trigger] rest[i]) by {
            assert(is_space(all[i + from]));
        }
        trim_right_by_index(rest, to - from);
        assert(rest.subrange(0, to - from) =~= all.subrange(from as int, to as int));
    }
    string_of(&chars, from, to)
}

proof fn strip_left_by_index(s: Seq<char>, c: char, from: int)
    requires
        0 <= from <= s.len(),
        forall|i: int| 0 <= i < from ==> #[trigger] s[i] == c,
        from < s.len() ==> s[from] != c,
    ensures
        strip_left(s, c) == s.subrange(from, s.len() as int),
    decreases from,
{
    if from > 0 {
        assert(s[0] == c);
        assert forall|i: int| 0 <= i < from - 1 implies #[trigger] s.drop_first()[i] == c by {
            assert(s[i + 1] == c);
        }
        strip_left_by_index(s.drop_first(), c, from - 1);
        assert(s.drop_first().subrange(from - 1, s.len() - 1) =~= s.subrange(from, s.len() as int));
    } else {
        assert(s.subrange(0, s.len() as int) =~= s);
    }
}

proof fn strip_right_by_index(s: Seq<char>, c: char, to: int)
    requires
        0 <= to <= s.len(),
        forall|i: int| to <= i < s.len() ==> #[trigger] s[i] == c,
        to > 0 ==> s[to - 1] != c,
    ensures
        strip_right(s, c) == s.subrange(0, to),
    decreases s.len() - to,
{
    if to < s.len() {
        assert(s[s.len() - 1] == c);
        strip_right_by_index(s.drop_last(), c, to);
        assert(s.drop_last().subrange(0, to) =~= s.subrange(0, to));
    } else {
        assert(s.subrange(0, to) =~= s);
    }
}

/// `s` without the characters `c` that it starts with.
pub fn strip_start(s: &str, c: char) -> (r: String)
    ensures
        r@ == strip_left(s@, c),
{
    let chars = chars_of(s);
    let mut from: usize = 0;
    while from < chars.len() && chars[from] == c
        invariant
            from <= chars@.len(),
            forall|i: int| 0 <= i < from ==> #[trigger] chars@[i] == c,
        decreases chars@.len() - from,
    {
        from = from + 1;
    }
    proof {
        strip_left_by_index(chars@, c, from as int);
    }
    string_of(&chars, from, chars.len())
}

/// `s` without the characters `c` that it ends with.
pub fn strip_end(s: &str, c: char) -> (r: String)
    ensures
        r@ == strip_right(s@, c),
{
    let chars = chars_of(s);
    let mut to: usize = chars.len();
    while to > 0 && chars[to - 1] == c
        invariant
            to <= chars@.len(),
            forall|i: int| to <= i < chars@.len() ==> #[trigger] chars@[i] == c,
        decreases to,
    {
        to = to - 1;
    }
    proof {
        strip_right_by_index(chars@, c, to as int);
    }
    string_of(&chars, 0, to)
}

/// Whether nothing but white space stands in `s`.
pub fn is_blank(s: &str) -> (r: bool)
    ensures
        r == blank(s@),
{
    let chars = chars_of(s);
    let mut i: usize = 0;
    while i < chars.len()
        invariant
            i <= chars@.len(),
            chars@ == s@,
            forall|j: int| 0 <= j < i ==> is_space(#[trigger] chars@[j]),
        decreases chars@.len() - i,
    {
        if !white_space(chars[i]) {
            return false;
        }
        i = i + 1;
    }
    true
}

/// Whether `text` ends in `suffix`.
pub fn ends_with(text: &str, suffix: &str) -> (r: bool)
    ensures
        r == suffix@.is_suffix_of(text@),
{
    let whole = chars_of(text);
    let tail = chars_of(suffix);
    if tail.len() > whole.len() {
        return false;
    }
    let skipped: usize = whole.len() - tail.len();
    let end = string_of(&whole, skipped, whole.len());
    text_eq(end.as_str(), suffix)
}

/// `s` with its ASCII capital letters made small.
pub fn to_lower(s: &str) -> (r: String)
    ensures
        r@ == lowered(s@),
{
    let chars = chars_of(s);
    let mut out = String::new();
    let mut i: usize = 0;
    while i < chars.len()
        invariant
            i <= chars@.len(),
            chars@ == s@,
            out@ == lowered(s@.take(i as int)),
        decreases chars@.len() - i,
    {
        let c = chars[i];
        let small = if 'A' <= c && c <= 'Z' {
            (c as u8 + 32) as char
        } else {
            c
        };
        assert(small == lower_char(c));
        out.push(small);
        assert(lowered(s@.take(i + 1)) =~= lowered(s@.take(i as int)).push(lower_char(c)));
        i = i + 1;
    }
    assert(s@.take(s@.len() as int) =~= s@);
    out
}

/// How many bytes the UTF-8 encoding of `c` takes.
pub fn utf8_width(c: char) -> (r: usize)
    ensures
        r == encode_scalar(c as u32).len(),
        1 <= r <= 4,
{
    proof {
        char_is_scalar(c);
    }
    if c <= '\u{7f}' {
        1
    } else if c <= '\u{7ff}' {
        2
    } else if c <= '\u{ffff}' {
        3
    } else {
        4
    }
}

/// Encoding one more character appends that character's bytes.
pub proof fn encode_push(s: Seq<char>, c: char)
    ensures
        encode_utf8(s.push(c)) == encode_utf8(s) + encode_scalar(c as u32),
    decreases s.len(),
{
    reveal_with_fuel(encode_utf8, 2);
    if s.len() == 0 {
        assert(s.push(c).drop_first() =~= Seq::<char>::empty());
        assert(encode_utf8(s.push(c)) =~= encode_utf8(s) + encode_scalar(c as u32));
    } else {
        encode_push(s.drop_first(), c);
        assert(s.push(c).drop_first() =~= s.drop_first().push(c));
        assert(encode_utf8(s.push(c)) =~= encode_utf8(s) + encode_scalar(c as u32));
    }
}

proof fn encode_grows(text: Seq<char>, k: int)
    requires
        0 <= k <= text.len(),
    ensures
        encode_utf8(text.take(k)).len() <= encode_utf8(text).len(),
    decreases text.len() - k,
{
    if k < text.len() {
        encode_grows(text, k + 1);
        encode_push(text.take(k), text[k]);
        assert(text.take(k).push(text[k]) =~= text.take(k + 1));
    } else {
        assert(text.take(k) =~= text);
    }
}

proof fn truncated_by_index(text: Seq<char>, max_bytes: nat, k: int)
    requires
        0 <= k <= text.len(),
        encode_utf8(text.take(k)).len() <= max_bytes,
        k < text.len() ==> encode_utf8(text.take(k + 1)).len() > max_bytes,
    ensures
        truncated(text, max_bytes) == text.take(k),
    decreases text.len() - k,
{
    if k == text.len() {
        assert(text.take(k) =~= text);
    } else {
        encode_grows(text, k + 1);
        let rest = text.drop_last();
        assert(rest.take(k) =~= text.take(k));
        if k < rest.len() {
            assert(rest.take(k + 1) =~= text.take(k + 1));
        }
        truncated_by_index(rest, max_bytes, k);
    }
}

/// Truncates to at most `max_bytes` bytes on a character boundary.
pub fn truncate(text: &str, max_bytes: usize) -> (r: String)
    ensures
        r@ == truncated(text@, max_bytes as nat),
        encode_utf8(r@).len() <= max_bytes,
        r@.is_prefix_of(text@),
{
    let chars = chars_of(text);
    let mut out = String::new();
    let mut used: usize = 0;
    let mut i: usize = 0;
    assert(text@.take(0) =~= Seq::<char>::empty());
    while i < chars.len()
        invariant
            i <= chars@.len(),
            chars@ == text@,
            out@ == text@.take(i as int),
            used == encode_utf8(text@.take(i as int)).len(),
            used <= max_bytes,
        decreases chars@.len() - i,
    {
        let c = chars[i];
        let width: usize = utf8_width(c);
        proof {
            encode_push(text@.take(i as int), c);
            assert(text@.take(i as int).push(c) =~= text@.take(i + 1));
        }
        if width > max_bytes - used {
            proof {
                truncated_by_index(text@, max_bytes as nat, i as int);
            }
            return out;
        }
        out.push(c);
        used = used + width;
        i = i + 1;
    }
    proof {
        truncated_by_index(text@, max_bytes as nat, i as int);
    }
    out
}

/// The first `count` characters of `text`.
pub fn take_chars(text: &str, count: usize) -> (r: String)
    ensures
        r@ == leading(text@, count as nat),
{
    let chars = chars_of(text);
    if chars.len() <= count {
        text.to_owned()
    } else {
        string_of(&chars, 0, count)
    }
}

fn digit(d: u64) -> (r: char)
    requires
        d < 10,
    ensures
        r == digit_char(d as nat),
{
    ('0' as u8 + d as u8) as char
}

/// The decimal digits of `n`.
pub fn decimal(n: u64) -> (r: String)
    ensures
        r@ == decimal_text(n as nat),
    decreases n,
{
    if n < 10 {
        let mut out = String::new();
        out.push(digit(n));
        out
    } else {
        let mut out = decimal(n / 10);
        out.push(digit(n % 10));
        out
    }
}

/// `a` followed by `b`.
pub fn join(a: &str, b: &str) -> (r: String)
    ensures
        r@ == a@ + b@,
{
    let mut out = a.to_owned();
    out.append(b);
    out
}

/// White space is what Unicode says it is: these code points and no others.
pub proof fn white_space_is_what_unicode_says(c: char)
    ensures
        is_space(c) <==> seq![
            0x09u32, 0x0a, 0x0b, 0x0c, 0x0d, 0x20, 0x85, 0xa0, 0x1680, 0x2000, 0x2001, 0x2002,
            0x2003, 0x2004, 0x2005, 0x2006, 0x2007, 0x2008, 0x2009, 0x200a, 0x2028, 0x2029, 0x202f,
            0x205f, 0x3000,
        ].contains(c as u32),
{
    let spaces = seq![
        0x09u32, 0x0a, 0x0b, 0x0c, 0x0d, 0x20, 0x85, 0xa0, 0x1680, 0x2000, 0x2001, 0x2002, 0x2003,
        0x2004, 0x2005, 0x2006, 0x2007, 0x2008, 0x2009, 0x200a, 0x2028, 0x2029, 0x202f, 0x205f,
        0x3000,
    ];
    let code = c as u32;
    if is_space(c) {
        let at: int = if code <= 0x0d {
            code - 9
        } else if code == 0x20 {
            5
        } else if code == 0x85 {
            6
        } else if code == 0xa0 {
            7
        } else if code == 0x1680 {
            8
        } else if code <= 0x200a {
            9 + (code - 0x2000)
        } else if code == 0x2028 {
            20
        } else if code == 0x2029 {
            21
        } else if code == 0x202f {
            22
        } else if code == 0x205f {
            23
        } else {
            24
        };
        assert(spaces[at] == code);
    }
}

/// Trimming takes the white space off both ends and nothing else: whatever
/// stands between is what is left, however long it is.
pub proof fn trimming_leaves_what_stands_between(
    lead: Seq<char>,
    core: Seq<char>,
    tail: Seq<char>,
)
    requires
        forall|i: int| 0 <= i < lead.len() ==> is_space(#[trigger] lead[i]),
        forall|i: int| 0 <= i < tail.len() ==> is_space(#[trigger] tail[i]),
        core.len() > 0 ==> !is_space(core[0]) && !is_space(core.last()),
    ensures
        trimmed(lead + core + tail) == core,
        blank(lead + core + tail) <==> core.len() == 0,
{
    let all = lead + core + tail;
    if core.len() == 0 {
        assert forall|i: int| 0 <= i < all.len() implies is_space(#[trigger] all[i]) by {
            if i < lead.len() {
                assert(is_space(lead[i]));
            } else {
                assert(is_space(tail[i - lead.len()]));
            }
        }
        trimmed_is_empty_when_blank(all);
        assert(trimmed(all) =~= core);
    } else {
        assert forall|i: int| 0 <= i < lead.len() implies is_space(#[trigger] all[i]) by {
            assert(is_space(lead[i]));
        }
        assert(all[lead.len() as int] == core[0]);
        trim_left_by_index(all, lead.len() as int);
        let rest = all.subrange(lead.len() as int, all.len() as int);
        assert(rest =~= core + tail);
        assert forall|i: int| core.len() <= i < rest.len() implies is_space(#[trigger] rest[i]) by {
            assert(is_space(tail[i - core.len()]));
        }
        assert(rest[core.len() - 1] == core.last());
        trim_right_by_index(rest, core.len() as int);
        assert(rest.subrange(0, core.len() as int) =~= core);
        assert(!is_space(all[lead.len() as int]));
    }
}

/// Every text is some white space, what trimming leaves of it, and some more
/// white space.
pub proof fn every_text_is_trimmed(s: Seq<char>) -> (parts: (Seq<char>, Seq<char>))
    ensures
        s == parts.0 + trimmed(s) + parts.1,
        forall|i: int| 0 <= i < parts.0.len() ==> is_space(#[trigger] parts.0[i]),
        forall|i: int| 0 <= i < parts.1.len() ==> is_space(#[trigger] parts.1[i]),
        trimmed(s).len() > 0 ==> !is_space(trimmed(s)[0]) && !is_space(trimmed(s).last()),
    decreases s.len(),
{
    let nothing = Seq::<char>::empty();
    if s.len() == 0 {
        assert(s =~= nothing + trimmed(s) + nothing);
        (nothing, nothing)
    } else if is_space(s[0]) {
        let inner = every_text_is_trimmed(s.drop_first());
        let lead = seq![s[0]] + inner.0;
        assert(trimmed(s) == trimmed(s.drop_first()));
        assert(s =~= seq![s[0]] + s.drop_first());
        assert(lead + trimmed(s) + inner.1 =~= seq![s[0]] + (inner.0 + trimmed(s) + inner.1));
        (lead, inner.1)
    } else if is_space(s.last()) {
        let inner = every_text_is_trimmed(s.drop_last());
        assert(trim_left(s) == s);
        assert(s.drop_last()[0] == s[0]);
        assert(trimmed(s) == trimmed(s.drop_last()));
        let tail = inner.1.push(s.last());
        assert(s =~= s.drop_last().push(s.last()));
        assert(inner.0 + trimmed(s) + tail =~= (inner.0 + trimmed(s) + inner.1).push(s.last()));
        (inner.0, tail)
    } else {
        assert(s =~= nothing + trimmed(s) + nothing);
        (nothing, nothing)
    }
}

/// Making a text small moves the capital letters of ASCII 32 places on and
/// leaves every other character where it is.
pub proof fn lowering_moves_ascii_capitals_only(s: Seq<char>, i: int)
    requires
        0 <= i < s.len(),
    ensures
        lowered(s).len() == s.len(),
        65 <= s[i] as u32 <= 90 ==> lowered(s)[i] as u32 == s[i] as u32 + 32,
        !(65 <= s[i] as u32 <= 90) ==> lowered(s)[i] == s[i],
        lowered(lowered(s)) == lowered(s),
{
    assert(lowered(s)[i] == lower_char(s[i]));
    assert(lowered(lowered(s)) =~= lowered(s)) by {
        assert forall|k: int| 0 <= k < s.len() implies lowered(lowered(s))[k] == lowered(s)[k] by {
            assert(lowered(s)[k] == lower_char(s[k]));
            assert(lowered(lowered(s))[k] == lower_char(lowered(s)[k]));
        }
    }
}

/// Truncating keeps the longest prefix that fits: it fits, and no longer prefix
/// does.
pub proof fn truncation_keeps_the_longest_prefix_that_fits(
    text: Seq<char>,
    max_bytes: nat,
    longer: int,
)
    ensures
        truncated(text, max_bytes).is_prefix_of(text),
        encode_utf8(truncated(text, max_bytes)).len() <= max_bytes,
        truncated(text, max_bytes).len() < longer <= text.len() ==> encode_utf8(
            text.take(longer),
        ).len() > max_bytes,
        encode_utf8(text).len() <= max_bytes ==> truncated(text, max_bytes) == text,
    decreases text.len(),
{
    if text.len() > 0 && encode_utf8(text).len() > max_bytes {
        let rest = text.drop_last();
        truncation_keeps_the_longest_prefix_that_fits(rest, max_bytes, longer);
        if longer <= rest.len() && longer >= 0 {
            assert(rest.take(longer) =~= text.take(longer));
        } else if longer == text.len() {
            assert(text.take(longer) =~= text);
        }
    } else if text.len() == 0 {
        reveal_with_fuel(encode_utf8, 1);
    }
}

/// The leading characters are as many as are asked for, or as there are, and
/// are those that the text starts with.
pub proof fn leading_characters_start_the_text(text: Seq<char>, count: nat, i: int)
    ensures
        text.len() <= count ==> leading(text, count) == text,
        text.len() >= count ==> leading(text, count).len() == count,
        0 <= i < text.len() && i < count ==> leading(text, count)[i] == text[i],
{
}

/// The number that some decimal digits stand for.
pub open spec fn number_of(digits: Seq<char>) -> int
    decreases digits.len(),
{
    if digits.len() == 0 {
        0
    } else {
        10 * number_of(digits.drop_last()) + (digits.last() as u32 - '0' as u32)
    }
}

/// The decimal text of a number is made of digits, stands for that number, and
/// starts with no superfluous zero.
pub proof fn decimal_text_reads_back(n: nat)
    ensures
        number_of(decimal_text(n)) == n,
        forall|i: int|
            0 <= i < decimal_text(n).len() ==> '0' <= (#[trigger] decimal_text(n)[i]) <= '9',
        decimal_text(n).len() > 0,
        n > 0 ==> decimal_text(n)[0] != '0',
    decreases n,
{
    reveal_with_fuel(number_of, 2);
    if n < 10 {
        assert(decimal_text(n).drop_last() =~= Seq::<char>::empty());
    } else {
        decimal_text_reads_back(n / 10);
        let front = decimal_text(n / 10);
        let all = decimal_text(n);
        assert(all.drop_last() =~= front);
        assert(all.last() == digit_char(n % 10));
        assert forall|i: int| 0 <= i < all.len() implies '0' <= (#[trigger] all[i]) <= '9' by {
            if i < front.len() {
                assert(all[i] == front[i]);
            }
        }
        assert(all[0] == front[0]);
    }
}

/// Stripping takes a character off one end as often as it stands there, and
/// leaves the rest.
pub proof fn stripping_leaves_the_rest(core: Seq<char>, c: char, times: nat)
    ensures
        core.len() == 0 || core[0] != c ==> strip_left(
            Seq::new(times, |i: int| c) + core,
            c,
        ) == core,
        core.len() == 0 || core.last() != c ==> strip_right(
            core + Seq::new(times, |i: int| c),
            c,
        ) == core,
{
    let ones = Seq::new(times, |i: int| c);
    if core.len() == 0 || core[0] != c {
        let all = ones + core;
        assert forall|i: int| 0 <= i < times implies #[trigger] all[i] == c by {
            assert(ones[i] == c);
        }
        if core.len() > 0 {
            assert(all[times as int] == core[0]);
        }
        strip_left_by_index(all, c, times as int);
        assert(all.subrange(times as int, all.len() as int) =~= core);
    }
    if core.len() == 0 || core.last() != c {
        let all = core + ones;
        assert forall|i: int| core.len() <= i < all.len() implies #[trigger] all[i] == c by {
            assert(ones[i - core.len()] == c);
        }
        if core.len() > 0 {
            assert(all[core.len() - 1] == core.last());
        }
        strip_right_by_index(all, c, core.len() as int);
        assert(all.subrange(0, core.len() as int) =~= core);
    }
}

} // verus!
