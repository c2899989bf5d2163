//! Text primitives over `str` and `String`, stated on sequences of characters.

use vstd::prelude::*;
use vstd::string::*;

verus! {

/// `String::push` appends one character to the end of the string.
pub assume_specification[ String::push ](s: &mut String, c: char)
    ensures
        final(s)@ == old(s)@.push(c),
;

/// The characters of `s`, in order.
pub fn chars_of(s: &str) -> (r: Vec<char>)
    ensures
        r@ == s@,
{
    let mut out: Vec<char> = Vec::new();
    for c in it: s.chars()
        invariant
            out@ == it.seq().take(it.index() as int),
            it.seq() == s@,
    {
        out.push(c);
    }
    out
}

/// The string made of `chars[from..to]`.
pub fn string_of(chars: &Vec<char>, from: usize, to: usize) -> (r: String)
    requires
        from <= to <= chars@.len(),
    ensures
        r@ == chars@.subrange(from as int, to as int),
{
    let mut out = String::new();
    let mut i: usize = from;
    while i < to
        invariant
            from <= i <= to <= chars@.len(),
            out@ == chars@.subrange(from as int, i as int),
        decreases to - i,
    {
        out.push(chars[i]);
        i = i + 1;
    }
    out
}

/// Whether two strings hold the same characters.
pub fn str_eq(a: &str, b: &str) -> (r: bool)
    ensures
        r == (a@ == b@),
{
    let x = chars_of(a);
    let y = chars_of(b);
    if x.len() != y.len() {
        return false;
    }
    let mut i: usize = 0;
    while i < x.len()
        invariant
            i <= x@.len(),
            x@ == a@,
            y@ == b@,
            x@.len() == y@.len(),
            forall|j: int| 0 <= j < i ==> x@[j] == y@[j],
        decreases x@.len() - i,
    {
        if x[i] != y[i] {
            return false;
        }
        i = i + 1;
    }
    assert(x@ =~= y@);
    true
}

/// ASCII lower case of one character; every other character is itself.
pub open spec fn lower_char(c: char) -> char {
    if 'A' <= c <= 'Z' {
        (c as u8 + 32) as char
    } else {
        c
    }
}

/// ASCII lower case of every character.
pub open spec fn lower(s: Seq<char>) -> Seq<char> {
    s.map_values(|c: char| lower_char(c))
}

/// `s` with its ASCII letters in lower case.
pub fn to_ascii_lowercase(s: &str) -> (r: String)
    ensures
        r@ == lower(s@),
{
    let chars = chars_of(s);
    let mut out = String::new();
    let mut i: usize = 0;
    while i < chars.len()
        invariant
            i <= chars@.len(),
            chars@ == s@,
            out@ == lower(s@.take(i as int)),
        decreases chars@.len() - i,
    {
        let c = chars[i];
        if c >= 'A' && c <= 'Z' {
            out.push((c as u8 + 32u8) as char);
        } else {
            out.push(c);
        }
        i = i + 1;
        assert(out@ =~= lower(s@.take(i as int)));
    }
    assert(s@.take(i as int) =~= s@);
    out
}


/// `needle` stands in `hay` at position `i`.
pub open spec fn occurs_at(hay: Seq<char>, needle: Seq<char>, i: int) -> bool {
    &&& 0 <= i
    &&& i + needle.len() <= hay.len()
    &&& hay.subrange(i, i + needle.len()) == needle
}

/// `needle` stands somewhere in `hay`.
pub open spec fn has_part(hay: Seq<char>, needle: Seq<char>) -> bool {
    exists|i: int| occurs_at(hay, needle, i)
}

/// `s` begins with `prefix`.
pub open spec fn has_prefix(s: Seq<char>, prefix: Seq<char>) -> bool {
    occurs_at(s, prefix, 0)
}

/// `s` ends with `suffix`.
pub open spec fn has_suffix(s: Seq<char>, suffix: Seq<char>) -> bool {
    occurs_at(s, suffix, s.len() - suffix.len())
}

fn matches_at(hay: &Vec<char>, needle: &Vec<char>, i: usize) -> (r: bool)
    requires
        i <= hay@.len(),
    ensures
        r == occurs_at(hay@, needle@, i as int),
{
    if needle.len() > hay.len() - i {
        return false;
    }
    let mut k: usize = 0;
    while k < needle.len()
        invariant
            k <= needle@.len(),
            i + needle@.len() <= hay.len(),
            forall|j: int| 0 <= j < k ==> hay@[i + j] == needle@[j],
        decreases needle@.len() - k,
    {
        if hay[i + k] != needle[k] {
            assert(hay@.subrange(i as int, i + needle@.len())[k as int] != needle@[k as int]);
            return false;
        }
        k = k + 1;
    }
    assert(hay@.subrange(i as int, i + needle@.len()) =~= needle@);
    true
}

/// Whether `needle` stands somewhere in `hay`.
pub fn str_contains(hay: &str, needle: &str) -> (r: bool)
    ensures
        r == has_part(hay@, needle@),
{
    let h = chars_of(hay);
    let n = chars_of(needle);
    let mut i: usize = 0;
    while i < h.len()
        invariant
            i <= h@.len(),
            h@ == hay@,
            n@ == needle@,
            forall|j: int| 0 <= j < i ==> !occurs_at(hay@, needle@, j),
        decreases h@.len() - i,
    {
        if matches_at(&h, &n, i) {
            return true;
        }
        i = i + 1;
    }
    let last = matches_at(&h, &n, i);
    assert(last == has_part(hay@, needle@));
    last
}

/// Whether `s` begins with `prefix`.
pub fn str_starts_with(s: &str, prefix: &str) -> (r: bool)
    ensures
        r == has_prefix(s@, prefix@),
{
    matches_at(&chars_of(s), &chars_of(prefix), 0)
}

/// What is left of `s` between `prefix` and `suffix`, where it begins with the one and what
/// follows ends with the other.
pub open spec fn between(s: Seq<char>, prefix: Seq<char>, suffix: Seq<char>) -> Option<Seq<char>> {
    let rest = s.skip(prefix.len() as int);
    if has_prefix(s, prefix) && has_suffix(rest, suffix) {
        Some(rest.take(rest.len() - suffix.len()))
    } else {
        None
    }
}

/// Strips `prefix` from the front of `s` and then `suffix` from the end of the rest.
pub fn strip_between(s: &str, prefix: &str, suffix: &str) -> (r: Option<Vec<char>>)
    ensures
        r is Some <==> between(s@, prefix@, suffix@) is Some,
        r matches Some(v) ==> v@ == between(s@, prefix@, suffix@)->0,
{
    let chars = chars_of(s);
    let pre = chars_of(prefix);
    let suf = chars_of(suffix);
    if !matches_at(&chars, &pre, 0) {
        return None;
    }
    let mut rest: Vec<char> = Vec::new();
    let mut i: usize = pre.len();
    while i < chars.len()
        invariant
            pre@.len() <= i <= chars@.len(),
            rest@ == chars@.subrange(pre@.len() as int, i as int),
        decreases chars@.len() - i,
    {
        rest.push(chars[i]);
        i = i + 1;
    }
    assert(rest@ =~= s@.skip(prefix@.len() as int));
    if suf.len() > rest.len() {
        return None;
    }
    let cut = rest.len() - suf.len();
    if !matches_at(&rest, &suf, cut) {
        return None;
    }
    rest.truncate(cut);
    Some(rest)
}

/// `c` has the Unicode property White_Space.
pub open spec fn is_white_space(c: char) -> bool {
    ||| '\u{9}' <= c <= '\u{d}'
    ||| c == ' '
    ||| c == '\u{85}'
    ||| c == '\u{a0}'
    ||| c == '\u{1680}'
    ||| '\u{2000}' <= c <= '\u{200a}'
    ||| c == '\u{2028}'
    ||| c == '\u{2029}'
    ||| c == '\u{202f}'
    ||| c == '\u{205f}'
    ||| c == '\u{3000}'
}

/// Whether `c` has the Unicode property White_Space.
pub fn char_is_whitespace(c: char) -> (r: bool)
    ensures
        r == is_white_space(c),
{
    ('\u{9}' <= c && c <= '\u{d}') || c == ' ' || c == '\u{85}' || c == '\u{a0}' || c == '\u{1680}'
        || ('\u{2000}' <= c && c <= '\u{200a}') || c == '\u{2028}' || c == '\u{2029}' || c
        == '\u{202f}' || c == '\u{205f}' || c == '\u{3000}'
}

/// `s` in upper case, by the Unicode property Uppercase.
pub uninterp spec fn uppercase(s: Seq<char>) -> Seq<char>;

/// `str::to_uppercase`: the upper case of a string, which depends on its characters alone.
#[verifier::external_body]
pub(crate) fn to_uppercase(s: &str) -> (r: String)
    ensures
        r@ == uppercase(s@),
{
    s.to_uppercase()
}

/// `s` without its leading white space.
pub open spec fn trimmed_start(s: Seq<char>) -> Seq<char>
    decreases s.len(),
{
    if s.len() > 0 && is_white_space(s[0]) {
        trimmed_start(s.skip(1))
    } else {
        s
    }
}

/// `s` without its trailing white space.
pub open spec fn trimmed_end(s: Seq<char>) -> Seq<char>
    decreases s.len(),
{
    if s.len() > 0 && is_white_space(s.last()) {
        trimmed_end(s.drop_last())
    } else {
        s
    }
}

/// `s` without leading and trailing white space.
pub open spec fn trimmed(s: Seq<char>) -> Seq<char> {
    trimmed_end(trimmed_start(s))
}

/// `s` without leading and trailing white space.
pub fn trim(s: &str) -> (r: String)
    ensures
        r@ == trimmed(s@),
{
    let chars = chars_of(s);
    let mut from: usize = 0;
    assert(s@.skip(0) =~= s@);
    while from < chars.len() && char_is_whitespace(chars[from])
        invariant
            from <= chars@.len(),
            chars@ == s@,
            trimmed_start(s@) == trimmed_start(s@.skip(from as int)),
        decreases chars@.len() - from,
    {
        assert(s@.skip(from as int).skip(1) =~= s@.skip(from + 1));
        from = from + 1;
    }
    let ghost rest = s@.skip(from as int);
    assert(trimmed_start(s@) == rest);
    let mut to: usize = chars.len();
    assert(s@.subrange(from as int, to as int) =~= rest);
    while from < to && char_is_whitespace(chars[to - 1])
        invariant
            from <= to <= chars@.len(),
            chars@ == s@,
            trimmed_end(rest) == trimmed_end(s@.subrange(from as int, to as int)),
        decreases to - from,
    {
        assert(s@.subrange(from as int, to as int).drop_last() =~= s@.subrange(
            from as int,
            to - 1,
        ));
        to = to - 1;
    }
    string_of(&chars, from, to)
}

/// `s` without the trailing run of `c`.
pub open spec fn without_trailing(s: Seq<char>, c: char) -> Seq<char>
    decreases s.len(),
{
    if s.len() > 0 && s.last() == c {
        without_trailing(s.drop_last(), c)
    } else {
        s
    }
}

/// `s` without the trailing run of `c`.
pub fn trim_end_char(s: &str, c: char) -> (r: String)
    ensures
        r@ == without_trailing(s@, c),
{
    let chars = chars_of(s);
    let mut to: usize = chars.len();
    assert(s@.take(to as int) =~= s@);
    while 0 < to && chars[to - 1] == c
        invariant
            to <= chars@.len(),
            chars@ == s@,
            without_trailing(s@, c) == without_trailing(s@.take(to as int), c),
        decreases to,
    {
        assert(s@.take(to as int).drop_last() =~= s@.take(to - 1));
        to = to - 1;
    }
    let r = string_of(&chars, 0, to);
    assert(r@ =~= s@.take(to as int));
    r
}

/// The first `n` characters of `s`, or all of them where there are fewer.
pub open spec fn head(s: Seq<char>, n: nat) -> Seq<char> {
    if n < s.len() {
        s.take(n as int)
    } else {
        s
    }
}

/// The first `n` characters of `s`, or all of them where there are fewer.
pub fn take_chars(s: &str, n: usize) -> (r: String)
    ensures
        r@ == head(s@, n as nat),
{
    let chars = chars_of(s);
    let to: usize = if n < chars.len() {
        n
    } else {
        chars.len()
    };
    let r = string_of(&chars, 0, to);
    assert(r@ =~= head(s@, n as nat));
    r
}

/// The characters of an optional string.
pub open spec fn opt(s: Option<String>) -> Option<Seq<char>> {
    match s {
        Some(s) => Some(s@),
        None => None,
    }
}

/// The text, or the empty one.
pub open spec fn or_empty(s: Option<Seq<char>>) -> Seq<char> {
    match s {
        Some(s) => s,
        None => Seq::empty(),
    }
}

/// Whether there is a text and it is `lit`.
pub fn opt_is(s: &Option<String>, lit: &str) -> (r: bool)
    ensures
        r == (opt(*s) == Some(lit@)),
{
    match s {
        Some(s) => str_eq(s.as_str(), lit),
        None => false,
    }
}

/// The characters of each string of a list.
pub open spec fn views(parts: Seq<String>) -> Seq<Seq<char>> {
    parts.map_values(|s: String| s@)
}

/// A copy of an optional string.
pub fn clone_opt(s: &Option<String>) -> (r: Option<String>)
    ensures
        opt(r) == opt(*s),
{
    match s {
        Some(s) => Some(s.clone()),
        None => None,
    }
}

/// A copy of a list of strings.
pub fn clone_strings(parts: &Vec<String>) -> (r: Vec<String>)
    ensures
        views(r@) == views(parts@),
{
    let mut out: Vec<String> = Vec::new();
    let mut i: usize = 0;
    while i < parts.len()
        invariant
            i <= parts@.len(),
            out@.len() == i,
            forall|k: int| 0 <= k < i ==> (#[trigger] out@[k])@ == parts@[k]@,
        decreases parts@.len() - i,
    {
        out.push(parts[i].clone());
        i = i + 1;
    }
    assert(views(out@) =~= views(parts@));
    out
}

/// The parts with `sep` between each two of them.
pub open spec fn joined(parts: Seq<Seq<char>>, sep: Seq<char>) -> Seq<char>
    decreases parts.len(),
{
    if parts.len() == 0 {
        Seq::empty()
    } else if parts.len() == 1 {
        parts[0]
    } else {
        joined(parts.drop_last(), sep) + sep + parts.last()
    }
}

/// The strings with `sep` between each two of them.
pub fn join(parts: &Vec<String>, sep: &str) -> (r: String)
    ensures
        r@ == joined(views(parts@), sep@),
{
    let mut out = String::new();
    let mut i: usize = 0;
    assert(views(parts@).take(0) =~= Seq::<Seq<char>>::empty());
    while i < parts.len()
        invariant
            i <= parts@.len(),
            out@ == joined(views(parts@).take(i as int), sep@),
        decreases parts@.len() - i,
    {
        let ghost all = views(parts@);
        assert(all.take(i + 1).drop_last() =~= all.take(i as int));
        assert(all.take(i + 1).last() == parts@[i as int]@);
        if i > 0 {
            out.append(sep);
        }
        out.append(parts[i].as_str());
        i = i + 1;
        assert(out@ =~= joined(all.take(i as int), sep@));
    }
    assert(views(parts@).take(i as int) =~= views(parts@));
    out
}

/// The decimal digit `d`.
pub open spec fn digit(d: int) -> char {
    (48 + d) as u8 as char
}

/// `n` written in decimal, without leading zeros.
pub open spec fn decimal(n: int) -> Seq<char>
    decreases n,
{
    if n < 10 {
        seq![digit(n)]
    } else {
        decimal(n / 10).push(digit(n % 10))
    }
}

/// `n` written in decimal.
pub fn to_decimal(n: u64) -> (r: String)
    ensures
        r@ == decimal(n as int),
    decreases n,
{
    if n < 10 {
        let mut out = String::new();
        out.push((48u8 + n as u8) as char);
        assert(out@ =~= decimal(n as int));
        out
    } else {
        let mut out = to_decimal(n / 10);
        out.push((48u8 + (n % 10) as u8) as char);
        out
    }
}

/// `n` copies of `c`.
pub open spec fn copies(c: char, n: int) -> Seq<char> {
    Seq::new(n as nat, |i: int| c)
}

/// `s` behind enough spaces to be `width` characters long.
pub open spec fn right_aligned(s: Seq<char>, width: nat) -> Seq<char> {
    if s.len() < width {
        copies(' ', width - s.len()) + s
    } else {
        s
    }
}

/// Appends `n` copies of `c`.
pub fn push_copies(out: &mut String, c: char, n: usize)
    ensures
        final(out)@ == old(out)@ + copies(c, n as int),
{
    let ghost before = out@;
    let mut i: usize = 0;
    while i < n
        invariant
            i <= n,
            out@ =~= before + copies(c, i as int),
        decreases n - i,
    {
        out.push(c);
        i = i + 1;
    }
}

/// `s` behind enough spaces to be `width` characters long.
pub fn align_right(s: &str, width: usize) -> (r: String)
    ensures
        r@ == right_aligned(s@, width as nat),
{
    let len = s.unicode_len();
    let mut out = String::new();
    if len < width {
        push_copies(&mut out, ' ', width - len);
    }
    out.append(s);
    assert(out@ =~= right_aligned(s@, width as nat));
    out
}

/// Every character of `s` is an ASCII digit.
pub open spec fn all_digits(s: Seq<char>) -> bool {
    forall|i: int| 0 <= i < s.len() ==> '0' <= #[trigger] s[i] <= '9'
}

/// Whether every character is an ASCII digit.
pub fn only_digits(chars: &Vec<char>) -> (r: bool)
    ensures
        r == all_digits(chars@),
{
    let mut i: usize = 0;
    while i < chars.len()
        invariant
            i <= chars@.len(),
            forall|j: int| 0 <= j < i ==> '0' <= #[trigger] chars@[j] <= '9',
        decreases chars@.len() - i,
    {
        if chars[i] < '0' || chars[i] > '9' {
            return false;
        }
        i = i + 1;
    }
    true
}

/// `s` before enough spaces to be `width` characters long.
pub open spec fn left_aligned(s: Seq<char>, width: nat) -> Seq<char> {
    if s.len() < width {
        s + copies(' ', width - s.len())
    } else {
        s
    }
}

/// `s` before enough spaces to be `width` characters long.
pub fn align_left(s: &str, width: usize) -> (r: String)
    ensures
        r@ == left_aligned(s@, width as nat),
{
    let len = s.unicode_len();
    let mut out = s.to_owned();
    if len < width {
        push_copies(&mut out, ' ', width - len);
    }
    out
}

/// The number that a run of decimal digits stands for.
pub open spec fn number_of(s: Seq<char>) -> int
    decreases s.len(),
{
    if s.len() == 0 {
        0
    } else {
        10 * number_of(s.drop_last()) + (s.last() as int - '0' as int)
    }
}

/// A number reads back as it was written in decimal.
pub proof fn law_decimal_reads_back(n: int)
    requires
        n >= 0,
    ensures
        all_digits(decimal(n)),
        decimal(n).len() > 0,
        number_of(decimal(n)) == n,
    decreases n,
{
    if n < 10 {
        assert(decimal(n).drop_last() =~= Seq::<char>::empty());
        assert(number_of(decimal(n).drop_last()) == 0);
    } else {
        law_decimal_reads_back(n / 10);
        assert(decimal(n).drop_last() =~= decimal(n / 10));
    }
}

/// A number is written without leading zeros.
pub proof fn law_decimal_has_no_leading_zero(n: int)
    requires
        n > 0,
    ensures
        decimal(n)[0] != '0',
    decreases n,
{
    if n >= 10 {
        law_decimal_has_no_leading_zero(n / 10);
        law_decimal_reads_back(n / 10);
    }
}

/// A text that is there is taken as it is; one that is not there is empty.
pub proof fn law_a_text_is_itself_or_empty(s: Seq<char>)
    ensures
        or_empty(Some(s)) == s,
        or_empty(None).len() == 0,
{
}

/// Lower case changes the ASCII capitals alone, each into its small letter.
pub proof fn law_lower_changes_capitals_alone(s: Seq<char>, i: int)
    requires
        0 <= i < s.len(),
    ensures
        lower(s).len() == s.len(),
        'A' <= s[i] <= 'Z' ==> lower(s)[i] as int == s[i] as int + 32,
        !('A' <= s[i] <= 'Z') ==> lower(s)[i] == s[i],
{
}

/// A part of a text is what is left of it between some front and some rest.
pub proof fn law_a_part_has_a_front_and_a_rest(hay: Seq<char>, needle: Seq<char>)
    ensures
        has_part(hay, needle) <==> exists|front: Seq<char>, rest: Seq<char>|
            hay == #[trigger] (front + needle + rest),
{
    if has_part(hay, needle) {
        let i = choose|i: int| occurs_at(hay, needle, i);
        assert(hay =~= hay.take(i) + needle + hay.skip(i + needle.len()));
    }
    if exists|front: Seq<char>, rest: Seq<char>| hay == #[trigger] (front + needle + rest) {
        let (front, rest) = choose|front: Seq<char>, rest: Seq<char>|
            hay == #[trigger] (front + needle + rest);
        assert(hay.subrange(front.len() as int, (front.len() + needle.len()) as int) =~= needle);
        assert(occurs_at(hay, needle, front.len() as int));
    }
}

/// A text begins with a prefix where the prefix and some rest make it up.
pub proof fn law_a_prefix_has_a_rest(s: Seq<char>, prefix: Seq<char>)
    ensures
        has_prefix(s, prefix) <==> exists|rest: Seq<char>| s == #[trigger] (prefix + rest),
{
    if has_prefix(s, prefix) {
        assert(s =~= prefix + s.skip(prefix.len() as int));
    }
    if exists|rest: Seq<char>| s == #[trigger] (prefix + rest) {
        let rest = choose|rest: Seq<char>| s == #[trigger] (prefix + rest);
        assert(s.subrange(0, prefix.len() as int) =~= prefix);
    }
}

/// What stands between a prefix and a suffix is what the two leave of the text.
pub proof fn law_what_stands_between(
    s: Seq<char>,
    prefix: Seq<char>,
    suffix: Seq<char>,
    middle: Seq<char>,
)
    ensures
        between(s, prefix, suffix) == Some(middle) <==> s == prefix + middle + suffix,
{
    let rest = s.skip(prefix.len() as int);
    if between(s, prefix, suffix) == Some(middle) {
        let cut = rest.len() - suffix.len();
        assert(s =~= prefix + rest);
        assert(rest =~= rest.take(cut) + rest.subrange(cut, rest.len() as int));
        assert(s =~= prefix + middle + suffix);
    }
    if s == prefix + middle + suffix {
        assert(s.subrange(0, prefix.len() as int) =~= prefix);
        assert(rest =~= middle + suffix);
        assert(rest.subrange(middle.len() as int, rest.len() as int) =~= suffix);
        assert(rest.take(middle.len() as int) =~= middle);
    }
}

/// Every character is white space.
pub open spec fn blank(s: Seq<char>) -> bool {
    forall|i: int| 0 <= i < s.len() ==> is_white_space(#[trigger] s[i])
}

proof fn lemma_trimmed_start(s: Seq<char>) -> (front: Seq<char>)
    ensures
        s == front + trimmed_start(s),
        blank(front),
        trimmed_start(s).len() > 0 ==> !is_white_space(trimmed_start(s)[0]),
    decreases s.len(),
{
    if s.len() > 0 && is_white_space(s[0]) {
        let more = lemma_trimmed_start(s.skip(1));
        let front = seq![s[0]] + more;
        assert(s =~= seq![s[0]] + s.skip(1));
        assert(s =~= front + trimmed_start(s));
        front
    } else {
        assert(s =~= Seq::<char>::empty() + s);
        Seq::empty()
    }
}

proof fn lemma_trimmed_end(s: Seq<char>) -> (rest: Seq<char>)
    ensures
        s == trimmed_end(s) + rest,
        blank(rest),
        trimmed_end(s).len() > 0 ==> !is_white_space(trimmed_end(s).last()),
    decreases s.len(),
{
    if s.len() > 0 && is_white_space(s.last()) {
        let more = lemma_trimmed_end(s.drop_last());
        let rest = more.push(s.last());
        assert(s =~= s.drop_last().push(s.last()));
        assert(s =~= trimmed_end(s) + rest);
        rest
    } else {
        assert(s =~= s + Seq::<char>::empty());
        Seq::empty()
    }
}

/// Trimming takes white space alone, and all that stands at either end.
pub proof fn law_trimming_takes_the_blank_ends(s: Seq<char>)
    ensures
        exists|front: Seq<char>, rest: Seq<char>|
            s == #[trigger] (front + trimmed(s) + rest) && blank(front) && blank(rest),
        trimmed(s).len() > 0 ==> !is_white_space(trimmed(s)[0]) && !is_white_space(
            trimmed(s).last(),
        ),
        trimmed(s).len() == 0 <==> blank(s),
{
    let front = lemma_trimmed_start(s);
    let mid = trimmed_start(s);
    let rest = lemma_trimmed_end(mid);
    assert(s =~= front + trimmed(s) + rest);
    if trimmed(s).len() > 0 {
        assert(trimmed(s)[0] == mid[0]);
        assert(s[front.len() as int] == mid[0]);
    } else {
        assert(s =~= front + rest);
    }
}

/// Only the character that is to go goes, from the end, and all of it.
pub proof fn law_the_trailing_run_goes(s: Seq<char>, c: char)
    ensures
        ({
            let kept = without_trailing(s, c);
            &&& kept.len() <= s.len()
            &&& kept == s.take(kept.len() as int)
            &&& kept.len() > 0 ==> kept.last() != c
            &&& forall|i: int| kept.len() <= i < s.len() ==> #[trigger] s[i] == c
        }),
    decreases s.len(),
{
    if s.len() > 0 && s.last() == c {
        let front = s.drop_last();
        law_the_trailing_run_goes(front, c);
        let kept = without_trailing(s, c);
        assert(kept =~= s.take(kept.len() as int));
        assert forall|i: int| kept.len() <= i < s.len() implies #[trigger] s[i] == c by {
            if i < front.len() {
                assert(front[i] == s[i]);
            }
        }
    } else {
        assert(s =~= s.take(s.len() as int));
    }
}

/// The head of a text is its first characters, as many as there are up to the limit.
pub proof fn law_the_head_is_the_first_characters(s: Seq<char>, n: nat)
    ensures
        head(s, n) == s.take(vstd::math::min(n as int, s.len() as int)),
{
    assert(s.take(s.len() as int) =~= s);
}

/// Joined parts stand as they are, with the separator between each two neighbours and nowhere
/// else.
pub proof fn law_the_separator_stands_between(
    a: Seq<Seq<char>>,
    b: Seq<Seq<char>>,
    part: Seq<char>,
    sep: Seq<char>,
)
    requires
        a.len() > 0,
        b.len() > 0,
    ensures
        joined(Seq::empty(), sep).len() == 0,
        joined(seq![part], sep) == part,
        joined(a + b, sep) == joined(a, sep) + sep + joined(b, sep),
    decreases b.len(),
{
    assert((a + b).drop_last() =~= a + b.drop_last());
    assert((a + b).last() == b.last());
    if b.len() == 1 {
        assert(a + b.drop_last() =~= a);
        assert(joined(a + b, sep) =~= joined(a, sep) + sep + joined(b, sep));
    } else {
        law_the_separator_stands_between(a, b.drop_last(), part, sep);
        assert(joined(a + b, sep) =~= joined(a, sep) + sep + joined(b, sep));
    }
}

/// Alignment adds spaces alone, on the one side, up to the width, and cuts nothing.
pub proof fn law_alignment_adds_spaces_alone(s: Seq<char>, width: nat)
    ensures
        ({
            let missing = vstd::math::max(width - s.len(), 0);
            let spaces = Seq::new(missing as nat, |i: int| ' ');
            &&& right_aligned(s, width) == spaces + s
            &&& left_aligned(s, width) == s + spaces
        }),
{
    let missing = vstd::math::max(width - s.len(), 0);
    let spaces = Seq::new(missing as nat, |i: int| ' ');
    assert(right_aligned(s, width) =~= spaces + s);
    assert(left_aligned(s, width) =~= s + spaces);
}

/// Optional and listed strings stand for their characters, one for one.
pub proof fn law_strings_stand_for_their_characters(s: String, parts: Seq<String>)
    ensures
        opt(Some(s)) == Some(s@),
        opt(None) is None,
        views(parts).len() == parts.len(),
        forall|i: int| 0 <= i < parts.len() ==> #[trigger] views(parts)[i] == parts[i]@,
{
}

/// A digit more makes ten times the number, and that digit.
pub proof fn law_digits_count_in_tens(s: Seq<char>, c: char)
    ensures
        number_of(s.push(c)) == 10 * number_of(s) + (c as int - '0' as int),
        number_of(Seq::empty()) == 0,
{
    assert(s.push(c).drop_last() =~= s);
}

/// Copies are as many as asked for, of the one character.
pub proof fn law_copies_are_of_one_character(c: char, n: nat)
    ensures
        copies(c, n as int).len() == n,
        forall|i: int| 0 <= i < n ==> #[trigger] copies(c, n as int)[i] == c,
{
}

/// A text is all digits where each of its characters is one of the ten.
pub proof fn law_digits_are_the_ten(s: Seq<char>, c: char)
    ensures
        all_digits(Seq::empty()),
        all_digits(s.push(c)) <==> all_digits(s) && 48 <= c as int <= 57,
        forall|d: int| 0 <= d < 10 ==> (#[trigger] digit(d)) as int == 48 + d,
{
    if all_digits(s.push(c)) {
        assert(s.push(c)[s.len() as int] == c);
        assert forall|i: int| 0 <= i < s.len() implies '0' <= #[trigger] s[i] <= '9' by {
            assert(s.push(c)[i] == s[i]);
        }
    }
}

}
