//! Character-level text handling shared by the parsers: whitespace trimming,
//! splitting on a separator, prefixes and suffixes, and decimal numbers.
//!
//! Text is modelled as `Seq<char>`, the view of `str` and `String`. Each
//! executable function here is stated against the spec function of the same
//! name, and those spec functions say what `str::trim`, `str::split`,
//! `str::ends_with`, `u32::from_str` and `u32::to_string` do.
use vstd::prelude::*;

verus! {

/// `char::is_whitespace`: the characters with the Unicode `White_Space`
/// property.
pub open spec fn is_white_space(c: char) -> bool {
    let u = c as u32;
    ||| 0x09 <= u && u <= 0x0D
    ||| u == 0x20
    ||| u == 0x85
    ||| u == 0xA0
    ||| u == 0x1680
    ||| 0x2000 <= u && u <= 0x200A
    ||| u == 0x2028
    ||| u == 0x2029
    ||| u == 0x202F
    ||| u == 0x205F
    ||| u == 0x3000
}

/// `str::trim_start`.
pub open spec fn trim_start(s: Seq<char>) -> Seq<char>
    decreases s.len(),
{
    if s.len() > 0 && is_white_space(s[0]) {
        trim_start(s.drop_first())
    } else {
        s
    }
}

/// `str::trim_end`.
pub open spec fn trim_end(s: Seq<char>) -> Seq<char>
    decreases s.len(),
{
    if s.len() > 0 && is_white_space(s.last()) {
        trim_end(s.drop_last())
    } else {
        s
    }
}

/// `str::trim`: whitespace removed from both ends.
pub open spec fn trim(s: Seq<char>) -> Seq<char> {
    trim_end(trim_start(s))
}

/// `str::starts_with` for a text prefix.
pub open spec fn starts_with(s: Seq<char>, prefix: Seq<char>) -> bool {
    prefix.len() <= s.len() && s.take(prefix.len() as int) == prefix
}

/// `str::ends_with` for a text suffix.
pub open spec fn ends_with(s: Seq<char>, suffix: Seq<char>) -> bool {
    suffix.len() <= s.len() && s.skip(s.len() - suffix.len()) == suffix
}

/// `str::split` on one separator character: the pieces between separators,
/// empty ones included, so there is always at least one.
pub open spec fn split(s: Seq<char>, sep: char) -> Seq<Seq<char>>
    decreases s.len(),
{
    if s.len() == 0 {
        seq![Seq::empty()]
    } else {
        let rest = split(s.drop_last(), sep);
        if s.last() == sep {
            rest.push(Seq::empty())
        } else {
            rest.update(rest.len() - 1, rest.last().push(s.last()))
        }
    }
}

/// One line of `str::lines` without its line ending: a `\r` just before the
/// `\n` goes with it.
pub open spec fn strip_cr(p: Seq<char>) -> Seq<char> {
    if p.len() > 0 && p.last() == '\r' {
        p.drop_last()
    } else {
        p
    }
}

/// `str::lines`: the text split at `\n` (or `\r\n`); a final line ending
/// does not start an empty last line, and an empty text has no lines.
pub open spec fn lines(s: Seq<char>) -> Seq<Seq<char>> {
    let pieces = split(s, '\n');
    let body = pieces.drop_last().map_values(|p: Seq<char>| strip_cr(p));
    if pieces.last().len() == 0 {
        body
    } else {
        body.push(pieces.last())
    }
}

/// Where the last `.` of a file name is.
pub open spec fn last_dot(name: Seq<char>) -> Option<int>
    decreases name.len(),
{
    if name.len() == 0 {
        None
    } else if name.last() == '.' {
        Some(name.len() - 1)
    } else {
        last_dot(name.drop_last())
    }
}

pub proof fn lemma_last_dot(name: Seq<char>)
    ensures
        last_dot(name) matches Some(i) ==> 0 <= i < name.len() && name[i] == '.',
    decreases name.len(),
{
    if name.len() > 0 && name.last() != '.' {
        lemma_last_dot(name.drop_last());
    }
}

/// `Path::extension` of a file name: what follows the last `.`, unless that
/// `.` starts the name or the name is `..`.
pub open spec fn extension(name: Seq<char>) -> Option<Seq<char>> {
    if name == seq!['.', '.'] {
        None
    } else {
        match last_dot(name) {
            None => None,
            Some(i) => if i == 0 {
                None
            } else {
                Some(name.skip(i + 1))
            },
        }
    }
}

/// `Path::file_stem` of a file name: what precedes the last `.`, or the whole
/// name where `extension` has none.
pub open spec fn file_stem(name: Seq<char>) -> Seq<char> {
    if name == seq!['.', '.'] {
        name
    } else {
        match last_dot(name) {
            None => name,
            Some(i) => if i == 0 {
                name
            } else {
                name.take(i)
            },
        }
    }
}

/// `char::is_ascii_digit`.
pub open spec fn is_digit(c: char) -> bool {
    '0' <= c && c <= '9'
}

/// The value of a digit character.
pub open spec fn digit_value(c: char) -> nat {
    ((c as u32) - ('0' as u32)) as nat
}

/// The value of a string of decimal digits; 0 for the empty string.
pub open spec fn decimal_value(s: Seq<char>) -> nat
    decreases s.len(),
{
    if s.len() == 0 {
        0
    } else {
        decimal_value(s.drop_last()) * 10 + digit_value(s.last())
    }
}

/// `u32::from_str`: an optional `+`, then one or more decimal digits whose
/// value fits in 32 bits.
pub open spec fn parse_u32(s: Seq<char>) -> Option<u32> {
    let digits = unsigned_digits(s);
    if digits.len() > 0 && (forall|i: int| 0 <= i < digits.len() ==> is_digit(#[trigger] digits[i]))
        && decimal_value(digits) <= u32::MAX {
        Some(decimal_value(digits) as u32)
    } else {
        None
    }
}

/// The text after an optional leading `+` (a lone `+` is kept).
pub open spec fn unsigned_digits(s: Seq<char>) -> Seq<char> {
    if s.len() > 1 && s[0] == '+' {
        s.drop_first()
    } else {
        s
    }
}

/// The digit character for `d < 10`.
pub open spec fn digit_char(d: nat) -> char {
    if d == 0 {
        '0'
    } else if d == 1 {
        '1'
    } else if d == 2 {
        '2'
    } else if d == 3 {
        '3'
    } else if d == 4 {
        '4'
    } else if d == 5 {
        '5'
    } else if d == 6 {
        '6'
    } else if d == 7 {
        '7'
    } else if d == 8 {
        '8'
    } else {
        '9'
    }
}

/// `u32::to_string`: decimal, without leading zeros.
pub open spec fn decimal(n: nat) -> Seq<char>
    decreases n,
{
    if n < 10 {
        seq![digit_char(n)]
    } else {
        decimal(n / 10).push(digit_char(n % 10))
    }
}

/// Every piece of `split` is separator-free, and there is at least one.
pub proof fn lemma_split_len(s: Seq<char>, sep: char)
    ensures
        split(s, sep).len() >= 1,
        split(s, sep).len() <= s.len() + 1,
    decreases s.len(),
{
    if s.len() > 0 {
        lemma_split_len(s.drop_last(), sep);
    }
}

/// A longer run of digits is worth at least as much as any prefix of it.
pub proof fn lemma_decimal_value_prefix(s: Seq<char>, i: int)
    requires
        0 <= i <= s.len(),
    ensures
        decimal_value(s.take(i)) <= decimal_value(s),
    decreases s.len() - i,
{
    if i < s.len() {
        lemma_decimal_value_prefix(s, i + 1);
        assert(s.take(i + 1).drop_last() =~= s.take(i));
        assert(decimal_value(s.take(i + 1)) == decimal_value(s.take(i)) * 10 + digit_value(
            s.take(i + 1).last(),
        ));
    } else {
        assert(s.take(i) =~= s);
    }
}

/// `char::is_whitespace`.
pub fn white_space(c: char) -> (r: bool)
    ensures
        r == is_white_space(c),
{
    let u = c as u32;
    (0x09 <= u && u <= 0x0D) || u == 0x20 || u == 0x85 || u == 0xA0 || u == 0x1680 || (0x2000
        <= u && u <= 0x200A) || u == 0x2028 || u == 0x2029 || u == 0x202F || u == 0x205F || u
        == 0x3000
}

/// The characters of `s`, in order.
pub fn chars_of(s: &str) -> (out: Vec<char>)
    ensures
        out@ == s@,
{
    let mut out: Vec<char> = Vec::new();
    for c in it: s.chars()
        invariant
            out@ == it.seq().take(it.index() as int),
            it.seq() == s@,
    {
        out.push(c);
    }
    out
}

/// `String::push`, which vstd gives no contract: claimed, as its
/// documentation says, to append `c` to the end of the text.
#[verifier::external_body]
pub(crate) fn push_char(s: &mut String, c: char)
    ensures
        final(s)@ == old(s)@.push(c),
{
    s.push(c);
}

/// A `String` holding `chars`.
pub fn string_of(chars: &Vec<char>) -> (out: String)
    ensures
        out@ == chars@,
{
    let mut out = String::new();
    let mut i: usize = 0;
    while i < chars.len()
        invariant
            i <= chars.len(),
            out@ == chars@.take(i as int),
        decreases chars.len() - i,
    {
        push_char(&mut out, chars[i]);
        i += 1;
        assert(chars@.take(i as int) =~= chars@.take(i - 1).push(chars@[i - 1]));
    }
    assert(chars@.take(chars.len() as int) =~= chars@);
    out
}

/// `s[from..to]` as a new vector.
pub fn copy_range(s: &Vec<char>, from: usize, to: usize) -> (out: Vec<char>)
    requires
        from <= to <= s.len(),
    ensures
        out@ == s@.subrange(from as int, to as int),
{
    let mut out: Vec<char> = Vec::new();
    let mut i = from;
    while i < to
        invariant
            from <= i <= to <= s.len(),
            out@ == s@.subrange(from as int, i as int),
        decreases to - i,
    {
        out.push(s[i]);
        i += 1;
        assert(out@ =~= s@.subrange(from as int, i as int));
    }
    out
}

/// `str::trim`.
pub fn trim_chars(s: &Vec<char>) -> (out: Vec<char>)
    ensures
        out@ == trim(s@),
{
    let len = s.len();
    let mut i: usize = 0;
    assert(s@.skip(0) =~= s@);
    while i < len && white_space(s[i])
        invariant
            i <= len == s.len(),
            trim_start(s@) == trim_start(s@.skip(i as int)),
        decreases len - i,
    {
        assert(s@.skip(i as int).drop_first() =~= s@.skip(i + 1));
        i += 1;
    }
    assert(trim_start(s@.skip(i as int)) == s@.skip(i as int));
    assert(s@.skip(i as int) =~= s@.subrange(i as int, len as int));
    let mut j: usize = len;
    while j > i && white_space(s[j - 1])
        invariant
            i <= j <= len == s.len(),
            trim(s@) == trim_end(s@.subrange(i as int, j as int)),
        decreases j,
    {
        assert(s@.subrange(i as int, j as int).drop_last() =~= s@.subrange(i as int, j - 1));
        j -= 1;
    }
    copy_range(s, i, j)
}

/// `str::ends_with`.
pub fn ends_with_chars(s: &Vec<char>, suffix: &Vec<char>) -> (r: bool)
    ensures
        r == ends_with(s@, suffix@),
{
    if suffix.len() > s.len() {
        return false;
    }
    let start = s.len() - suffix.len();
    let mut k: usize = 0;
    while k < suffix.len()
        invariant
            start == s.len() - suffix.len(),
            k <= suffix.len(),
            forall|m: int| 0 <= m < k ==> s@[start + m] == suffix@[m],
        decreases suffix.len() - k,
    {
        if s[start + k] != suffix[k] {
            assert(s@.skip(start as int)[k as int] != suffix@[k as int]);
            return false;
        }
        k += 1;
    }
    assert(s@.skip(start as int) =~= suffix@);
    true
}

/// `str::starts_with`.
pub fn starts_with_chars(s: &Vec<char>, prefix: &Vec<char>) -> (r: bool)
    ensures
        r == starts_with(s@, prefix@),
{
    if prefix.len() > s.len() {
        return false;
    }
    let mut k: usize = 0;
    while k < prefix.len()
        invariant
            prefix.len() <= s.len(),
            k <= prefix.len(),
            forall|m: int| 0 <= m < k ==> s@[m] == prefix@[m],
        decreases prefix.len() - k,
    {
        if s[k] != prefix[k] {
            assert(s@.take(prefix.len() as int)[k as int] != prefix@[k as int]);
            return false;
        }
        k += 1;
    }
    assert(s@.take(prefix.len() as int) =~= prefix@);
    true
}

/// `str::split` on one separator character.
pub fn split_chars(s: &Vec<char>, sep: char) -> (out: Vec<Vec<char>>)
    ensures
        out@.map_values(|f: Vec<char>| f@) == split(s@, sep),
{
    let mut fields: Vec<Vec<char>> = Vec::new();
    let mut current: Vec<char> = Vec::new();
    let mut i: usize = 0;
    while i < s.len()
        invariant
            i <= s.len(),
            split(s@.take(i as int), sep) == fields@.map_values(|f: Vec<char>| f@).push(current@),
        decreases s.len() - i,
    {
        let ghost before = fields@.map_values(|f: Vec<char>| f@);
        assert(s@.take(i + 1).drop_last() =~= s@.take(i as int));
        assert(s@.take(i + 1).last() == s@[i as int]);
        if s[i] == sep {
            let done = current;
            fields.push(done);
            current = Vec::new();
            assert(fields@.map_values(|f: Vec<char>| f@) =~= before.push(done@));
        } else {
            current.push(s[i]);
            assert(before.push(current@) =~= before.push(current@.drop_last()).update(
                before.len() as int,
                current@,
            ));
        }
        i += 1;
    }
    assert(s@.take(s.len() as int) =~= s@);
    let ghost before = fields@.map_values(|f: Vec<char>| f@);
    fields.push(current);
    assert(fields@.map_values(|f: Vec<char>| f@) =~= before.push(current@));
    fields
}

/// `str::lines`.
pub fn lines_chars(s: &Vec<char>) -> (out: Vec<Vec<char>>)
    ensures
        out@.map_values(|l: Vec<char>| l@) == lines(s@),
{
    let pieces = split_chars(s, '\n');
    proof {
        lemma_split_len(s@, '\n');
    }
    let ghost views = pieces@.map_values(|f: Vec<char>| f@);
    let last = pieces.len() - 1;
    let mut out: Vec<Vec<char>> = Vec::new();
    let mut i: usize = 0;
    while i < last
        invariant
            last == pieces.len() - 1,
            views == pieces@.map_values(|f: Vec<char>| f@),
            i <= last,
            out@.map_values(|l: Vec<char>| l@) == views.take(i as int).map_values(
                |p: Seq<char>| strip_cr(p),
            ),
        decreases last - i,
    {
        let piece = &pieces[i];
        let n = piece.len();
        let line = if n > 0 && piece[n - 1] == '\r' {
            copy_range(piece, 0, n - 1)
        } else {
            copy_range(piece, 0, n)
        };
        assert(piece@.subrange(0, n as int) =~= piece@);
        assert(n > 0 ==> piece@.subrange(0, n - 1) =~= piece@.drop_last());
        let ghost before = out@.map_values(|l: Vec<char>| l@);
        out.push(line);
        assert(out@.map_values(|l: Vec<char>| l@) =~= before.push(line@));
        assert(views.take(i + 1).map_values(|p: Seq<char>| strip_cr(p)) =~= views.take(
            i as int,
        ).map_values(|p: Seq<char>| strip_cr(p)).push(strip_cr(views[i as int])));
        i += 1;
    }
    assert(views.take(last as int) =~= views.drop_last());
    if pieces[last].len() > 0 {
        let ghost before = out@.map_values(|l: Vec<char>| l@);
        let line = copy_range(&pieces[last], 0, pieces[last].len());
        assert(pieces[last as int]@.subrange(0, pieces[last as int]@.len() as int)
            =~= pieces[last as int]@);
        out.push(line);
        assert(out@.map_values(|l: Vec<char>| l@) =~= before.push(line@));
    }
    out
}

/// The position of the last `.` in a file name.
pub fn last_dot_chars(name: &Vec<char>) -> (r: Option<usize>)
    ensures
        r is None <==> last_dot(name@) is None,
        r matches Some(i) ==> last_dot(name@) == Some(i as int) && i < name@.len() && name@[i as int]
            == '.',
{
    let mut j = name.len();
    assert(name@.take(name.len() as int) =~= name@);
    while j > 0 && name[j - 1] != '.'
        invariant
            j <= name.len(),
            last_dot(name@) == last_dot(name@.take(j as int)),
        decreases j,
    {
        assert(name@.take(j as int).drop_last() =~= name@.take(j - 1));
        j -= 1;
    }
    assert(name@.take(name.len() as int) =~= name@);
    if j == 0 {
        proof {
            assert(name@.take(0) =~= Seq::<char>::empty());
        }
        None
    } else {
        assert(name@.take(j as int).last() == '.');
        Some(j - 1)
    }
}

/// Whether a file name is `..`.
fn is_parent_name(name: &Vec<char>) -> (r: bool)
    ensures
        r == (name@ == seq!['.', '.']),
{
    let r = name.len() == 2 && name[0] == '.' && name[1] == '.';
    if r {
        assert(name@ =~= seq!['.', '.']);
    }
    r
}

/// `Path::extension` of a file name.
pub fn extension_chars(name: &Vec<char>) -> (r: Option<Vec<char>>)
    ensures
        r is None <==> extension(name@) is None,
        r matches Some(x) ==> extension(name@) == Some(x@),
{
    if is_parent_name(name) {
        return None;
    }
    proof {
        lemma_last_dot(name@);
    }
    let n = name.len();
    let found = last_dot_chars(name);
    match found {
        None => None,
        Some(i) => {
            assert(i < n);
            if i == 0 {
                None
            } else {
                let e = copy_range(name, i + 1, name.len());
                assert(name@.subrange(i + 1, name@.len() as int) =~= name@.skip(i + 1));
                Some(e)
            }
        },
    }
}

/// `Path::file_stem` of a file name.
pub fn file_stem_chars(name: &Vec<char>) -> (r: Vec<char>)
    ensures
        r@ == file_stem(name@),
{
    let whole = copy_range(name, 0, name.len());
    assert(name@.subrange(0, name@.len() as int) =~= name@);
    if is_parent_name(name) {
        return whole;
    }
    proof {
        lemma_last_dot(name@);
    }
    match last_dot_chars(name) {
        None => whole,
        Some(i) => {
            if i == 0 {
                whole
            } else {
                let stem = copy_range(name, 0, i);
                assert(name@.subrange(0, i as int) =~= name@.take(i as int));
                stem
            }
        },
    }
}

/// Whether two texts are equal.
pub fn chars_eq(a: &Vec<char>, b: &Vec<char>) -> (r: bool)
    ensures
        r == (a@ == b@),
{
    if a.len() != b.len() {
        return false;
    }
    let mut k: usize = 0;
    while k < a.len()
        invariant
            a.len() == b.len(),
            k <= a.len(),
            forall|m: int| 0 <= m < k ==> a@[m] == b@[m],
        decreases a.len() - k,
    {
        if a[k] != b[k] {
            return false;
        }
        k += 1;
    }
    assert(a@ =~= b@);
    true
}

/// Whether two texts are equal.
pub fn str_eq(a: &str, b: &str) -> (r: bool)
    ensures
        r == (a@ == b@),
{
    let x = chars_of(a);
    let y = chars_of(b);
    chars_eq(&x, &y)
}

/// `a` followed by `b`.
pub fn concat_chars(a: &Vec<char>, b: &Vec<char>) -> (r: Vec<char>)
    ensures
        r@ == a@ + b@,
{
    let mut r = copy_range(a, 0, a.len());
    assert(a@.subrange(0, a@.len() as int) =~= a@);
    let mut k: usize = 0;
    while k < b.len()
        invariant
            k <= b.len(),
            r@ == a@ + b@.take(k as int),
        decreases b.len() - k,
    {
        r.push(b[k]);
        k += 1;
        assert(r@ =~= a@ + b@.take(k as int));
    }
    assert(b@.take(b.len() as int) =~= b@);
    r
}

/// The owned copy of a text.
pub fn owned(s: &str) -> (r: String)
    ensures
        r@ == s@,
{
    s.to_owned()
}

/// `u32::from_str`.
pub fn parse_u32_chars(s: &Vec<char>) -> (r: Option<u32>)
    ensures
        r == parse_u32(s@),
{
    let start: usize = if s.len() > 1 && s[0] == '+' {
        1
    } else {
        0
    };
    let ghost digits = unsigned_digits(s@);
    assert(digits =~= s@.skip(start as int));
    if start == s.len() {
        return None;
    }
    let mut value: u64 = 0;
    let mut i: usize = start;
    while i < s.len()
        invariant
            start <= i <= s.len(),
            digits == unsigned_digits(s@),
            digits =~= s@.skip(start as int),
            forall|m: int| 0 <= m < i - start ==> is_digit(#[trigger] digits[m]),
            value == decimal_value(digits.take(i - start)),
            value <= u32::MAX,
        decreases s.len() - i,
    {
        let c = s[i];
        assert(digits[i - start] == c);
        if !('0' <= c && c <= '9') {
            assert(!is_digit(digits[i - start]));
            assert(!(forall|m: int| 0 <= m < digits.len() ==> is_digit(#[trigger] digits[m])));
            assert(parse_u32(s@) is None);
            return None;
        }
        let d = (c as u32 - '0' as u32) as u64;
        assert(digits.take(i + 1 - start).drop_last() =~= digits.take(i - start));
        assert(digits.take(i + 1 - start).last() == c);
        value = value * 10 + d;
        i += 1;
        if value > 0xffff_ffff {
            proof {
                lemma_decimal_value_prefix(digits, i - start);
            }
            assert(decimal_value(digits) > u32::MAX);
            assert(parse_u32(s@) is None);
            return None;
        }
    }
    assert(digits.take(s.len() - start) =~= digits);
    Some(value as u32)
}

/// `u32::to_string` appended to `out`.
pub fn push_decimal(out: &mut String, n: u32)
    ensures
        final(out)@ == old(out)@ + decimal(n as nat),
    decreases n,
{
    if n >= 10 {
        push_decimal(out, n / 10);
    }
    let c = char_from_digit(n % 10);
    push_char(out, c);
    assert(decimal(n as nat) =~= if n < 10 {
        seq![digit_char(n as nat)]
    } else {
        decimal((n / 10) as nat).push(digit_char((n % 10) as nat))
    });
}

/// The digit character for `d < 10`.
fn char_from_digit(d: u32) -> (c: char)
    requires
        d < 10,
    ensures
        c == digit_char(d as nat),
{
    match d {
        0 => '0',
        1 => '1',
        2 => '2',
        3 => '3',
        4 => '4',
        5 => '5',
        6 => '6',
        7 => '7',
        8 => '8',
        _ => '9',
    }
}

} // verus!
