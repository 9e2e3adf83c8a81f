//! Text as the rest of the crate needs it: comparison, trimming, splitting and
//! decimal numbers, each stated over the sequence of characters of a string.
use vstd::prelude::*;
use vstd::string::*;

verus! {

/// `String::push` of the standard library appends one character.
pub assume_specification[ String::push ](text: &mut String, c: char)
    ensures
        final(text)@ == old(text)@.push(c),
;

/// Comparison of two `str` values in the standard library is comparison of their characters.
pub assume_specification[ <str as PartialEq>::eq ](a: &str, b: &str) -> (r: bool)
    ensures
        r == (a@ == b@),
;

/// The characters with the Unicode property `White_Space`.
pub open spec fn is_white_space(c: char) -> bool {
    let v = c as int;
    ||| 0x09 <= v <= 0x0d
    ||| v == 0x20
    ||| v == 0x85
    ||| v == 0xa0
    ||| v == 0x1680
    ||| 0x2000 <= v <= 0x200a
    ||| v == 0x2028
    ||| v == 0x2029
    ||| v == 0x202f
    ||| v == 0x205f
    ||| v == 0x3000
}

/// `s` without its leading and trailing white space.
pub open spec fn trimmed(s: Seq<char>) -> Seq<char>
    decreases s.len(),
{
    if s.len() == 0 {
        s
    } else if is_white_space(s.first()) {
        trimmed(s.drop_first())
    } else if is_white_space(s.last()) {
        trimmed(s.drop_last())
    } else {
        s
    }
}

/// `str::trim` of the standard library removes leading and trailing white space, as
/// Unicode defines it.
pub assume_specification[ str::trim ](s: &str) -> (r: &str)
    ensures
        r@ == trimmed(s@),
;

/// Trimming takes white space from both ends, all of it, and nothing else.
pub proof fn law_trimming(s: Seq<char>, c: char)
    ensures
        trimmed(Seq::empty()).len() == 0,
        is_white_space(c) ==> trimmed(seq![c] + s) == trimmed(s),
        is_white_space(c) && s.len() > 0 && !is_white_space(s.first()) ==> trimmed(s.push(c))
            == trimmed(s),
        s.len() > 0 && !is_white_space(s.first()) && !is_white_space(s.last()) ==> trimmed(s) == s,
{
    assert((seq![c] + s).first() == c);
    assert((seq![c] + s).drop_first() =~= s);
    assert(s.push(c).last() == c);
    assert(s.push(c).drop_last() =~= s);
    if s.len() > 0 {
        assert(s.push(c).first() == s.first());
    }
}

/// Whether two texts are the same.
pub fn same(a: &str, b: &str) -> (r: bool)
    ensures
        r == (a@ == b@),
{
    a.eq(b)
}

/// The characters of `text`.
pub fn chars_of(text: &str) -> (chars: Vec<char>)
    ensures
        chars@ == text@,
{
    let mut chars: Vec<char> = Vec::new();
    for c in it: text.chars()
        invariant
            chars@ == text@.take(it.index()),
            it.seq() == text@,
    {
        assert(text@.take(it.index() + 1) =~= text@.take(it.index()).push(c));
        chars.push(c);
    }
    assert(text@.take(text@.len() as int) =~= text@);
    chars
}

/// The text made of `chars[from..to]`.
pub fn string_of(chars: &[char], from: usize, to: usize) -> (text: String)
    requires
        from <= to <= chars@.len(),
    ensures
        text@ == chars@.subrange(from as int, to as int),
{
    let mut text = String::new();
    let mut i: usize = from;
    while i < to
        invariant
            from <= i <= to <= chars@.len(),
            text@ == chars@.subrange(from as int, i as int),
        decreases to - i,
    {
        assert(chars@.subrange(from as int, i + 1) =~= chars@.subrange(from as int, i as int).push(
            chars@[i as int],
        ));
        text.push(chars[i]);
        i += 1;
    }
    text
}

/// The pieces of `s` between the occurrences of `c`; always at least one.
pub open spec fn split(s: Seq<char>, c: char) -> Seq<Seq<char>>
    decreases s.len(),
{
    if s.len() == 0 {
        seq![Seq::empty()]
    } else {
        let rest = split(s.drop_last(), c);
        if s.last() == c {
            rest.push(Seq::empty())
        } else {
            rest.update(rest.len() - 1, rest.last().push(s.last()))
        }
    }
}

/// The texts that a vector of strings holds.
pub open spec fn texts(v: Seq<String>) -> Seq<Seq<char>> {
    Seq::new(v.len(), |i: int| v[i]@)
}

/// A list of strings holds the texts that it shows, in their order.
pub proof fn law_texts_are_those_of_the_strings(v: Seq<String>, i: int)
    requires
        0 <= i < v.len(),
    ensures
        texts(v).len() == v.len(),
        texts(v)[i] == v[i]@,
{
}

pub proof fn lemma_split_nonempty(s: Seq<char>, c: char)
    ensures
        split(s, c).len() >= 1,
    decreases s.len(),
{
    if s.len() > 0 {
        lemma_split_nonempty(s.drop_last(), c);
    }
}

/// Splitting `a`, the separator, and a `b` without separator gives the pieces of `a`, then `b`.
pub proof fn lemma_split_append(a: Seq<char>, c: char, b: Seq<char>)
    requires
        !b.contains(c),
    ensures
        split(a.push(c) + b, c) == split(a, c).push(b),
    decreases b.len(),
{
    let whole = a.push(c) + b;
    lemma_split_nonempty(a, c);
    if b.len() == 0 {
        assert(whole =~= a.push(c));
        assert(whole.drop_last() =~= a);
        assert(b =~= Seq::<char>::empty());
    } else {
        let shorter = b.drop_last();
        assert(b.last() != c);
        assert forall|i: int| 0 <= i < shorter.len() implies shorter[i] != c by {
            assert(shorter[i] == b[i]);
        }
        lemma_split_append(a, c, shorter);
        assert(whole.drop_last() =~= a.push(c) + shorter);
        assert(whole.last() == b.last());
        assert(shorter.push(b.last()) =~= b);
        let rest = split(a, c).push(shorter);
        assert(rest.last() == shorter);
        assert(rest.update(rest.len() - 1, b) =~= split(a, c).push(b));
    }
}

/// A text without separator is its own only piece.
pub proof fn lemma_split_single(s: Seq<char>, c: char)
    requires
        !s.contains(c),
    ensures
        split(s, c) == seq![s],
    decreases s.len(),
{
    if s.len() == 0 {
        assert(s =~= Seq::<char>::empty());
    } else {
        let shorter = s.drop_last();
        assert(s.last() != c);
        assert forall|i: int| 0 <= i < shorter.len() implies shorter[i] != c by {
            assert(shorter[i] == s[i]);
        }
        lemma_split_single(shorter, c);
        assert(shorter.push(s.last()) =~= s);
        assert(split(s, c) =~= seq![s]);
    }
}

/// What lengthening a text does to its pieces: without another separator the last piece is
/// lengthened, else there are more of them.
pub proof fn lemma_split_longer(a: Seq<char>, b: Seq<char>, c: char)
    ensures
        split(a + b, c).len() >= split(a, c).len(),
        split(a + b, c).len() == split(a, c).len() ==> split(a + b, c) == split(a, c).update(
            split(a, c).len() - 1,
            split(a, c).last() + b,
        ),
    decreases b.len(),
{
    lemma_split_nonempty(a, c);
    let short = split(a, c);
    if b.len() == 0 {
        assert(a + b =~= a);
        assert(short.last() + b =~= short.last());
        assert(short.update(short.len() - 1, short.last()) =~= short);
    } else {
        let front = b.drop_last();
        lemma_split_longer(a, front, c);
        lemma_split_nonempty(a + front, c);
        assert((a + b).drop_last() =~= a + front);
        assert((a + b).last() == b.last());
        if b.last() != c && split(a + front, c).len() == short.len() {
            assert((short.last() + front).push(b.last()) =~= short.last() + b);
            assert(split(a + b, c) =~= short.update(short.len() - 1, short.last() + b));
        }
    }
}

/// Some pieces with a separator between each two of them.
pub open spec fn joined(pieces: Seq<Seq<char>>, c: char) -> Seq<char>
    decreases pieces.len(),
{
    if pieces.len() == 0 {
        Seq::empty()
    } else if pieces.len() == 1 {
        pieces[0]
    } else {
        joined(pieces.drop_last(), c).push(c) + pieces.last()
    }
}

proof fn lemma_joined_grows(pieces: Seq<Seq<char>>, c: char, more: char)
    requires
        pieces.len() >= 1,
    ensures
        joined(pieces.push(Seq::empty()), c) == joined(pieces, c).push(c),
        joined(pieces.update(pieces.len() - 1, pieces.last().push(more)), c) == joined(
            pieces,
            c,
        ).push(more),
{
    assert(pieces.push(Seq::empty()).drop_last() =~= pieces);
    assert(joined(pieces.push(Seq::empty()), c) =~= joined(pieces, c).push(c));
    let longer = pieces.update(pieces.len() - 1, pieces.last().push(more));
    assert(longer.drop_last() =~= pieces.drop_last());
    assert(joined(longer, c) =~= joined(pieces, c).push(more));
}

/// A text is cut at every separator, and nowhere else: no piece holds one, and the pieces
/// with one separator between each two of them are the text again.
pub proof fn law_split_joins_again(s: Seq<char>, c: char)
    ensures
        split(s, c).len() >= 1,
        joined(split(s, c), c) == s,
        forall|i: int| 0 <= i < split(s, c).len() ==> !(#[trigger] split(s, c)[i]).contains(c),
    decreases s.len(),
{
    if s.len() > 0 {
        let front = s.drop_last();
        let rest = split(front, c);
        law_split_joins_again(front, c);
        lemma_joined_grows(rest, c, s.last());
        assert(front.push(s.last()) =~= s);
        assert forall|i: int| 0 <= i < split(s, c).len() implies !(#[trigger] split(
            s,
            c,
        )[i]).contains(c) by {
            if s.last() == c {
                if i < rest.len() {
                    assert(split(s, c)[i] == rest[i]);
                }
            } else if i < rest.len() - 1 {
                assert(split(s, c)[i] == rest[i]);
            } else {
                let piece = rest.last();
                assert(!rest[rest.len() - 1].contains(c));
                assert(split(s, c)[i] == piece.push(s.last()));
                assert forall|j: int| 0 <= j < piece.push(s.last()).len() implies piece.push(
                    s.last(),
                )[j] != c by {
                    if j < piece.len() {
                        assert(piece[j] != c);
                    }
                }
            }
        }
    } else {
        assert(joined(split(s, c), c) =~= s);
    }
}

/// `text` cut at every occurrence of `separator`.
pub fn split_on(text: &str, separator: char) -> (pieces: Vec<String>)
    ensures
        texts(pieces@) == split(text@, separator),
{
    let chars = chars_of(text);
    let mut pieces: Vec<String> = Vec::new();
    let mut piece = String::new();
    let mut i: usize = 0;
    assert(chars@.take(0) =~= Seq::<char>::empty());
    while i < chars.len()
        invariant
            i <= chars@.len(),
            texts(pieces@).push(piece@) == split(chars@.take(i as int), separator),
        decreases chars@.len() - i,
    {
        let ghost before = texts(pieces@);
        assert(chars@.take(i + 1).drop_last() =~= chars@.take(i as int));
        assert(chars@.take(i + 1).last() == chars@[i as int]);
        let c = chars[i];
        if c == separator {
            pieces.push(piece);
            piece = String::new();
            assert(texts(pieces@) =~= split(chars@.take(i as int), separator));
        } else {
            let ghost old_piece = piece@;
            piece.push(c);
            assert(before.push(piece@) =~= before.push(old_piece).update(before.len() as int, piece@));
        }
        i += 1;
    }
    assert(chars@.take(chars@.len() as int) =~= text@);
    let ghost done = texts(pieces@);
    pieces.push(piece);
    assert(texts(pieces@) =~= done.push(piece@));
    pieces
}

/// `text` cut at the first occurrence of `separator`, or nothing where there is none.
pub fn split_once(text: &str, separator: char) -> (r: Option<(String, String)>)
    ensures
        match r {
            Some((head, tail)) => text@ == head@.push(separator) + tail@ && !head@.contains(
                separator,
            ),
            None => !text@.contains(separator),
        },
{
    let chars = chars_of(text);
    let mut i: usize = 0;
    while i < chars.len()
        invariant
            i <= chars@.len(),
            chars@ == text@,
            forall|j: int| 0 <= j < i ==> chars@[j] != separator,
        decreases chars@.len() - i,
    {
        if chars[i] == separator {
            let head = string_of(&chars, 0, i);
            let tail = string_of(&chars, i + 1, chars.len());
            assert(text@ =~= head@.push(separator) + tail@);
            assert(!head@.contains(separator));
            return Some((head, tail));
        }
        i += 1;
    }
    None
}

/// What follows `prefix` in `text`, or nothing where `text` does not start with it.
pub fn strip_prefix(text: &str, prefix: &str) -> (r: Option<String>)
    ensures
        match r {
            Some(rest) => text@ == prefix@ + rest@,
            None => !prefix@.is_prefix_of(text@),
        },
{
    let chars = chars_of(text);
    let start = chars_of(prefix);
    if start.len() > chars.len() {
        return None;
    }
    let mut i: usize = 0;
    while i < start.len()
        invariant
            i <= start@.len() <= chars@.len(),
            chars@ == text@,
            start@ == prefix@,
            forall|j: int| 0 <= j < i ==> chars@[j] == start@[j],
        decreases start@.len() - i,
    {
        if chars[i] != start[i] {
            assert(text@[i as int] != prefix@[i as int]);
            return None;
        }
        i += 1;
    }
    let rest = string_of(&chars, start.len(), chars.len());
    assert(text@ =~= prefix@ + rest@);
    Some(rest)
}

/// `s` without the carriage returns and line feeds at its end.
pub open spec fn without_line_end(s: Seq<char>) -> Seq<char>
    decreases s.len(),
{
    if s.len() > 0 && (s.last() == '\r' || s.last() == '\n') {
        without_line_end(s.drop_last())
    } else {
        s
    }
}

/// `line` without the carriage returns and line feeds at its end.
pub fn trim_line_end(line: &str) -> (r: String)
    ensures
        r@ == without_line_end(line@),
{
    let chars = chars_of(line);
    let mut end: usize = chars.len();
    assert(chars@.take(end as int) =~= line@);
    while end > 0 && (chars[end - 1] == '\r' || chars[end - 1] == '\n')
        invariant
            end <= chars@.len(),
            without_line_end(chars@.take(end as int)) == without_line_end(line@),
        decreases end,
    {
        assert(chars@.take(end as int).drop_last() =~= chars@.take(end - 1));
        end -= 1;
    }
    let r = string_of(&chars, 0, end);
    assert(r@ =~= chars@.take(end as int));
    r
}

/// Whether `c` is one of the ten ASCII digits.
pub open spec fn is_digit(c: char) -> bool {
    '0' <= c <= '9'
}

/// The number that a sequence of ASCII digits denotes.
pub open spec fn digits_value(s: Seq<char>) -> int
    decreases s.len(),
{
    if s.len() == 0 {
        0
    } else {
        10 * digits_value(s.drop_last()) + (s.last() as int - '0' as int)
    }
}

/// Whether `s` is a nonempty sequence of ASCII digits.
pub open spec fn is_number(s: Seq<char>) -> bool {
    s.len() > 0 && forall|i: int| 0 <= i < s.len() ==> is_digit(#[trigger] s[i])
}

/// The 32-bit integer written in `s`: an optional sign, then digits, with a value that fits.
pub open spec fn written_i32(s: Seq<char>) -> Option<int> {
    let signed = s.len() > 0 && (s[0] == '-' || s[0] == '+');
    let digits = if signed {
        s.skip(1)
    } else {
        s
    };
    let value = if signed && s[0] == '-' {
        -digits_value(digits)
    } else {
        digits_value(digits)
    };
    if is_number(digits) && i32::MIN <= value <= i32::MAX {
        Some(value)
    } else {
        None
    }
}

proof fn lemma_digits_value_grows(s: Seq<char>, n: int)
    requires
        is_number(s),
        0 <= n <= s.len(),
    ensures
        0 <= digits_value(s.take(n)) <= digits_value(s),
    decreases s.len(),
{
    if s.len() == 1 {
        assert(s.drop_last() =~= Seq::<char>::empty());
        if n == 0 {
            assert(s.take(0) =~= Seq::<char>::empty());
        } else {
            assert(s.take(1) =~= s);
        }
        assert(digits_value(s.drop_last()) == 0);
        assert(is_digit(s[0]));
    } else {
        let shorter = s.drop_last();
        assert forall|i: int| 0 <= i < shorter.len() implies is_digit(#[trigger] shorter[i]) by {
            assert(shorter[i] == s[i]);
        }
        assert(is_digit(s[s.len() - 1]));
        if n == s.len() {
            lemma_digits_value_grows(shorter, shorter.len() as int);
            assert(s.take(n) =~= s);
            assert(shorter.take(shorter.len() as int) =~= shorter);
        } else {
            lemma_digits_value_grows(shorter, n);
            assert(shorter.take(n) =~= s.take(n));
        }
    }
}

/// Whether `text` is a sequence of ASCII digits for a number above `limit`.
pub fn number_exceeds(text: &str, limit: u32) -> (r: bool)
    ensures
        r == (is_number(text@) && digits_value(text@) > limit),
{
    let chars = chars_of(text);
    let mut value: u64 = 0;
    let mut exceeded = false;
    let mut i: usize = 0;
    assert(text@.take(0) =~= Seq::<char>::empty());
    while i < chars.len()
        invariant
            i <= chars@.len(),
            chars@ == text@,
            forall|j: int| 0 <= j < i ==> is_digit(#[trigger] text@[j]),
            exceeded ==> i > 0 && (is_number(text@) ==> digits_value(text@) > limit),
            !exceeded ==> value <= limit && value == digits_value(text@.take(i as int)),
        decreases chars@.len() - i,
    {
        let c = chars[i];
        if c < '0' || c > '9' {
            assert(!is_digit(text@[i as int]));
            return false;
        }
        if !exceeded {
            value = value * 10 + (c as u32 - 48) as u64;
            assert(text@.take(i + 1).drop_last() =~= text@.take(i as int));
            assert(value == digits_value(text@.take(i + 1)));
            if value > limit as u64 {
                exceeded = true;
                proof {
                    if is_number(text@) {
                        lemma_digits_value_grows(text@, i + 1);
                    }
                }
            }
        }
        i += 1;
    }
    assert(text@.take(text@.len() as int) =~= text@);
    exceeded
}

/// The 32-bit integer written in `text`.
pub fn parse_i32(text: &str) -> (r: Option<i32>)
    ensures
        match r {
            Some(n) => written_i32(text@) == Some(n as int),
            None => written_i32(text@) is None,
        },
{
    let chars = chars_of(text);
    let signed = chars.len() > 0 && (chars[0] == '-' || chars[0] == '+');
    let negative = signed && chars[0] == '-';
    let start: usize = if signed {
        1
    } else {
        0
    };
    let ghost digits = if signed {
        text@.skip(1)
    } else {
        text@
    };
    if start >= chars.len() {
        assert(digits.len() == 0);
        return None;
    }
    let mut value: i64 = 0;
    let mut i: usize = start;
    assert(digits.take(0) =~= Seq::<char>::empty());
    while i < chars.len()
        invariant
            start <= i <= chars@.len(),
            chars@ == text@,
            signed == (text@.len() > 0 && (text@[0] == '-' || text@[0] == '+')),
            digits == (if signed { text@.skip(1) } else { text@ }),
            start == (if signed { 1int } else { 0int }),
            0 <= value <= 0x8000_0000,
            value == digits_value(digits.take(i - start)),
            forall|j: int| 0 <= j < i - start ==> is_digit(#[trigger] digits[j]),
        decreases chars@.len() - i,
    {
        let c = chars[i];
        let ghost k = i - start;
        assert(digits[k] == c);
        if c < '0' || c > '9' {
            assert(!is_digit(digits[k]));
            return None;
        }
        let digit = (c as u32 - 48) as i64;
        value = value * 10 + digit;
        assert(digits.take(k + 1).drop_last() =~= digits.take(k));
        assert(value == digits_value(digits.take(k + 1)));
        if value > 0x8000_0000 {
            proof {
                if is_number(digits) {
                    lemma_digits_value_grows(digits, k + 1);
                }
            }
            return None;
        }
        i += 1;
    }
    assert(digits.take(digits.len() as int) =~= digits);
    assert(is_number(digits));
    if negative {
        Some((-value) as i32)
    } else if value <= 0x7fff_ffff {
        Some(value as i32)
    } else {
        None
    }
}

/// The decimal numeral of `n`.
pub open spec fn decimal(n: nat) -> Seq<char>
    decreases n,
{
    let digit = (48 + n % 10) as char;
    if n < 10 {
        seq![digit]
    } else {
        decimal(n / 10).push(digit)
    }
}

/// The decimal numeral of `n`, as text.
pub fn decimal_text(n: u64) -> (r: String)
    ensures
        r@ == decimal(n as nat),
    decreases n,
{
    let digit = (48 + (n % 10) as u8) as char;
    let mut r = if n < 10 {
        String::new()
    } else {
        decimal_text(n / 10)
    };
    r.push(digit);
    assert(n < 10 ==> r@ =~= seq![digit]);
    r
}

/// What is left of a line is its beginning, up to and with the last character that is
/// neither a carriage return nor a line feed.
pub proof fn law_line_end_is_cut(s: Seq<char>)
    ensures
        without_line_end(s).is_prefix_of(s),
        without_line_end(s).len() > 0 ==> without_line_end(s).last() != '\r' && without_line_end(
            s,
        ).last() != '\n',
        forall|i: int|
            without_line_end(s).len() <= i < s.len() ==> #[trigger] s[i] == '\r' || s[i] == '\n',
    decreases s.len(),
{
    if s.len() > 0 && (s.last() == '\r' || s.last() == '\n') {
        let front = s.drop_last();
        law_line_end_is_cut(front);
        assert forall|i: int| without_line_end(s).len() <= i < s.len() implies #[trigger] s[i]
            == '\r' || s[i] == '\n' by {
            if i < front.len() {
                assert(front[i] == s[i]);
            }
        }
        assert(without_line_end(s).is_prefix_of(s)) by {
            assert(without_line_end(s) =~= s.take(without_line_end(s).len() as int));
        }
    } else {
        assert(s =~= s.take(s.len() as int));
    }
}

/// Numbers are written in decimal notation: digits from `0` to `9`, each worth ten times
/// the one behind it.
pub proof fn law_decimal_notation(s: Seq<char>, c: char)
    ensures
        is_number(s.push(c)) <==> '0' <= c <= '9' && (s.len() == 0 || is_number(s)),
        !is_number(Seq::empty()),
        digits_value(Seq::empty()) == 0,
        digits_value(s.push(c)) == 10 * digits_value(s) + (c as int - 48),
{
    let longer = s.push(c);
    assert(longer.drop_last() =~= s);
    if is_number(longer) {
        assert forall|i: int| 0 <= i < s.len() implies is_digit(#[trigger] s[i]) by {
            assert(is_digit(longer[i]));
        }
        assert(is_digit(longer[s.len() as int]));
    }
    if '0' <= c <= '9' && (s.len() == 0 || is_number(s)) {
        assert forall|i: int| 0 <= i < longer.len() implies is_digit(#[trigger] longer[i]) by {
            if i < s.len() {
                assert(longer[i] == s[i]);
                assert(is_digit(s[i]));
            }
        }
    }
}

/// A number is written with the digits that denote it, and without needless zeros in front.
pub proof fn law_decimal_denotes_the_number(n: nat)
    ensures
        is_number(decimal(n)),
        digits_value(decimal(n)) == n,
        decimal(n).len() > 1 ==> decimal(n)[0] != '0',
    decreases n,
{
    let digit = (48 + n % 10) as char;
    if n < 10 {
        law_decimal_notation(Seq::empty(), digit);
        assert(decimal(n) =~= Seq::<char>::empty().push(digit));
    } else {
        law_decimal_denotes_the_number(n / 10);
        law_decimal_notation(decimal(n / 10), digit);
        assert(decimal(n) =~= decimal(n / 10).push(digit));
        assert(decimal(n)[0] == decimal(n / 10)[0]);
        if decimal(n / 10).len() == 1 {
            let only = decimal(n / 10)[0];
            law_decimal_notation(Seq::empty(), only);
            assert(decimal(n / 10) =~= Seq::<char>::empty().push(only));
        }
    }
}

/// A 32-bit number is read with a sign or without one, and from nothing else: the digits
/// alone or behind a plus are their value, behind a minus its negative, wherever it fits.
pub proof fn law_numbers_are_read(digits: Seq<char>, s: Seq<char>)
    ensures
        is_number(digits) && digits_value(digits) <= 0x7fff_ffff ==> written_i32(digits) == Some(
            digits_value(digits),
        ) && written_i32(seq!['+'] + digits) == Some(digits_value(digits)),
        is_number(digits) && digits_value(digits) <= 0x8000_0000 ==> written_i32(
            seq!['-'] + digits,
        ) == Some(-digits_value(digits)),
        is_number(digits) && digits_value(digits) > 0x7fff_ffff ==> written_i32(digits) is None
            && written_i32(seq!['+'] + digits) is None,
        is_number(digits) && digits_value(digits) > 0x8000_0000 ==> written_i32(
            seq!['-'] + digits,
        ) is None,
        written_i32(s) is Some ==> is_number(s) || (s.len() > 1 && (s[0] == '-' || s[0] == '+')
            && is_number(s.skip(1))),
{
    let plus = seq!['+'] + digits;
    let minus = seq!['-'] + digits;
    assert(plus.skip(1) =~= digits);
    assert(minus.skip(1) =~= digits);
    if is_number(digits) {
        assert(is_digit(digits[0]));
        lemma_digits_value_grows(digits, 0);
        assert(digits.take(0) =~= Seq::<char>::empty());
    }
}

} // verus!
