//! Text as a sequence of characters: searching, trimming, splitting and joining.
use vstd::prelude::*;
use vstd::string::*;
use vstd::utf8::*;

verus! {

/// Whether `c` has Unicode's White_Space property.
pub open spec fn is_space(c: char) -> bool {
    ||| '\u{9}' <= c <= '\u{d}'
    ||| c == ' '
    ||| c == '\u{85}'
    ||| c == '\u{a0}'
    ||| c == '\u{1680}'
    ||| '\u{2000}' <= c <= '\u{200a}'
    ||| c == '\u{2028}'
    ||| c == '\u{2029}'
    ||| c == '\u{202f}'
    ||| c == '\u{205f}'
    ||| c == '\u{3000}'
}

/// `s` without its leading white space.
pub open spec fn trim_start(s: Seq<char>) -> Seq<char>
    decreases s.len(),
{
    if s.len() > 0 && is_space(s[0]) {
        trim_start(s.skip(1))
    } else {
        s
    }
}

/// `s` without its trailing white space.
pub open spec fn trim_end(s: Seq<char>) -> Seq<char>
    decreases s.len(),
{
    if s.len() > 0 && is_space(s.last()) {
        trim_end(s.drop_last())
    } else {
        s
    }
}

/// `s` without white space at either end.
pub open spec fn trim(s: Seq<char>) -> Seq<char> {
    trim_end(trim_start(s))
}

/// Whether `s` holds nothing but white space.
pub open spec fn is_blank(s: Seq<char>) -> bool {
    forall|i: int| 0 <= i < s.len() ==> is_space(#[trigger] s[i])
}

/// `s` without the run of `c` at its end.
pub open spec fn trim_end_char(s: Seq<char>, c: char) -> Seq<char>
    decreases s.len(),
{
    if s.len() > 0 && s.last() == c {
        trim_end_char(s.drop_last(), c)
    } else {
        s
    }
}

/// `s` without the run of `c` at its start.
pub open spec fn trim_start_char(s: Seq<char>, c: char) -> Seq<char>
    decreases s.len(),
{
    if s.len() > 0 && s[0] == c {
        trim_start_char(s.skip(1), c)
    } else {
        s
    }
}

/// Whether `s` begins with `prefix`.
pub open spec fn has_prefix(s: Seq<char>, prefix: Seq<char>) -> bool {
    prefix.len() <= s.len() && s.take(prefix.len() as int) == prefix
}

/// Whether `s` ends with `suffix`.
pub open spec fn has_suffix(s: Seq<char>, suffix: Seq<char>) -> bool {
    suffix.len() <= s.len() && s.skip(s.len() - suffix.len()) == suffix
}

/// Whether `part` stands in `s` at position `at`.
pub open spec fn occurs_at(s: Seq<char>, part: Seq<char>, at: int) -> bool {
    0 <= at && at + part.len() <= s.len() && s.subrange(at, at + part.len()) == part
}

/// Whether `part` stands anywhere in `s`.
pub open spec fn has_part(s: Seq<char>, part: Seq<char>) -> bool {
    exists|at: int| occurs_at(s, part, at)
}

/// `s` without every copy of `prefix` that it begins with.
pub open spec fn strip_prefixes(s: Seq<char>, prefix: Seq<char>) -> Seq<char>
    decreases s.len(),
{
    if prefix.len() > 0 && has_prefix(s, prefix) {
        strip_prefixes(s.skip(prefix.len() as int), prefix)
    } else {
        s
    }
}

/// The leading run of `s` without `c`.
pub open spec fn before_char(s: Seq<char>, c: char) -> Seq<char>
    decreases s.len(),
{
    if s.len() == 0 || s[0] == c {
        seq![]
    } else {
        seq![s[0]] + before_char(s.skip(1), c)
    }
}

/// The pieces of `s` between occurrences of `c`: one more than there are occurrences.
pub open spec fn split(s: Seq<char>, c: char) -> Seq<Seq<char>>
    decreases s.len(),
{
    if s.len() == 0 {
        seq![Seq::<char>::empty()]
    } else if s.last() == c {
        split(s.drop_last(), c).push(Seq::<char>::empty())
    } else {
        let front = split(s.drop_last(), c);
        front.update(front.len() - 1, front.last().push(s.last()))
    }
}

/// The first run of characters of `s` that are not white space.
pub open spec fn first_word(s: Seq<char>) -> Seq<char> {
    leading_word(trim_start(s))
}

/// The characters of `s` before its first white space.
pub open spec fn leading_word(s: Seq<char>) -> Seq<char>
    decreases s.len(),
{
    if s.len() == 0 || is_space(s[0]) {
        seq![]
    } else {
        seq![s[0]] + leading_word(s.skip(1))
    }
}

/// The parts one after another, with `sep` between neighbours.
pub open spec fn join(parts: Seq<Seq<char>>, sep: Seq<char>) -> Seq<char>
    decreases parts.len(),
{
    if parts.len() == 0 {
        seq![]
    } else if parts.len() == 1 {
        parts[0]
    } else {
        join(parts.drop_last(), sep) + sep + parts.last()
    }
}

/// The decimal digit with value `d`.
pub open spec fn digit(d: nat) -> char {
    if d == 0 {
        '0'
    } else if d == 1 {
        '1'
    } else if d == 2 {
        '2'
    } else if d == 3 {
        '3'
    } else if d == 4 {
        '4'
    } else if d == 5 {
        '5'
    } else if d == 6 {
        '6'
    } else if d == 7 {
        '7'
    } else if d == 8 {
        '8'
    } else {
        '9'
    }
}

/// `n` in decimal, without leading zeros.
pub open spec fn decimal(n: nat) -> Seq<char>
    decreases n,
{
    if n < 10 {
        seq![digit(n)]
    } else {
        decimal(n / 10).push(digit(n % 10))
    }
}

/// `n` in decimal, with a minus sign where it is negative.
pub open spec fn signed_decimal(n: int) -> Seq<char> {
    if n < 0 {
        seq!['-'] + decimal((-n) as nat)
    } else {
        decimal(n as nat)
    }
}

/// The views of a vector of strings.
pub open spec fn texts(v: Seq<String>) -> Seq<Seq<char>> {
    v.map_values(|s: String| s@)
}

/// The view of an optional string.
pub open spec fn opt_text(o: Option<String>) -> Option<Seq<char>> {
    match o {
        Some(s) => Some(s@),
        None => None,
    }
}

/// The view of an optional string slice.
pub open spec fn opt_str(o: Option<&str>) -> Option<Seq<char>> {
    match o {
        Some(s) => Some(s@),
        None => None,
    }
}

/// The view of a result whose value and error are strings.
pub open spec fn result_text(r: Result<String, String>) -> Result<Seq<char>, Seq<char>> {
    match r {
        Ok(s) => Ok(s@),
        Err(e) => Err(e@),
    }
}

/// The bytes `a` stand before the bytes `b` in lexicographic order.
pub open spec fn bytes_before(a: Seq<u8>, b: Seq<u8>) -> bool
    decreases a.len(),
{
    if b.len() == 0 {
        false
    } else if a.len() == 0 {
        true
    } else if a[0] != b[0] {
        a[0] < b[0]
    } else {
        bytes_before(a.skip(1), b.skip(1))
    }
}

/// The text `a` stands before the text `b`: by the order of their UTF-8 bytes.
pub open spec fn text_before(a: Seq<char>, b: Seq<char>) -> bool {
    bytes_before(encode_utf8(a), encode_utf8(b))
}

// ---------------------------------------------------------------------------
// Lemmas
// ---------------------------------------------------------------------------

/// Texts with the same UTF-8 bytes are the same.
pub proof fn lemma_utf8_injective(a: Seq<char>, b: Seq<char>)
    requires
        encode_utf8(a) == encode_utf8(b),
    ensures
        a == b,
{
    encode_utf8_decode_utf8(a);
    encode_utf8_decode_utf8(b);
}

/// Nothing stands before itself.
pub proof fn lemma_bytes_before_irreflexive(a: Seq<u8>)
    ensures
        !bytes_before(a, a),
    decreases a.len(),
{
    if a.len() > 0 {
        lemma_bytes_before_irreflexive(a.skip(1));
    }
}

/// Of two different byte strings one stands before the other.
pub proof fn lemma_bytes_before_total(a: Seq<u8>, b: Seq<u8>)
    ensures
        a == b || bytes_before(a, b) || bytes_before(b, a),
    decreases a.len(),
{
    if a.len() > 0 && b.len() > 0 && a[0] == b[0] {
        lemma_bytes_before_total(a.skip(1), b.skip(1));
        if a.skip(1) == b.skip(1) {
            assert(a =~= seq![a[0]] + a.skip(1));
            assert(b =~= seq![b[0]] + b.skip(1));
        }
    } else if a.len() == 0 && b.len() == 0 {
        assert(a =~= b);
    }
}

/// The order of byte strings is transitive.
pub proof fn lemma_bytes_before_transitive(a: Seq<u8>, b: Seq<u8>, c: Seq<u8>)
    requires
        bytes_before(a, b),
        bytes_before(b, c),
    ensures
        bytes_before(a, c),
    decreases a.len(),
{
    if a.len() > 0 && a[0] == b[0] && b[0] == c[0] {
        lemma_bytes_before_transitive(a.skip(1), b.skip(1), c.skip(1));
    }
}

/// Encoding one character more adds its bytes at the end.
pub proof fn lemma_utf8_push(s: Seq<char>, c: char)
    ensures
        encode_utf8(s.push(c)) == encode_utf8(s) + encode_scalar(c as u32),
    decreases s.len(),
{
    reveal_with_fuel(encode_utf8, 2);
    if s.len() == 0 {
        assert(s.push(c).drop_first() =~= Seq::<char>::empty());
        assert(encode_utf8(s.push(c)) =~= encode_utf8(s) + encode_scalar(c as u32));
    } else {
        lemma_utf8_push(s.drop_first(), c);
        assert(s.push(c).drop_first() =~= s.drop_first().push(c));
        assert(encode_utf8(s.push(c)) =~= encode_utf8(s) + encode_scalar(c as u32));
    }
}

/// Trimming leaves nothing exactly of a blank text.
pub proof fn lemma_trim_blank(s: Seq<char>)
    ensures
        trim(s).len() == 0 <==> is_blank(s),
{
    lemma_trim_start_shape(s);
    let t = trim_start(s);
    lemma_trim_end_shape(t);
    if trim(s).len() == 0 {
        if t.len() > 0 {
            assert(t.skip(0)[0] == t[0]);
        }
        assert(t.len() == 0);
        assert forall|i: int| 0 <= i < s.len() implies is_space(#[trigger] s[i]) by {
            assert(is_blank(s.take(s.len() - t.len())));
            assert(s.take(s.len() - t.len())[i] == s[i]);
        }
    }
    if is_blank(s) {
        if t.len() > 0 {
            assert(t[0] == s[s.len() - t.len()]);
        }
        assert(t.len() == 0);
    }
}

/// What `trim_start` leaves is a suffix of `s` that begins with no white space.
pub proof fn lemma_trim_start_shape(s: Seq<char>)
    ensures
        trim_start(s).len() <= s.len(),
        trim_start(s) == s.skip(s.len() - trim_start(s).len()),
        trim_start(s).len() > 0 ==> !is_space(trim_start(s)[0]),
        is_blank(s.take(s.len() - trim_start(s).len())),
    decreases s.len(),
{
    if s.len() > 0 && is_space(s[0]) {
        lemma_trim_start_shape(s.skip(1));
        let t = trim_start(s);
        let rest = s.skip(1);
        assert(t =~= s.skip(s.len() - t.len()));
        assert forall|i: int| 0 <= i < s.len() - t.len() implies is_space(
            #[trigger] s.take(s.len() - t.len())[i],
        ) by {
            if i > 0 {
                assert(rest.take(rest.len() - t.len())[i - 1] == s[i]);
            }
        }
    } else {
        assert(s =~= s.skip(0));
    }
}

/// What `trim_end` leaves is a prefix of `s` that ends with no white space.
pub proof fn lemma_trim_end_shape(s: Seq<char>)
    ensures
        trim_end(s).len() <= s.len(),
        trim_end(s) == s.take(trim_end(s).len() as int),
        trim_end(s).len() > 0 ==> !is_space(trim_end(s).last()),
        is_blank(s.skip(trim_end(s).len() as int)),
    decreases s.len(),
{
    if s.len() > 0 && is_space(s.last()) {
        lemma_trim_end_shape(s.drop_last());
        let t = trim_end(s);
        let front = s.drop_last();
        assert(t =~= s.take(t.len() as int));
        assert forall|i: int| 0 <= i < s.len() - t.len() implies is_space(
            #[trigger] s.skip(t.len() as int)[i],
        ) by {
            if i < front.len() - t.len() {
                assert(front.skip(t.len() as int)[i] == s[t.len() + i]);
            }
        }
    } else {
        assert(s =~= s.take(s.len() as int));
    }
}

/// A text that neither begins nor ends with white space is its own trim.
pub proof fn lemma_trim_fixed(s: Seq<char>)
    requires
        s.len() > 0 ==> !is_space(s[0]) && !is_space(s.last()),
    ensures
        trim(s) == s,
{
}

/// Trimming twice is trimming once.
pub proof fn lemma_trim_idempotent(s: Seq<char>)
    ensures
        trim(trim(s)) == trim(s),
{
    lemma_trim_start_shape(s);
    lemma_trim_end_shape(trim_start(s));
    let t = trim(s);
    if t.len() > 0 {
        assert(t[0] == trim_start(s)[0]);
    }
    lemma_trim_fixed(t);
}

/// White space before a text is taken off with the leading white space of the text.
proof fn lemma_trim_start_padded(before: Seq<char>, s: Seq<char>)
    requires
        is_blank(before),
    ensures
        trim_start(before + s) == trim_start(s),
    decreases before.len(),
{
    if before.len() > 0 {
        let rest = before.skip(1);
        assert forall|i: int| 0 <= i < rest.len() implies is_space(#[trigger] rest[i]) by {
            assert(rest[i] == before[i + 1]);
        }
        lemma_trim_start_padded(rest, s);
        assert((before + s).skip(1) =~= rest + s);
        assert(is_space(before[0]));
    } else {
        assert(before + s =~= s);
    }
}

/// White space after a text is taken off with the trailing white space of the text.
proof fn lemma_trim_end_padded(s: Seq<char>, after: Seq<char>)
    requires
        is_blank(after),
    ensures
        trim_end(s + after) == trim_end(s),
    decreases after.len(),
{
    if after.len() > 0 {
        let rest = after.drop_last();
        assert forall|i: int| 0 <= i < rest.len() implies is_space(#[trigger] rest[i]) by {
            assert(rest[i] == after[i]);
        }
        lemma_trim_end_padded(s, rest);
        assert((s + after).drop_last() =~= s + rest);
        assert(is_space(after[after.len() - 1]));
    } else {
        assert(s + after =~= s);
    }
}

/// What comes after a text that is not blank stays where leading white space is taken off.
proof fn lemma_trim_start_append(s: Seq<char>, after: Seq<char>)
    requires
        !is_blank(s),
    ensures
        trim_start(s + after) == trim_start(s) + after,
    decreases s.len(),
{
    if is_space(s[0]) {
        let rest = s.skip(1);
        assert(!is_blank(rest)) by {
            let i = choose|i: int| 0 <= i < s.len() && !is_space(#[trigger] s[i]);
            assert(rest[i - 1] == s[i]);
        }
        lemma_trim_start_append(rest, after);
        assert((s + after).skip(1) =~= rest + after);
    }
}

/// White space around a text does not matter where it is trimmed.
pub proof fn lemma_trim_padded(before: Seq<char>, s: Seq<char>, after: Seq<char>)
    requires
        is_blank(before),
        is_blank(after),
    ensures
        trim(before + s + after) == trim(s),
{
    assert(before + s + after =~= before + (s + after));
    lemma_trim_start_padded(before, s + after);
    if is_blank(s) {
        assert(is_blank(s + after));
        lemma_trim_blank(s + after);
        lemma_trim_blank(s);
        assert(trim(s + after) =~= trim(s));
    } else {
        lemma_trim_start_append(s, after);
        lemma_trim_end_padded(trim_start(s), after);
    }
}

/// A text is what trimming leaves of it, with white space before and after.
pub proof fn lemma_trim_parts(s: Seq<char>) -> (parts: (Seq<char>, Seq<char>))
    ensures
        is_blank(parts.0),
        is_blank(parts.1),
        parts.0 + trim(s) + parts.1 == s,
{
    lemma_trim_start_shape(s);
    let t = trim_start(s);
    lemma_trim_end_shape(t);
    let before = s.take(s.len() - t.len());
    let after = t.skip(trim(s).len() as int);
    assert(before + trim(s) + after =~= s);
    (before, after)
}

/// What `trim_end_char` leaves is a prefix of `s` that does not end with `c`.
pub proof fn lemma_trim_end_char_shape(s: Seq<char>, c: char)
    ensures
        trim_end_char(s, c).len() <= s.len(),
        trim_end_char(s, c) == s.take(trim_end_char(s, c).len() as int),
        trim_end_char(s, c).len() > 0 ==> trim_end_char(s, c).last() != c,
    decreases s.len(),
{
    if s.len() > 0 && s.last() == c {
        lemma_trim_end_char_shape(s.drop_last(), c);
        assert(trim_end_char(s, c) =~= s.take(trim_end_char(s, c).len() as int));
    } else {
        assert(s =~= s.take(s.len() as int));
    }
}

/// Different digit values have different digits.
pub proof fn lemma_digit_injective(a: nat, b: nat)
    requires
        a < 10,
        b < 10,
        digit(a) == digit(b),
    ensures
        a == b,
{
}

/// Different numbers have different decimal texts.
pub proof fn lemma_decimal_injective(a: nat, b: nat)
    requires
        decimal(a) == decimal(b),
    ensures
        a == b,
    decreases a,
{
    lemma_decimal_length(a);
    lemma_decimal_length(b);
    if a < 10 && b < 10 {
        assert(decimal(a) == seq![digit(a)]);
        assert(decimal(b) == seq![digit(b)]);
        assert(seq![digit(a)][0] == seq![digit(b)][0]);
        lemma_digit_injective(a, b);
    } else if a >= 10 && b >= 10 {
        assert(decimal(a) == decimal(a / 10).push(digit(a % 10)));
        assert(decimal(b) == decimal(b / 10).push(digit(b % 10)));
        assert(decimal(a).last() == digit(a % 10));
        assert(decimal(b).last() == digit(b % 10));
        assert(decimal(a).drop_last() =~= decimal(a / 10));
        assert(decimal(b).drop_last() =~= decimal(b / 10));
        lemma_digit_injective(a % 10, b % 10);
        lemma_decimal_injective(a / 10, b / 10);
    }
}

/// A decimal text has one digit exactly for a number below ten.
pub proof fn lemma_decimal_length(a: nat)
    ensures
        decimal(a).len() >= 1,
        a >= 10 ==> decimal(a).len() >= 2,
    decreases a,
{
    if a >= 10 {
        lemma_decimal_length(a / 10);
    }
}

/// Splitting gives at least one piece.
pub proof fn lemma_split_nonempty(s: Seq<char>, c: char)
    ensures
        split(s, c).len() >= 1,
    decreases s.len(),
{
    if s.len() > 0 {
        lemma_split_nonempty(s.drop_last(), c);
    }
}

/// Text without `c` that is appended goes to the last piece.
pub proof fn lemma_split_append(s: Seq<char>, t: Seq<char>, c: char)
    requires
        !t.contains(c),
    ensures
        split(s, c).len() >= 1,
        split(s + t, c) == split(s, c).update(split(s, c).len() - 1, split(s, c).last() + t),
    decreases t.len(),
{
    lemma_split_nonempty(s, c);
    let pieces = split(s, c);
    if t.len() == 0 {
        assert(s + t =~= s);
        assert(pieces.last() + t =~= pieces.last());
        assert(pieces.update(pieces.len() - 1, pieces.last() + t) =~= pieces);
    } else {
        let front = t.drop_last();
        assert forall|i: int| 0 <= i < front.len() implies front[i] != c by {
            assert(t.contains(t[i]));
            assert(front[i] == t[i]);
        }
        lemma_split_append(s, front, c);
        assert(t.contains(t.last()));
        assert((s + t).drop_last() =~= s + front);
        assert((s + t).last() == t.last());
        assert((pieces.last() + front).push(t.last()) =~= pieces.last() + t);
        let before = split(s + front, c);
        assert(before.update(before.len() - 1, before.last().push(t.last())) =~= pieces.update(
            pieces.len() - 1,
            pieces.last() + t,
        ));
    }
}

/// A decimal text holds digits only.
pub proof fn lemma_decimal_digits(n: nat)
    ensures
        decimal(n).len() >= 1,
        forall|i: int| 0 <= i < decimal(n).len() ==> '0' <= #[trigger] decimal(n)[i] <= '9',
    decreases n,
{
    if n >= 10 {
        lemma_decimal_digits(n / 10);
        assert(decimal(n) == decimal(n / 10).push(digit(n % 10)));
        assert forall|i: int| 0 <= i < decimal(n).len() implies '0' <= #[trigger] decimal(n)[i]
            <= '9' by {
            if i < decimal(n / 10).len() {
                assert(decimal(n)[i] == decimal(n / 10)[i]);
            }
        }
    }
}

/// What follows the last `c` of a text is determined by the text.
pub proof fn lemma_after_last(a: Seq<char>, x: Seq<char>, b: Seq<char>, y: Seq<char>, c: char)
    requires
        a.push(c) + x == b.push(c) + y,
        !x.contains(c),
        !y.contains(c),
    ensures
        x == y,
{
    let s = a.push(c) + x;
    let n = s.len();
    assert(s[n - x.len() - 1] == c);
    assert(s[n - y.len() - 1] == (b.push(c) + y)[n - y.len() - 1]);
    assert(s[n - y.len() - 1] == c);
    if x.len() < y.len() {
        let i = y.len() - x.len() - 1;
        assert(y[i] == s[n - x.len() - 1]);
        assert(y.contains(y[i]));
    } else if y.len() < x.len() {
        let i = x.len() - y.len() - 1;
        assert(x[i] == s[n - y.len() - 1]);
        assert(x.contains(x[i]));
    } else {
        assert forall|i: int| 0 <= i < x.len() implies x[i] == y[i] by {
            assert(s[n - x.len() + i] == x[i]);
            assert((b.push(c) + y)[n - x.len() + i] == y[i]);
        }
        assert(x =~= y);
    }
}

// ---------------------------------------------------------------------------
// Executable functions
// ---------------------------------------------------------------------------

/// Tells whether `c` is white space.
pub fn is_whitespace(c: char) -> (res: bool)
    ensures
        res == is_space(c),
{
    ('\u{9}' <= c && c <= '\u{d}') || c == ' ' || c == '\u{85}' || c == '\u{a0}' || c == '\u{1680}'
        || ('\u{2000}' <= c && c <= '\u{200a}') || c == '\u{2028}' || c == '\u{2029}' || c
        == '\u{202f}' || c == '\u{205f}' || c == '\u{3000}'
}

/// Collects the characters of `s`.
pub fn chars_of(s: &str) -> (res: Vec<char>)
    ensures
        res@ == s@,
{
    let mut out: Vec<char> = Vec::new();
    for c in it: s.chars()
        invariant
            it.seq() == s@,
            out@ == s@.take(it.index()),
    {
        out.push(c);
    }
    out
}

/// `String::push`: appends one character to the end of the text.
pub assume_specification[ String::push ](s: &mut String, c: char)
    ensures
        final(s)@ == old(s)@.push(c),
;

/// Builds the text that holds `chars` from `from` up to `to`.
pub fn text_of(chars: &Vec<char>, from: usize, to: usize) -> (res: String)
    requires
        from <= to <= chars@.len(),
    ensures
        res@ == chars@.subrange(from as int, to as int),
{
    let mut out = String::new();
    let mut i: usize = from;
    while i < to
        invariant
            from <= i <= to <= chars@.len(),
            out@ == chars@.subrange(from as int, i as int),
        decreases to - i,
    {
        out.push(chars[i]);
        assert(chars@.subrange(from as int, i + 1) =~= chars@.subrange(from as int, i as int).push(
            chars@[i as int],
        ));
        i += 1;
    }
    out
}

/// A copy of an optional text.
pub fn copy_opt(s: &Option<String>) -> (res: Option<String>)
    ensures
        opt_text(res) == opt_text(*s),
{
    match s {
        Some(s) => Some(s.clone()),
        None => None,
    }
}

/// `text + more`, as a new string.
pub fn cat(text: &str, more: &str) -> (res: String)
    ensures
        res@ == text@ + more@,
{
    let mut out = String::new();
    out.append(text);
    out.append(more);
    assert(out@ =~= text@ + more@);
    out
}

/// The three texts one after another.
pub fn cat3(a: &str, b: &str, c: &str) -> (res: String)
    ensures
        res@ == a@ + b@ + c@,
{
    let mut out = cat(a, b);
    out.append(c);
    out
}

/// Compares two texts.
pub fn eq(a: &str, b: &str) -> (res: bool)
    ensures
        res == (a@ == b@),
{
    let x = a.as_bytes();
    let y = b.as_bytes();
    proof {
        if x@ == y@ {
            lemma_utf8_injective(a@, b@);
        }
    }
    if x.len() != y.len() {
        return false;
    }
    let mut i: usize = 0;
    while i < x.len()
        invariant
            i <= x@.len(),
            x@.len() == y@.len(),
            x@ == encode_utf8(a@),
            y@ == encode_utf8(b@),
            x@.take(i as int) == y@.take(i as int),
        decreases x.len() - i,
    {
        if x[i] != y[i] {
            return false;
        }
        assert(x@.take(i + 1) =~= x@.take(i as int).push(x@[i as int]));
        assert(y@.take(i + 1) =~= y@.take(i as int).push(y@[i as int]));
        i += 1;
    }
    assert(x@ =~= x@.take(x@.len() as int));
    assert(y@ =~= y@.take(y@.len() as int));
    true
}

/// Tells whether `a` stands before `b` in the order of their UTF-8 bytes.
pub fn is_before(a: &str, b: &str) -> (res: bool)
    ensures
        res == text_before(a@, b@),
{
    let x = a.as_bytes();
    let y = b.as_bytes();
    let mut i: usize = 0;
    assert(x@.skip(0) =~= x@);
    assert(y@.skip(0) =~= y@);
    while i < x.len() && i < y.len()
        invariant
            i <= x@.len(),
            i <= y@.len(),
            x@ == encode_utf8(a@),
            y@ == encode_utf8(b@),
            bytes_before(x@, y@) == bytes_before(x@.skip(i as int), y@.skip(i as int)),
        decreases x.len() - i,
    {
        if x[i] != y[i] {
            return x[i] < y[i];
        }
        assert(x@.skip(i as int).skip(1) =~= x@.skip(i + 1));
        assert(y@.skip(i as int).skip(1) =~= y@.skip(i + 1));
        i += 1;
    }
    i < y.len()
}

/// Removes white space at both ends.
pub fn trimmed(s: &str) -> (res: &str)
    ensures
        res@ == trim(s@),
{
    let cs = chars_of(s);
    let n = cs.len();
    let mut from: usize = 0;
    assert(s@.skip(0) =~= s@);
    while from < n && is_whitespace(cs[from])
        invariant
            cs@ == s@,
            n == cs@.len(),
            from <= n,
            trim_start(s@) == trim_start(s@.skip(from as int)),
        decreases n - from,
    {
        assert(s@.skip(from as int).skip(1) =~= s@.skip(from + 1));
        from += 1;
    }
    let mut to: usize = n;
    assert(s@.skip(from as int) =~= s@.subrange(from as int, to as int));
    while from < to && is_whitespace(cs[to - 1])
        invariant
            cs@ == s@,
            from <= to <= n,
            n == cs@.len(),
            trim(s@) == trim_end(s@.subrange(from as int, to as int)),
        decreases to,
    {
        assert(s@.subrange(from as int, to as int).drop_last() =~= s@.subrange(
            from as int,
            to - 1,
        ));
        to -= 1;
    }
    s.substring_char(from, to)
}

/// Removes white space at the end.
pub fn trimmed_end(s: &str) -> (res: &str)
    ensures
        res@ == trim_end(s@),
{
    let cs = chars_of(s);
    let mut to: usize = cs.len();
    assert(s@ =~= s@.subrange(0, to as int));
    while 0 < to && is_whitespace(cs[to - 1])
        invariant
            cs@ == s@,
            to <= cs@.len(),
            trim_end(s@) == trim_end(s@.subrange(0, to as int)),
        decreases to,
    {
        assert(s@.subrange(0, to as int).drop_last() =~= s@.subrange(0, to - 1));
        to -= 1;
    }
    s.substring_char(0, to)
}

/// Removes every `c` at the end.
pub fn without_trailing(s: &str, c: char) -> (res: &str)
    ensures
        res@ == trim_end_char(s@, c),
{
    let cs = chars_of(s);
    let mut to: usize = cs.len();
    assert(s@ =~= s@.subrange(0, to as int));
    while 0 < to && cs[to - 1] == c
        invariant
            cs@ == s@,
            to <= cs@.len(),
            trim_end_char(s@, c) == trim_end_char(s@.subrange(0, to as int), c),
        decreases to,
    {
        assert(s@.subrange(0, to as int).drop_last() =~= s@.subrange(0, to - 1));
        to -= 1;
    }
    s.substring_char(0, to)
}

/// Removes every `c` at the start.
pub fn without_leading(s: &str, c: char) -> (res: &str)
    ensures
        res@ == trim_start_char(s@, c),
{
    let cs = chars_of(s);
    let n = cs.len();
    let mut from: usize = 0;
    assert(s@ =~= s@.skip(0));
    while from < n && cs[from] == c
        invariant
            cs@ == s@,
            n == cs@.len(),
            from <= n,
            trim_start_char(s@, c) == trim_start_char(s@.skip(from as int), c),
        decreases n - from,
    {
        assert(s@.skip(from as int).skip(1) =~= s@.skip(from + 1));
        from += 1;
    }
    s.substring_char(from, n)
}

/// Tells whether `part` stands in `cs` at `at`.
fn matches_at(cs: &Vec<char>, part: &Vec<char>, at: usize) -> (res: bool)
    requires
        at + part@.len() <= cs@.len(),
    ensures
        res == occurs_at(cs@, part@, at as int),
{
    let mut i: usize = 0;
    let n = part.len();
    let total = cs.len();
    while i < n
        invariant
            n == part@.len(),
            total == cs@.len(),
            i <= n,
            at + n <= total,
            forall|k: int| 0 <= k < i ==> cs@[at + k] == part@[k],
        decreases n - i,
    {
        if cs[at + i] != part[i] {
            proof {
                let window = cs@.subrange(at as int, at + part@.len());
                assert(window[i as int] != part@[i as int]);
            }
            return false;
        }
        i += 1;
    }
    assert(cs@.subrange(at as int, at + part@.len()) =~= part@);
    true
}

/// Tells whether `s` begins with `prefix`.
pub fn begins_with(s: &str, prefix: &str) -> (res: bool)
    ensures
        res == has_prefix(s@, prefix@),
{
    let cs = chars_of(s);
    let ps = chars_of(prefix);
    if ps.len() > cs.len() {
        return false;
    }
    assert(s@.subrange(0, prefix@.len() as int) =~= s@.take(prefix@.len() as int));
    matches_at(&cs, &ps, 0)
}

/// Tells whether `s` ends with `suffix`.
pub fn finishes_with(s: &str, suffix: &str) -> (res: bool)
    ensures
        res == has_suffix(s@, suffix@),
{
    let cs = chars_of(s);
    let ps = chars_of(suffix);
    if ps.len() > cs.len() {
        return false;
    }
    let at = cs.len() - ps.len();
    assert(s@.subrange(at as int, at + suffix@.len()) =~= s@.skip(s@.len() - suffix@.len()));
    matches_at(&cs, &ps, at)
}

/// Tells whether `part` stands anywhere in `s`.
pub fn holds_part(s: &str, part: &str) -> (res: bool)
    ensures
        res == has_part(s@, part@),
{
    let cs = chars_of(s);
    let ps = chars_of(part);
    if ps.len() > cs.len() {
        return false;
    }
    let last = cs.len() - ps.len();
    let mut at: usize = 0;
    while at < last
        invariant
            cs@ == s@,
            ps@ == part@,
            last == cs@.len() - ps@.len(),
            at <= last,
            forall|k: int| 0 <= k < at ==> !occurs_at(s@, part@, k),
        decreases last - at,
    {
        if matches_at(&cs, &ps, at) {
            return true;
        }
        at += 1;
    }
    if matches_at(&cs, &ps, last) {
        return true;
    }
    proof {
        if has_part(s@, part@) {
            let k = choose|k: int| occurs_at(s@, part@, k);
            assert(0 <= k <= last);
        }
    }
    false
}

/// Removes every copy of `prefix` that `s` begins with.
pub fn without_prefixes(s: &str, prefix: &str) -> (res: String)
    ensures
        res@ == strip_prefixes(s@, prefix@),
{
    let cs = chars_of(s);
    let ps = chars_of(prefix);
    let n = cs.len();
    let m = ps.len();
    let mut from: usize = 0;
    assert(s@.skip(0) =~= s@);
    while m > 0 && m <= n - from && matches_at(&cs, &ps, from)
        invariant
            cs@ == s@,
            ps@ == prefix@,
            n == cs@.len(),
            m == ps@.len(),
            from <= n,
            strip_prefixes(s@, prefix@) == strip_prefixes(s@.skip(from as int), prefix@),
        decreases n - from,
    {
        assert(s@.skip(from as int).take(m as int) =~= s@.subrange(from as int, from + m));
        assert(s@.skip(from as int).skip(m as int) =~= s@.skip(from + m));
        from += m;
    }
    proof {
        let rest = s@.skip(from as int);
        if m > 0 && m <= n - from {
            assert(rest.take(m as int) =~= s@.subrange(from as int, from + m));
        }
        assert(rest =~= s@.subrange(from as int, n as int));
    }
    text_of(&cs, from, n)
}

/// The characters of `s` before the first `c`.
pub fn up_to(s: &str, c: char) -> (res: String)
    ensures
        res@ == before_char(s@, c),
{
    let cs = chars_of(s);
    let n = cs.len();
    let mut to: usize = 0;
    assert(s@.skip(0) =~= s@);
    assert(s@.subrange(0, 0) + before_char(s@, c) =~= before_char(s@, c));
    while to < n && cs[to] != c
        invariant
            cs@ == s@,
            n == cs@.len(),
            to <= n,
            before_char(s@, c) == s@.subrange(0, to as int) + before_char(s@.skip(to as int), c),
        decreases n - to,
    {
        assert(s@.skip(to as int).skip(1) =~= s@.skip(to + 1));
        assert(s@.subrange(0, to + 1) + before_char(s@.skip(to + 1), c) =~= s@.subrange(
            0,
            to as int,
        ) + (seq![s@[to as int]] + before_char(s@.skip(to + 1), c)));
        to += 1;
    }
    assert(before_char(s@.skip(to as int), c) =~= Seq::<char>::empty());
    assert(s@.subrange(0, to as int) + Seq::<char>::empty() =~= s@.subrange(0, to as int));
    text_of(&cs, 0, to)
}

/// The first run of characters of `s` that are not white space.
pub fn word_of(s: &str) -> (res: String)
    ensures
        res@ == first_word(s@),
{
    let cs = chars_of(s);
    let n = cs.len();
    let mut from: usize = 0;
    assert(s@.skip(0) =~= s@);
    while from < n && is_whitespace(cs[from])
        invariant
            cs@ == s@,
            n == cs@.len(),
            from <= n,
            trim_start(s@) == trim_start(s@.skip(from as int)),
        decreases n - from,
    {
        assert(s@.skip(from as int).skip(1) =~= s@.skip(from + 1));
        from += 1;
    }
    let mut to: usize = from;
    let ghost t = s@.skip(from as int);
    assert(trim_start(s@) == t);
    assert(s@.subrange(from as int, from as int) + leading_word(t) =~= leading_word(t));
    while to < n && !is_whitespace(cs[to])
        invariant
            cs@ == s@,
            n == cs@.len(),
            from <= to <= n,
            leading_word(t) == s@.subrange(from as int, to as int) + leading_word(
                s@.skip(to as int),
            ),
        decreases n - to,
    {
        assert(s@.skip(to as int).skip(1) =~= s@.skip(to + 1));
        assert(s@.subrange(from as int, to + 1) + leading_word(s@.skip(to + 1)) =~= s@.subrange(
            from as int,
            to as int,
        ) + (seq![s@[to as int]] + leading_word(s@.skip(to + 1))));
        to += 1;
    }
    assert(leading_word(s@.skip(to as int)) =~= Seq::<char>::empty());
    assert(s@.subrange(from as int, to as int) + Seq::<char>::empty() =~= s@.subrange(
        from as int,
        to as int,
    ));
    text_of(&cs, from, to)
}

/// The pieces of `s` between occurrences of `c`.
pub fn pieces(s: &str, c: char) -> (res: Vec<String>)
    ensures
        texts(res@) == split(s@, c),
{
    let cs = chars_of(s);
    let n = cs.len();
    let mut out: Vec<String> = Vec::new();
    let mut current = String::new();
    let mut i: usize = 0;
    assert(s@.take(0) =~= Seq::<char>::empty());
    assert(texts(out@).push(current@) =~= split(s@.take(0), c));
    while i < n
        invariant
            cs@ == s@,
            n == cs@.len(),
            i <= n,
            texts(out@).push(current@) == split(s@.take(i as int), c),
        decreases n - i,
    {
        let ghost before = texts(out@).push(current@);
        assert(s@.take(i + 1).drop_last() =~= s@.take(i as int));
        if cs[i] == c {
            out.push(current);
            current = String::new();
            assert(texts(out@) =~= before);
        } else {
            current.push(cs[i]);
            assert(texts(out@).push(current@) =~= before.update(
                before.len() - 1,
                before.last().push(s@[i as int]),
            ));
        }
        i += 1;
    }
    assert(s@.take(n as int) =~= s@);
    let ghost before = texts(out@).push(current@);
    out.push(current);
    assert(texts(out@) =~= before);
    out
}

/// The parts one after another, with `sep` between neighbours.
pub fn joined(parts: &Vec<String>, sep: &str) -> (res: String)
    ensures
        res@ == join(texts(parts@), sep@),
{
    let mut out = String::new();
    let mut i: usize = 0;
    while i < parts.len()
        invariant
            i <= parts@.len(),
            out@ == join(texts(parts@).take(i as int), sep@),
        decreases parts.len() - i,
    {
        let ghost all = texts(parts@);
        assert(all.take(i + 1).drop_last() =~= all.take(i as int));
        assert(all.take(i + 1).last() == parts@[i as int]@);
        if i > 0 {
            out.append(sep);
        } else {
            assert(out@ + parts@[0]@ =~= parts@[0]@);
        }
        out.append(parts[i].as_str());
        i += 1;
    }
    assert(texts(parts@).take(parts@.len() as int) =~= texts(parts@));
    out
}

/// `n` in decimal.
pub fn u64_text(n: u64) -> (res: String)
    ensures
        res@ == decimal(n as nat),
    decreases n,
{
    let d: u64 = n % 10;
    let c: char = if d == 0 {
        '0'
    } else if d == 1 {
        '1'
    } else if d == 2 {
        '2'
    } else if d == 3 {
        '3'
    } else if d == 4 {
        '4'
    } else if d == 5 {
        '5'
    } else if d == 6 {
        '6'
    } else if d == 7 {
        '7'
    } else if d == 8 {
        '8'
    } else {
        '9'
    };
    let mut out = if n < 10 {
        String::new()
    } else {
        u64_text(n / 10)
    };
    out.push(c);
    assert(n < 10 ==> out@ =~= seq![digit(n as nat)]);
    out
}

/// `n` in decimal, with its sign.
pub fn i64_text(n: i64) -> (res: String)
    ensures
        res@ == signed_decimal(n as int),
{
    if n < 0 {
        let magnitude: u64 = if n == i64::MIN {
            9223372036854775808u64
        } else {
            (-n) as u64
        };
        let digits = u64_text(magnitude);
        let mut out = String::new();
        out.push('-');
        out.append(digits.as_str());
        assert(out@ =~= seq!['-'] + digits@);
        out
    } else {
        u64_text(n as u64)
    }
}

// ---------------------------------------------------------------------------
// Laws
// ---------------------------------------------------------------------------

/// White space is what Unicode says it is, by its code points.
pub proof fn law_white_space_by_code_point(c: char, res: bool)
    requires
        call_ensures(is_whitespace, (c,), res),
    ensures
        ({
            let code = c as u32;
            res <==> {
                ||| 0x9 <= code <= 0xd
                ||| code == 0x20
                ||| code == 0x85
                ||| code == 0xa0
                ||| code == 0x1680
                ||| 0x2000 <= code <= 0x200a
                ||| 0x2028 <= code <= 0x2029
                ||| code == 0x202f
                ||| code == 0x205f
                ||| code == 0x3000
            }
        }),
{
}

/// A text is what trimming leaves of it, with white space alone around that; what is left neither
/// begins nor ends with white space.
pub proof fn law_trimming_takes_white_space_alone<'a>(s: &'a str, res: &'a str)
    requires
        call_ensures(trimmed, (s,), res),
    ensures
        exists|before: Seq<char>, after: Seq<char>|
            is_blank(before) && is_blank(after) && s@ == #[trigger] (before + res@ + after),
        res@.len() > 0 ==> !is_space(res@[0]) && !is_space(res@.last()),
{
    let (before, after) = lemma_trim_parts(s@);
    assert(s@ == before + res@ + after);
    lemma_trim_start_shape(s@);
    lemma_trim_end_shape(trim_start(s@));
}

/// A text is what trimming its end leaves of it, with white space alone after that.
pub proof fn law_trimming_the_end_takes_white_space_alone<'a>(s: &'a str, res: &'a str)
    requires
        call_ensures(trimmed_end, (s,), res),
    ensures
        res@.len() <= s@.len(),
        res@ == s@.take(res@.len() as int),
        is_blank(s@.skip(res@.len() as int)),
        res@.len() > 0 ==> !is_space(res@.last()),
{
    lemma_trim_end_shape(s@);
}

/// What is taken off the end is the character that is meant and no other, as often as it stands
/// there.
pub proof fn law_trailing_run_is_taken_off<'a>(s: &'a str, c: char, res: &'a str)
    requires
        call_ensures(without_trailing, (s, c), res),
    ensures
        res@.len() <= s@.len(),
        res@ == s@.take(res@.len() as int),
        forall|i: int| res@.len() <= i < s@.len() ==> #[trigger] s@[i] == c,
        res@.len() > 0 ==> res@.last() != c,
{
    lemma_trim_end_char_shape(s@, c);
    lemma_trailing_run(s@, c);
}

/// What `trim_end_char` takes off is a run of the character.
pub proof fn lemma_trailing_run(s: Seq<char>, c: char)
    ensures
        forall|i: int| trim_end_char(s, c).len() <= i < s.len() ==> #[trigger] s[i] == c,
    decreases s.len(),
{
    if s.len() > 0 && s.last() == c {
        let front = s.drop_last();
        lemma_trailing_run(front, c);
        assert forall|i: int| trim_end_char(s, c).len() <= i < s.len() implies #[trigger] s[i]
            == c by {
            if i < front.len() {
                assert(front[i] == s[i]);
            }
        }
    }
}

/// What `trim_start_char` leaves is the rest after a run of the character.
pub proof fn lemma_leading_run(s: Seq<char>, c: char)
    ensures
        ({
            let t = trim_start_char(s, c);
            &&& t.len() <= s.len()
            &&& t == s.skip(s.len() - t.len())
            &&& t.len() > 0 ==> t[0] != c
            &&& forall|i: int| 0 <= i < s.len() - t.len() ==> #[trigger] s[i] == c
        }),
    decreases s.len(),
{
    if s.len() > 0 && s[0] == c {
        let rest = s.skip(1);
        lemma_leading_run(rest, c);
        let t = trim_start_char(s, c);
        assert(t =~= s.skip(s.len() - t.len()));
        assert forall|i: int| 0 <= i < s.len() - t.len() implies #[trigger] s[i] == c by {
            if i > 0 {
                assert(rest[i - 1] == s[i]);
            }
        }
    } else {
        assert(s =~= s.skip(0));
    }
}

/// What is taken off the start is the character that is meant and no other, as often as it stands
/// there.
pub proof fn law_leading_run_is_taken_off<'a>(s: &'a str, c: char, res: &'a str)
    requires
        call_ensures(without_leading, (s, c), res),
    ensures
        res@.len() <= s@.len(),
        res@ == s@.skip(s@.len() - res@.len()),
        forall|i: int| 0 <= i < s@.len() - res@.len() ==> #[trigger] s@[i] == c,
        res@.len() > 0 ==> res@[0] != c,
{
    lemma_leading_run(s@, c);
}

/// A text begins with another where it has all characters of that at its start.
pub proof fn law_prefix_character_by_character(s: &str, prefix: &str, res: bool)
    requires
        call_ensures(begins_with, (s, prefix), res),
    ensures
        res <==> prefix@.len() <= s@.len() && forall|i: int|
            0 <= i < prefix@.len() ==> #[trigger] s@[i] == prefix@[i],
{
    if prefix@.len() <= s@.len() {
        let head = s@.take(prefix@.len() as int);
        assert(forall|i: int| 0 <= i < prefix@.len() ==> head[i] == #[trigger] s@[i]);
        if forall|i: int| 0 <= i < prefix@.len() ==> #[trigger] s@[i] == prefix@[i] {
            assert forall|i: int| 0 <= i < head.len() implies head[i] == prefix@[i] by {
                assert(s@[i] == prefix@[i]);
            }
            assert(head =~= prefix@);
        }
    }
}

/// A text ends with another where it has all characters of that at its end.
pub proof fn law_suffix_character_by_character(s: &str, suffix: &str, res: bool)
    requires
        call_ensures(finishes_with, (s, suffix), res),
    ensures
        res <==> exists|front: Seq<char>| s@ == #[trigger] (front + suffix@),
{
    if res {
        let front = s@.take(s@.len() - suffix@.len());
        assert(s@ =~= front + suffix@);
    }
    if exists|front: Seq<char>| s@ == #[trigger] (front + suffix@) {
        let front = choose|front: Seq<char>| s@ == #[trigger] (front + suffix@);
        assert(s@.skip(s@.len() - suffix@.len()) =~= suffix@);
    }
}

/// A text holds another where that stands in it between any others.
pub proof fn law_part_stands_between_others(s: &str, part: &str, res: bool)
    requires
        call_ensures(holds_part, (s, part), res),
    ensures
        res <==> exists|before: Seq<char>, after: Seq<char>|
            s@ == #[trigger] (before + part@ + after),
{
    if res {
        let at = choose|at: int| occurs_at(s@, part@, at);
        let before = s@.take(at);
        let after = s@.skip(at + part@.len());
        assert(s@ =~= before + part@ + after);
    }
    if exists|before: Seq<char>, after: Seq<char>| s@ == #[trigger] (before + part@ + after) {
        let (before, after) = choose|before: Seq<char>, after: Seq<char>|
            s@ == #[trigger] (before + part@ + after);
        let at = before.len() as int;
        assert(s@.subrange(at, at + part@.len()) =~= part@);
        assert(occurs_at(s@, part@, at));
    }
}

/// What is left without prefixes begins with none, and a prefix before a text makes no difference.
pub proof fn law_prefixes_are_taken_off(
    s: &str,
    longer: &str,
    prefix: &str,
    res: String,
    longer_res: String,
)
    requires
        call_ensures(without_prefixes, (s, prefix), res),
        call_ensures(without_prefixes, (longer, prefix), longer_res),
        longer@ == prefix@ + s@,
        prefix@.len() > 0,
    ensures
        longer_res@ == res@,
        !has_prefix(res@, prefix@),
        !has_prefix(s@, prefix@) ==> res@ == s@,
{
    assert(longer@.take(prefix@.len() as int) =~= prefix@);
    assert(longer@.skip(prefix@.len() as int) =~= s@);
    lemma_no_prefix_left(s@, prefix@);
}

/// What `strip_prefixes` leaves begins with no prefix.
proof fn lemma_no_prefix_left(s: Seq<char>, prefix: Seq<char>)
    requires
        prefix.len() > 0,
    ensures
        !has_prefix(strip_prefixes(s, prefix), prefix),
    decreases s.len(),
{
    if has_prefix(s, prefix) {
        lemma_no_prefix_left(s.skip(prefix.len() as int), prefix);
    }
}

/// What stands before a character is the start of the text, holds that character nowhere, and ends
/// where the first one stands or where the text does.
pub proof fn law_text_up_to_a_character(s: &str, c: char, res: String)
    requires
        call_ensures(up_to, (s, c), res),
    ensures
        res@.len() <= s@.len(),
        res@ == s@.take(res@.len() as int),
        !res@.contains(c),
        res@.len() < s@.len() ==> s@[res@.len() as int] == c,
{
    lemma_before_char(s@, c);
}

/// What `before_char` leaves.
proof fn lemma_before_char(s: Seq<char>, c: char)
    ensures
        ({
            let t = before_char(s, c);
            &&& t.len() <= s.len()
            &&& t == s.take(t.len() as int)
            &&& !t.contains(c)
            &&& t.len() < s.len() ==> s[t.len() as int] == c
        }),
    decreases s.len(),
{
    let t = before_char(s, c);
    if s.len() == 0 || s[0] == c {
        assert(t =~= s.take(0));
    } else {
        let rest = s.skip(1);
        lemma_before_char(rest, c);
        let inner = before_char(rest, c);
        assert(t =~= s.take(t.len() as int)) by {
            assert forall|i: int| 0 <= i < t.len() implies t[i] == s[i] by {
                if i > 0 {
                    assert(t[i] == inner[i - 1]);
                    assert(inner[i - 1] == rest[i - 1]);
                }
            }
        }
        assert forall|i: int| 0 <= i < t.len() implies t[i] != c by {
            if i > 0 {
                assert(t[i] == inner[i - 1]);
                assert(inner.contains(inner[i - 1]));
            }
        }
    }
}

/// The first word of a text follows white space alone, holds none, and ends at the next or where
/// the text does; it is empty only where the text is blank.
pub proof fn law_first_word_stands_between_white_space(s: &str, res: String)
    requires
        call_ensures(word_of, (s,), res),
    ensures
        exists|before: Seq<char>, after: Seq<char>|
            {
                &&& s@ == #[trigger] (before + res@ + after)
                &&& is_blank(before)
                &&& after.len() > 0 ==> is_space(after[0])
            },
        forall|i: int| 0 <= i < res@.len() ==> !is_space(#[trigger] res@[i]),
        res@.len() == 0 ==> is_blank(s@),
{
    let t = trim_start(s@);
    lemma_trim_start_shape(s@);
    lemma_leading_word(t);
    let before = s@.take(s@.len() - t.len());
    let after = t.skip(res@.len() as int);
    assert(s@ =~= before + res@ + after);
    if res@.len() == 0 {
        assert(before =~= s@);
    }
}

/// What `leading_word` leaves.
proof fn lemma_leading_word(s: Seq<char>)
    ensures
        ({
            let t = leading_word(s);
            &&& t.len() <= s.len()
            &&& t == s.take(t.len() as int)
            &&& forall|i: int| 0 <= i < t.len() ==> !is_space(#[trigger] t[i])
            &&& t.len() < s.len() ==> is_space(s[t.len() as int])
        }),
    decreases s.len(),
{
    let t = leading_word(s);
    if s.len() == 0 || is_space(s[0]) {
        assert(t =~= s.take(0));
    } else {
        let rest = s.skip(1);
        lemma_leading_word(rest);
        let inner = leading_word(rest);
        assert forall|i: int| 0 <= i < t.len() implies t[i] == s[i] && !is_space(
            #[trigger] t[i],
        ) by {
            if i > 0 {
                assert(t[i] == inner[i - 1]);
                assert(inner[i - 1] == rest[i - 1]);
            }
        }
        assert(t =~= s.take(t.len() as int));
    }
}

/// The pieces of a text put together with the character between them are the text, and none of
/// them holds it.
proof fn lemma_split_joined(s: Seq<char>, c: char)
    ensures
        join(split(s, c), seq![c]) == s,
        forall|i: int| 0 <= i < split(s, c).len() ==> !(#[trigger] split(s, c)[i]).contains(c),
    decreases s.len(),
{
    lemma_split_nonempty(s, c);
    if s.len() == 0 {
        assert(join(split(s, c), seq![c]) =~= s);
        assert(!Seq::<char>::empty().contains(c));
    } else {
        let front = s.drop_last();
        lemma_split_joined(front, c);
        lemma_split_nonempty(front, c);
        let before = split(front, c);
        let after = split(s, c);
        let empty = Seq::<char>::empty();
        assert(!empty.contains(c));
        if s.last() == c {
            assert(after.drop_last() =~= before);
            assert(join(after, seq![c]) =~= join(before, seq![c]) + seq![c] + empty);
            assert(front + seq![c] + empty =~= s);
        } else {
            let n = before.len() - 1;
            let longer = before.last().push(s.last());
            assert(!before[n].contains(c));
            assert forall|i: int| 0 <= i < longer.len() implies longer[i] != c by {
                if i < before[n].len() {
                    assert(before[n].contains(before[n][i]));
                }
            }
            assert(after.drop_last() =~= before.drop_last());
            assert(after.last() == longer);
            if n == 0 {
                assert(join(after, seq![c]) =~= longer);
                assert(join(before, seq![c]) == before[0]);
                assert(longer =~= s);
            } else {
                let head = join(before.drop_last(), seq![c]) + seq![c];
                assert(join(after, seq![c]) == head + longer);
                assert(join(before, seq![c]) == head + before.last());
                assert(head + longer =~= (head + before.last()).push(s.last()));
                assert((head + before.last()).push(s.last()) =~= s);
            }
        }
    }
}

/// The pieces of a text put together with the character between them are the text, and none of
/// them holds it.
pub proof fn law_pieces_make_up_the_text(s: &str, c: char, res: Vec<String>)
    requires
        call_ensures(pieces, (s, c), res),
    ensures
        join(texts(res@), seq![c]) == s@,
        forall|i: int| 0 <= i < res@.len() ==> !(#[trigger] res@[i])@.contains(c),
        res@.len() >= 1,
{
    lemma_split_joined(s@, c);
    lemma_split_nonempty(s@, c);
    assert(texts(res@).len() == res@.len());
    assert forall|i: int| 0 <= i < res@.len() implies !(#[trigger] res@[i])@.contains(c) by {
        assert(texts(res@)[i] == res@[i]@);
        assert(!split(s@, c)[i].contains(c));
    }
}

/// One part is joined as it is, and one more follows the others after the separator.
pub proof fn law_parts_follow_the_separator(
    parts: &Vec<String>,
    fewer: &Vec<String>,
    sep: &str,
    res: String,
    fewer_res: String,
)
    requires
        call_ensures(joined, (parts, sep), res),
        call_ensures(joined, (fewer, sep), fewer_res),
        parts@.len() > 0,
        fewer@ == parts@.drop_last(),
    ensures
        parts@.len() == 1 ==> res@ == parts@[0]@,
        parts@.len() > 1 ==> res@ == fewer_res@ + sep@ + parts@.last()@,
        fewer@.len() == 0 ==> fewer_res@.len() == 0,
{
    assert(texts(parts@).drop_last() =~= texts(fewer@));
    assert(texts(parts@).last() == parts@.last()@);
    assert(texts(parts@).len() == parts@.len());
    assert(texts(fewer@).len() == fewer@.len());
}

/// Byte strings that begin alike stand in the order of what follows.
proof fn lemma_bytes_common(a: Seq<u8>, b: Seq<u8>, k: int)
    requires
        0 <= k <= a.len(),
        k <= b.len(),
        a.take(k) == b.take(k),
    ensures
        bytes_before(a, b) == bytes_before(a.skip(k), b.skip(k)),
    decreases k,
{
    if k == 0 {
        assert(a.skip(0) =~= a);
        assert(b.skip(0) =~= b);
    } else {
        assert(a.take(k)[0] == a[0]);
        assert(b.take(k)[0] == b[0]);
        assert(a.skip(1).take(k - 1) =~= a.take(k).skip(1));
        assert(b.skip(1).take(k - 1) =~= b.take(k).skip(1));
        lemma_bytes_common(a.skip(1), b.skip(1), k - 1);
        assert(a.skip(1).skip(k - 1) =~= a.skip(k));
        assert(b.skip(1).skip(k - 1) =~= b.skip(k));
    }
}

/// Texts stand in the order of the first bytes in which they differ; a text stands before those
/// that go on where it ends, and none before itself.
pub proof fn law_texts_stand_in_byte_order(a: &str, b: &str, k: int, res: bool)
    requires
        call_ensures(is_before, (a, b), res),
        0 <= k <= encode_utf8(a@).len(),
        k <= encode_utf8(b@).len(),
        encode_utf8(a@).take(k) == encode_utf8(b@).take(k),
    ensures
        ({
            let x = encode_utf8(a@);
            let y = encode_utf8(b@);
            &&& k < x.len() && k < y.len() && x[k] < y[k] ==> res
            &&& k < x.len() && k < y.len() && x[k] > y[k] ==> !res
            &&& k == x.len() ==> (res <==> k < y.len())
            &&& k == y.len() ==> !res
        }),
{
    lemma_bytes_common(encode_utf8(a@), encode_utf8(b@), k);
}

/// Texts are the same where they have the same characters, and are put together one after another.
pub proof fn law_texts_are_put_together(
    a: &str,
    b: &str,
    c: &str,
    same: bool,
    two: String,
    three: String,
)
    requires
        call_ensures(eq, (a, b), same),
        call_ensures(cat, (a, b), two),
        call_ensures(cat3, (a, b, c), three),
    ensures
        same <==> a@ =~= b@,
        two@ == a@ + b@,
        three@ == two@ + c@,
{
}

/// A number is written with its digits: no sign before one that is not negative, a minus sign
/// before the magnitude of one that is.
pub proof fn law_negative_numbers_have_a_sign(n: i64, magnitude: u64, res: String, digits: String)
    requires
        call_ensures(i64_text, (n,), res),
        call_ensures(u64_text, (magnitude,), digits),
        magnitude == if n < 0 { -n } else { n as int },
    ensures
        n >= 0 ==> res@ == digits@,
        n < 0 ==> res@ == seq!['-'] + digits@,
{
}

/// The characters of a text are those of the text, and the text of a range of them holds these.
pub proof fn law_characters_of_a_text(
    s: &str,
    chars: Vec<char>,
    from: usize,
    to: usize,
    res: String,
)
    requires
        call_ensures(chars_of, (s,), chars),
        call_ensures(text_of, (&chars, from, to), res),
        from <= to <= chars@.len(),
    ensures
        chars@ == s@,
        res@ == s@.subrange(from as int, to as int),
{
}

/// A copy of an optional text is the same.
pub proof fn law_copied_text_is_the_same(s: &Option<String>, res: Option<String>)
    requires
        call_ensures(copy_opt, (s,), res),
    ensures
        res is Some <==> s is Some,
        res matches Some(copy) ==> copy@ == s->0@,
{
}

} // verus!
