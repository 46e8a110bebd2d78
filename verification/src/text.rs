//! Text helpers with exact contracts over the characters of a string.
use vstd::prelude::*;
#[allow(unused_imports)]
use vstd::string::*;
#[allow(unused_imports)]
use vstd::utf8::*;

verus! {

/// `String::push` appends one character.
pub assume_specification[ std::string::String::push ](s: &mut std::string::String, c: char)
    ensures
        final(s)@ == old(s)@.push(c),
;

/// The lower-case form that `str::to_lowercase` gives of a string.
pub uninterp spec fn lowercased(s: Seq<char>) -> Seq<char>;

/// Calls `str::to_lowercase`; the result is a function of the characters alone.
#[verifier::external_body]
pub(crate) fn lowercase(s: &str) -> (r: String)
    ensures
        r@ == lowercased(s@),
{
    s.to_lowercase()
}

/// Whether two strings hold the same characters.
pub fn same_text(a: &str, b: &str) -> (r: bool)
    ensures
        r == (a@ == b@),
{
    a.to_owned() == b.to_owned()
}

/// The characters of a string, in order.
pub fn chars_of(s: &str) -> (r: Vec<char>)
    ensures
        r@ == s@,
{
    let mut out: Vec<char> = Vec::new();
    for c in it: s.chars()
        invariant
            out@ == it.seq().take(it.index() as int),
            it.seq() == s@,
    {
        out.push(c);
    }
    out
}

/// The string with the characters `v[from..to]`.
pub fn text_between(v: &Vec<char>, from: usize, to: usize) -> (r: String)
    requires
        from <= to <= v@.len(),
    ensures
        r@ == v@.subrange(from as int, to as int),
{
    let mut out: String = String::new();
    let mut i: usize = from;
    while i < to
        invariant
            from <= i <= to <= v@.len(),
            out@ == v@.subrange(from as int, i as int),
        decreases to - i,
    {
        out.push(v[i]);
        proof {
            assert(v@.subrange(from as int, i as int).push(v@[i as int]) =~= v@.subrange(
                from as int,
                i as int + 1,
            ));
        }
        i += 1;
    }
    out
}

/// Two strings, one after the other.
pub fn cat2(a: &str, b: &str) -> (r: String)
    ensures
        r@ == a@ + b@,
{
    let mut out: String = a.to_owned();
    out.append(b);
    out
}

/// Three strings, one after the other.
pub fn cat3(a: &str, b: &str, c: &str) -> (r: String)
    ensures
        r@ == a@ + b@ + c@,
{
    let mut out: String = cat2(a, b);
    out.append(c);
    out
}

/// Four strings, one after the other.
pub fn cat4(a: &str, b: &str, c: &str, d: &str) -> (r: String)
    ensures
        r@ == a@ + b@ + c@ + d@,
{
    let mut out: String = cat3(a, b, c);
    out.append(d);
    out
}

/// Five strings, one after the other.
pub fn cat5(a: &str, b: &str, c: &str, d: &str, e: &str) -> (r: String)
    ensures
        r@ == a@ + b@ + c@ + d@ + e@,
{
    let mut out: String = cat4(a, b, c, d);
    out.append(e);
    out
}

/// A copy of an optional string.
pub fn copy_option(o: &Option<String>) -> (r: Option<String>)
    ensures
        r == *o,
{
    match o {
        Some(s) => Some(s.clone()),
        None => None,
    }
}

/// The characters of an optional string.
pub open spec fn option_view(o: Option<String>) -> Option<Seq<char>> {
    match o {
        Some(s) => Some(s@),
        None => None,
    }
}

/// The characters of each string of a list.
pub open spec fn views(v: Seq<String>) -> Seq<Seq<char>> {
    v.map_values(|s: String| s@)
}

/// A copy of a list of strings.
pub fn copy_list(v: &Vec<String>) -> (r: Vec<String>)
    ensures
        views(r@) == views(v@),
{
    let mut out: Vec<String> = Vec::new();
    let mut i: usize = 0;
    while i < v.len()
        invariant
            i <= v@.len(),
            views(out@) == views(v@).take(i as int),
        decreases v.len() - i,
    {
        let ghost before = views(out@);
        out.push(v[i].clone());
        proof {
            assert(views(out@) =~= before.push(v@[i as int]@));
            assert(views(v@).take(i as int + 1) =~= before.push(v@[i as int]@));
        }
        i += 1;
    }
    proof {
        assert(views(v@).take(v@.len() as int) =~= views(v@));
    }
    out
}

/// The number of bytes that a string takes in UTF-8.
pub open spec fn byte_len(s: Seq<char>) -> nat {
    encode_utf8(s).len()
}

/// Counts the bytes that a string takes in UTF-8.
pub fn byte_count(s: &str) -> (r: usize)
    ensures
        r == byte_len(s@),
{
    s.as_bytes().len()
}

/// Bytes add up.
pub proof fn lemma_byte_len_sum(a: Seq<char>, b: Seq<char>)
    ensures
        byte_len(a + b) == byte_len(a) + byte_len(b),
    decreases a.len(),
{
    if a.len() == 0 {
        assert(a + b =~= b);
    } else {
        lemma_byte_len_sum(a.drop_first(), b);
        assert((a + b).drop_first() =~= a.drop_first() + b);
    }
}

/// A text of plain ASCII takes one byte for each character.
pub proof fn lemma_byte_len_ascii(s: Seq<char>)
    requires
        is_ascii_chars(s),
    ensures
        byte_len(s) == s.len(),
{
    is_ascii_chars_encode_utf8(s);
}

/// The number of bytes that a character takes in UTF-8.
pub fn char_bytes(c: char) -> (r: usize)
    ensures
        r == byte_len(seq![c]),
        1 <= r <= 4,
{
    let n: u32 = c as u32;
    proof {
        let one = seq![c];
        assert(encode_utf8(Seq::<char>::empty()).len() == 0);
        assert(one.drop_first() =~= Seq::<char>::empty());
        assert(encode_utf8(one) == encode_scalar(one[0] as u32) + encode_utf8(one.drop_first()));
    }
    if n < 0x80 {
        1
    } else if n < 0x800 {
        2
    } else if n < 0x10000 {
        3
    } else {
        4
    }
}

/// The longest beginning of `s` that takes at most `n` bytes.
pub open spec fn prefix_within(s: Seq<char>, n: int) -> Seq<char>
    decreases s.len(),
{
    if s.len() == 0 || byte_len(s) <= n {
        s
    } else {
        prefix_within(s.drop_last(), n)
    }
}

/// A beginning takes no more bytes than the whole.
pub proof fn lemma_prefix_bytes(s: Seq<char>, k: int)
    requires
        0 <= k <= s.len(),
    ensures
        byte_len(s.take(k)) <= byte_len(s),
{
    lemma_byte_len_sum(s.take(k), s.skip(k));
    assert(s.take(k) + s.skip(k) =~= s);
}

/// What is cut off to fit takes at most that many bytes.
pub proof fn lemma_prefix_within(s: Seq<char>, n: int)
    requires
        n >= 0,
    ensures
        byte_len(prefix_within(s, n)) <= n,
    decreases s.len(),
{
    if s.len() > 0 && byte_len(s) > n {
        lemma_prefix_within(s.drop_last(), n);
    }
}

proof fn lemma_prefix_is(s: Seq<char>, n: int, k: int)
    requires
        0 <= k <= s.len(),
        byte_len(s.take(k)) <= n,
        k < s.len() ==> byte_len(s.take(k + 1)) > n,
    ensures
        prefix_within(s, n) == s.take(k),
    decreases s.len() - k,
{
    if k == s.len() {
        assert(s.take(k) =~= s);
    } else {
        lemma_prefix_bytes(s, k + 1);
        let t = s.drop_last();
        assert(t.take(k) =~= s.take(k));
        if k < t.len() {
            assert(t.take(k + 1) =~= s.take(k + 1));
        }
        lemma_prefix_is(t, n, k);
    }
}

/// Cuts a string at the last character that keeps it within `n` bytes.
pub fn cut_to_bytes(s: &str, n: usize) -> (r: String)
    ensures
        r@ == prefix_within(s@, n as int),
{
    let v: Vec<char> = chars_of(s);
    let mut bytes: usize = 0;
    let mut k: usize = 0;
    proof {
        assert(s@.take(0) =~= Seq::<char>::empty());
    }
    while k < v.len()
        invariant
            k <= v@.len(),
            v@ == s@,
            bytes == byte_len(s@.take(k as int)),
            bytes <= n,
        decreases v.len() - k,
    {
        let w: usize = char_bytes(v[k]);
        proof {
            lemma_byte_len_sum(s@.take(k as int), seq![s@[k as int]]);
            assert(s@.take(k as int) + seq![s@[k as int]] =~= s@.take(k as int + 1));
        }
        if w > n - bytes {
            proof {
                lemma_prefix_is(s@, n as int, k as int);
                assert(v@.subrange(0, k as int) =~= s@.take(k as int));
            }
            return text_between(&v, 0, k);
        }
        bytes += w;
        k += 1;
    }
    proof {
        lemma_prefix_is(s@, n as int, k as int);
        assert(v@.subrange(0, k as int) =~= s@.take(k as int));
    }
    text_between(&v, 0, k)
}

/// How many characters of `s` take exactly `n` bytes, if some do.
pub open spec fn char_index(s: Seq<char>, n: int) -> Option<int>
    decreases s.len(),
{
    if n == 0 {
        Some(0)
    } else if s.len() == 0 || n < byte_len(seq![s[0]]) {
        None
    } else {
        match char_index(s.drop_first(), n - byte_len(seq![s[0]])) {
            Some(k) => Some(k + 1),
            None => None,
        }
    }
}

/// The characters of a beginning are found by its bytes.
pub proof fn lemma_char_index(a: Seq<char>, b: Seq<char>)
    ensures
        char_index(a + b, byte_len(a) as int) == Some(a.len() as int),
    decreases a.len(),
{
    if a.len() == 0 {
        assert(a + b =~= b);
    } else {
        let rest = a.drop_first();
        assert((a + b).drop_first() =~= rest + b);
        lemma_byte_len_sum(seq![a[0]], rest);
        assert(seq![a[0]] + rest =~= a);
        assert((a + b)[0] == a[0]);
        lemma_char_index(rest, b);
        assert(encode_utf8(seq![a[0]]).len() >= 1) by {
            assert(encode_utf8(seq![a[0]]) == encode_scalar(seq![a[0]][0] as u32) + encode_utf8(
                seq![a[0]].drop_first(),
            ));
        }
    }
}

/// Counts the characters that take exactly `n` bytes, if some do.
pub fn find_char_index(v: &Vec<char>, n: usize) -> (r: Option<usize>)
    ensures
        match r {
            Some(k) => char_index(v@, n as int) == Some(k as int) && k <= v@.len(),
            None => char_index(v@, n as int) is None,
        },
{
    let mut left: usize = n;
    let mut k: usize = 0;
    proof {
        assert(v@.skip(0) =~= v@);
    }
    while left > 0
        invariant
            k <= v@.len(),
            left <= n,
            match char_index(v@.skip(k as int), left as int) {
                Some(m) => char_index(v@, n as int) == Some(k + m),
                None => char_index(v@, n as int) is None,
            },
        decreases left,
    {
        if k >= v.len() {
            return None;
        }
        let w: usize = char_bytes(v[k]);
        proof {
            assert(v@.skip(k as int)[0] == v@[k as int]);
            assert(v@.skip(k as int).drop_first() =~= v@.skip(k as int + 1));
        }
        if left < w {
            return None;
        }
        left -= w;
        k += 1;
    }
    Some(k)
}

// ---- texts in logs ----

/// A text as it is shown in a log, in quotes.
pub uninterp spec fn shown_text(s: Seq<char>) -> Seq<char>;

/// Prints a text with `{:?}`; the result is a function of the text alone.
#[verifier::external_body]
pub(crate) fn show_text(s: &str) -> (r: String)
    ensures
        r@ == shown_text(s@),
{
    format!("{s:?}")
}

/// What the `Debug` form of a list of strings prints.
pub uninterp spec fn shown_list(items: Seq<Seq<char>>) -> Seq<char>;

/// Prints a list of strings with its `Debug` form; the result is a function of
/// the strings alone.
#[verifier::external_body]
pub(crate) fn show_list(items: &Vec<String>) -> (r: String)
    ensures
        r@ == shown_list(views(items@)),
{
    format!("{:?}", items)
}

// ---- white space ----

/// The characters with the Unicode property `White_Space`.
pub open spec fn is_white(c: char) -> bool {
    let n = c as u32;
    ||| 0x9 <= n <= 0xd
    ||| n == 0x20
    ||| n == 0x85
    ||| n == 0xa0
    ||| n == 0x1680
    ||| 0x2000 <= n <= 0x200a
    ||| n == 0x2028
    ||| n == 0x2029
    ||| n == 0x202f
    ||| n == 0x205f
    ||| n == 0x3000
}

/// Whether `c` is white space.
pub fn is_whitespace(c: char) -> (r: bool)
    ensures
        r == is_white(c),
{
    let n: u32 = c as u32;
    (0x9 <= n && n <= 0xd) || n == 0x20 || n == 0x85 || n == 0xa0 || n == 0x1680 || (0x2000 <= n
        && n <= 0x200a) || n == 0x2028 || n == 0x2029 || n == 0x202f || n == 0x205f || n == 0x3000
}

/// `s` without its leading white space.
pub open spec fn trim_front(s: Seq<char>) -> Seq<char>
    decreases s.len(),
{
    if s.len() > 0 && is_white(s[0]) {
        trim_front(s.drop_first())
    } else {
        s
    }
}

/// `s` without its trailing white space.
pub open spec fn trim_back(s: Seq<char>) -> Seq<char>
    decreases s.len(),
{
    if s.len() > 0 && is_white(s.last()) {
        trim_back(s.drop_last())
    } else {
        s
    }
}

/// `s` without white space at either end.
pub open spec fn trimmed(s: Seq<char>) -> Seq<char> {
    trim_back(trim_front(s))
}

/// A string holds nothing but white space.
pub open spec fn blank(s: Seq<char>) -> bool {
    forall|i: int| 0 <= i < s.len() ==> is_white(#[trigger] s[i])
}

/// Trimming leaves nothing exactly of the blank strings.
pub proof fn lemma_trimmed_blank(s: Seq<char>)
    ensures
        trimmed(s).len() == 0 <==> blank(s),
{
    lemma_trim_front_blank(s);
    lemma_trim_back_blank(trim_front(s));
}

proof fn lemma_trim_front_blank(s: Seq<char>)
    ensures
        blank(trim_front(s)) <==> blank(s),
        trim_front(s).len() > 0 ==> !is_white(trim_front(s)[0]),
    decreases s.len(),
{
    if s.len() > 0 && is_white(s[0]) {
        lemma_trim_front_blank(s.drop_first());
        if blank(s.drop_first()) {
            assert forall|i: int| 0 <= i < s.len() implies is_white(#[trigger] s[i]) by {
                if i > 0 {
                    assert(s[i] == s.drop_first()[i - 1]);
                }
            }
        }
    }
}

proof fn lemma_trim_back_blank(s: Seq<char>)
    ensures
        trim_back(s).len() == 0 <==> blank(s),
    decreases s.len(),
{
    if s.len() > 0 && is_white(s.last()) {
        lemma_trim_back_blank(s.drop_last());
        if blank(s.drop_last()) {
            assert forall|i: int| 0 <= i < s.len() implies is_white(#[trigger] s[i]) by {
                if i < s.len() - 1 {
                    assert(s[i] == s.drop_last()[i]);
                }
            }
        }
    } else if s.len() > 0 {
        assert(!is_white(s[s.len() - 1]));
    }
}

proof fn lemma_trim_back_ends(s: Seq<char>)
    ensures
        trim_back(s).len() > 0 ==> trim_back(s)[0] == s[0] && !is_white(trim_back(s).last()),
        trim_back(s).len() <= s.len(),
    decreases s.len(),
{
    if s.len() > 0 && is_white(s.last()) {
        lemma_trim_back_ends(s.drop_last());
    }
}

/// What was trimmed has nothing left to trim.
pub proof fn lemma_trimmed_twice(s: Seq<char>)
    ensures
        trimmed(trimmed(s)) == trimmed(s),
{
    lemma_trim_front_blank(s);
    lemma_trim_back_ends(trim_front(s));
}

/// The string without white space at either end.
pub fn trim<'a>(s: &'a str) -> (r: &'a str)
    ensures
        r@ == trimmed(s@),
{
    let cs: Vec<char> = chars_of(s);
    let mut from: usize = 0;
    proof {
        assert(s@.skip(0) =~= s@);
    }
    while from < cs.len() && is_whitespace(cs[from])
        invariant
            from <= cs@.len(),
            cs@ == s@,
            trim_front(s@) == trim_front(s@.skip(from as int)),
        decreases cs.len() - from,
    {
        proof {
            assert(s@.skip(from as int).drop_first() =~= s@.skip(from as int + 1));
        }
        from += 1;
    }
    let mut to: usize = cs.len();
    proof {
        assert(s@.skip(from as int) =~= s@.subrange(from as int, to as int));
    }
    while to > from && is_whitespace(cs[to - 1])
        invariant
            from <= to <= cs@.len(),
            cs@ == s@,
            trimmed(s@) == trim_back(s@.subrange(from as int, to as int)),
        decreases to - from,
    {
        proof {
            assert(s@.subrange(from as int, to as int).drop_last() =~= s@.subrange(
                from as int,
                to as int - 1,
            ));
        }
        to -= 1;
    }
    s.substring_char(from, to)
}

/// The string without white space at its end.
pub fn trim_end<'a>(s: &'a str) -> (r: &'a str)
    ensures
        r@ == trim_back(s@),
{
    let cs: Vec<char> = chars_of(s);
    let mut to: usize = cs.len();
    proof {
        assert(s@.take(to as int) =~= s@);
    }
    while to > 0 && is_whitespace(cs[to - 1])
        invariant
            to <= cs@.len(),
            cs@ == s@,
            trim_back(s@) == trim_back(s@.take(to as int)),
        decreases to,
    {
        proof {
            assert(s@.take(to as int).drop_last() =~= s@.take(to as int - 1));
        }
        to -= 1;
    }
    proof {
        assert(s@.subrange(0, to as int) =~= s@.take(to as int));
    }
    s.substring_char(0, to)
}

/// Whether a string holds nothing but white space.
pub fn is_blank(s: &str) -> (r: bool)
    ensures
        r == blank(s@),
        r == (trimmed(s@).len() == 0),
{
    proof {
        lemma_trimmed_blank(s@);
    }
    trim(s).is_empty()
}

// ---- case ----

/// An ASCII letter in lower case; any other character as it is.
pub open spec fn ascii_lower(c: char) -> char {
    if 'A' <= c && c <= 'Z' {
        (c as u32 + 32) as char
    } else {
        c
    }
}

/// Two texts agree but for the case of ASCII letters.
pub open spec fn same_but_case(a: Seq<char>, b: Seq<char>) -> bool {
    a.len() == b.len() && forall|i: int|
        0 <= i < a.len() ==> ascii_lower(#[trigger] a[i]) == ascii_lower(b[i])
}

fn lower_ascii(c: char) -> (r: char)
    ensures
        r == ascii_lower(c),
{
    if 'A' <= c && c <= 'Z' {
        (c as u8 + 32) as char
    } else {
        c
    }
}

/// Whether two texts agree but for the case of ASCII letters.
pub fn eq_ignore_case(a: &str, b: &str) -> (r: bool)
    ensures
        r == same_but_case(a@, b@),
{
    let x: Vec<char> = chars_of(a);
    let y: Vec<char> = chars_of(b);
    if x.len() != y.len() {
        return false;
    }
    let mut i: usize = 0;
    while i < x.len()
        invariant
            i <= x@.len(),
            x@.len() == y@.len(),
            x@ == a@,
            y@ == b@,
            forall|j: int| 0 <= j < i ==> ascii_lower(#[trigger] x@[j]) == ascii_lower(y@[j]),
        decreases x.len() - i,
    {
        if lower_ascii(x[i]) != lower_ascii(y[i]) {
            return false;
        }
        i += 1;
    }
    true
}

// ---- numbers ----

/// The character for one decimal digit.
pub open spec fn digit_char(d: nat) -> char {
    (48 + d) as char
}

/// A natural number in decimal.
pub open spec fn decimal(n: nat) -> Seq<char>
    decreases n,
{
    if n < 10 {
        seq![digit_char(n)]
    } else {
        decimal(n / 10).push(digit_char(n % 10))
    }
}

/// An integer in decimal.
pub open spec fn signed_decimal(i: int) -> Seq<char> {
    if i < 0 {
        seq!['-'] + decimal((-i) as nat)
    } else {
        decimal(i as nat)
    }
}

fn digit(d: u64) -> (c: char)
    requires
        d < 10,
    ensures
        c == digit_char(d as nat),
{
    (48 + d as u8) as char
}

/// A number in decimal.
pub fn decimal_text(n: u64) -> (r: String)
    ensures
        r@ == decimal(n as nat),
    decreases n,
{
    let mut out: String = if n < 10 {
        String::new()
    } else {
        decimal_text(n / 10)
    };
    out.push(digit(n % 10));
    out
}

/// A signed number in decimal.
pub fn signed_text(n: i64) -> (r: String)
    ensures
        r@ == signed_decimal(n as int),
{
    if n < 0 {
        let m: u64 = (0 - n as i128) as u64;
        let mut out: String = String::new();
        out.push('-');
        let digits: String = decimal_text(m);
        out.append(digits.as_str());
        proof {
            assert(Seq::<char>::empty().push('-') =~= seq!['-']);
        }
        out
    } else {
        decimal_text(n as u64)
    }
}

/// `0` to `9`.
pub open spec fn is_digit(c: char) -> bool {
    '0' <= c && c <= '9'
}

/// One digit or more and nothing else.
pub open spec fn all_digits(s: Seq<char>) -> bool {
    s.len() > 0 && forall|i: int| 0 <= i < s.len() ==> is_digit(#[trigger] s[i])
}

/// The number that a row of digits stands for.
pub open spec fn digits_value(s: Seq<char>) -> nat
    decreases s.len(),
{
    if s.len() == 0 {
        0
    } else {
        (digits_value(s.drop_last()) * 10 + (s.last() as int - 48)) as nat
    }
}

/// The number that `s` writes in decimal, with an optional `+`.
pub open spec fn unsigned_value(s: Seq<char>) -> Option<int> {
    let d = if s.len() > 0 && s[0] == '+' {
        s.drop_first()
    } else {
        s
    };
    if all_digits(d) {
        Some(digits_value(d) as int)
    } else {
        None
    }
}

/// A number in decimal is made of digits, and reads back as itself.
pub proof fn lemma_decimal_reads_back(n: nat)
    ensures
        all_digits(decimal(n)),
        digits_value(decimal(n)) == n,
        unsigned_value(decimal(n)) == Some(n as int),
    decreases n,
{
    let d = decimal(n);
    if n < 10 {
        assert(d.drop_last() =~= Seq::<char>::empty());
        assert(digits_value(d.drop_last()) == 0);
    } else {
        lemma_decimal_reads_back(n / 10);
        assert(d.drop_last() =~= decimal(n / 10));
        let t = decimal(n / 10);
        assert forall|i: int| 0 <= i < d.len() implies is_digit(#[trigger] d[i]) by {
            if i < t.len() {
                assert(is_digit(t[i]));
            }
        }
    }
    assert(is_digit(d[0]));
}

/// The number that `s` writes in decimal, with an optional `+` or `-`.
pub open spec fn signed_value(s: Seq<char>) -> Option<int> {
    if s.len() > 0 && s[0] == '-' {
        if all_digits(s.drop_first()) {
            Some(-(digits_value(s.drop_first()) as int))
        } else {
            None
        }
    } else {
        unsigned_value(s)
    }
}

proof fn lemma_digits_value_prefix(s: Seq<char>, k: int)
    requires
        0 <= k <= s.len(),
        forall|i: int| 0 <= i < s.len() ==> is_digit(#[trigger] s[i]),
    ensures
        digits_value(s.take(k)) <= digits_value(s),
    decreases s.len(),
{
    if k == s.len() {
        assert(s.take(k) =~= s);
    } else {
        let t = s.drop_last();
        assert(t.take(k) =~= s.take(k));
        lemma_digits_value_prefix(t, k);
        assert(is_digit(s[s.len() - 1]));
    }
}

/// Reads the digits `v[from..]`.
fn read_digits(v: &Vec<char>, from: usize) -> (r: Option<u64>)
    requires
        from <= v@.len(),
    ensures
        match r {
            Some(n) => all_digits(v@.skip(from as int)) && n == digits_value(v@.skip(from as int)),
            None => !all_digits(v@.skip(from as int)) || digits_value(v@.skip(from as int))
                > u64::MAX,
        },
{
    let ghost d = v@.skip(from as int);
    if from == v.len() {
        return None;
    }
    let mut i: usize = from;
    while i < v.len()
        invariant
            from <= i <= v@.len(),
            d == v@.skip(from as int),
            forall|j: int| 0 <= j < i - from ==> is_digit(#[trigger] d[j]),
        decreases v.len() - i,
    {
        if !('0' <= v[i] && v[i] <= '9') {
            proof {
                assert(!is_digit(d[i - from]));
            }
            return None;
        }
        i += 1;
    }
    let mut acc: u64 = 0;
    let mut k: usize = from;
    while k < v.len()
        invariant
            from <= k <= v@.len(),
            d == v@.skip(from as int),
            d.len() == v@.len() - from,
            forall|j: int| 0 <= j < d.len() ==> is_digit(#[trigger] d[j]),
            acc == digits_value(d.take(k - from)),
        decreases v.len() - k,
    {
        let c: char = v[k];
        proof {
            assert(c == d[k - from]);
            assert(is_digit(c));
            assert(d.take(k - from + 1).drop_last() =~= d.take(k - from));
            lemma_digits_value_prefix(d, k - from + 1);
        }
        let next: u128 = acc as u128 * 10 + (c as u32 - 48) as u128;
        if next > u64::MAX as u128 {
            return None;
        }
        acc = next as u64;
        k += 1;
    }
    proof {
        assert(d.take(v@.len() - from) =~= d);
    }
    Some(acc)
}

/// Reads an unsigned number, as `str::parse::<u64>` does.
pub fn parse_u64(s: &str) -> (r: Option<u64>)
    ensures
        match r {
            Some(n) => unsigned_value(s@) == Some(n as int),
            None => unsigned_value(s@) is None || unsigned_value(s@)->0 > u64::MAX,
        },
{
    let v: Vec<char> = chars_of(s);
    let from: usize = if v.len() > 0 && v[0] == '+' {
        1
    } else {
        0
    };
    proof {
        assert(s@.skip(0) =~= s@);
        if s@.len() > 0 {
            assert(s@.skip(1) =~= s@.drop_first());
        }
    }
    read_digits(&v, from)
}

/// Reads a signed number, as `str::parse::<i64>` does.
pub fn parse_i64(s: &str) -> (r: Option<i64>)
    ensures
        match r {
            Some(n) => signed_value(s@) == Some(n as int),
            None => signed_value(s@) is None || signed_value(s@)->0 > i64::MAX
                || signed_value(s@)->0 < i64::MIN,
        },
{
    let v: Vec<char> = chars_of(s);
    let negative: bool = v.len() > 0 && v[0] == '-';
    let from: usize = if negative || (v.len() > 0 && v[0] == '+') {
        1
    } else {
        0
    };
    proof {
        assert(s@.skip(0) =~= s@);
        if s@.len() > 0 {
            assert(s@.skip(1) =~= s@.drop_first());
        }
    }
    match read_digits(&v, from) {
        None => None,
        Some(n) => {
            if negative {
                if n <= 0x8000_0000_0000_0000 {
                    Some((0 - n as i128) as i64)
                } else {
                    None
                }
            } else if n <= 0x7fff_ffff_ffff_ffff {
                Some(n as i64)
            } else {
                None
            }
        },
    }
}

// ---- searching ----

/// `p` stands in `s` at position `i`.
pub open spec fn occurs_at(s: Seq<char>, p: Seq<char>, i: int) -> bool {
    0 <= i && i + p.len() <= s.len() && s.subrange(i, i + p.len()) == p
}

/// `s` begins with `p`.
pub open spec fn has_prefix(s: Seq<char>, p: Seq<char>) -> bool {
    occurs_at(s, p, 0)
}

/// `s` ends with `p`.
pub open spec fn has_suffix(s: Seq<char>, p: Seq<char>) -> bool {
    occurs_at(s, p, s.len() - p.len())
}

/// `p` stands somewhere in `s`.
pub open spec fn has_part(s: Seq<char>, p: Seq<char>) -> bool {
    exists|i: int| occurs_at(s, p, i)
}

/// Whether `p` stands in `s` at position `i`.
pub fn matches_at(s: &Vec<char>, p: &Vec<char>, i: usize) -> (r: bool)
    ensures
        r == occurs_at(s@, p@, i as int),
{
    if i > s.len() || p.len() > s.len() - i {
        return false;
    }
    let mut k: usize = 0;
    while k < p.len()
        invariant
            k <= p@.len(),
            i + p.len() <= s.len(),
            forall|j: int| 0 <= j < k ==> s@[i + j] == #[trigger] p@[j],
        decreases p.len() - k,
    {
        if s[i + k] != p[k] {
            proof {
                assert(s@.subrange(i as int, i + p@.len())[k as int] != p@[k as int]);
            }
            return false;
        }
        k += 1;
    }
    proof {
        assert(s@.subrange(i as int, i + p@.len()) =~= p@);
    }
    true
}

/// Whether `s` begins with `p`.
pub fn starts_with(s: &str, p: &str) -> (r: bool)
    ensures
        r == has_prefix(s@, p@),
{
    let sv: Vec<char> = chars_of(s);
    let pv: Vec<char> = chars_of(p);
    matches_at(&sv, &pv, 0)
}

/// Whether `s` ends with `p`.
pub fn ends_with(s: &str, p: &str) -> (r: bool)
    ensures
        r == has_suffix(s@, p@),
{
    let sv: Vec<char> = chars_of(s);
    let pv: Vec<char> = chars_of(p);
    if pv.len() > sv.len() {
        return false;
    }
    matches_at(&sv, &pv, sv.len() - pv.len())
}

/// What follows the prefix `p` of `s`.
pub fn strip_prefix<'a>(s: &'a str, p: &str) -> (r: Option<&'a str>)
    ensures
        match r {
            Some(rest) => has_prefix(s@, p@) && rest@ == s@.skip(p@.len() as int),
            None => !has_prefix(s@, p@),
        },
{
    if starts_with(s, p) {
        let n: usize = p.unicode_len();
        let m: usize = s.unicode_len();
        proof {
            assert(s@.subrange(n as int, m as int) =~= s@.skip(p@.len() as int));
        }
        Some(s.substring_char(n, m))
    } else {
        None
    }
}

/// Whether `p` stands somewhere in `s`.
pub fn contains_text(s: &str, p: &str) -> (r: bool)
    ensures
        r == has_part(s@, p@),
{
    let sv: Vec<char> = chars_of(s);
    let pv: Vec<char> = chars_of(p);
    let mut i: usize = 0;
    if pv.len() > sv.len() {
        return false;
    }
    let last: usize = sv.len() - pv.len();
    while i <= last
        invariant
            sv@ == s@,
            pv@ == p@,
            last == sv@.len() - pv@.len(),
            forall|j: int| 0 <= j < i ==> !occurs_at(s@, p@, j),
        decreases last + 1 - i,
    {
        if matches_at(&sv, &pv, i) {
            return true;
        }
        if i == last {
            return false;
        }
        i += 1;
    }
    false
}

/// The first position at which `p` stands in `s`.
pub open spec fn first_part(s: Seq<char>, p: Seq<char>) -> Option<int>
    decreases s.len(),
{
    if has_prefix(s, p) {
        Some(0)
    } else if s.len() == 0 {
        None
    } else {
        match first_part(s.drop_first(), p) {
            Some(i) => Some(i + 1),
            None => None,
        }
    }
}

/// Finds the first position at which `p` stands in `s`.
pub fn find_text(s: &str, p: &str) -> (r: Option<usize>)
    ensures
        match (r, first_part(s@, p@)) {
            (Some(a), Some(b)) => a == b && a + p@.len() <= s@.len(),
            (None, None) => true,
            _ => false,
        },
{
    let sv: Vec<char> = chars_of(s);
    let pv: Vec<char> = chars_of(p);
    let mut i: usize = 0;
    proof {
        assert(s@.skip(0) =~= s@);
    }
    while i <= sv.len()
        invariant
            i <= sv@.len() + 1,
            sv@ == s@,
            pv@ == p@,
            i <= sv@.len() ==> first_part(s@, p@) == (match first_part(s@.skip(i as int), p@) {
                Some(x) => Some(x + i),
                None => None,
            }),
            i == sv@.len() + 1 ==> first_part(s@, p@) is None,
        decreases sv.len() + 1 - i,
    {
        proof {
            if i + p@.len() <= s@.len() {
                assert(s@.skip(i as int).subrange(0, p@.len() as int) =~= s@.subrange(
                    i as int,
                    i + p@.len(),
                ));
            }
            if i < s@.len() {
                assert(s@.skip(i as int).drop_first() =~= s@.skip(i as int + 1));
            }
        }
        if matches_at(&sv, &pv, i) {
            return Some(i);
        }
        if i == sv.len() {
            return None;
        }
        i += 1;
    }
    None
}

// ---- slices and control characters ----

/// A control character of Unicode.
pub open spec fn control(c: char) -> bool {
    (c as int) < 0x20 || 0x7f <= (c as int) <= 0x9f
}

/// Whether a character is a control character.
pub fn is_control(c: char) -> (r: bool)
    ensures
        r == control(c),
{
    let n: u32 = c as u32;
    n < 0x20 || (0x7f <= n && n <= 0x9f)
}

/// The smaller of two numbers.
pub open spec fn smaller(a: int, b: int) -> int {
    if a < b {
        a
    } else {
        b
    }
}

/// At most `limit` characters of `s`, from the character at `offset` on.
pub open spec fn sliced(s: Seq<char>, offset: int, limit: int) -> Seq<char> {
    let from = smaller(offset, s.len() as int);
    s.subrange(from, smaller(from + limit, s.len() as int))
}

/// Takes at most `limit` characters, from the character at `offset` on.
pub fn slice_chars(s: &str, offset: usize, limit: usize) -> (r: String)
    ensures
        r@ == sliced(s@, offset as int, limit as int),
{
    let v: Vec<char> = chars_of(s);
    let from: usize = if offset < v.len() {
        offset
    } else {
        v.len()
    };
    let to: usize = if limit < v.len() - from {
        from + limit
    } else {
        v.len()
    };
    text_between(&v, from, to)
}

// ---- order ----

/// `a` stands before `b` in the order of their characters.
pub open spec fn text_before(a: Seq<char>, b: Seq<char>) -> bool
    decreases a.len(),
{
    if b.len() == 0 {
        false
    } else if a.len() == 0 {
        true
    } else if a[0] != b[0] {
        (a[0] as int) < (b[0] as int)
    } else {
        text_before(a.drop_first(), b.drop_first())
    }
}

/// Whether `a` stands before `b` in the order of their characters.
pub fn is_before(a: &str, b: &str) -> (r: bool)
    ensures
        r == text_before(a@, b@),
{
    let av: Vec<char> = chars_of(a);
    let bv: Vec<char> = chars_of(b);
    let mut i: usize = 0;
    proof {
        assert(a@.skip(0) =~= a@);
        assert(b@.skip(0) =~= b@);
    }
    while i < av.len() && i < bv.len() && av[i] == bv[i]
        invariant
            i <= av@.len(),
            i <= bv@.len(),
            av@ == a@,
            bv@ == b@,
            text_before(a@, b@) == text_before(a@.skip(i as int), b@.skip(i as int)),
        decreases av.len() - i,
    {
        proof {
            assert(a@.skip(i as int).drop_first() =~= a@.skip(i as int + 1));
            assert(b@.skip(i as int).drop_first() =~= b@.skip(i as int + 1));
        }
        i += 1;
    }
    if i == bv.len() {
        false
    } else if i == av.len() {
        true
    } else {
        let x: char = av[i];
        let y: char = bv[i];
        x < y
    }
}

/// The order is asymmetric.
pub proof fn lemma_text_before_asymmetric(a: Seq<char>, b: Seq<char>)
    ensures
        text_before(a, b) ==> !text_before(b, a),
    decreases a.len(),
{
    if a.len() > 0 && b.len() > 0 && a[0] == b[0] {
        lemma_text_before_asymmetric(a.drop_first(), b.drop_first());
    }
}

/// The order is transitive.
pub proof fn lemma_text_before_transitive(a: Seq<char>, b: Seq<char>, c: Seq<char>)
    requires
        text_before(a, b),
        text_before(b, c),
    ensures
        text_before(a, c),
    decreases a.len(),
{
    if a.len() > 0 && b.len() > 0 && c.len() > 0 && a[0] == b[0] && b[0] == c[0] {
        lemma_text_before_transitive(a.drop_first(), b.drop_first(), c.drop_first());
    }
}

/// Of two different strings one stands before the other.
pub proof fn lemma_text_before_total(a: Seq<char>, b: Seq<char>)
    ensures
        a == b || text_before(a, b) || text_before(b, a),
    decreases a.len(),
{
    if a.len() > 0 && b.len() > 0 && a[0] == b[0] {
        lemma_text_before_total(a.drop_first(), b.drop_first());
        if a.drop_first() == b.drop_first() {
            assert(a.len() == a.drop_first().len() + 1);
            assert(b.len() == b.drop_first().len() + 1);
            assert forall|i: int| 0 <= i < a.len() implies a[i] == b[i] by {
                if i > 0 {
                    assert(a[i] == a.drop_first()[i - 1]);
                    assert(b[i] == b.drop_first()[i - 1]);
                }
            }
            assert(a =~= b);
        }
    } else if a.len() == 0 && b.len() == 0 {
        assert(a =~= b);
    } else if a.len() > 0 && b.len() > 0 {
        assert(a[0] as int != b[0] as int);
    }
}

// ---- splitting and joining ----

/// The number of characters before the first `c`.
pub open spec fn until(s: Seq<char>, c: char) -> nat
    decreases s.len(),
{
    if s.len() == 0 || s[0] == c {
        0
    } else {
        1 + until(s.drop_first(), c)
    }
}

/// `until` stops at the first `c`.
pub proof fn lemma_until(s: Seq<char>, c: char)
    ensures
        until(s, c) <= s.len(),
        until(s, c) < s.len() ==> s[until(s, c) as int] == c,
        forall|i: int| 0 <= i < until(s, c) ==> s[i] != c,
    decreases s.len(),
{
    if s.len() > 0 && s[0] != c {
        lemma_until(s.drop_first(), c);
        assert forall|i: int| 0 <= i < until(s, c) implies s[i] != c by {
            if i > 0 {
                assert(s[i] == s.drop_first()[i - 1]);
            }
        }
    }
}

/// Finds the first `c` from position `from` on, or the end.
pub fn find_char(v: &Vec<char>, from: usize, c: char) -> (r: usize)
    requires
        from <= v@.len(),
    ensures
        from <= r <= v@.len(),
        r == from + until(v@.skip(from as int), c),
{
    let mut i: usize = from;
    while i < v.len() && v[i] != c
        invariant
            from <= i <= v@.len(),
            until(v@.skip(from as int), c) == i - from + until(v@.skip(i as int), c),
        decreases v.len() - i,
    {
        proof {
            assert(v@.skip(i as int).drop_first() =~= v@.skip(i as int + 1));
        }
        i += 1;
    }
    i
}

/// The pieces of `s` between the characters `c`.
pub open spec fn split(s: Seq<char>, c: char) -> Seq<Seq<char>>
    decreases s.len(),
{
    let k = until(s, c) as int;
    if k >= s.len() {
        seq![s]
    } else {
        seq![s.take(k)] + split(s.skip(k + 1), c)
    }
}

/// Splits a string at each `c`.
pub fn split_at_char(s: &str, c: char) -> (r: Vec<String>)
    ensures
        views(r@) == split(s@, c),
{
    let v: Vec<char> = chars_of(s);
    let mut out: Vec<String> = Vec::new();
    let mut from: usize = 0;
    proof {
        assert(v@.skip(0) =~= s@);
        assert(views(out@) + split(s@, c) =~= split(s@, c));
    }
    loop
        invariant
            from <= v@.len(),
            v@ == s@,
            views(out@) + split(v@.skip(from as int), c) == split(s@, c),
        decreases v.len() - from,
    {
        let k: usize = find_char(&v, from, c);
        let piece: String = text_between(&v, from, k);
        let ghost rest = v@.skip(from as int);
        let ghost before = views(out@);
        out.push(piece);
        proof {
            assert(views(out@) =~= before.push(piece@));
            assert(piece@ =~= rest.take(k - from));
            if k == v@.len() {
                assert(rest.take(k - from) =~= rest);
                assert(views(out@) =~= before + seq![rest]);
            } else {
                assert(rest.skip(k - from + 1) =~= v@.skip(k as int + 1));
                assert(views(out@) + split(v@.skip(k as int + 1), c) =~= before + (seq![piece@]
                    + split(v@.skip(k as int + 1), c)));
            }
        }
        if k == v.len() {
            return out;
        }
        from = k + 1;
    }
}

/// A line that ended in `\n`, without the `\r` before it.
pub open spec fn without_return(s: Seq<char>) -> Seq<char> {
    if s.len() > 0 && s.last() == '\r' {
        s.drop_last()
    } else {
        s
    }
}

/// The lines of `s`: each ends at `\n` or at the end, and `\r\n` counts as one ending.
pub open spec fn lines(s: Seq<char>) -> Seq<Seq<char>>
    decreases s.len(),
{
    let k = until(s, '\n') as int;
    if s.len() == 0 {
        Seq::empty()
    } else if k >= s.len() {
        seq![s]
    } else {
        seq![without_return(s.take(k))] + lines(s.skip(k + 1))
    }
}

/// Splits a string into its lines, as `str::lines` does.
pub fn split_lines(s: &str) -> (r: Vec<String>)
    ensures
        views(r@) == lines(s@),
{
    let v: Vec<char> = chars_of(s);
    let mut out: Vec<String> = Vec::new();
    let mut from: usize = 0;
    proof {
        assert(v@.skip(0) =~= s@);
        assert(views(out@) + lines(s@) =~= lines(s@));
    }
    while from < v.len()
        invariant
            from <= v@.len(),
            v@ == s@,
            views(out@) + lines(v@.skip(from as int)) == lines(s@),
        decreases v.len() - from,
    {
        let k: usize = find_char(&v, from, '\n');
        let to: usize = if k < v.len() && k > from && v[k - 1] == '\r' {
            k - 1
        } else {
            k
        };
        let piece: String = text_between(&v, from, to);
        let ghost rest = v@.skip(from as int);
        let ghost before = views(out@);
        out.push(piece);
        proof {
            assert(views(out@) =~= before.push(piece@));
            if k == v@.len() {
                assert(piece@ =~= rest);
                assert(lines(v@.skip(v@.len() as int)) =~= Seq::empty());
                assert(views(out@) + lines(v@.skip(v@.len() as int)) =~= before + seq![rest]);
            } else {
                assert(rest.take(k - from) =~= v@.subrange(from as int, k as int));
                assert(piece@ =~= without_return(rest.take(k - from)));
                assert(rest.skip(k - from + 1) =~= v@.skip(k as int + 1));
                assert(views(out@) + lines(v@.skip(k as int + 1)) =~= before + (seq![piece@]
                    + lines(v@.skip(k as int + 1))));
            }
        }
        if k == v.len() {
            from = k;
        } else {
            from = k + 1;
        }
    }
    proof {
        assert(lines(v@.skip(from as int)) =~= Seq::empty());
        assert(views(out@) + lines(v@.skip(from as int)) =~= views(out@));
    }
    out
}

/// The strings of a list with `sep` between them.
pub open spec fn joined(parts: Seq<Seq<char>>, sep: Seq<char>) -> Seq<char>
    decreases parts.len(),
{
    if parts.len() == 0 {
        Seq::empty()
    } else if parts.len() == 1 {
        parts[0]
    } else {
        joined(parts.drop_last(), sep) + sep + parts.last()
    }
}

/// Joins the strings of a list with `sep` between them.
pub fn join(parts: &Vec<String>, sep: &str) -> (r: String)
    ensures
        r@ == joined(views(parts@), sep@),
{
    let mut out: String = String::new();
    let mut i: usize = 0;
    let ghost all = views(parts@);
    while i < parts.len()
        invariant
            i <= parts@.len(),
            all == views(parts@),
            out@ == joined(all.take(i as int), sep@),
        decreases parts.len() - i,
    {
        if i > 0 {
            out.append(sep);
        }
        out.append(parts[i].as_str());
        proof {
            assert(all.take(i as int + 1).drop_last() =~= all.take(i as int));
            assert(all[i as int] == parts@[i as int]@);
            if i == 0 {
                assert(out@ =~= all[0]);
                assert(all.take(1)[0] == all[0]);
            }
        }
        i += 1;
    }
    proof {
        assert(all.take(all.len() as int) =~= all);
    }
    out
}

/// `s` with each `pat`, found from the left, replaced by `with`.
pub open spec fn replaced(s: Seq<char>, pat: Seq<char>, with: Seq<char>) -> Seq<char>
    decreases s.len(),
{
    if s.len() == 0 || pat.len() == 0 {
        s
    } else if has_prefix(s, pat) {
        with + replaced(s.skip(pat.len() as int), pat, with)
    } else {
        seq![s[0]] + replaced(s.drop_first(), pat, with)
    }
}

/// Replaces each `pat` in `s` by `with`, as `str::replace` does for a non-empty `pat`.
pub fn replace_text(s: &str, pat: &str, with: &str) -> (r: String)
    requires
        pat@.len() > 0,
    ensures
        r@ == replaced(s@, pat@, with@),
{
    let v: Vec<char> = chars_of(s);
    let p: Vec<char> = chars_of(pat);
    let mut out: String = String::new();
    let mut i: usize = 0;
    proof {
        assert(v@.skip(0) =~= s@);
    }
    while i < v.len()
        invariant
            i <= v@.len(),
            v@ == s@,
            p@ == pat@,
            p@.len() > 0,
            out@ + replaced(v@.skip(i as int), pat@, with@) == replaced(s@, pat@, with@),
        decreases v.len() - i,
    {
        let ghost rest = v@.skip(i as int);
        let ghost before = out@;
        if matches_at(&v, &p, i) {
            out.append(with);
            proof {
                assert(rest.subrange(0, p@.len() as int) =~= v@.subrange(i as int, i + p@.len()));
                assert(rest.skip(p@.len() as int) =~= v@.skip(i + p@.len()));
                assert(before + (with@ + replaced(v@.skip(i + p@.len()), pat@, with@)) =~= before
                    + with@ + replaced(v@.skip(i + p@.len()), pat@, with@));
            }
            i += p.len();
        } else {
            out.push(v[i]);
            proof {
                if has_prefix(rest, pat@) {
                    assert(rest.subrange(0, p@.len() as int) =~= v@.subrange(
                        i as int,
                        i + p@.len(),
                    ));
                }
                assert(rest.drop_first() =~= v@.skip(i as int + 1));
                assert(before + (seq![v@[i as int]] + replaced(v@.skip(i as int + 1), pat@, with@))
                    =~= before.push(v@[i as int]) + replaced(v@.skip(i as int + 1), pat@, with@));
            }
            i += 1;
        }
    }
    proof {
        assert(v@.skip(i as int) =~= Seq::empty());
        assert(out@ + Seq::empty() =~= out@);
    }
    out
}

/// A list holds a string.
pub open spec fn in_list(list: Seq<String>, s: Seq<char>) -> bool {
    exists|i: int| 0 <= i < list.len() && (#[trigger] list[i])@ == s
}

/// `in_list` is membership among the views.
pub proof fn lemma_in_list(list: Seq<String>, s: Seq<char>)
    ensures
        in_list(list, s) == views(list).contains(s),
{
    if in_list(list, s) {
        let i = choose|i: int| 0 <= i < list.len() && (#[trigger] list[i])@ == s;
        assert(views(list)[i] == s);
    }
    if views(list).contains(s) {
        let i = choose|i: int| 0 <= i < views(list).len() && views(list)[i] == s;
        assert(list[i]@ == s);
    }
}

/// Whether a list holds a string.
pub fn list_holds(list: &Vec<String>, s: &str) -> (r: bool)
    ensures
        r == in_list(list@, s@),
{
    let mut i: usize = 0;
    while i < list.len()
        invariant
            i <= list@.len(),
            forall|j: int| 0 <= j < i ==> (#[trigger] list@[j])@ != s@,
        decreases list.len() - i,
    {
        if same_text(list[i].as_str(), s) {
            return true;
        }
        i += 1;
    }
    false
}

/// The entries of a log among its first `k` lines: the lines that are not
/// blank, without white space at their ends, each with its number from one on.
pub open spec fn log_entries(ls: Seq<Seq<char>>, k: nat) -> Seq<(nat, Seq<char>)>
    decreases k,
{
    if k == 0 {
        Seq::empty()
    } else {
        let before = log_entries(ls, (k - 1) as nat);
        if trimmed(ls[k - 1]).len() == 0 {
            before
        } else {
            before.push((k, trimmed(ls[k - 1])))
        }
    }
}

/// What some numbered texts hold.
pub open spec fn numbered_views(s: Seq<(usize, String)>) -> Seq<(nat, Seq<char>)> {
    s.map_values(|e: (usize, String)| (e.0 as nat, e.1@))
}

/// Splits a log into its entries.
pub fn split_entries(s: &str) -> (r: Vec<(usize, String)>)
    ensures
        numbered_views(r@) == log_entries(lines(s@), lines(s@).len()),
{
    let all: Vec<String> = split_lines(s);
    let ghost ls = lines(s@);
    let mut out: Vec<(usize, String)> = Vec::new();
    let mut k: usize = 0;
    proof {
        assert(numbered_views(out@) =~= Seq::<(nat, Seq<char>)>::empty());
    }
    while k < all.len()
        invariant
            k <= all@.len(),
            views(all@) == ls,
            numbered_views(out@) == log_entries(ls, k as nat),
        decreases all.len() - k,
    {
        let ghost held = out@;
        proof {
            assert(ls[k as int] == all@[k as int]@);
        }
        let t: &str = trim(all[k].as_str());
        if !t.is_empty() {
            let e: (usize, String) = (k + 1, t.to_owned());
            out.push(e);
            proof {
                assert(numbered_views(out@) =~= numbered_views(held).push((e.0 as nat, e.1@)));
            }
        }
        k += 1;
    }
    proof {
        assert(ls.len() == all@.len());
    }
    out
}

// ---- lists as sets ----

/// The texts of a list, as a set.
pub open spec fn text_set(list: Seq<String>) -> Set<Seq<char>> {
    Set::new(|x: Seq<char>| in_list(list, x))
}

/// A list of texts with one more, unless it is there already.
pub open spec fn with_text(list: Seq<Seq<char>>, s: Seq<char>) -> Seq<Seq<char>> {
    if list.contains(s) {
        list
    } else {
        list.push(s)
    }
}

/// Puts a text into a list that stands for a set.
pub fn add_text(list: &mut Vec<String>, s: &str)
    ensures
        views(final(list)@) == with_text(views(old(list)@), s@),
        text_set(final(list)@) == text_set(old(list)@).insert(s@),
        views(old(list)@).no_duplicates() ==> views(final(list)@).no_duplicates(),
{
    let ghost before = list@;
    proof {
        lemma_in_list(before, s@);
    }
    if !list_holds(list, s) {
        list.push(s.to_owned());
        proof {
            assert(views(list@) =~= views(before).push(s@));
            assert forall|x: Seq<char>| in_list(list@, x) == (in_list(before, x) || x == s@) by {
                if in_list(before, x) {
                    let i = choose|i: int| 0 <= i < before.len() && (#[trigger] before[i])@ == x;
                    assert(list@[i]@ == x);
                }
                assert(list@[before.len() as int]@ == s@);
                if in_list(list@, x) && x != s@ {
                    let i = choose|i: int| 0 <= i < list@.len() && (#[trigger] list@[i])@ == x;
                    assert(before[i]@ == x);
                }
            }
        }
    }
    proof {
        assert(text_set(list@) =~= text_set(before).insert(s@));
    }
}

/// The texts of a list but one.
pub open spec fn texts_but(list: Seq<String>, s: Seq<char>) -> Seq<String>
    decreases list.len(),
{
    if list.len() == 0 {
        Seq::empty()
    } else if list.last()@ == s {
        texts_but(list.drop_last(), s)
    } else {
        texts_but(list.drop_last(), s).push(list.last())
    }
}

/// `texts_but` leaves out one text and keeps the others.
pub proof fn lemma_texts_but(list: Seq<String>, s: Seq<char>)
    ensures
        text_set(texts_but(list, s)) == text_set(list).remove(s),
    decreases list.len(),
{
    if list.len() > 0 {
        let short = list.drop_last();
        lemma_texts_but(short, s);
        let rest = texts_but(short, s);
        let after = texts_but(list, s);
        assert forall|x: Seq<char>| in_list(after, x) == (in_list(list, x) && x != s) by {
            assert(in_list(rest, x) == text_set(rest).contains(x));
            assert(in_list(short, x) == text_set(short).contains(x));
            assert(in_list(rest, x) == (in_list(short, x) && x != s));
            if in_list(short, x) {
                let i = choose|i: int| 0 <= i < short.len() && (#[trigger] short[i])@ == x;
                assert(list[i]@ == x);
            }
            assert(list[list.len() - 1]@ == list.last()@);
            if in_list(list, x) {
                let i = choose|i: int| 0 <= i < list.len() && (#[trigger] list[i])@ == x;
                if i < short.len() {
                    assert(short[i]@ == x);
                }
            }
            if list.last()@ != s {
                assert(after[rest.len() as int] == list.last());
                if in_list(rest, x) {
                    let i = choose|i: int| 0 <= i < rest.len() && (#[trigger] rest[i])@ == x;
                    assert(after[i]@ == x);
                }
                if in_list(after, x) {
                    let i = choose|i: int| 0 <= i < after.len() && (#[trigger] after[i])@ == x;
                    if i < rest.len() {
                        assert(rest[i]@ == x);
                    }
                }
            }
        }
        assert(text_set(after) =~= text_set(list).remove(s));
    } else {
        assert(text_set(list).remove(s) =~= text_set(list));
    }
}

/// Leaving a text out of a list takes no text in twice.
pub proof fn lemma_texts_but_differ(list: Seq<String>, s: Seq<char>)
    ensures
        views(list).no_duplicates() ==> views(texts_but(list, s)).no_duplicates(),
        forall|i: int|
            0 <= i < texts_but(list, s).len() ==> in_list(list, (#[trigger] texts_but(list, s)[i])@),
    decreases list.len(),
{
    if list.len() > 0 {
        let short = list.drop_last();
        let rest = texts_but(short, s);
        let out = texts_but(list, s);
        lemma_texts_but_differ(short, s);
        assert forall|i: int| 0 <= i < out.len() implies in_list(list, (#[trigger] out[i])@) by {
            if i < rest.len() {
                assert(out[i] == rest[i]);
                let k = choose|k: int| 0 <= k < short.len() && (#[trigger] short[k])@ == rest[i]@;
                assert(list[k]@ == out[i]@);
            } else {
                assert(list[list.len() - 1]@ == out[i]@);
            }
        }
        if views(list).no_duplicates() {
            assert(views(short) =~= views(list).drop_last());
            assert forall|i: int, j: int| 0 <= i < j < out.len() implies views(out)[i] != views(
                out,
            )[j] by {
                if j < rest.len() {
                    assert(views(rest)[i] != views(rest)[j]);
                } else {
                    assert(in_list(short, rest[i]@));
                    let k = choose|k: int|
                        0 <= k < short.len() && (#[trigger] short[k])@ == rest[i]@;
                    assert(views(list)[k] != views(list)[list.len() - 1]);
                }
            }
        }
    }
}

/// Takes a text out of a list.
pub fn drop_text(list: &mut Vec<String>, s: &str)
    ensures
        final(list)@ == texts_but(old(list)@, s@),
        text_set(final(list)@) == text_set(old(list)@).remove(s@),
        views(old(list)@).no_duplicates() ==> views(final(list)@).no_duplicates(),
{
    let mut kept: Vec<String> = Vec::new();
    let ghost all = list@;
    let mut i: usize = 0;
    while i < list.len()
        invariant
            i <= list@.len(),
            list@ == all,
            kept@ == texts_but(all.take(i as int), s@),
        decreases list.len() - i,
    {
        proof {
            assert(all.take(i as int + 1).drop_last() =~= all.take(i as int));
        }
        if !same_text(list[i].as_str(), s) {
            kept.push(list[i].clone());
        }
        i += 1;
    }
    proof {
        assert(all.take(i as int) =~= all);
        lemma_texts_but(all, s@);
        lemma_texts_but_differ(all, s@);
    }
    *list = kept;
}

// ---- laws ----

/// Trimming takes white space off both ends and nothing else: what is left stands in the
/// text, between white space only, and neither begins nor ends with any.
pub proof fn law_trimming_takes_white_space_only(s: Seq<char>)
    ensures
        exists|a: int, b: int|
            {
                &&& 0 <= a <= b <= s.len()
                &&& trimmed(s) == #[trigger] s.subrange(a, b)
                &&& forall|i: int| 0 <= i < a ==> is_white(#[trigger] s[i])
                &&& forall|i: int| b <= i < s.len() ==> is_white(#[trigger] s[i])
            },
        trimmed(s).len() > 0 ==> !is_white(trimmed(s)[0]) && !is_white(trimmed(s).last()),
{
    lemma_front(s);
    let a = choose|a: int|
        {
            &&& 0 <= a <= s.len()
            &&& trim_front(s) == #[trigger] s.skip(a)
            &&& forall|i: int| 0 <= i < a ==> is_white(#[trigger] s[i])
        };
    let t = trim_front(s);
    lemma_back(t);
    let b = choose|b: int|
        {
            &&& 0 <= b <= t.len()
            &&& trim_back(t) == #[trigger] t.take(b)
            &&& forall|i: int| b <= i < t.len() ==> is_white(#[trigger] t[i])
        };
    assert(trimmed(s) =~= s.subrange(a, a + b));
    assert forall|i: int| a + b <= i < s.len() implies is_white(#[trigger] s[i]) by {
        assert(t[i - a] == s[i]);
    }
}

proof fn lemma_front(s: Seq<char>)
    ensures
        exists|a: int|
            {
                &&& 0 <= a <= s.len()
                &&& trim_front(s) == #[trigger] s.skip(a)
                &&& forall|i: int| 0 <= i < a ==> is_white(#[trigger] s[i])
            },
        trim_front(s).len() > 0 ==> !is_white(trim_front(s)[0]),
    decreases s.len(),
{
    if s.len() > 0 && is_white(s[0]) {
        let t = s.drop_first();
        lemma_front(t);
        let a = choose|a: int|
            {
                &&& 0 <= a <= t.len()
                &&& trim_front(t) == #[trigger] t.skip(a)
                &&& forall|i: int| 0 <= i < a ==> is_white(#[trigger] t[i])
            };
        assert(s.skip(a + 1) =~= t.skip(a));
        assert forall|i: int| 0 <= i < a + 1 implies is_white(#[trigger] s[i]) by {
            if i > 0 {
                assert(t[i - 1] == s[i]);
            }
        }
    } else {
        assert(s.skip(0) =~= s);
    }
}

proof fn lemma_back(s: Seq<char>)
    ensures
        exists|b: int|
            {
                &&& 0 <= b <= s.len()
                &&& trim_back(s) == #[trigger] s.take(b)
                &&& forall|i: int| b <= i < s.len() ==> is_white(#[trigger] s[i])
            },
        trim_back(s).len() > 0 ==> !is_white(trim_back(s).last()) && trim_back(s)[0] == s[0],
    decreases s.len(),
{
    if s.len() > 0 && is_white(s.last()) {
        let t = s.drop_last();
        lemma_back(t);
        let b = choose|b: int|
            {
                &&& 0 <= b <= t.len()
                &&& trim_back(t) == #[trigger] t.take(b)
                &&& forall|i: int| b <= i < t.len() ==> is_white(#[trigger] t[i])
            };
        assert(s.take(b) =~= t.take(b));
        assert forall|i: int| b <= i < s.len() implies is_white(#[trigger] s[i]) by {
            if i < t.len() {
                assert(t[i] == s[i]);
            }
        }
    } else {
        assert(s.take(s.len() as int) =~= s);
    }
}

/// The pieces of a text hold no separator, and joined again they are the text.
pub proof fn law_pieces_join_again(s: Seq<char>, c: char)
    ensures
        split(s, c).len() > 0,
        joined(split(s, c), seq![c]) == s,
        forall|i: int, j: int|
            0 <= i < split(s, c).len() && 0 <= j < split(s, c)[i].len() ==> #[trigger] split(
                s,
                c,
            )[i][j] != c,
    decreases s.len(),
{
    lemma_until(s, c);
    let k = until(s, c) as int;
    if k < s.len() {
        let rest = s.skip(k + 1);
        let head = s.take(k);
        law_pieces_join_again(rest, c);
        lemma_joined_front(head, split(rest, c), seq![c]);
        assert(s =~= head + seq![c] + rest);
        let all = split(s, c);
        assert forall|i: int, j: int| 0 <= i < all.len() && 0 <= j < all[i].len() implies
            #[trigger] all[i][j] != c by {
            if i > 0 {
                assert(all[i] == split(rest, c)[i - 1]);
            }
        }
    } else {
        assert(joined(seq![s], seq![c]) == s);
    }
}

proof fn lemma_joined_front(head: Seq<char>, parts: Seq<Seq<char>>, sep: Seq<char>)
    requires
        parts.len() > 0,
    ensures
        joined(seq![head] + parts, sep) == head + sep + joined(parts, sep),
    decreases parts.len(),
{
    let all = seq![head] + parts;
    if parts.len() == 1 {
        assert(all.drop_last() =~= seq![head]);
        assert(joined(seq![head], sep) == head);
    } else {
        let short = parts.drop_last();
        lemma_joined_front(head, short, sep);
        assert(all.drop_last() =~= seq![head] + short);
        assert(joined(all, sep) =~= head + sep + joined(parts, sep));
    }
}

/// A text is read line by line: what stands before a line break is its first line, and
/// what follows are the others. A text without a break is one line.
pub proof fn law_lines_end_at_breaks(a: Seq<char>, b: Seq<char>)
    requires
        forall|i: int| 0 <= i < a.len() ==> (#[trigger] a[i]) != '\n',
    ensures
        a.len() > 0 ==> lines(a) == seq![a],
        (a.len() == 0 || a.last() != '\r') ==> lines(a + seq!['\n'] + b) == seq![a] + lines(b),
{
    lemma_until(a, '\n');
    if until(a, '\n') < a.len() {
        assert(a[until(a, '\n') as int] == '\n');
    }
    let s = a + seq!['\n'] + b;
    lemma_until(s, '\n');
    let k = until(s, '\n') as int;
    assert(k == a.len()) by {
        if k < a.len() {
            assert(s[k] == a[k]);
        }
        if k > a.len() {
            assert(s[a.len() as int] == '\n');
        }
    }
    assert(s.take(k) =~= a);
    assert(s.skip(k + 1) =~= b);
}

/// A text that does not hold what is replaced stays as it is, and each place that does
/// is replaced, from the left.
pub proof fn law_only_what_stands_is_replaced(s: Seq<char>, pat: Seq<char>, with: Seq<char>)
    requires
        pat.len() > 0,
    ensures
        !has_part(s, pat) ==> replaced(s, pat, with) == s,
        replaced(pat + s, pat, with) == with + replaced(s, pat, with),
        s.len() > 0 && !has_prefix(s, pat) ==> replaced(s, pat, with) == seq![s[0]] + replaced(
            s.drop_first(),
            pat,
            with,
        ),
    decreases s.len(),
{
    let all = pat + s;
    assert(all.subrange(0, pat.len() as int) =~= pat);
    assert(all.skip(pat.len() as int) =~= s);
    if s.len() > 0 {
        law_only_what_stands_is_replaced(s.drop_first(), pat, with);
        if !has_part(s, pat) {
            assert(!occurs_at(s, pat, 0));
            let t = s.drop_first();
            if has_part(t, pat) {
                let i = choose|i: int| occurs_at(t, pat, i);
                assert(s.subrange(i + 1, i + 1 + pat.len()) =~= t.subrange(i, i + pat.len()));
                assert(occurs_at(s, pat, i + 1));
            }
            assert(seq![s[0]] + t =~= s);
        }
    }
}

/// A slice is what stands from its offset on, as long as it may be.
pub proof fn law_slices_stand_in_the_text(s: Seq<char>, offset: int, limit: int)
    requires
        0 <= offset,
        0 <= limit,
    ensures
        sliced(s, offset, limit).len() <= limit,
        offset + limit <= s.len() ==> sliced(s, offset, limit).len() == limit,
        offset <= s.len() <= offset + limit ==> sliced(s, offset, limit).len() == s.len() - offset,
        forall|i: int|
            0 <= i < sliced(s, offset, limit).len() ==> #[trigger] sliced(s, offset, limit)[i]
                == s[offset + i],
{
}

/// The first place of a part is one where it stands, and it stands at none before.
pub proof fn law_parts_are_found_first(s: Seq<char>, p: Seq<char>)
    ensures
        match first_part(s, p) {
            Some(i) => occurs_at(s, p, i) && forall|j: int|
                0 <= j < i ==> !(#[trigger] occurs_at(s, p, j)),
            None => !has_part(s, p),
        },
    decreases s.len(),
{
    if !has_prefix(s, p) && s.len() > 0 {
        let t = s.drop_first();
        law_parts_are_found_first(t, p);
        assert forall|j: int| 0 < j implies (#[trigger] occurs_at(s, p, j) <==> occurs_at(
            t,
            p,
            j - 1,
        )) by {
            if j + p.len() <= s.len() {
                assert(s.subrange(j, j + p.len()) =~= t.subrange(j - 1, j - 1 + p.len()));
            }
        }
        if let Some(i) = first_part(t, p) {
            assert(occurs_at(s, p, i + 1));
            assert forall|j: int| 0 <= j < i + 1 implies !(#[trigger] occurs_at(s, p, j)) by {
                if j > 0 {
                    assert(!occurs_at(t, p, j - 1));
                }
            }
        } else if has_part(s, p) {
            let j = choose|j: int| occurs_at(s, p, j);
            assert(occurs_at(t, p, j - 1));
        }
    } else if s.len() == 0 && has_part(s, p) {
        let j = choose|j: int| occurs_at(s, p, j);
        assert(j == 0);
    }
}

/// The entries of a log are its lines that say something, without their outer white
/// space and with their number, in order.
pub proof fn law_log_entries_are_the_lines(ls: Seq<Seq<char>>, k: nat)
    requires
        k <= ls.len(),
    ensures
        forall|i: int|
            0 <= i < k && trimmed(#[trigger] ls[i]).len() > 0 ==> log_entries(ls, k).contains(
                ((i + 1) as nat, trimmed(ls[i])),
            ),
        forall|e: (nat, Seq<char>)| #[trigger]
            log_entries(ls, k).contains(e) ==> 1 <= e.0 <= k && e.1 == trimmed(ls[e.0 - 1])
                && e.1.len() > 0,
    decreases k,
{
    if k > 0 {
        law_log_entries_are_the_lines(ls, (k - 1) as nat);
        let before = log_entries(ls, (k - 1) as nat);
        let after = log_entries(ls, k);
        assert forall|i: int| 0 <= i < k && trimmed(#[trigger] ls[i]).len() > 0 implies
            after.contains(((i + 1) as nat, trimmed(ls[i]))) by {
            let e = ((i + 1) as nat, trimmed(ls[i]));
            if i < k - 1 {
                assert(before.contains(e));
                let m = choose|m: int| 0 <= m < before.len() && before[m] == e;
                assert(after[m] == e);
            } else {
                assert(after[before.len() as int] == e);
            }
        }
        assert forall|e: (nat, Seq<char>)| #[trigger] after.contains(e) implies 1 <= e.0 <= k && e.1
            == trimmed(ls[e.0 - 1]) && e.1.len() > 0 by {
            let m = choose|m: int| 0 <= m < after.len() && after[m] == e;
            if m < before.len() {
                assert(before[m] == e);
                assert(before.contains(e));
            }
        }
    }
}

/// A number that is written reads back as itself, with its sign.
pub proof fn law_numbers_read_back(i: int)
    ensures
        signed_value(signed_decimal(i)) == Some(i),
        i >= 0 ==> unsigned_value(signed_decimal(i)) == Some(i),
{
    let n = if i < 0 {
        (-i) as nat
    } else {
        i as nat
    };
    lemma_decimal_reads_back(n);
    if i < 0 {
        assert(signed_decimal(i).drop_first() =~= decimal(n));
    } else {
        assert(is_digit(decimal(n)[0]));
    }
}

/// Texts are ordered by the first character in which they differ, and a text goes after
/// its own beginnings.
pub proof fn law_texts_are_ordered_by_characters(
    p: Seq<char>,
    a: char,
    b: char,
    x: Seq<char>,
    y: Seq<char>,
)
    requires
        a != b,
    ensures
        text_before(p + seq![a] + x, p + seq![b] + y) <==> (a as int) < (b as int),
        x.len() > 0 ==> text_before(p, p + x),
        !text_before(p + x, p),
    decreases p.len(),
{
    let s = p + seq![a] + x;
    let t = p + seq![b] + y;
    if p.len() > 0 {
        let q = p.drop_first();
        law_texts_are_ordered_by_characters(q, a, b, x, y);
        assert(s.drop_first() =~= q + seq![a] + x);
        assert(t.drop_first() =~= q + seq![b] + y);
        assert((p + x).drop_first() =~= q + x);
    }
}

/// A text cut to a number of bytes is its longest beginning that fits.
pub proof fn law_cut_texts_are_the_longest_that_fit(s: Seq<char>, n: int)
    requires
        n >= 0,
    ensures
        has_prefix(s, prefix_within(s, n)),
        byte_len(prefix_within(s, n)) <= n,
        forall|k: int|
            prefix_within(s, n).len() < k <= s.len() ==> byte_len(#[trigger] s.take(k)) > n,
    decreases s.len(),
{
    if s.len() == 0 {
        assert(s =~= Seq::<char>::empty());
        lemma_byte_len_ascii(s);
        assert(s.subrange(0, 0) =~= s);
    } else if byte_len(s) <= n {
        assert(s.subrange(0, s.len() as int) =~= s);
    } else {
        let t = s.drop_last();
        law_cut_texts_are_the_longest_that_fit(t, n);
        let p = prefix_within(t, n);
        assert(s.subrange(0, p.len() as int) =~= t.subrange(0, p.len() as int));
        assert forall|k: int| p.len() < k <= s.len() implies byte_len(#[trigger] s.take(k)) > n by {
            if k == s.len() {
                assert(s.take(k) =~= s);
            } else {
                assert(s.take(k) =~= t.take(k));
            }
        }
    }
}

} // verus!
