//! Character-level helpers: comparing, searching and trimming text, and
//! reading decimal numbers.

use vstd::prelude::*;

verus! {

/// The characters of every string of a list.
pub open spec fn texts(list: Seq<String>) -> Seq<Seq<char>> {
    list.map_values(|s: String| s@)
}

/// Appending a string appends its text.
pub broadcast proof fn texts_push(list: Seq<String>, s: String)
    ensures
        #[trigger] texts(list.push(s)) == texts(list).push(s@),
{
    assert(texts(list.push(s)) =~= texts(list).push(s@));
}

/// The characters of every string of a list that may be absent.
pub open spec fn optional_texts(list: Option<Vec<String>>) -> Option<Seq<Seq<char>>> {
    match list {
        Some(names) => Some(texts(names@)),
        None => None,
    }
}

/// True when the two texts hold the same characters.
pub fn same(a: &str, b: &str) -> (r: bool)
    ensures
        r == (a@ == b@),
{
    let x = a.as_bytes();
    let y = b.as_bytes();
    proof {
        vstd::utf8::encode_utf8_decode_utf8(a@);
        vstd::utf8::encode_utf8_decode_utf8(b@);
    }
    if x.len() != y.len() {
        return false;
    }
    for i in 0..x.len()
        invariant
            x@ == vstd::utf8::encode_utf8(a@),
            y@ == vstd::utf8::encode_utf8(b@),
            x.len() == y.len(),
            forall|j: int| 0 <= j < i ==> x@[j] == y@[j],
    {
        if x[i] != y[i] {
            return false;
        }
    }
    assert(x@ =~= y@);
    true
}

/// True when `name` is one of the strings of `list`.
pub fn contains(list: &[String], name: &str) -> (r: bool)
    ensures
        r == texts(list@).contains(name@),
{
    for i in 0..list.len()
        invariant
            forall|j: int| 0 <= j < i ==> texts(list@)[j] != name@,
    {
        if same(list[i].as_str(), name) {
            assert(texts(list@)[i as int] == name@);
            return true;
        }
    }
    false
}

/// A copy of the list that holds the same texts.
pub fn copied(list: &[String]) -> (r: Vec<String>)
    ensures
        texts(r@) == texts(list@),
{
    broadcast use texts_push;

    let mut out: Vec<String> = Vec::new();
    for i in 0..list.len()
        invariant
            texts(out@) =~= texts(list@).take(i as int),
    {
        out.push(list[i].clone());
        assert(texts(list@).take(i + 1) =~= texts(list@).take(i as int).push(list@[i as int]@));
    }
    assert(texts(list@).take(list@.len() as int) =~= texts(list@));
    out
}

/// The characters of a text, one by one.
pub fn characters(text: &str) -> (r: Vec<char>)
    ensures
        r@ == text@,
{
    let mut out: Vec<char> = Vec::new();
    for c in chars: text.chars()
        invariant
            chars.seq() == text@,
            out@ == text@.take(chars.index() as int),
    {
        out.push(c);
        assert(text@.take(chars.index() + 1) =~= text@.take(chars.index() as int).push(c));
    }
    assert(text@.take(text@.len() as int) =~= text@);
    out
}

/// The code of a character, with `A` to `Z` counted as `a` to `z`.
pub open spec fn folded(c: char) -> int {
    if 'A' <= c <= 'Z' {
        c as int + 32
    } else {
        c as int
    }
}

/// The two texts differ at most in the case of ASCII letters.
pub open spec fn same_ignoring_case(a: Seq<char>, b: Seq<char>) -> bool {
    a.len() == b.len() && forall|i: int| 0 <= i < a.len() ==> folded(a[i]) == folded(b[i])
}

fn fold(c: char) -> (r: u32)
    ensures
        r == folded(c),
{
    if 'A' <= c && c <= 'Z' {
        c as u32 + 32
    } else {
        c as u32
    }
}

/// Compares two texts without regard to the case of ASCII letters.
pub fn equals_ignoring_case(a: &[char], b: &[char]) -> (r: bool)
    ensures
        r == same_ignoring_case(a@, b@),
{
    if a.len() != b.len() {
        return false;
    }
    for i in 0..a.len()
        invariant
            a.len() == b.len(),
            forall|j: int| 0 <= j < i ==> folded(a@[j]) == folded(b@[j]),
    {
        if fold(a[i]) != fold(b[i]) {
            return false;
        }
    }
    true
}

/// The Unicode property `White_Space`.
pub open spec fn is_white(c: char) -> bool {
    let n = c as int;
    ||| 0x09 <= n <= 0x0d
    ||| n == 0x20
    ||| n == 0x85
    ||| n == 0xa0
    ||| n == 0x1680
    ||| 0x2000 <= n <= 0x200a
    ||| n == 0x2028
    ||| n == 0x2029
    ||| n == 0x202f
    ||| n == 0x205f
    ||| n == 0x3000
}

fn white(c: char) -> (r: bool)
    ensures
        r == is_white(c),
{
    let n: u32 = c as u32;
    (0x09 <= n && n <= 0x0d) || n == 0x20 || n == 0x85 || n == 0xa0 || n == 0x1680 || (0x2000 <= n
        && n <= 0x200a) || n == 0x2028 || n == 0x2029 || n == 0x202f || n == 0x205f || n == 0x3000
}

/// `t` is `s` without the white space at its two ends.
pub open spec fn is_trimmed(s: Seq<char>, t: Seq<char>) -> bool {
    exists|i: int, j: int| #[trigger] trims(s, i, j) && t == s.subrange(i, j)
}

/// What stands before `i` and from `j` on is white space, and nothing white
/// stands at either end of what lies between.
pub open spec fn trims(s: Seq<char>, i: int, j: int) -> bool {
    &&& 0 <= i <= j <= s.len()
    &&& forall|k: int| 0 <= k < i ==> is_white(#[trigger] s[k])
    &&& forall|k: int| j <= k < s.len() ==> is_white(#[trigger] s[k])
    &&& i < j ==> !is_white(s[i]) && !is_white(s[j - 1])
}

/// Only one text is the trimmed form of another.
pub proof fn trimmed_is_unique(s: Seq<char>, t: Seq<char>, u: Seq<char>)
    requires
        is_trimmed(s, t),
        is_trimmed(s, u),
    ensures
        t == u,
{
    let (i, j) = choose|i: int, j: int| #[trigger] trims(s, i, j) && t == s.subrange(i, j);
    let (k, l) = choose|k: int, l: int| #[trigger] trims(s, k, l) && u == s.subrange(k, l);
    if i < j {
        assert(!is_white(s[i]) && !is_white(s[j - 1]));
    }
    if k < l {
        assert(!is_white(s[k]) && !is_white(s[l - 1]));
    }
    assert(t =~= u);
}

/// The trimmed form of a text.
pub open spec fn trimmed(s: Seq<char>) -> Seq<char> {
    choose|t: Seq<char>| is_trimmed(s, t)
}

/// Drops the white space at the two ends of a text.
pub fn trim(text: &[char]) -> (r: Vec<char>)
    ensures
        is_trimmed(text@, r@),
        r@ == trimmed(text@),
{
    let mut i: usize = 0;
    while i < text.len() && white(text[i])
        invariant
            i <= text.len(),
            forall|k: int| 0 <= k < i ==> is_white(#[trigger] text@[k]),
        decreases text.len() - i,
    {
        i = i + 1;
    }
    let mut j: usize = text.len();
    while i < j && white(text[j - 1])
        invariant
            i <= j <= text.len(),
            forall|k: int| j <= k < text.len() ==> is_white(#[trigger] text@[k]),
        decreases j,
    {
        j = j - 1;
    }
    let mut out: Vec<char> = Vec::new();
    for k in i..j
        invariant
            i <= k <= j <= text.len(),
            out@ =~= text@.subrange(i as int, k as int),
    {
        out.push(text[k]);
    }
    proof {
        assert(trims(text@, i as int, j as int));
        assert(out@ == text@.subrange(i as int, j as int));
        assert(is_trimmed(text@, out@));
        trimmed_is_unique(text@, out@, trimmed(text@));
    }
    out
}

/// A decimal digit.
pub open spec fn is_digit(c: char) -> bool {
    '0' <= c <= '9'
}

/// One digit or more, and nothing else.
pub open spec fn all_digits(s: Seq<char>) -> bool {
    s.len() > 0 && forall|i: int| 0 <= i < s.len() ==> is_digit(#[trigger] s[i])
}

/// The number that a row of decimal digits stands for.
pub open spec fn decimal(s: Seq<char>) -> nat
    decreases s.len(),
{
    if s.len() == 0 {
        0
    } else {
        decimal(s.drop_last()) * 10 + (s.last() as int - '0' as int) as nat
    }
}

/// The digits of a number: what is left behind one leading `+`, if any.
pub open spec fn digits_of(s: Seq<char>) -> Seq<char> {
    if s.len() > 0 && s[0] == '+' {
        s.drop_first()
    } else {
        s
    }
}

/// The number that a text writes: digits, behind an optional `+`.
pub open spec fn number(s: Seq<char>) -> Option<nat> {
    if all_digits(digits_of(s)) {
        Some(decimal(digits_of(s)))
    } else {
        None
    }
}

/// A longer row of digits never stands for a smaller number.
proof fn decimal_grows(s: Seq<char>, n: int)
    requires
        0 <= n <= s.len(),
        forall|i: int| 0 <= i < s.len() ==> is_digit(#[trigger] s[i]),
    ensures
        decimal(s.take(n)) <= decimal(s),
    decreases s.len() - n,
{
    if n == s.len() {
        assert(s.take(n) =~= s);
    } else {
        assert(s.take(n + 1).drop_last() =~= s.take(n));
        decimal_grows(s, n + 1);
    }
}

/// Reads an unsigned number, as `u64::from_str` does: an optional `+`, then
/// decimal digits only.
pub fn parse_number(text: &[char]) -> (r: Option<u64>)
    ensures
        r matches Some(v) ==> number(text@) == Some(v as nat),
        r is None ==> (number(text@) matches Some(v) ==> v > u64::MAX),
{
    let start: usize = if text.len() > 0 && text[0] == '+' {
        1
    } else {
        0
    };
    let ghost ds = digits_of(text@);
    assert(ds =~= text@.skip(start as int));
    if start == text.len() {
        return None;
    }
    let mut value: u64 = 0;
    for i in start..text.len()
        invariant
            start <= text.len(),
            ds == text@.skip(start as int),
            ds == digits_of(text@),
            forall|k: int| 0 <= k < i - start ==> is_digit(#[trigger] ds[k]),
            value == decimal(ds.take(i - start)),
    {
        let c = text[i];
        assert(c == ds[i - start]);
        if c < '0' || '9' < c {
            assert(!is_digit(ds[i - start]));
            return None;
        }
        let d: u64 = c as u64 - '0' as u64;
        assert(ds.take(i + 1 - start).drop_last() =~= ds.take(i - start));
        assert(decimal(ds.take(i + 1 - start)) == value * 10 + d);
        if value > (u64::MAX - d) / 10 {
            proof {
                assert(value * 10 + d > u64::MAX);
                if all_digits(ds) {
                    decimal_grows(ds, i + 1 - start);
                }
            }
            return None;
        }
        value = value * 10 + d;
    }
    assert(ds.take(text.len() - start) =~= ds);
    Some(value)
}

/// What `String::from_utf8_lossy` makes of bytes.
pub uninterp spec fn lossy_text(bytes: Seq<u8>) -> Seq<char>;

/// `String::from_utf8_lossy`: bytes as text, with a replacement character for
/// what is not UTF-8. Valid UTF-8 is decoded as it stands; how the rest is cut
/// into replacement characters is left to the name.
#[verifier::external_body]
pub(crate) fn lossy(bytes: &[u8]) -> (r: String)
    ensures
        r@ == lossy_text(bytes@),
        vstd::utf8::valid_utf8(bytes@) ==> r@ == vstd::utf8::decode_utf8(bytes@),
{
    String::from_utf8_lossy(bytes).into_owned()
}

/// A list of strings is taken text by text, each as it is and in its place.
pub proof fn texts_keep_their_places(list: Seq<String>, i: int)
    requires
        0 <= i < list.len(),
    ensures
        texts(list).len() == list.len(),
        texts(list)[i] == list[i]@,
{
}

/// A list that may be absent is taken as it is where it is there.
pub proof fn optional_texts_are_texts(list: Vec<String>)
    ensures
        optional_texts(None) is None,
        optional_texts(Some(list)) == Some(texts(list@)),
        texts(Seq::empty()).len() == 0,
{
}

/// Two texts are the same but for case exactly if they are as long and each
/// pair of characters is equal, or the two forms of one ASCII letter.
pub proof fn case_means_ascii_letters(a: Seq<char>, b: Seq<char>)
    ensures
        same_ignoring_case(a, b) <==> a.len() == b.len() && forall|i: int|
            0 <= i < a.len() ==> {
                ||| #[trigger] a[i] == b[i]
                ||| 'A' <= a[i] <= 'Z' && b[i] as int == a[i] as int + 32
                ||| 'A' <= b[i] <= 'Z' && a[i] as int == b[i] as int + 32
            },
{
    if same_ignoring_case(a, b) {
        assert forall|i: int| 0 <= i < a.len() implies {
            ||| #[trigger] a[i] == b[i]
            ||| 'A' <= a[i] <= 'Z' && b[i] as int == a[i] as int + 32
            ||| 'A' <= b[i] <= 'Z' && a[i] as int == b[i] as int + 32
        } by {
            assert(folded(a[i]) == folded(b[i]));
        }
    }
    if a.len() == b.len() && forall|i: int|
        0 <= i < a.len() ==> {
            ||| #[trigger] a[i] == b[i]
            ||| 'A' <= a[i] <= 'Z' && b[i] as int == a[i] as int + 32
            ||| 'A' <= b[i] <= 'Z' && a[i] as int == b[i] as int + 32
        } {
        assert forall|i: int| 0 <= i < a.len() implies folded(a[i]) == folded(b[i]) by {
            assert(a[i] == a[i]);
        }
    }
}

/// White space is twenty-five characters: the tab and the four line characters
/// behind it, the space, the next line, the no-break space, the ogham space,
/// the eleven spaces of general punctuation, the line and the paragraph
/// separator, the narrow no-break space, the mathematical and the ideographic
/// space.
pub proof fn white_space_is_a_short_list(c: char)
    ensures
        is_white(c) <==> seq![
            9int,
            10,
            11,
            12,
            13,
            32,
            133,
            160,
            5760,
            8192,
            8193,
            8194,
            8195,
            8196,
            8197,
            8198,
            8199,
            8200,
            8201,
            8202,
            8232,
            8233,
            8239,
            8287,
            12288,
        ].contains(c as int),
{
    let all = seq![
        9int,
        10,
        11,
        12,
        13,
        32,
        133,
        160,
        5760,
        8192,
        8193,
        8194,
        8195,
        8196,
        8197,
        8198,
        8199,
        8200,
        8201,
        8202,
        8232,
        8233,
        8239,
        8287,
        12288,
    ];
    let n = c as int;
    if 9 <= n <= 13 {
        assert(all[n - 9] == n);
    } else if n == 32 {
        assert(all[5] == n);
    } else if n == 133 {
        assert(all[6] == n);
    } else if n == 160 {
        assert(all[7] == n);
    } else if n == 5760 {
        assert(all[8] == n);
    } else if 8192 <= n <= 8202 {
        assert(all[9 + n - 8192] == n);
    } else if n == 8232 {
        assert(all[20] == n);
    } else if n == 8233 {
        assert(all[21] == n);
    } else if n == 8239 {
        assert(all[22] == n);
    } else if n == 8287 {
        assert(all[23] == n);
    } else if n == 12288 {
        assert(all[24] == n);
    }
}

proof fn every_text_can_be_trimmed(s: Seq<char>)
    ensures
        exists|t: Seq<char>| is_trimmed(s, t),
    decreases s.len(),
{
    if s.len() == 0 {
        assert(trims(s, 0, 0));
        assert(is_trimmed(s, s.subrange(0, 0)));
    } else if is_white(s.last()) {
        let front = s.drop_last();
        every_text_can_be_trimmed(front);
        let t = choose|t: Seq<char>| is_trimmed(front, t);
        white_space_behind_is_dropped(front, s.last(), t);
        assert(s =~= front.push(s.last()));
    } else if is_white(s[0]) {
        let back = s.drop_first();
        every_text_can_be_trimmed(back);
        let t = choose|t: Seq<char>| is_trimmed(back, t);
        white_space_before_is_dropped(back, s[0], t);
        assert(s =~= seq![s[0]] + back);
    } else {
        assert(trims(s, 0, s.len() as int));
        assert(is_trimmed(s, s.subrange(0, s.len() as int)));
    }
}

proof fn white_space_behind_is_dropped(s: Seq<char>, white: char, t: Seq<char>)
    requires
        is_white(white),
        is_trimmed(s, t),
    ensures
        is_trimmed(s.push(white), t),
{
    let (i, j) = choose|i: int, j: int| #[trigger] trims(s, i, j) && t == s.subrange(i, j);
    let longer = s.push(white);
    assert(trims(longer, i, j)) by {
        assert forall|k: int| j <= k < longer.len() implies is_white(#[trigger] longer[k]) by {
            if k < s.len() {
                assert(is_white(s[k]));
            }
        }
        assert forall|k: int| 0 <= k < i implies is_white(#[trigger] longer[k]) by {
            assert(is_white(s[k]));
        }
    }
    assert(longer.subrange(i, j) =~= t);
}

proof fn white_space_before_is_dropped(s: Seq<char>, white: char, t: Seq<char>)
    requires
        is_white(white),
        is_trimmed(s, t),
    ensures
        is_trimmed(seq![white] + s, t),
{
    let (i, j) = choose|i: int, j: int| #[trigger] trims(s, i, j) && t == s.subrange(i, j);
    let longer = seq![white] + s;
    assert(trims(longer, i + 1, j + 1)) by {
        assert forall|k: int| j + 1 <= k < longer.len() implies is_white(#[trigger] longer[k]) by {
            assert(is_white(s[k - 1]));
        }
        assert forall|k: int| 0 <= k < i + 1 implies is_white(#[trigger] longer[k]) by {
            if k > 0 {
                assert(is_white(s[k - 1]));
            }
        }
    }
    assert(longer.subrange(i + 1, j + 1) =~= t);
}

/// White space at either end of a text makes no difference to its trimmed form,
/// and a text that neither starts nor ends with any is its own trimmed form.
pub proof fn trimming_drops_white_ends(s: Seq<char>, white: char)
    ensures
        is_white(white) ==> trimmed(s.push(white)) == trimmed(s),
        is_white(white) ==> trimmed(seq![white] + s) == trimmed(s),
        s.len() > 0 && !is_white(s[0]) && !is_white(s.last()) ==> trimmed(s) == s,
        trimmed(Seq::empty()).len() == 0,
{
    let none = Seq::<char>::empty();
    every_text_can_be_trimmed(s);
    every_text_can_be_trimmed(none);
    if is_white(white) {
        every_text_can_be_trimmed(s.push(white));
        every_text_can_be_trimmed(seq![white] + s);
        white_space_behind_is_dropped(s, white, trimmed(s));
        white_space_before_is_dropped(s, white, trimmed(s));
        trimmed_is_unique(s.push(white), trimmed(s), trimmed(s.push(white)));
        trimmed_is_unique(seq![white] + s, trimmed(s), trimmed(seq![white] + s));
    }
    if s.len() > 0 && !is_white(s[0]) && !is_white(s.last()) {
        assert(trims(s, 0, s.len() as int));
        assert(s.subrange(0, s.len() as int) =~= s);
        assert(is_trimmed(s, s));
        trimmed_is_unique(s, s, trimmed(s));
    }
    let (i, j) = choose|i: int, j: int| #[trigger]
        trims(none, i, j) && trimmed(none) == none.subrange(i, j);
}

/// Decimal numbers: one more digit is ten times the number and the digit more.
/// A single digit is its own value. One sign `+` in front makes no difference,
/// and no other character is part of a number.
pub proof fn digits_make_numbers(s: Seq<char>, d: char)
    ensures
        number(Seq::empty()) is None,
        '0' <= d <= '9' ==> number(seq![d]) == Some((d as int - 48) as nat),
        !('0' <= d <= '9') ==> number(seq![d]) is None && number(s.push(d)) is None,
        '0' <= d <= '9' && number(s) is Some ==> number(s.push(d)) == Some(
            (number(s)->0 * 10 + (d as int - 48)) as nat,
        ),
        number(s) is None && s.len() > 0 && s != seq!['+'] ==> number(s.push(d)) is None,
        s.len() > 0 && s[0] != '+' ==> number(seq!['+'] + s) == number(s),
{
    let one = seq![d];
    assert(one.drop_last() =~= seq![]);
    assert(digits_of(seq![d]) == (if d == '+' {
        one.drop_first()
    } else {
        one
    }));
    if '0' <= d <= '9' {
        assert(decimal(one.drop_last()) == 0);
    } else if d != '+' {
        assert(!is_digit(one[0]));
    }
    let longer = s.push(d);
    if s.len() > 0 {
        let a = digits_of(s);
        let b = digits_of(longer);
        assert(b =~= a.push(d));
        assert(b.drop_last() =~= a);
        assert(b[a.len() as int] == d);
        if number(s) is Some && '0' <= d <= '9' {
            assert forall|i: int| 0 <= i < b.len() implies is_digit(#[trigger] b[i]) by {
                if i < a.len() {
                    assert(is_digit(a[i]));
                }
            }
        }
        if !('0' <= d <= '9') {
            assert(!is_digit(b[a.len() as int]));
        }
        if number(s) is None && s != seq!['+'] {
            assert(a.len() > 0) by {
                if a.len() == 0 {
                    assert(s =~= seq!['+']);
                }
            }
            let i = choose|i: int| 0 <= i < a.len() && !is_digit(#[trigger] a[i]);
            assert(!is_digit(b[i]));
        }
        let signed = seq!['+'] + s;
        assert(signed.drop_first() =~= s);
    } else {
        assert(longer =~= one);
        assert(s =~= seq![]);
    }
}

/// A number is read if it is written as one and fits; otherwise nothing is.
pub proof fn numbers_are_read_as_written(text: &[char], r: Option<u64>)
    requires
        call_ensures(parse_number, (text,), r),
    ensures
        number(text@) is Some && number(text@)->0 <= u64::MAX ==> r is Some && r->0
            == number(text@)->0,
        number(text@) is Some && number(text@)->0 > u64::MAX ==> r is None,
        number(text@) is None ==> r is None,
{
}

/// Comparing, searching, copying and trimming do what is stated of them.
pub proof fn texts_are_handled_as_stated(
    a: &str,
    b: &str,
    equal: bool,
    list: &[String],
    found: bool,
    copy: Vec<String>,
    letters: Vec<char>,
    row: &[char],
    cut: Vec<char>,
    i: int,
)
    requires
        call_ensures(same, (a, b), equal),
        call_ensures(contains, (list, a), found),
        call_ensures(copied, (list,), copy),
        call_ensures(characters, (a,), letters),
        call_ensures(trim, (row,), cut),
    ensures
        equal <==> a@ == b@,
        found <==> exists|k: int| 0 <= k < list@.len() && #[trigger] list@[k]@ == a@,
        copy@.len() == list@.len(),
        0 <= i < list@.len() ==> copy@[i]@ == list@[i]@,
        letters@ == a@,
        cut@ == trimmed(row@),
{
    let (x, y) = (texts(list@), texts(copy@));
    assert(x.len() == list@.len() && y.len() == copy@.len());
    if 0 <= i < list@.len() {
        assert(x[i] == list@[i]@ && y[i] == copy@[i]@);
    }
    if found {
        let k = choose|k: int| 0 <= k < x.len() && x[k] == a@;
        assert(list@[k]@ == a@);
    }
    if exists|k: int| 0 <= k < list@.len() && #[trigger] list@[k]@ == a@ {
        let k = choose|k: int| 0 <= k < list@.len() && #[trigger] list@[k]@ == a@;
        assert(x[k] == a@);
    }
}

} // verus!
