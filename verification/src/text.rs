//! Text helpers: comparison, splitting and decimal numbers.
use vstd::prelude::*;

verus! {

/// Code point of `c`, with the ASCII capitals moved onto the small letters.
pub open spec fn folded(c: char) -> u32 {
    if 'A' <= c <= 'Z' {
        (c as u32 + 32) as u32
    } else {
        c as u32
    }
}

/// The two texts differ at most in the case of ASCII letters.
pub open spec fn same_ignoring_ascii_case(a: Seq<char>, b: Seq<char>) -> bool {
    a.len() == b.len() && forall|i: int| 0 <= i < a.len() ==> folded(#[trigger] a[i]) == folded(b[i])
}

/// `tail` is the end of `s`.
pub open spec fn has_suffix(s: Seq<char>, tail: Seq<char>) -> bool {
    tail.len() <= s.len() && s.skip(s.len() - tail.len()) == tail
}

pub open spec fn is_ascii_char(c: char) -> bool {
    (c as u32) < 128
}

pub open spec fn is_ascii_text(s: Seq<char>) -> bool {
    forall|i: int| 0 <= i < s.len() ==> is_ascii_char(#[trigger] s[i])
}

/// Whether `char::is_whitespace` holds of a character beyond ASCII.
pub uninterp spec fn unicode_whitespace(c: char) -> bool;

/// Whether `char::is_alphanumeric` holds of a character beyond ASCII.
pub uninterp spec fn unicode_alphanumeric(c: char) -> bool;

/// What `str::to_lowercase` makes of text that is not all ASCII.
pub uninterp spec fn unicode_lowercase(s: Seq<char>) -> Seq<char>;

/// What `str::to_uppercase` makes of text that is not all ASCII.
pub uninterp spec fn unicode_uppercase(s: Seq<char>) -> Seq<char>;

/// Whitespace: of the ASCII characters space, tab, line feed, vertical tab, form
/// feed and carriage return.
pub open spec fn is_whitespace(c: char) -> bool {
    if is_ascii_char(c) {
        9 <= c as u32 <= 13 || c == ' '
    } else {
        unicode_whitespace(c)
    }
}

/// Letters and digits.
pub open spec fn is_alphanumeric(c: char) -> bool {
    if is_ascii_char(c) {
        '0' <= c <= '9' || 'A' <= c <= 'Z' || 'a' <= c <= 'z'
    } else {
        unicode_alphanumeric(c)
    }
}

pub open spec fn ascii_lower(c: char) -> char {
    if 'A' <= c <= 'Z' {
        (c as u32 + 32) as char
    } else {
        c
    }
}

pub open spec fn ascii_upper(c: char) -> char {
    if 'a' <= c <= 'z' {
        (c as u32 - 32) as char
    } else {
        c
    }
}

/// The text in small letters.
pub open spec fn lowercase(s: Seq<char>) -> Seq<char> {
    if is_ascii_text(s) {
        s.map_values(|c: char| ascii_lower(c))
    } else {
        unicode_lowercase(s)
    }
}

/// The text in capitals.
pub open spec fn uppercase(s: Seq<char>) -> Seq<char> {
    if is_ascii_text(s) {
        s.map_values(|c: char| ascii_upper(c))
    } else {
        unicode_uppercase(s)
    }
}

/// `char::is_whitespace`: exact for the ASCII characters, named for the others.
#[verifier::external_body]
fn char_is_whitespace(c: char) -> (r: bool)
    ensures
        is_ascii_char(c) ==> r == is_whitespace(c),
        !is_ascii_char(c) ==> r == unicode_whitespace(c),
{
    c.is_whitespace()
}

/// `char::is_alphanumeric`: exact for the ASCII characters, named for the others.
#[verifier::external_body]
pub(crate) fn char_is_alphanumeric(c: char) -> (r: bool)
    ensures
        is_ascii_char(c) ==> r == is_alphanumeric(c),
        !is_ascii_char(c) ==> r == unicode_alphanumeric(c),
{
    c.is_alphanumeric()
}

/// `str::to_lowercase`: letter by letter for ASCII text, named for other text.
#[verifier::external_body]
pub(crate) fn str_to_lowercase(s: &str) -> (r: String)
    ensures
        is_ascii_text(s@) ==> r@ == lowercase(s@),
        !is_ascii_text(s@) ==> r@ == unicode_lowercase(s@),
{
    s.to_lowercase()
}

/// `str::to_uppercase`: letter by letter for ASCII text, named for other text.
#[verifier::external_body]
pub(crate) fn str_to_uppercase(s: &str) -> (r: String)
    ensures
        is_ascii_text(s@) ==> r@ == uppercase(s@),
        !is_ascii_text(s@) ==> r@ == unicode_uppercase(s@),
{
    s.to_uppercase()
}

/// The characters of `s`.
pub fn chars_of(s: &str) -> (r: Vec<char>)
    ensures
        r@ == s@,
{
    let mut out: Vec<char> = Vec::new();
    for c in it: s.chars()
        invariant
            out@ == s@.take(it.index()),
            it.seq() == s@,
    {
        out.push(c);
        assert(s@.take(it.index() + 1) == s@.take(it.index()).push(c));
    }
    assert(s@.take(s@.len() as int) == s@);
    out
}

/// The two texts are the same.
pub fn same_text(a: &str, b: &str) -> (r: bool)
    ensures
        r == (a@ == b@),
{
    let x = chars_of(a);
    let y = chars_of(b);
    if x.len() != y.len() {
        return false;
    }
    let mut i: usize = 0;
    while i < x.len()
        invariant
            i <= x.len(),
            x@ == a@,
            y@ == b@,
            x.len() == y.len(),
            forall|k: int| 0 <= k < i ==> x@[k] == y@[k],
        decreases x.len() - i,
    {
        if x[i] != y[i] {
            assert(x@[i as int] != y@[i as int]);
            return false;
        }
        i += 1;
    }
    assert(a@ == b@);
    true
}

fn folded_code(c: char) -> (r: u32)
    ensures
        r == folded(c),
{
    let code = c as u32;
    if 65 <= code && code <= 90 {
        code + 32
    } else {
        code
    }
}

/// `str::eq_ignore_ascii_case`.
pub fn eq_ignore_ascii_case(a: &Vec<char>, b: &str) -> (r: bool)
    ensures
        r == same_ignoring_ascii_case(a@, b@),
{
    let y = chars_of(b);
    if a.len() != y.len() {
        return false;
    }
    let mut i: usize = 0;
    while i < a.len()
        invariant
            i <= a.len(),
            y@ == b@,
            a.len() == y.len(),
            forall|k: int| 0 <= k < i ==> folded(#[trigger] a@[k]) == folded(y@[k]),
        decreases a.len() - i,
    {
        if folded_code(a[i]) != folded_code(y[i]) {
            assert(folded(a@[i as int]) != folded(b@[i as int]));
            return false;
        }
        i += 1;
    }
    true
}

/// A text that may be missing, in the model.
pub open spec fn text_view(text: Option<String>) -> Option<Seq<char>> {
    match text {
        Some(t) => Some(t@),
        None => None,
    }
}

/// Whether there is a text, and it is `expected`.
pub fn is_text(text: &Option<String>, expected: &str) -> (r: bool)
    ensures
        r == (text_view(*text) == Some(expected@)),
{
    match text {
        Some(t) => same_text(t.as_str(), expected),
        None => false,
    }
}

/// `str::ends_with`.
pub fn ends_with(s: &str, tail: &str) -> (r: bool)
    ensures
        r == has_suffix(s@, tail@),
{
    let x = chars_of(s);
    let y = chars_of(tail);
    if y.len() > x.len() {
        return false;
    }
    let skip: usize = x.len() - y.len();
    let mut i: usize = 0;
    while i < y.len()
        invariant
            i <= y.len(),
            x@ == s@,
            y@ == tail@,
            skip + y.len() == x.len(),
            forall|k: int| 0 <= k < i ==> x@[skip + k] == y@[k],
        decreases y.len() - i,
    {
        if x[skip + i] != y[i] {
            assert(s@.skip(skip as int)[i as int] != tail@[i as int]);
            return false;
        }
        i += 1;
    }
    assert(s@.skip(skip as int) == tail@);
    true
}

/// Length of the run of characters without whitespace at the start of `s`.
pub open spec fn word_len(s: Seq<char>) -> nat
    decreases s.len(),
{
    if s.len() == 0 || is_whitespace(s[0]) {
        0
    } else {
        1 + word_len(s.skip(1))
    }
}

/// A word is no longer than the text that it starts.
pub proof fn lemma_word_len(s: Seq<char>)
    ensures
        word_len(s) <= s.len(),
    decreases s.len(),
{
    if s.len() != 0 && !is_whitespace(s[0]) {
        lemma_word_len(s.skip(1));
    }
}

/// The runs of characters without whitespace of `s`, in order.
pub open spec fn words(s: Seq<char>) -> Seq<Seq<char>>
    decreases s.len(),
{
    if s.len() == 0 {
        Seq::empty()
    } else if is_whitespace(s[0]) {
        words(s.skip(1))
    } else {
        proof {
            lemma_word_len(s.skip(1));
        }
        seq![s.take(word_len(s) as int)] + words(s.skip(word_len(s) as int))
    }
}

/// `s` has no whitespace in it.
pub open spec fn is_word(s: Seq<char>) -> bool {
    s.len() > 0 && forall|i: int| 0 <= i < s.len() ==> !is_whitespace(#[trigger] s[i])
}

proof fn lemma_word_len_is(s: Seq<char>, n: int)
    requires
        0 <= n <= s.len(),
        forall|i: int| 0 <= i < n ==> !is_whitespace(#[trigger] s[i]),
        n < s.len() ==> is_whitespace(s[n]),
    ensures
        word_len(s) == n,
    decreases n,
{
    if n > 0 {
        let t = s.skip(1);
        assert forall|i: int| 0 <= i < n - 1 implies !is_whitespace(#[trigger] t[i]) by {
            assert(t[i] == s[i + 1]);
        }
        lemma_word_len_is(t, n - 1);
    }
}

/// Two words with one whitespace character between them are split into these words.
pub proof fn law_two_words_are_split(a: Seq<char>, gap: char, b: Seq<char>)
    requires
        is_word(a),
        is_whitespace(gap),
        is_word(b),
    ensures
        words(a + seq![gap] + b) == seq![a, b],
{
    let s = a + seq![gap] + b;
    assert forall|i: int| 0 <= i < a.len() implies !is_whitespace(#[trigger] s[i]) by {
        assert(s[i] == a[i]);
    }
    assert(s[a.len() as int] == gap);
    lemma_word_len_is(s, a.len() as int);
    assert(s.take(a.len() as int) == a);
    let t = s.skip(a.len() as int);
    assert(t[0] == gap);
    assert(t.skip(1) == b);
    lemma_word_len_is(b, b.len() as int);
    assert(b.take(b.len() as int) == b);
    assert(b.skip(b.len() as int) == Seq::<char>::empty());
    assert(!is_whitespace(b[0]));
    assert(words(b) == seq![b] + words(Seq::empty()));
    assert(words(Seq::<char>::empty()) == Seq::<Seq<char>>::empty());
    assert(words(t) == words(b));
    assert(!is_whitespace(s[0]));
    assert(words(s) == seq![a] + words(t));
    assert(seq![a] + (seq![b] + Seq::<Seq<char>>::empty()) == seq![a, b]);
}

/// The views of a list of words.
pub open spec fn word_views(list: Seq<Vec<char>>) -> Seq<Seq<char>> {
    list.map_values(|w: Vec<char>| w@)
}

/// `str::split_whitespace`.
pub fn split_whitespace(s: &str) -> (r: Vec<Vec<char>>)
    ensures
        word_views(r@) == words(s@),
{
    let x = chars_of(s);
    let mut out: Vec<Vec<char>> = Vec::new();
    let mut i: usize = 0;
    assert(x@.skip(0) == x@);
    assert(word_views(out@) + words(x@) == words(x@));
    while i < x.len()
        invariant
            i <= x.len(),
            x@ == s@,
            words(x@) == word_views(out@) + words(x@.skip(i as int)),
        decreases x.len() - i,
    {
        assert(x@.skip(i as int).skip(1) == x@.skip(i + 1));
        if char_is_whitespace(x[i]) {
            i += 1;
        } else {
            let ghost rest = x@.skip(i as int);
            let start = i;
            let mut word: Vec<char> = Vec::new();
            let mut in_word = true;
            while in_word
                invariant
                    start <= i <= x.len(),
                    rest == x@.skip(start as int),
                    word@ == x@.subrange(start as int, i as int),
                    word_len(rest) == (i - start) + if in_word {
                        word_len(x@.skip(i as int))
                    } else {
                        0
                    },
                    i > start || in_word,
                    i == start ==> !is_whitespace(x@[i as int]) && i < x.len(),
                decreases
                    x.len() - i,
                    if in_word {
                        1int
                    } else {
                        0
                    },
            {
                if i == x.len() {
                    in_word = false;
                } else if char_is_whitespace(x[i]) {
                    in_word = false;
                } else {
                    assert(x@.skip(i as int).skip(1) == x@.skip(i + 1));
                    word.push(x[i]);
                    assert(x@.subrange(start as int, i + 1) == x@.subrange(
                        start as int,
                        i as int,
                    ).push(x@[i as int]));
                    i += 1;
                }
            }
            assert(rest.take(word_len(rest) as int) == word@);
            assert(rest.skip(word_len(rest) as int) == x@.skip(i as int));
            assert(word_views(out@.push(word)) == word_views(out@).push(word@));
            assert(word_views(out@) + (seq![word@] + words(x@.skip(i as int))) == word_views(
                out@.push(word),
            ) + words(x@.skip(i as int)));
            out.push(word);
        }
    }
    assert(word_views(out@) + Seq::<Seq<char>>::empty() == word_views(out@));
    out
}

pub open spec fn digit_char(d: int) -> char {
    (48 + d) as char
}

/// `n` written in decimal.
pub open spec fn decimal(n: nat) -> Seq<char>
    decreases n,
{
    if n < 10 {
        seq![digit_char(n as int)]
    } else {
        decimal(n / 10).push(digit_char((n % 10) as int))
    }
}

fn digit_text(d: u64) -> (r: &'static str)
    requires
        d < 10,
    ensures
        r@ == seq![digit_char(d as int)],
{
    proof {
        reveal_strlit("0");
        reveal_strlit("1");
        reveal_strlit("2");
        reveal_strlit("3");
        reveal_strlit("4");
        reveal_strlit("5");
        reveal_strlit("6");
        reveal_strlit("7");
        reveal_strlit("8");
        reveal_strlit("9");
    }
    match d {
        0 => "0",
        1 => "1",
        2 => "2",
        3 => "3",
        4 => "4",
        5 => "5",
        6 => "6",
        7 => "7",
        8 => "8",
        _ => "9",
    }
}

/// Writes `n` in decimal at the end of `out`.
pub fn push_decimal(out: &mut String, n: u64)
    ensures
        final(out)@ == old(out)@ + decimal(n as nat),
    decreases n,
{
    if n >= 10 {
        push_decimal(out, n / 10);
    }
    out.append(digit_text(n % 10));
    proof {
        if n >= 10 {
            assert(old(out)@ + decimal((n / 10) as nat) + seq![digit_char((n % 10) as int)]
                == old(out)@ + decimal(n as nat));
        }
    }
}

/// Two characters are the same but for case exactly if they are the same, or one is an ASCII
/// capital and the other its small letter.
pub proof fn law_case_of_letters(a: char, b: char)
    ensures
        folded(a) == folded(b) <==> a == b || ('A' <= a <= 'Z' && b as int == a as int + 32) || (
        'A' <= b <= 'Z' && a as int == b as int + 32),
{
}

/// Texts are compared character by character: they have one length, and one more character at
/// the end of both keeps them the same exactly if these are the same but for case.
pub proof fn law_case_of_texts(a: Seq<char>, b: Seq<char>, c: char, d: char)
    ensures
        same_ignoring_ascii_case(a, a),
        same_ignoring_ascii_case(a, b) ==> a.len() == b.len() && same_ignoring_ascii_case(b, a),
        same_ignoring_ascii_case(a.push(c), b.push(d)) <==> same_ignoring_ascii_case(a, b)
            && folded(c) == folded(d),
{
    if same_ignoring_ascii_case(a, b) {
        assert forall|i: int| 0 <= i < b.len() implies folded(#[trigger] b[i]) == folded(a[i]) by {
            assert(folded(a[i]) == folded(b[i]));
        }
    }
    let x = a.push(c);
    let y = b.push(d);
    if same_ignoring_ascii_case(x, y) {
        assert(folded(x[a.len() as int]) == folded(y[a.len() as int]));
        assert forall|i: int| 0 <= i < a.len() implies folded(#[trigger] a[i]) == folded(b[i]) by {
            assert(folded(x[i]) == folded(y[i]));
        }
    }
    if same_ignoring_ascii_case(a, b) && folded(c) == folded(d) {
        assert forall|i: int| 0 <= i < x.len() implies folded(#[trigger] x[i]) == folded(y[i]) by {
            if i < a.len() {
                assert(folded(a[i]) == folded(b[i]));
            }
        }
    }
}

/// A text ends with what was put behind another, and what it ends with can be taken off.
pub proof fn law_ends_of_texts(head: Seq<char>, tail: Seq<char>, s: Seq<char>)
    ensures
        has_suffix(head + tail, tail),
        has_suffix(s, tail) ==> tail.len() <= s.len() && s.take(s.len() - tail.len()) + tail == s,
{
    assert((head + tail).skip(head.len() as int) =~= tail);
    if has_suffix(s, tail) {
        assert(s.take(s.len() - tail.len()) + s.skip(s.len() - tail.len()) =~= s);
    }
}

/// Small letters and capitals of ASCII text: every character stays the same but for its case,
/// no capital is left in the one, and no small letter in the other.
pub proof fn law_small_letters_and_capitals(s: Seq<char>)
    requires
        is_ascii_text(s),
    ensures
        same_ignoring_ascii_case(lowercase(s), s),
        same_ignoring_ascii_case(uppercase(s), s),
        forall|i: int| 0 <= i < s.len() ==> !('A' <= #[trigger] lowercase(s)[i] <= 'Z'),
        forall|i: int| 0 <= i < s.len() ==> !('a' <= #[trigger] uppercase(s)[i] <= 'z'),
{
    assert forall|i: int| 0 <= i < s.len() implies !('A' <= #[trigger] lowercase(s)[i] <= 'Z')
        && folded(lowercase(s)[i]) == folded(s[i]) by {
        assert(is_ascii_char(s[i]));
    }
    assert forall|i: int| 0 <= i < s.len() implies !('a' <= #[trigger] uppercase(s)[i] <= 'z')
        && folded(uppercase(s)[i]) == folded(s[i]) by {
        assert(is_ascii_char(s[i]));
    }
}

proof fn lemma_word_end(s: Seq<char>)
    ensures
        forall|i: int| 0 <= i < word_len(s) ==> !is_whitespace(#[trigger] s[i]),
        word_len(s) < s.len() ==> is_whitespace(s[word_len(s) as int]),
    decreases s.len(),
{
    if s.len() != 0 && !is_whitespace(s[0]) {
        let t = s.skip(1);
        lemma_word_end(t);
        lemma_word_len(t);
        assert forall|i: int| 0 <= i < word_len(s) implies !is_whitespace(#[trigger] s[i]) by {
            if i > 0 {
                assert(t[i - 1] == s[i]);
            }
        }
    }
}

/// Whitespace parts the words before it from those behind it; a text without any is one word;
/// and an empty text has none. This says of every text what its words are.
pub proof fn law_whitespace_parts_words(a: Seq<char>, gap: char, b: Seq<char>)
    ensures
        words(Seq::empty()).len() == 0,
        is_word(a) ==> words(a) == seq![a],
        is_whitespace(gap) ==> words(a + seq![gap] + b) == words(a) + words(b),
    decreases a.len(),
{
    if is_word(a) {
        assert(!is_whitespace(a[0]));
        lemma_word_len_is(a, a.len() as int);
        assert(a.take(a.len() as int) =~= a);
        assert(a.skip(a.len() as int) =~= Seq::empty());
        assert(words(Seq::<char>::empty()) =~= Seq::empty());
        assert(words(a) =~= seq![a]);
    }
    if is_whitespace(gap) {
        let s = a + seq![gap] + b;
        if a.len() == 0 {
            assert(s[0] == gap);
            assert(s.skip(1) =~= b);
            assert(words(a) + words(b) =~= words(b));
        } else if is_whitespace(a[0]) {
            assert(s[0] == a[0]);
            assert(s.skip(1) =~= a.skip(1) + seq![gap] + b);
            law_whitespace_parts_words(a.skip(1), gap, b);
        } else {
            let n = word_len(a) as int;
            lemma_word_len(a);
            lemma_word_end(a);
            assert forall|i: int| 0 <= i < n implies !is_whitespace(#[trigger] s[i]) by {
                assert(s[i] == a[i]);
            }
            assert(n < a.len() ==> s[n] == a[n]);
            assert(n == a.len() ==> s[n] == gap);
            lemma_word_len_is(s, n);
            assert(s[0] == a[0]);
            assert(s.take(n) =~= a.take(n));
            assert(s.skip(n) =~= a.skip(n) + seq![gap] + b);
            law_whitespace_parts_words(a.skip(n), gap, b);
            assert(words(s) =~= seq![a.take(n)] + (words(a.skip(n)) + words(b)));
            assert(words(s) =~= words(a) + words(b));
        }
    }
}

/// A number is written digit by digit: one below ten by its digit alone, and ten times a number
/// and a digit more by what that number is written by and the digit behind it.
pub proof fn law_decimals(n: nat, digit: nat)
    requires
        digit < 10,
    ensures
        decimal(digit) == seq![(48 + digit) as char],
        n > 0 ==> decimal(10 * n + digit) == decimal(n).push((48 + digit) as char),
        decimal(n).len() >= 1,
        n > 0 ==> decimal(n)[0] != '0',
    decreases n,
{
    assert((10 * n + digit) / 10 == n);
    assert((10 * n + digit) % 10 == digit);
    if n >= 10 {
        law_decimals(n / 10, digit);
    }
}

/// Which of the ASCII characters are whitespace, and which are letters and digits.
pub proof fn law_kinds_of_characters(c: char)
    requires
        (c as u32) < 128,
    ensures
        is_whitespace(c) <==> c == ' ' || c == '\t' || c == '\n' || c == '\r' || c as u32 == 11
            || c as u32 == 12,
        is_alphanumeric(c) <==> 48 <= c as u32 <= 57 || 65 <= c as u32 <= 90 || 97 <= c as u32
            <= 122,
        is_whitespace(c) ==> !is_alphanumeric(c),
{
}

/// An ASCII capital and its small letter lead to each other, and every other character stays.
pub proof fn law_case_of_a_letter(c: char)
    ensures
        65 <= c as u32 <= 90 ==> ascii_lower(c) as u32 == c as u32 + 32 && ascii_upper(
            ascii_lower(c),
        ) == c,
        97 <= c as u32 <= 122 ==> ascii_upper(c) as u32 == c as u32 - 32 && ascii_lower(
            ascii_upper(c),
        ) == c,
        !(65 <= c as u32 <= 90) ==> ascii_lower(c) == c,
        !(97 <= c as u32 <= 122) ==> ascii_upper(c) == c,
{
}

} // verus!
