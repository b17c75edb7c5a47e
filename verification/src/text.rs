//! Small operations on text.
use vstd::prelude::*;
use vstd::string::*;

verus! {

/// Whether two texts are the same.
pub fn same(a: &str, b: &str) -> (r: bool)
    ensures
        r == (a@ == b@),
{
    a.to_owned() == b.to_owned()
}

/// The characters that separate words: the white space of Unicode.
pub open spec fn is_space(c: char) -> bool {
    ||| '\u{9}' <= c <= '\u{d}'
    ||| c == '\u{20}'
    ||| c == '\u{85}'
    ||| c == '\u{a0}'
    ||| c == '\u{1680}'
    ||| '\u{2000}' <= c <= '\u{200a}'
    ||| c == '\u{2028}'
    ||| c == '\u{2029}'
    ||| c == '\u{202f}'
    ||| c == '\u{205f}'
    ||| c == '\u{3000}'
}

/// Whether a character is white space.
pub fn is_whitespace(c: char) -> (r: bool)
    ensures
        r == is_space(c),
{
    ('\u{9}' <= c && c <= '\u{d}') || c == '\u{20}' || c == '\u{85}' || c == '\u{a0}' || c
        == '\u{1680}' || ('\u{2000}' <= c && c <= '\u{200a}') || c == '\u{2028}' || c == '\u{2029}'
        || c == '\u{202f}' || c == '\u{205f}' || c == '\u{3000}'
}

/// A text that holds nothing but white space.
pub open spec fn blank(s: Seq<char>) -> bool {
    forall|i: int| 0 <= i < s.len() ==> is_space(#[trigger] s[i])
}

/// Whether a text holds nothing but white space.
pub fn is_blank(s: &str) -> (r: bool)
    ensures
        r == blank(s@),
{
    for c in it: s.chars()
        invariant
            it.seq() == s@,
            forall|i: int| 0 <= i < it.index() ==> is_space(#[trigger] s@[i]),
    {
        if !is_whitespace(c) {
            assert(!is_space(s@[it.index()]));
            return false;
        }
    }
    true
}

/// The words of a text, left to right, and the characters since the last white space.
pub open spec fn split_words(s: Seq<char>) -> (Seq<Seq<char>>, Seq<char>)
    decreases s.len(),
{
    if s.len() == 0 {
        (Seq::empty(), Seq::empty())
    } else {
        let (done, current) = split_words(s.drop_last());
        if !is_space(s.last()) {
            (done, current.push(s.last()))
        } else if current.len() == 0 {
            (done, current)
        } else {
            (done.push(current), Seq::empty())
        }
    }
}

/// The words of a text: what is left when it is cut at white space and nothing empty is
/// kept.
pub open spec fn words_of(s: Seq<char>) -> Seq<Seq<char>> {
    let (done, current) = split_words(s);
    if current.len() == 0 {
        done
    } else {
        done.push(current)
    }
}

/// The texts of a list of strings.
pub open spec fn texts(v: Seq<String>) -> Seq<Seq<char>> {
    v.map_values(|s: String| s@)
}

/// The words of a text.
pub fn words(s: &str) -> (r: Vec<String>)
    ensures
        texts(r@) == words_of(s@),
{
    let mut done: Vec<String> = Vec::new();
    let mut start: usize = 0;
    let mut i: usize = 0;
    let n: usize = s.unicode_len();
    assert(texts(done@) =~= Seq::empty());
    assert(s@.subrange(0, 0) =~= Seq::<char>::empty());
    for c in it: s.chars()
        invariant
            n == s@.len(),
            it.seq() == s@,
            i == it.index(),
            start <= i <= n,
            split_words(s@.take(i as int)) == (texts(done@), s@.subrange(start as int, i as int)),
    {
        proof {
            assert(s@.take(i + 1).drop_last() =~= s@.take(i as int));
            assert(s@.take(i + 1).last() == c);
        }
        if is_whitespace(c) {
            if start < i {
                let word = s.substring_char(start, i).to_owned();
                let ghost before = done@;
                done.push(word);
                assert(texts(done@) =~= texts(before).push(word@));
            }
            start = i + 1;
            assert(s@.subrange(start as int, i + 1) =~= Seq::<char>::empty());
        } else {
            assert(s@.subrange(start as int, i + 1) =~= s@.subrange(start as int, i as int).push(c));
        }
        i = i + 1;
    }
    assert(s@.take(n as int) =~= s@);
    if start < n {
        let word = s.substring_char(start, n).to_owned();
        let ghost before = done@;
        done.push(word);
        assert(texts(done@) =~= texts(before).push(word@));
    }
    done
}

/// A run of characters without white space.
pub open spec fn unbroken(s: Seq<char>) -> bool {
    forall|j: int| 0 <= j < s.len() ==> !is_space(#[trigger] s[j])
}

/// Every word is a non-empty run of characters without white space.
pub proof fn law_words_are_unbroken(s: Seq<char>)
    ensures
        forall|i: int|
            0 <= i < words_of(s).len() ==> (#[trigger] words_of(s)[i]).len() > 0 && unbroken(
                words_of(s)[i],
            ),
{
    lemma_split_words(s);
}

proof fn lemma_split_words(s: Seq<char>)
    ensures
        forall|i: int|
            0 <= i < split_words(s).0.len() ==> (#[trigger] split_words(s).0[i]).len() > 0
                && unbroken(split_words(s).0[i]),
        unbroken(split_words(s).1),
    decreases s.len(),
{
    if s.len() > 0 {
        lemma_split_words(s.drop_last());
        let (done, current) = split_words(s.drop_last());
        assert forall|i: int| 0 <= i < split_words(s).0.len() implies (
        #[trigger] split_words(s).0[i]).len() > 0 && unbroken(split_words(s).0[i]) by {
            if i < done.len() {
                assert(split_words(s).0[i] == done[i]);
            }
        }
    }
}

/// A text has no words exactly if it is blank.
pub proof fn law_blank_has_no_words(s: Seq<char>)
    ensures
        blank(s) <==> words_of(s).len() == 0,
    decreases s.len(),
{
    if s.len() > 0 {
        law_blank_has_no_words(s.drop_last());
        assert(blank(s) <==> blank(s.drop_last()) && is_space(s.last())) by {
            if blank(s.drop_last()) && is_space(s.last()) {
                assert forall|i: int| 0 <= i < s.len() implies is_space(#[trigger] s[i]) by {
                    if i < s.len() - 1 {
                        assert(s[i] == s.drop_last()[i]);
                    }
                }
            }
            if blank(s) {
                assert(is_space(s[s.len() - 1]));
                assert forall|i: int| 0 <= i < s.drop_last().len() implies is_space(
                    #[trigger] s.drop_last()[i],
                ) by {
                    assert(is_space(s[i]));
                }
            }
        }
    }
}

/// The texts of a list, one after the other, with a separator between each two.
pub open spec fn joined(parts: Seq<Seq<char>>, separator: Seq<char>) -> Seq<char>
    decreases parts.len(),
{
    if parts.len() == 0 {
        Seq::empty()
    } else if parts.len() == 1 {
        parts[0]
    } else {
        joined(parts.drop_last(), separator) + separator + parts.last()
    }
}

/// Join the strings of a list from position `from` on, with a separator between each two.
pub fn join(parts: &Vec<String>, from: usize, separator: &str) -> (r: String)
    requires
        from <= parts@.len(),
    ensures
        r@ == joined(texts(parts@).skip(from as int), separator@),
{
    let mut r = String::new();
    let mut i: usize = from;
    let ghost all = texts(parts@).skip(from as int);
    assert(all.take(0) =~= Seq::empty());
    while i < parts.len()
        invariant
            from <= i <= parts@.len(),
            all == texts(parts@).skip(from as int),
            r@ == joined(all.take(i - from), separator@),
        decreases parts@.len() - i,
    {
        assert(all.take(i - from + 1).drop_last() =~= all.take(i - from));
        assert(all.take(i - from + 1).last() == parts@[i as int]@);
        if i > from {
            r.append(separator);
        } else {
            assert(r@ + parts@[i as int]@ =~= parts@[i as int]@);
        }
        r.append(parts[i].as_str());
        i = i + 1;
    }
    assert(all.take(i - from) =~= all);
    r
}

/// The decimal digit that stands for `n`, for `n` below ten.
pub open spec fn digit(n: int) -> char {
    (n + '0' as int) as char
}

/// The decimal digits of a number, without leading zeros.
pub open spec fn decimal_digits(n: nat) -> Seq<char>
    decreases n,
{
    if n < 10 {
        seq![digit(n as int)]
    } else {
        decimal_digits(n / 10).push(digit(n as int % 10))
    }
}

fn digit_text(n: u64) -> (r: &'static str)
    requires
        n < 10,
    ensures
        r@ == seq![digit(n as int)],
{
    proof {
        reveal_strlit("0");
        reveal_strlit("1");
        reveal_strlit("2");
        reveal_strlit("3");
        reveal_strlit("4");
        reveal_strlit("5");
        reveal_strlit("6");
        reveal_strlit("7");
        reveal_strlit("8");
        reveal_strlit("9");
    }
    if n == 0 {
        "0"
    } else if n == 1 {
        "1"
    } else if n == 2 {
        "2"
    } else if n == 3 {
        "3"
    } else if n == 4 {
        "4"
    } else if n == 5 {
        "5"
    } else if n == 6 {
        "6"
    } else if n == 7 {
        "7"
    } else if n == 8 {
        "8"
    } else {
        "9"
    }
}

/// A number in decimal digits.
pub fn decimal(n: u64) -> (r: String)
    ensures
        r@ == decimal_digits(n as nat),
    decreases n,
{
    if n < 10 {
        digit_text(n).to_owned()
    } else {
        let mut r = decimal(n / 10);
        r.append(digit_text(n % 10));
        assert(r@ =~= decimal_digits(n as nat));
        r
    }
}

/// A text of decimal digits, at least one.
pub open spec fn is_decimal(s: Seq<char>) -> bool {
    &&& s.len() > 0
    &&& forall|i: int| 0 <= i < s.len() ==> '0' <= #[trigger] s[i] <= '9'
}

/// The number that a text of decimal digits stands for.
pub open spec fn decimal_value(s: Seq<char>) -> int
    decreases s.len(),
{
    if s.len() == 0 {
        0
    } else {
        decimal_value(s.drop_last()) * 10 + (s.last() as int - '0' as int)
    }
}

/// The text without its leading plus sign, if it has one.
pub open spec fn without_plus(s: Seq<char>) -> Seq<char> {
    if s.len() > 0 && s[0] == '+' {
        s.skip(1)
    } else {
        s
    }
}

/// The 16-bit number that a text stands for: decimal digits, after a plus sign or not,
/// whose value is in range.
pub open spec fn u16_of(s: Seq<char>) -> Option<u16> {
    let digits = without_plus(s);
    if is_decimal(digits) && decimal_value(digits) <= u16::MAX {
        Some(decimal_value(digits) as u16)
    } else {
        None
    }
}

proof fn lemma_decimal_value_grows(s: Seq<char>, k: int)
    requires
        is_decimal(s),
        0 <= k <= s.len(),
    ensures
        0 <= decimal_value(s.take(k)) <= decimal_value(s),
    decreases s.len(),
{
    if k == s.len() {
        assert(s.take(k) =~= s);
        if s.len() > 1 {
            lemma_decimal_value_grows(s.drop_last(), k - 1);
            assert(s.drop_last().take(k - 1) =~= s.drop_last());
        } else {
            assert(s.drop_last() =~= Seq::<char>::empty());
        }
        assert('0' <= s[s.len() - 1]);
    } else if s.len() == 1 {
        assert(s.take(0) =~= Seq::<char>::empty());
        assert(s.drop_last() =~= Seq::<char>::empty());
        assert('0' <= s[0]);
    } else {
        assert(is_decimal(s.drop_last())) by {
            assert forall|i: int| 0 <= i < s.len() - 1 implies '0' <= #[trigger] s.drop_last()[i] <= '9' by {
                assert(s.drop_last()[i] == s[i]);
            }
        }
        lemma_decimal_value_grows(s.drop_last(), k);
        assert(s.drop_last().take(k) =~= s.take(k));
        assert('0' <= s[s.len() - 1]);
    }
}

/// Read a 16-bit number.
pub fn parse_u16(s: &str) -> (r: Option<u16>)
    ensures
        r == u16_of(s@),
{
    let n: usize = s.unicode_len();
    let from: usize = if n > 0 && s.get_char(0) == '+' {
        1
    } else {
        0
    };
    let ghost digits = without_plus(s@);
    assert(digits =~= s@.skip(from as int));
    if from == n {
        return None;
    }
    let digits_text = s.substring_char(from, n);
    assert(digits_text@ =~= digits);
    let mut value: u32 = 0;
    assert(digits.take(0) =~= Seq::<char>::empty());
    for c in it: digits_text.chars()
        invariant
            digits_text@ == digits,
            it.seq() == digits,
            digits == without_plus(s@),
            digits.len() > 0,
            value <= u16::MAX,
            value == decimal_value(digits.take(it.index())),
            forall|i: int| 0 <= i < it.index() ==> '0' <= #[trigger] digits[i] <= '9',
    {
        let ghost k = it.index();
        if c < '0' || c > '9' {
            assert(!('0' <= digits[k] <= '9'));
            return None;
        }
        value = value * 10 + (c as u32 - '0' as u32);
        assert(digits.take(k + 1).drop_last() =~= digits.take(k));
        assert(value == decimal_value(digits.take(k + 1)));
        if value > u16::MAX as u32 {
            proof {
                if is_decimal(digits) {
                    lemma_decimal_value_grows(digits, k + 1);
                }
            }
            return None;
        }
    }
    assert(digits.take(digits.len() as int) =~= digits);
    Some(value as u16)
}

/// Reading the digits of a number gives that number.
pub proof fn law_decimal_reads_back(n: nat)
    ensures
        is_decimal(decimal_digits(n)),
        decimal_value(decimal_digits(n)) == n,
    decreases n,
{
    if n < 10 {
        assert(decimal_digits(n).drop_last() =~= Seq::<char>::empty());
        assert(decimal_value(decimal_digits(n).drop_last()) == 0);
        assert(decimal_digits(n).last() == digit(n as int));
    } else {
        law_decimal_reads_back(n / 10);
        let shorter = decimal_digits(n / 10);
        assert(decimal_digits(n).drop_last() =~= shorter);
        assert forall|i: int| 0 <= i < decimal_digits(n).len() implies '0' <= #[trigger] decimal_digits(n)[i] <= '9' by {
            if i < shorter.len() {
                assert(decimal_digits(n)[i] == shorter[i]);
            }
        }
    }
}

/// Whether `pattern` stands in `s` from position `i` on.
pub open spec fn occurs_at(s: Seq<char>, pattern: Seq<char>, i: int) -> bool {
    0 <= i && i + pattern.len() <= s.len() && s.subrange(i, i + pattern.len()) == pattern
}

/// Whether `pattern` stands anywhere in `s`.
pub open spec fn contains_text(s: Seq<char>, pattern: Seq<char>) -> bool {
    exists|i: int| #[trigger] occurs_at(s, pattern, i)
}

/// The characters of a text, in a list.
pub fn chars_of(s: &str) -> (r: Vec<char>)
    ensures
        r@ == s@,
{
    let mut r: Vec<char> = Vec::new();
    for c in it: s.chars()
        invariant
            it.seq() == s@,
            r@ == s@.take(it.index()),
    {
        r.push(c);
        assert(r@ =~= s@.take(it.index() + 1));
    }
    assert(s@.take(s@.len() as int) =~= s@);
    r
}

fn matches_at(s: &Vec<char>, pattern: &Vec<char>, i: usize) -> (r: bool)
    requires
        i + pattern@.len() <= s@.len(),
    ensures
        r == occurs_at(s@, pattern@, i as int),
{
    let mut j: usize = 0;
    let total: usize = s.len();
    while j < pattern.len()
        invariant
            j <= pattern@.len(),
            i + pattern@.len() <= s@.len(),
            total == s@.len(),
            forall|k: int| 0 <= k < j ==> s@[i + k] == #[trigger] pattern@[k],
        decreases pattern@.len() - j,
    {
        if s[i + j] != pattern[j] {
            assert(s@.subrange(i as int, i + pattern@.len())[j as int] == s@[i + j]);
            return false;
        }
        j = j + 1;
    }
    assert(s@.subrange(i as int, i + pattern@.len()) =~= pattern@);
    true
}

/// Where `pattern` stands in `s` for the first time, counted in characters.
pub fn find(s: &str, pattern: &str) -> (r: Option<usize>)
    ensures
        match r {
            Some(i) => {
                &&& occurs_at(s@, pattern@, i as int)
                &&& forall|k: int| 0 <= k < i ==> !#[trigger] occurs_at(s@, pattern@, k)
            },
            None => !contains_text(s@, pattern@),
        },
{
    let text = chars_of(s);
    let wanted = chars_of(pattern);
    let mut i: usize = 0;
    while i <= text.len() && wanted.len() <= text.len() - i
        invariant
            text@ == s@,
            wanted@ == pattern@,
            i <= text@.len() + 1,
            i > 0 ==> i - 1 + wanted@.len() <= text@.len(),
            forall|k: int| 0 <= k < i ==> !#[trigger] occurs_at(s@, pattern@, k),
        decreases text@.len() + 1 - i,
    {
        if matches_at(&text, &wanted, i) {
            return Some(i);
        }
        if i == text.len() {
            assert forall|k: int| !#[trigger] occurs_at(s@, pattern@, k) by {}
            return None;
        }
        i = i + 1;
    }
    assert forall|k: int| !#[trigger] occurs_at(s@, pattern@, k) by {}
    None
}

/// Whether `pattern` stands anywhere in `s`.
pub fn contains(s: &str, pattern: &str) -> (r: bool)
    ensures
        r == contains_text(s@, pattern@),
{
    find(s, pattern).is_some()
}

/// White space separates words: the words of two texts with white space between them are
/// those of the first and then those of the second. A text without white space is one word,
/// and an empty one none.
pub proof fn law_words_are_what_white_space_separates(
    first: Seq<char>,
    space: char,
    second: Seq<char>,
    word: Seq<char>,
)
    ensures
        is_space(space) ==> words_of(first.push(space) + second) == words_of(first) + words_of(
            second,
        ),
        word.len() > 0 && (forall|i: int| 0 <= i < word.len() ==> !is_space(#[trigger] word[i]))
            ==> words_of(word) == seq![word],
        words_of(Seq::empty()) == Seq::<Seq<char>>::empty(),
{
    if is_space(space) {
        lemma_split_after_space(first, space, second);
        let (done, current) = split_words(second);
        if current.len() == 0 {
        } else {
            assert((words_of(first) + done).push(current) =~= words_of(first) + done.push(current));
        }
    }
    if word.len() > 0 && (forall|i: int| 0 <= i < word.len() ==> !is_space(#[trigger] word[i])) {
        lemma_split_unbroken(word);
        assert(Seq::<Seq<char>>::empty().push(word) =~= seq![word]);
    }
}

proof fn lemma_split_after_space(first: Seq<char>, space: char, second: Seq<char>)
    requires
        is_space(space),
    ensures
        split_words(first.push(space) + second).0 == words_of(first) + split_words(second).0,
        split_words(first.push(space) + second).1 == split_words(second).1,
    decreases second.len(),
{
    let whole = first.push(space) + second;
    if second.len() == 0 {
        assert(whole =~= first.push(space));
        assert(whole.drop_last() =~= first);
        assert(words_of(first) + Seq::<Seq<char>>::empty() =~= words_of(first));
    } else {
        lemma_split_after_space(first, space, second.drop_last());
        assert(whole.drop_last() =~= first.push(space) + second.drop_last());
        let (done, current) = split_words(second.drop_last());
        assert((words_of(first) + done).push(current) =~= words_of(first) + done.push(current));
    }
}

proof fn lemma_split_unbroken(word: Seq<char>)
    requires
        forall|i: int| 0 <= i < word.len() ==> !is_space(#[trigger] word[i]),
    ensures
        split_words(word).0 == Seq::<Seq<char>>::empty(),
        split_words(word).1 == word,
    decreases word.len(),
{
    if word.len() > 0 {
        let shorter = word.drop_last();
        assert forall|i: int| 0 <= i < shorter.len() implies !is_space(#[trigger] shorter[i]) by {
            assert(shorter[i] == word[i]);
        }
        lemma_split_unbroken(shorter);
        assert(shorter.push(word.last()) =~= word);
    }
}

/// Joining puts the separator between each two parts and nowhere else.
pub proof fn law_joining(parts: Seq<Seq<char>>, part: Seq<char>, separator: Seq<char>)
    ensures
        joined(Seq::empty(), separator) == Seq::<char>::empty(),
        joined(seq![part], separator) == part,
        parts.len() > 0 ==> joined(parts.push(part), separator) == joined(parts, separator)
            + separator + part,
{
    assert(parts.push(part).drop_last() =~= parts);
}

/// A decimal text stands for the sum of its digits, each ten times the one behind it.
pub proof fn law_what_a_decimal_text_stands_for(s: Seq<char>, c: char)
    ensures
        decimal_value(Seq::empty()) == 0,
        decimal_value(s.push(c)) == decimal_value(s) * 10 + (c as int - 48),
        is_decimal(s) <==> s.len() > 0 && forall|i: int|
            0 <= i < s.len() ==> '0' <= #[trigger] s[i] <= '9',
{
    assert(s.push(c).drop_last() =~= s);
}

/// A number is written without leading zeros, zero itself apart.
pub proof fn law_no_leading_zeros(n: nat)
    ensures
        decimal_digits(n).len() > 0,
        n < 10 ==> decimal_digits(n).len() == 1,
        n > 0 ==> decimal_digits(n)[0] != '0',
    decreases n,
{
    if n >= 10 {
        law_no_leading_zeros(n / 10);
    }
}

/// A text stands for a 16-bit number if and only if, after one plus sign or none, it is made
/// of decimal digits whose value is at most 65535; then for that value.
pub proof fn law_which_texts_are_16_bit_numbers(s: Seq<char>)
    ensures
        ({
            let digits = if s.len() > 0 && s[0] == '+' {
                s.skip(1)
            } else {
                s
            };
            let in_range = is_decimal(digits) && decimal_value(digits) <= 65535;
            &&& u16_of(s) is Some <==> in_range
            &&& in_range ==> u16_of(s)->0 == decimal_value(digits)
        }),
{
    let digits = without_plus(s);
    if is_decimal(digits) {
        lemma_decimal_value_grows(digits, 0);
    }
}

/// A pattern stands at a position if its characters are those from there on; a text is blank
/// if every character is white space; a list of texts has one text for each string.
pub proof fn law_texts(s: Seq<char>, pattern: Seq<char>, i: int, list: Seq<String>)
    ensures
        occurs_at(s, pattern, i) <==> 0 <= i && i + pattern.len() <= s.len() && s.subrange(
            i,
            i + pattern.len(),
        ) == pattern,
        occurs_at(s, pattern, i) ==> contains_text(s, pattern),
        contains_text(s, pattern) ==> exists|k: int| #[trigger] occurs_at(s, pattern, k),
        blank(s) <==> forall|k: int| 0 <= k < s.len() ==> is_space(#[trigger] s[k]),
        texts(list).len() == list.len(),
        0 <= i < list.len() ==> texts(list)[i] == list[i]@,
{
}

} // verus!
