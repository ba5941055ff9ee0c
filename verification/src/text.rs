//! Text rules: Unicode and ASCII classes, trimming, comparison and decimal numbers.

use vstd::prelude::*;
use vstd::string::StrSliceExecFns;
use vstd::string::StringExecFns;
use vstd::utf8::encode_utf8;

verus! {

/// The number of bytes that a text takes in UTF-8.
pub open spec fn byte_len(s: Seq<char>) -> nat {
    encode_utf8(s).len()
}

/// The Unicode property `White_Space`.
pub open spec fn is_white_space(c: char) -> bool {
    let u = c as u32;
    ||| 0x9 <= u <= 0xd
    ||| u == 0x20
    ||| u == 0x85
    ||| u == 0xa0
    ||| u == 0x1680
    ||| 0x2000 <= u <= 0x200a
    ||| u == 0x2028
    ||| u == 0x2029
    ||| u == 0x202f
    ||| u == 0x205f
    ||| u == 0x3000
}

/// The Unicode general category `Cc`.
pub open spec fn is_control(c: char) -> bool {
    let u = c as u32;
    u <= 0x1f || 0x7f <= u <= 0x9f
}

/// The white space of ASCII: space, tab, line feed, form feed and carriage return.
pub open spec fn is_ascii_space(c: char) -> bool {
    c == ' ' || c == '\t' || c == '\n' || c == '\x0c' || c == '\r'
}

/// A letter or a digit of ASCII.
pub open spec fn is_ascii_alphanumeric(c: char) -> bool {
    ('a' <= c && c <= 'z') || ('A' <= c && c <= 'Z') || ('0' <= c && c <= '9')
}

/// The character with `A` to `Z` replaced by `a` to `z`.
pub open spec fn ascii_lower(c: char) -> char {
    if 'A' <= c && c <= 'Z' {
        ((c as u32 + 32) as u32) as char
    } else {
        c
    }
}

/// The text without its leading white space.
pub open spec fn trim_start(s: Seq<char>) -> Seq<char>
    decreases s.len(),
{
    if s.len() > 0 && is_white_space(s[0]) {
        trim_start(s.drop_first())
    } else {
        s
    }
}

/// The text without its trailing white space.
pub open spec fn trim_end(s: Seq<char>) -> Seq<char>
    decreases s.len(),
{
    if s.len() > 0 && is_white_space(s.last()) {
        trim_end(s.drop_last())
    } else {
        s
    }
}

/// The text without the white space at either end.
pub open spec fn trimmed(s: Seq<char>) -> Seq<char> {
    trim_end(trim_start(s))
}

/// The text without the run of `c` at its end.
pub open spec fn without_trailing(s: Seq<char>, c: char) -> Seq<char>
    decreases s.len(),
{
    if s.len() > 0 && s.last() == c {
        without_trailing(s.drop_last(), c)
    } else {
        s
    }
}

/// The two texts differ at most in the case of ASCII letters.
pub open spec fn same_ignoring_ascii_case(a: Seq<char>, b: Seq<char>) -> bool {
    &&& a.len() == b.len()
    &&& forall|i: int| 0 <= i < a.len() ==> #[trigger] ascii_lower(a[i]) == ascii_lower(b[i])
}

/// `s[i..j]` is one of the words of `s`: it is not empty, holds no ASCII white
/// space, and reaches as far as it can on both sides.
pub open spec fn is_word_at(s: Seq<char>, i: int, j: int) -> bool {
    &&& 0 <= i < j <= s.len()
    &&& forall|k: int| i <= k < j ==> !is_ascii_space(#[trigger] s[k])
    &&& i == 0 || is_ascii_space(s[i - 1])
    &&& j == s.len() || is_ascii_space(s[j])
}

/// `word` is one of the words of `s` that ASCII white space separates.
pub open spec fn has_ascii_word(s: Seq<char>, word: Seq<char>) -> bool {
    exists|i: int, j: int| #[trigger] is_word_at(s, i, j) && s.subrange(i, j) == word
}

/// The text holds a character of the category `Cc`.
pub open spec fn has_control(s: Seq<char>) -> bool {
    exists|i: int| 0 <= i < s.len() && is_control(#[trigger] s[i])
}

/// The decimal digit of a number below ten.
pub open spec fn digit(n: nat) -> char {
    (('0' as u32 + n) as u32) as char
}

/// A number in decimal, without leading zeros.
pub open spec fn decimal_text(n: nat) -> Seq<char>
    decreases n,
{
    if n < 10 {
        seq![digit(n)]
    } else {
        decimal_text(n / 10).push(digit(n % 10))
    }
}

/// The characters of a text.
pub fn chars_of(s: &str) -> (r: Vec<char>)
    ensures
        r@ == s@,
{
    let mut r: Vec<char> = Vec::new();
    for c in it: s.chars()
        invariant
            it.seq() == s@,
            r@ == s@.take(it.index() as int),
    {
        r.push(c);
    }
    r
}

/// The length of a text in bytes.
pub fn byte_length(s: &str) -> (r: usize)
    ensures
        r == byte_len(s@),
{
    s.as_bytes().len()
}

/// Whether two texts are the same.
pub fn text_eq(a: &str, b: &str) -> (r: bool)
    ensures
        r == (a@ == b@),
{
    let left: Vec<char> = chars_of(a);
    let right: Vec<char> = chars_of(b);
    if left.len() != right.len() {
        return false;
    }
    let mut i: usize = 0;
    while i < left.len()
        invariant
            i <= left.len(),
            left.len() == right.len(),
            left@ == a@,
            right@ == b@,
            forall|k: int| 0 <= k < i ==> left@[k] == right@[k],
        decreases left.len() - i,
    {
        if left[i] != right[i] {
            assert(a@[i as int] != b@[i as int]);
            return false;
        }
        i += 1;
    }
    assert(a@ =~= b@);
    true
}

/// Whether a character has the Unicode property `White_Space`.
pub fn char_is_white_space(c: char) -> (r: bool)
    ensures
        r == is_white_space(c),
{
    let u: u32 = c as u32;
    (0x9 <= u && u <= 0xd) || u == 0x20 || u == 0x85 || u == 0xa0 || u == 0x1680 || (0x2000 <= u
        && u <= 0x200a) || u == 0x2028 || u == 0x2029 || u == 0x202f || u == 0x205f || u == 0x3000
}

/// Whether a character is of the Unicode general category `Cc`.
pub fn char_is_control(c: char) -> (r: bool)
    ensures
        r == is_control(c),
{
    let u: u32 = c as u32;
    u <= 0x1f || (0x7f <= u && u <= 0x9f)
}

fn char_is_ascii_space(c: char) -> (r: bool)
    ensures
        r == is_ascii_space(c),
{
    c == ' ' || c == '\t' || c == '\n' || c == '\x0c' || c == '\r'
}

/// Whether a character is a letter or a digit of ASCII.
pub fn char_is_ascii_alphanumeric(c: char) -> (r: bool)
    ensures
        r == is_ascii_alphanumeric(c),
{
    ('a' <= c && c <= 'z') || ('A' <= c && c <= 'Z') || ('0' <= c && c <= '9')
}

fn same_letter(a: char, b: char) -> (r: bool)
    ensures
        r == (ascii_lower(a) == ascii_lower(b)),
{
    let x: u32 = if 'A' <= a && a <= 'Z' {
        a as u32 + 32
    } else {
        a as u32
    };
    let y: u32 = if 'A' <= b && b <= 'Z' {
        b as u32 + 32
    } else {
        b as u32
    };
    x == y
}

proof fn lemma_trim_start(s: Seq<char>, n: int)
    requires
        0 <= n <= s.len(),
        forall|k: int| 0 <= k < n ==> is_white_space(#[trigger] s[k]),
        n < s.len() ==> !is_white_space(s[n]),
    ensures
        trim_start(s) == s.skip(n),
    decreases n,
{
    if n == 0 {
        assert(s.skip(0) =~= s);
    } else {
        let rest = s.drop_first();
        assert(is_white_space(s[0]));
        assert forall|k: int| 0 <= k < n - 1 implies is_white_space(#[trigger] rest[k]) by {
            assert(rest[k] == s[k + 1]);
        }
        lemma_trim_start(rest, n - 1);
        assert(rest.skip(n - 1) =~= s.skip(n));
    }
}

proof fn lemma_trim_end(s: Seq<char>, n: int)
    requires
        0 <= n <= s.len(),
        forall|k: int| n <= k < s.len() ==> is_white_space(#[trigger] s[k]),
        n > 0 ==> !is_white_space(s[n - 1]),
    ensures
        trim_end(s) == s.take(n),
    decreases s.len() - n,
{
    if n == s.len() {
        assert(s.take(n) =~= s);
    } else {
        assert(is_white_space(s[s.len() - 1]));
        lemma_trim_end(s.drop_last(), n);
        assert(s.drop_last().take(n) =~= s.take(n));
    }
}

proof fn lemma_without_trailing(s: Seq<char>, c: char, n: int)
    requires
        0 <= n <= s.len(),
        forall|k: int| n <= k < s.len() ==> #[trigger] s[k] == c,
        n > 0 ==> s[n - 1] != c,
    ensures
        without_trailing(s, c) == s.take(n),
    decreases s.len() - n,
{
    if n == s.len() {
        assert(s.take(n) =~= s);
    } else {
        assert(s[s.len() - 1] == c);
        lemma_without_trailing(s.drop_last(), c, n);
        assert(s.drop_last().take(n) =~= s.take(n));
    }
}

/// A text without the white space at either end.
pub fn trim(s: &str) -> (r: String)
    ensures
        r@ == trimmed(s@),
{
    let chars: Vec<char> = chars_of(s);
    let mut start: usize = 0;
    while start < chars.len() && char_is_white_space(chars[start])
        invariant
            start <= chars.len(),
            chars@ == s@,
            forall|k: int| 0 <= k < start ==> is_white_space(#[trigger] s@[k]),
        ensures
            start < chars.len() ==> !is_white_space(s@[start as int]),
        decreases chars.len() - start,
    {
        start += 1;
    }
    let mut end: usize = chars.len();
    while start < end && char_is_white_space(chars[end - 1])
        invariant
            start <= end <= chars.len(),
            chars@ == s@,
            forall|k: int| end <= k < chars.len() ==> is_white_space(#[trigger] s@[k]),
        ensures
            start < end ==> !is_white_space(s@[end - 1]),
        decreases end,
    {
        end -= 1;
    }
    proof {
        lemma_trim_start(s@, start as int);
        let rest = s@.skip(start as int);
        assert forall|k: int| end - start <= k < rest.len() implies is_white_space(
            #[trigger] rest[k],
        ) by {
            assert(rest[k] == s@[k + start]);
        }
        lemma_trim_end(rest, end - start);
        assert(rest.take(end - start) =~= s@.subrange(start as int, end as int));
    }
    s.substring_char(start, end).to_owned()
}

/// Whether nothing is left of a text once the white space at either end is gone.
pub fn is_blank(s: &str) -> (r: bool)
    ensures
        r == (trimmed(s@).len() == 0),
{
    trim(s).as_str().is_empty()
}

/// A text without the run of `c` at its end.
pub fn trim_trailing(s: &str, c: char) -> (r: String)
    ensures
        r@ == without_trailing(s@, c),
{
    let chars: Vec<char> = chars_of(s);
    let mut end: usize = chars.len();
    while 0 < end && chars[end - 1] == c
        invariant
            end <= chars.len(),
            chars@ == s@,
            forall|k: int| end <= k < chars.len() ==> #[trigger] s@[k] == c,
        ensures
            0 < end ==> s@[end - 1] != c,
        decreases end,
    {
        end -= 1;
    }
    proof {
        lemma_without_trailing(s@, c, end as int);
        assert(s@.take(end as int) =~= s@.subrange(0, end as int));
    }
    s.substring_char(0, end).to_owned()
}

/// Whether a text holds a character.
pub fn has_char(s: &str, c: char) -> (r: bool)
    ensures
        r == s@.contains(c),
{
    let chars: Vec<char> = chars_of(s);
    let mut i: usize = 0;
    while i < chars.len()
        invariant
            i <= chars.len(),
            chars@ == s@,
            forall|k: int| 0 <= k < i ==> s@[k] != c,
        decreases chars.len() - i,
    {
        if chars[i] == c {
            assert(s@[i as int] == c);
            return true;
        }
        i += 1;
    }
    false
}

/// Whether a text holds a character of the category `Cc`.
pub fn text_has_control(s: &str) -> (r: bool)
    ensures
        r == has_control(s@),
{
    let chars: Vec<char> = chars_of(s);
    let mut i: usize = 0;
    while i < chars.len()
        invariant
            i <= chars.len(),
            chars@ == s@,
            forall|k: int| 0 <= k < i ==> !is_control(#[trigger] s@[k]),
        decreases chars.len() - i,
    {
        if char_is_control(chars[i]) {
            assert(is_control(s@[i as int]));
            return true;
        }
        i += 1;
    }
    false
}

/// Whether two texts differ at most in the case of ASCII letters.
pub fn eq_ignore_ascii_case(a: &str, b: &str) -> (r: bool)
    ensures
        r == same_ignoring_ascii_case(a@, b@),
{
    let left: Vec<char> = chars_of(a);
    let right: Vec<char> = chars_of(b);
    if left.len() != right.len() {
        return false;
    }
    let mut i: usize = 0;
    while i < left.len()
        invariant
            i <= left.len(),
            left.len() == right.len(),
            left@ == a@,
            right@ == b@,
            forall|k: int|
                0 <= k < i ==> #[trigger] ascii_lower(a@[k]) == ascii_lower(b@[k]),
        decreases left.len() - i,
    {
        if !same_letter(left[i], right[i]) {
            assert(ascii_lower(a@[i as int]) != ascii_lower(b@[i as int]));
            return false;
        }
        i += 1;
    }
    true
}

/// Whether the range `from..to` of a text is the text `word`.
fn range_is(chars: &Vec<char>, from: usize, to: usize, word: &Vec<char>) -> (r: bool)
    requires
        from <= to <= chars.len(),
    ensures
        r == (chars@.subrange(from as int, to as int) == word@),
{
    if to - from != word.len() {
        return false;
    }
    let mut i: usize = 0;
    while i < word.len()
        invariant
            i <= word.len(),
            from <= to <= chars.len(),
            to - from == word.len(),
            forall|k: int| 0 <= k < i ==> chars@[from + k] == word@[k],
        decreases word.len() - i,
    {
        if chars[from + i] != word[i] {
            assert(chars@.subrange(from as int, to as int)[i as int] != word@[i as int]);
            return false;
        }
        i += 1;
    }
    assert(chars@.subrange(from as int, to as int) =~= word@);
    true
}

/// Whether `word` is one of the words of a text that ASCII white space separates.
pub fn contains_ascii_word(s: &str, word: &str) -> (r: bool)
    ensures
        r == has_ascii_word(s@, word@),
{
    let chars: Vec<char> = chars_of(s);
    let wanted: Vec<char> = chars_of(word);
    let mut i: usize = 0;
    while i < chars.len()
        invariant
            i <= chars.len(),
            chars@ == s@,
            wanted@ == word@,
            0 < i < chars.len() ==> is_ascii_space(s@[i - 1]) || is_ascii_space(s@[i as int]),
            forall|a: int, b: int| #[trigger]
                is_word_at(s@, a, b) && a < i ==> s@.subrange(a, b) != word@,
        decreases chars.len() - i,
    {
        if char_is_ascii_space(chars[i]) {
            i += 1;
            continue ;
        }
        let mut j: usize = i;
        while j < chars.len() && !char_is_ascii_space(chars[j])
            invariant
                i <= j <= chars.len(),
                chars@ == s@,
                forall|k: int| i <= k < j ==> !is_ascii_space(#[trigger] s@[k]),
            ensures
                j < chars.len() ==> is_ascii_space(s@[j as int]),
            decreases chars.len() - j,
        {
            j += 1;
        }
        assert(j > i);
        assert(is_word_at(s@, i as int, j as int));
        if range_is(&chars, i, j, &wanted) {
            return true;
        }
        proof {
            assert forall|a: int, b: int| #[trigger]
                is_word_at(s@, a, b) && a < j implies s@.subrange(a, b) != word@ by {
                if a >= i {
                    if a > i {
                        assert(!is_ascii_space(s@[a - 1]));
                    }
                    if b < j {
                        assert(!is_ascii_space(s@[b]));
                    } else if b > j {
                        assert(is_ascii_space(s@[j as int]));
                    }
                }
            }
        }
        i = j;
    }
    false
}

/// The digit of a number below ten, as a text.
fn digit_text(n: u64) -> (r: &'static str)
    requires
        n < 10,
    ensures
        r@ == seq![digit(n as nat)],
{
    proof {
        reveal_strlit("0");
        reveal_strlit("1");
        reveal_strlit("2");
        reveal_strlit("3");
        reveal_strlit("4");
        reveal_strlit("5");
        reveal_strlit("6");
        reveal_strlit("7");
        reveal_strlit("8");
        reveal_strlit("9");
    }
    let r: &'static str = match n {
        0 => "0",
        1 => "1",
        2 => "2",
        3 => "3",
        4 => "4",
        5 => "5",
        6 => "6",
        7 => "7",
        8 => "8",
        _ => "9",
    };
    assert(r@ =~= seq![digit(n as nat)]);
    r
}

/// A number in decimal.
pub fn decimal(n: u64) -> (r: String)
    ensures
        r@ == decimal_text(n as nat),
    decreases n,
{
    if n < 10 {
        digit_text(n).to_owned()
    } else {
        let mut r: String = decimal(n / 10);
        r.append(digit_text(n % 10));
        assert(r@ =~= decimal_text(n as nat));
        r
    }
}

/// Three texts, one after the other.
pub fn join3(a: &str, b: &str, c: &str) -> (r: String)
    ensures
        r@ == a@ + b@ + c@,
{
    let mut r: String = a.to_owned();
    r.append(b);
    r.append(c);
    r
}

/// A text is not empty and takes at most so many bytes.
pub open spec fn fits(s: Seq<char>, max_bytes: nat) -> bool {
    0 < s.len() && encode_utf8(s).len() <= max_bytes
}

proof fn lemma_trim_start_at(s: Seq<char>) -> (n: int)
    ensures
        0 <= n <= s.len(),
        forall|k: int| 0 <= k < n ==> is_white_space(#[trigger] s[k]),
        n < s.len() ==> !is_white_space(s[n]),
        trim_start(s) == s.skip(n),
    decreases s.len(),
{
    if s.len() > 0 && is_white_space(s[0]) {
        let m = lemma_trim_start_at(s.drop_first());
        assert forall|k: int| 0 <= k < m + 1 implies is_white_space(#[trigger] s[k]) by {
            if k > 0 {
                assert(s[k] == s.drop_first()[k - 1]);
            }
        }
        assert(s.drop_first().skip(m) =~= s.skip(m + 1));
        m + 1
    } else {
        assert(s.skip(0) =~= s);
        0
    }
}

proof fn lemma_trim_end_at(s: Seq<char>) -> (n: int)
    ensures
        0 <= n <= s.len(),
        forall|k: int| n <= k < s.len() ==> is_white_space(#[trigger] s[k]),
        n > 0 ==> !is_white_space(s[n - 1]),
        trim_end(s) == s.take(n),
    decreases s.len(),
{
    if s.len() > 0 && is_white_space(s.last()) {
        let n = lemma_trim_end_at(s.drop_last());
        assert forall|k: int| n <= k < s.len() implies is_white_space(#[trigger] s[k]) by {
            if k < s.len() - 1 {
                assert(s[k] == s.drop_last()[k]);
            }
        }
        assert(s.drop_last().take(n) =~= s.take(n));
        n
    } else {
        assert(s.take(s.len() as int) =~= s);
        s.len() as int
    }
}

/// What is left of a text after trimming is a stretch of it: everything before and
/// behind is white space, and the stretch neither begins nor ends with any.
pub proof fn law_trimming_cuts_white_space_alone(s: Seq<char>)
    ensures
        exists|i: int, j: int|
            {
                &&& 0 <= i <= j <= s.len()
                &&& trimmed(s) == #[trigger] s.subrange(i, j)
                &&& forall|k: int| 0 <= k < i || j <= k < s.len() ==> is_white_space(#[trigger] s[k])
                &&& i < j ==> !is_white_space(s[i]) && !is_white_space(s[j - 1])
            },
{
    let i = lemma_trim_start_at(s);
    let rest = s.skip(i);
    let n = lemma_trim_end_at(rest);
    let j = i + n;
    assert(rest.take(n) =~= s.subrange(i, j));
    assert forall|k: int| 0 <= k < i || j <= k < s.len() implies is_white_space(
        #[trigger] s[k],
    ) by {
        if k >= j {
            assert(s[k] == rest[k - i]);
        }
    }
    if i < j {
        assert(s[j - 1] == rest[n - 1]);
    }
    assert(trimmed(s) == s.subrange(i, j));
}

/// What is left of a text without its trailing run of a character is its beginning,
/// up to the last other character.
pub proof fn law_trailing_runs_are_cut_whole(s: Seq<char>, c: char)
    ensures
        exists|n: int|
            {
                &&& 0 <= n <= s.len()
                &&& without_trailing(s, c) == #[trigger] s.take(n)
                &&& forall|k: int| n <= k < s.len() ==> #[trigger] s[k] == c
                &&& n > 0 ==> s[n - 1] != c
            },
    decreases s.len(),
{
    if s.len() > 0 && s.last() == c {
        let shorter = s.drop_last();
        law_trailing_runs_are_cut_whole(shorter, c);
        let n = choose|n: int|
            {
                &&& 0 <= n <= shorter.len()
                &&& without_trailing(shorter, c) == #[trigger] shorter.take(n)
                &&& forall|k: int| n <= k < shorter.len() ==> #[trigger] shorter[k] == c
                &&& n > 0 ==> shorter[n - 1] != c
            };
        assert(shorter.take(n) =~= s.take(n));
        assert forall|k: int| n <= k < s.len() implies #[trigger] s[k] == c by {
            if k < shorter.len() {
                assert(s[k] == shorter[k]);
            }
        }
        assert(without_trailing(s, c) == s.take(n));
    } else {
        assert(s.take(s.len() as int) =~= s);
    }
}

/// Two texts that are the same but for case have, place by place, the same character
/// or the two forms of one ASCII letter, and texts with that property are the same.
pub proof fn law_case_is_all_that_may_differ(a: Seq<char>, b: Seq<char>)
    ensures
        same_ignoring_ascii_case(a, b) <==> a.len() == b.len() && forall|i: int|
            0 <= i < a.len() ==> {
                ||| (#[trigger] a[i]) == b[i]
                ||| 'A' <= a[i] && a[i] <= 'Z' && b[i] as u32 == a[i] as u32 + 32
                ||| 'A' <= b[i] && b[i] <= 'Z' && a[i] as u32 == b[i] as u32 + 32
            },
{
    if same_ignoring_ascii_case(a, b) {
        assert forall|i: int| 0 <= i < a.len() implies {
            ||| (#[trigger] a[i]) == b[i]
            ||| 'A' <= a[i] && a[i] <= 'Z' && b[i] as u32 == a[i] as u32 + 32
            ||| 'A' <= b[i] && b[i] <= 'Z' && a[i] as u32 == b[i] as u32 + 32
        } by {
            assert(ascii_lower(a[i]) == ascii_lower(b[i]));
        }
    }
    if a.len() == b.len() && forall|i: int|
        0 <= i < a.len() ==> {
            ||| (#[trigger] a[i]) == b[i]
            ||| 'A' <= a[i] && a[i] <= 'Z' && b[i] as u32 == a[i] as u32 + 32
            ||| 'A' <= b[i] && b[i] <= 'Z' && a[i] as u32 == b[i] as u32 + 32
        } {
        assert forall|i: int| 0 <= i < a.len() implies #[trigger] ascii_lower(a[i]) == ascii_lower(
            b[i],
        ) by {
            let _ = a[i];
        }
    }
}

/// The characters that separate words.
pub open spec fn separates(c: char) -> bool {
    c == '\u{20}' || c == '\u{9}' || c == '\u{a}' || c == '\u{c}' || c == '\u{d}'
}

/// A text has a word exactly where it is made of the word and what stands before and
/// behind it, set off by separators, and the word holds none.
pub proof fn law_words_stand_between_separators(
    before: Seq<char>,
    word: Seq<char>,
    behind: Seq<char>,
)
    requires
        word.len() > 0,
        forall|k: int| 0 <= k < word.len() ==> !separates(#[trigger] word[k]),
        before.len() > 0 ==> separates(before.last()),
        behind.len() > 0 ==> separates(behind[0]),
    ensures
        has_ascii_word(before + word + behind, word),
{
    let s = before + word + behind;
    let i = before.len() as int;
    let j = i + word.len();
    assert forall|k: int| i <= k < j implies !is_ascii_space(#[trigger] s[k]) by {
        assert(s[k] == word[k - i]);
        assert(!separates(word[k - i]));
    }
    assert(s.subrange(i, j) =~= word);
    if i > 0 {
        assert(s[i - 1] == before.last());
    }
    if j < s.len() {
        assert(s[j] == behind[0]);
    }
    assert(is_word_at(s, i, j));
}

/// A word of a text holds no separator and is set off by separators.
pub proof fn law_words_are_set_off(s: Seq<char>, word: Seq<char>)
    requires
        has_ascii_word(s, word),
    ensures
        word.len() > 0,
        forall|k: int| 0 <= k < word.len() ==> !separates(#[trigger] word[k]),
        exists|before: Seq<char>, behind: Seq<char>|
            {
                &&& s == #[trigger] (before + word + behind)
                &&& before.len() > 0 ==> separates(before.last())
                &&& behind.len() > 0 ==> separates(behind[0])
            },
{
    let (i, j) = choose|i: int, j: int| #[trigger] is_word_at(s, i, j) && s.subrange(i, j) == word;
    assert forall|k: int| 0 <= k < word.len() implies !separates(#[trigger] word[k]) by {
        assert(word[k] == s[i + k]);
        assert(!is_ascii_space(s[i + k]));
    }
    let before = s.take(i);
    let behind = s.skip(j);
    assert(s =~= before + word + behind);
}

/// The number that decimal digits spell.
pub open spec fn decimal_value(s: Seq<char>) -> int
    decreases s.len(),
{
    if s.len() == 0 {
        0
    } else {
        decimal_value(s.drop_last()) * 10 + (s.last() as u32 - 0x30)
    }
}

/// A number in decimal spells the number, with digits alone and no needless zero.
pub proof fn law_decimals_spell_their_number(n: nat)
    ensures
        decimal_value(decimal_text(n)) == n,
        decimal_text(n).len() > 0,
        forall|i: int|
            0 <= i < decimal_text(n).len() ==> 0x30 <= (#[trigger] decimal_text(n)[i]) as u32
                <= 0x39,
        decimal_text(n).len() > 1 ==> decimal_text(n)[0] != '0',
    decreases n,
{
    if n < 10 {
        let text = decimal_text(n);
        assert(text.drop_last() =~= Seq::empty());
        assert(decimal_value(text.drop_last()) == 0);
        assert(text.last() == digit(n));
    } else {
        law_decimals_spell_their_number(n / 10);
        let start = decimal_text(n / 10);
        let text = decimal_text(n);
        assert(text.drop_last() =~= start);
        assert forall|i: int| 0 <= i < text.len() implies 0x30 <= (#[trigger] text[i]) as u32
            <= 0x39 by {
            if i < start.len() {
                assert(text[i] == start[i]);
            }
        }
        if n / 10 < 10 {
            assert(start[0] == digit(n / 10));
        } else {
            law_decimals_spell_their_number(n / 10 / 10);
        }
        assert(text[0] == start[0]);
    }
}

} // verus!
