//! Character classes and the whitespace structure of a line.
//!
//! Everything here is stated over `Seq<char>`, the view of a string, so that
//! the grammar of a line can be written down whatever way the text is
//! stored.

use vstd::prelude::*;
use vstd::string::StrSliceExecFns;
use vstd::utf8::encode_utf8_decode_utf8;

verus! {

/// The characters that Unicode classes as `White_Space`.
pub open spec fn is_whitespace(c: char) -> bool {
    let n = c as u32;
    ||| 0x09 <= n <= 0x0D
    ||| n == 0x20
    ||| n == 0x85
    ||| n == 0xA0
    ||| n == 0x1680
    ||| 0x2000 <= n <= 0x200A
    ||| n == 0x2028
    ||| n == 0x2029
    ||| n == 0x202F
    ||| n == 0x205F
    ||| n == 0x3000
}

/// The ten ASCII digits.
pub open spec fn is_decimal_digit(c: char) -> bool {
    '0' <= c <= '9'
}

/// The characters that carry structure in a line and so cannot occur in a name.
pub open spec fn is_reserved(c: char) -> bool {
    c == '{' || c == '}' || c == '(' || c == ')' || c == '='
}

/// `s` without its leading whitespace.
pub open spec fn trim_start(s: Seq<char>) -> Seq<char>
    decreases s.len(),
{
    if s.len() > 0 && is_whitespace(s.first()) {
        trim_start(s.drop_first())
    } else {
        s
    }
}

/// `s` without its trailing whitespace.
pub open spec fn trim_end(s: Seq<char>) -> Seq<char>
    decreases s.len(),
{
    if s.len() > 0 && is_whitespace(s.last()) {
        trim_end(s.drop_last())
    } else {
        s
    }
}

/// `s` without leading and trailing whitespace.
pub open spec fn trim(s: Seq<char>) -> Seq<char> {
    trim_end(trim_start(s))
}

/// The length of the longest prefix of `s` that holds no whitespace.
pub open spec fn word_len(s: Seq<char>) -> nat
    decreases s.len(),
{
    if s.len() > 0 && !is_whitespace(s.first()) {
        1 + word_len(s.drop_first())
    } else {
        0
    }
}

/// A run of characters that is not empty and holds no whitespace.
pub open spec fn is_word(w: Seq<char>) -> bool {
    w.len() > 0 && forall|j: int| 0 <= j < w.len() ==> !is_whitespace(#[trigger] w[j])
}

/// The maximal runs of non-whitespace characters of `s`, in order.
pub open spec fn split_whitespace(s: Seq<char>) -> Seq<Seq<char>>
    decreases s.len(),
{
    if s.len() == 0 {
        Seq::empty()
    } else if is_whitespace(s.first()) {
        split_whitespace(s.drop_first())
    } else {
        proof {
            lemma_word_len_bounds(s);
        }
        let n = word_len(s) as int;
        seq![s.take(n)] + split_whitespace(s.skip(n))
    }
}

/// The number of characters of `s` before the first `c`; the length of `s`
/// where `c` does not occur.
pub open spec fn position_of(s: Seq<char>, c: char) -> nat
    decreases s.len(),
{
    if s.len() > 0 && s.first() != c {
        1 + position_of(s.drop_first(), c)
    } else {
        0
    }
}

/// The character sequences of a list of strings.
pub open spec fn words_view(words: Seq<String>) -> Seq<Seq<char>> {
    Seq::new(words.len(), |i: int| words[i]@)
}

/// A word is never longer than the text it starts, and is not empty where
/// the text starts with a character that is no whitespace.
pub proof fn lemma_word_len_bounds(s: Seq<char>)
    ensures
        word_len(s) <= s.len(),
        s.len() > 0 && !is_whitespace(s.first()) ==> word_len(s) >= 1,
    decreases s.len(),
{
    if s.len() > 0 && !is_whitespace(s.first()) {
        lemma_word_len_bounds(s.drop_first());
    }
}

/// Where the first `k` characters of `s` are whitespace and the next one is
/// not, `trim_start` removes exactly those `k`.
pub proof fn lemma_trim_start_is_skip(s: Seq<char>, k: int)
    requires
        0 <= k <= s.len(),
        forall|j: int| 0 <= j < k ==> is_whitespace(#[trigger] s[j]),
        k < s.len() ==> !is_whitespace(s[k]),
    ensures
        trim_start(s) == s.skip(k),
    decreases k,
{
    if k == 0 {
        assert(s.skip(0) =~= s);
    } else {
        let t = s.drop_first();
        assert forall|j: int| 0 <= j < k - 1 implies is_whitespace(#[trigger] t[j]) by {
            assert(t[j] == s[j + 1]);
        }
        lemma_trim_start_is_skip(t, k - 1);
        assert(t.skip(k - 1) =~= s.skip(k));
    }
}

/// Where the characters of `s` from `k` on are whitespace and the one before
/// is not, `trim_end` keeps exactly the first `k`.
pub proof fn lemma_trim_end_is_take(s: Seq<char>, k: int)
    requires
        0 <= k <= s.len(),
        forall|j: int| k <= j < s.len() ==> is_whitespace(#[trigger] s[j]),
        k > 0 ==> !is_whitespace(s[k - 1]),
    ensures
        trim_end(s) == s.take(k),
    decreases s.len() - k,
{
    if k == s.len() {
        assert(s.take(k) =~= s);
    } else {
        let t = s.drop_last();
        assert forall|j: int| k <= j < t.len() implies is_whitespace(#[trigger] t[j]) by {
            assert(t[j] == s[j]);
        }
        lemma_trim_end_is_take(t, k);
        assert(t.take(k) =~= s.take(k));
    }
}

/// Where `s` holds no whitespace before `k` and whitespace at `k` (or ends
/// there), its first word has length `k`.
pub proof fn lemma_word_len_is(s: Seq<char>, k: int)
    requires
        0 <= k <= s.len(),
        forall|j: int| 0 <= j < k ==> !is_whitespace(#[trigger] s[j]),
        k < s.len() ==> is_whitespace(s[k]),
    ensures
        word_len(s) == k,
    decreases k,
{
    if k > 0 {
        let t = s.drop_first();
        assert forall|j: int| 0 <= j < k - 1 implies !is_whitespace(#[trigger] t[j]) by {
            assert(t[j] == s[j + 1]);
        }
        lemma_word_len_is(t, k - 1);
    }
}

/// Where `c` does not occur in `s` before `k` and stands at `k` (or `s` ends
/// there), its position is `k`.
pub proof fn lemma_position_of_is(s: Seq<char>, c: char, k: int)
    requires
        0 <= k <= s.len(),
        forall|j: int| 0 <= j < k ==> #[trigger] s[j] != c,
        k < s.len() ==> s[k] == c,
    ensures
        position_of(s, c) == k,
    decreases k,
{
    if k > 0 {
        let t = s.drop_first();
        assert forall|j: int| 0 <= j < k - 1 implies #[trigger] t[j] != c by {
            assert(t[j] == s[j + 1]);
        }
        lemma_position_of_is(t, c, k - 1);
    }
}

/// What `trim_start` leaves is the end of `s`; what it removes is
/// whitespace, and what it leaves does not start with whitespace.
pub proof fn lemma_trim_start_shape(s: Seq<char>)
    ensures
        trim_start(s).len() <= s.len(),
        trim_start(s) == s.skip(s.len() - trim_start(s).len()),
        forall|j: int| 0 <= j < s.len() - trim_start(s).len() ==> is_whitespace(#[trigger] s[j]),
        trim_start(s).len() > 0 ==> !is_whitespace(trim_start(s).first()),
    decreases s.len(),
{
    if s.len() > 0 && is_whitespace(s.first()) {
        let t = s.drop_first();
        lemma_trim_start_shape(t);
        let k = t.len() - trim_start(t).len();
        assert(t.skip(k) =~= s.skip(k + 1));
        assert forall|j: int| 0 <= j < k + 1 implies is_whitespace(#[trigger] s[j]) by {
            if j > 0 {
                assert(s[j] == t[j - 1]);
            }
        }
    } else {
        assert(s.skip(0) =~= s);
    }
}

/// What `trim_end` leaves is the start of `s`; what it removes is
/// whitespace, and what it leaves does not end with whitespace.
pub proof fn lemma_trim_end_shape(s: Seq<char>)
    ensures
        trim_end(s).len() <= s.len(),
        trim_end(s) == s.take(trim_end(s).len() as int),
        forall|j: int| trim_end(s).len() <= j < s.len() ==> is_whitespace(#[trigger] s[j]),
        trim_end(s).len() > 0 ==> !is_whitespace(trim_end(s).last()),
    decreases s.len(),
{
    if s.len() > 0 && is_whitespace(s.last()) {
        let t = s.drop_last();
        lemma_trim_end_shape(t);
        let k = trim_end(t).len() as int;
        assert(t.take(k) =~= s.take(k));
        assert forall|j: int| k <= j < s.len() implies is_whitespace(#[trigger] s[j]) by {
            if j < t.len() {
                assert(s[j] == t[j]);
            }
        }
    } else {
        assert(s.take(s.len() as int) =~= s);
    }
}

/// A trimmed text that is not empty neither starts nor ends with whitespace.
pub proof fn lemma_trim_has_no_margin(s: Seq<char>)
    ensures
        trim(s).len() > 0 ==> !is_whitespace(trim(s).first()) && !is_whitespace(trim(s).last()),
{
    lemma_trim_start_shape(s);
    lemma_trim_end_shape(trim_start(s));
}

/// The first word of a text holds no whitespace.
pub proof fn lemma_word_holds_no_whitespace(s: Seq<char>)
    ensures
        forall|j: int| 0 <= j < word_len(s) ==> !is_whitespace(#[trigger] s[j]),
    decreases s.len(),
{
    if s.len() > 0 && !is_whitespace(s.first()) {
        let t = s.drop_first();
        lemma_word_holds_no_whitespace(t);
        lemma_word_len_bounds(s);
        assert forall|j: int| 0 <= j < word_len(s) implies !is_whitespace(#[trigger] s[j]) by {
            if j > 0 {
                assert(s[j] == t[j - 1]);
            }
        }
    }
}

/// Splitting gives words, and at least one where the text does not start
/// with whitespace.
pub proof fn lemma_split_gives_words(s: Seq<char>)
    ensures
        forall|i: int|
            0 <= i < split_whitespace(s).len() ==> is_word(#[trigger] split_whitespace(s)[i]),
        s.len() > 0 && !is_whitespace(s.first()) ==> split_whitespace(s).len() > 0,
    decreases s.len(),
{
    if s.len() == 0 {
        assert(split_whitespace(s).len() == 0);
    } else if is_whitespace(s.first()) {
        lemma_split_gives_words(s.drop_first());
        assert(split_whitespace(s) == split_whitespace(s.drop_first()));
    } else {
        lemma_word_len_bounds(s);
        lemma_word_holds_no_whitespace(s);
        let n = word_len(s) as int;
        let rest = split_whitespace(s.skip(n));
        lemma_split_gives_words(s.skip(n));
        let all = seq![s.take(n)] + rest;
        assert(split_whitespace(s) == all);
        assert(is_word(s.take(n))) by {
            assert forall|j: int| 0 <= j < n implies !is_whitespace(#[trigger] s.take(n)[j]) by {
                assert(s.take(n)[j] == s[j]);
            }
        }
        assert forall|i: int| 0 <= i < all.len() implies is_word(#[trigger] all[i]) by {
            if i > 0 {
                assert(all[i] == rest[i - 1]);
            } else {
                assert(all[0] == s.take(n));
            }
        }
    }
}

/// Tells whether Unicode classes `c` as `White_Space`.
pub fn char_is_whitespace(c: char) -> (r: bool)
    ensures
        r == is_whitespace(c),
{
    let n: u32 = c as u32;
    (0x09 <= n && n <= 0x0D) || n == 0x20 || n == 0x85 || n == 0xA0 || n == 0x1680 || (0x2000 <= n
        && n <= 0x200A) || n == 0x2028 || n == 0x2029 || n == 0x202F || n == 0x205F || n == 0x3000
}

/// The characters of `s`, one by one.
pub fn chars_of(s: &str) -> (v: Vec<char>)
    ensures
        v@ == s@,
{
    let mut v: Vec<char> = Vec::new();
    for c in it: s.chars()
        invariant
            v@ == it.seq().take(it.index() as int),
            it.seq() == s@,
    {
        v.push(c);
    }
    v
}

/// Where `trim(v@)` starts and ends inside `v`: the number of characters
/// before it, and that number plus its length.
pub fn trim_bounds(v: &Vec<char>) -> (r: (usize, usize))
    ensures
        r.0 == v@.len() - trim_start(v@).len(),
        r.1 == r.0 + trim(v@).len(),
        r.1 <= v@.len(),
        v@.subrange(r.0 as int, r.1 as int) == trim(v@),
{
    let n: usize = v.len();
    let mut start: usize = 0;
    while start < n && char_is_whitespace(v[start])
        invariant
            n == v.len(),
            start <= n,
            forall|j: int| 0 <= j < start ==> is_whitespace(#[trigger] v@[j]),
        decreases n - start,
    {
        start += 1;
    }
    let mut end: usize = n;
    while end > start && char_is_whitespace(v[end - 1])
        invariant
            n == v.len(),
            start <= end <= n,
            forall|j: int| end <= j < n ==> is_whitespace(#[trigger] v@[j]),
        decreases end,
    {
        end -= 1;
    }
    proof {
        lemma_trim_start_is_skip(v@, start as int);
        let t = v@.skip(start as int);
        assert forall|j: int| end - start <= j < t.len() implies is_whitespace(#[trigger] t[j]) by {
            assert(t[j] == v@[j + start]);
        }
        lemma_trim_end_is_take(t, end - start);
        assert(t.take(end - start) =~= v@.subrange(start as int, end as int));
    }
    (start, end)
}

/// Tells whether two strings hold the same characters.
pub fn str_eq(a: &str, b: &str) -> (r: bool)
    ensures
        r == (a@ == b@),
{
    let x = a.as_bytes();
    let y = b.as_bytes();
    proof {
        encode_utf8_decode_utf8(a@);
        encode_utf8_decode_utf8(b@);
    }
    if x.len() != y.len() {
        return false;
    }
    let n: usize = x.len();
    let mut i: usize = 0;
    while i < n
        invariant
            n == x@.len(),
            n == y@.len(),
            i <= n,
            forall|j: int| 0 <= j < i ==> x@[j] == y@[j],
            a@ == b@ ==> x@ == y@,
        decreases n - i,
    {
        if x[i] != y[i] {
            return false;
        }
        i += 1;
    }
    assert(x@ =~= y@);
    true
}

/// `s` without leading and trailing whitespace.
pub fn trim_str(s: &str) -> (t: &str)
    ensures
        t@ == trim(s@),
{
    let chars = chars_of(s);
    let (start, end) = trim_bounds(&chars);
    s.substring_char(start, end)
}

/// The maximal runs of non-whitespace characters of `s`, in order.
pub fn split_words(s: &str) -> (words: Vec<String>)
    ensures
        words_view(words@) == split_whitespace(s@),
{
    let chars = chars_of(s);
    let n: usize = chars.len();
    let mut words: Vec<String> = Vec::new();
    let mut i: usize = 0;
    assert(chars@.skip(0) =~= chars@);
    assert(words_view(words@) + split_whitespace(s@) =~= split_whitespace(s@));
    while i < n
        invariant
            chars@ == s@,
            n == chars@.len(),
            i <= n,
            words_view(words@) + split_whitespace(chars@.skip(i as int)) == split_whitespace(s@),
        decreases n - i,
    {
        let ghost rest = chars@.skip(i as int);
        if char_is_whitespace(chars[i]) {
            assert(rest.drop_first() =~= chars@.skip(i + 1));
            i += 1;
        } else {
            let mut j: usize = i + 1;
            while j < n && !char_is_whitespace(chars[j])
                invariant
                    n == chars@.len(),
                    i < j <= n,
                    forall|k: int| i <= k < j ==> !is_whitespace(#[trigger] chars@[k]),
                decreases n - j,
            {
                j += 1;
            }
            let word = s.substring_char(i, j).to_owned();
            proof {
                assert forall|k: int| 0 <= k < j - i implies !is_whitespace(#[trigger] rest[k]) by {
                    assert(rest[k] == chars@[i + k]);
                }
                lemma_word_len_is(rest, j - i);
                assert(rest.take(j - i) =~= chars@.subrange(i as int, j as int));
                assert(rest.skip(j - i) =~= chars@.skip(j as int));
                assert(words_view(words@.push(word)) =~= words_view(words@) + seq![word@]);
                assert(words_view(words@) + (seq![word@] + split_whitespace(chars@.skip(j as int)))
                    =~= words_view(words@.push(word)) + split_whitespace(chars@.skip(j as int)));
            }
            words.push(word);
            i = j;
        }
    }
    assert(chars@.skip(n as int) =~= Seq::<char>::empty());
    assert(words_view(words@) + Seq::<Seq<char>>::empty() =~= words_view(words@));
    words
}

} // verus!
