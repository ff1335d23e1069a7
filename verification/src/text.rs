//! Text primitives over Unicode scalar values: whitespace, trimming,
//! whitespace splitting, decimal rendering and small string tests.

use vstd::prelude::*;
use vstd::string::*;

verus! {

/// The Unicode `White_Space` property, which `char::is_whitespace` tests.
pub open spec fn is_ws(c: char) -> bool {
    let u = c as u32;
    ||| 0x9 <= u <= 0xD
    ||| u == 0x20
    ||| u == 0x85
    ||| u == 0xA0
    ||| u == 0x1680
    ||| 0x2000 <= u <= 0x200A
    ||| u == 0x2028
    ||| u == 0x2029
    ||| u == 0x202F
    ||| u == 0x205F
    ||| u == 0x3000
}

/// Whether `c` is a whitespace character.
pub fn is_whitespace(c: char) -> (r: bool)
    ensures
        r == is_ws(c),
{
    let u = c as u32;
    (0x9 <= u && u <= 0xD) || u == 0x20 || u == 0x85 || u == 0xA0 || u == 0x1680 || (0x2000 <= u
        && u <= 0x200A) || u == 0x2028 || u == 0x2029 || u == 0x202F || u == 0x205F || u == 0x3000
}

/// `s` without its leading whitespace.
pub open spec fn trim_start(s: Seq<char>) -> Seq<char>
    decreases s.len(),
{
    if s.len() > 0 && is_ws(s[0]) {
        trim_start(s.drop_first())
    } else {
        s
    }
}

/// `s` without its trailing whitespace.
pub open spec fn trim_end(s: Seq<char>) -> Seq<char>
    decreases s.len(),
{
    if s.len() > 0 && is_ws(s.last()) {
        trim_end(s.drop_last())
    } else {
        s
    }
}

/// `s` without leading and trailing whitespace (what `str::trim` returns).
pub open spec fn trim(s: Seq<char>) -> Seq<char> {
    trim_end(trim_start(s))
}

/// Whether every character of `s` is whitespace.
pub open spec fn all_ws(s: Seq<char>) -> bool {
    forall|i: int| 0 <= i < s.len() ==> is_ws(#[trigger] s[i])
}

/// Whether `s` holds no whitespace character.
pub open spec fn no_ws(s: Seq<char>) -> bool {
    forall|i: int| 0 <= i < s.len() ==> !is_ws(#[trigger] s[i])
}

/// `s` with its leading and trailing whitespace removed.
pub fn trim_str(s: &str) -> (r: String)
    ensures
        r@ == trim(s@),
{
    let n = s.unicode_len();
    let mut i: usize = 0;
    assert(s@.subrange(0, n as int) =~= s@);
    while i < n && is_whitespace(s.get_char(i))
        invariant
            i <= n,
            n == s@.len(),
            trim_start(s@) == trim_start(s@.subrange(i as int, n as int)),
        decreases n - i,
    {
        assert(s@.subrange(i as int, n as int).drop_first() =~= s@.subrange(i + 1, n as int));
        i = i + 1;
    }
    assert(trim_start(s@) == s@.subrange(i as int, n as int));
    let mut j: usize = n;
    while j > i && is_whitespace(s.get_char(j - 1))
        invariant
            i <= j <= n,
            n == s@.len(),
            trim_end(s@.subrange(i as int, n as int)) == trim_end(s@.subrange(i as int, j as int)),
        decreases j,
    {
        assert(s@.subrange(i as int, j as int).drop_last() =~= s@.subrange(i as int, j - 1));
        j = j - 1;
    }
    assert(trim_end(s@.subrange(i as int, j as int)) == s@.subrange(i as int, j as int));
    String::from_str(s.substring_char(i, j))
}


/// Shape of `trim_start(s)`: a suffix of `s` that does not start with
/// whitespace, everything cut off being whitespace.
pub proof fn lemma_trim_start_shape(s: Seq<char>)
    ensures
        trim_start(s).len() <= s.len(),
        trim_start(s) =~= s.subrange(s.len() - trim_start(s).len(), s.len() as int),
        trim_start(s).len() == 0 || !is_ws(trim_start(s)[0]),
        forall|i: int| 0 <= i < s.len() - trim_start(s).len() ==> is_ws(#[trigger] s[i]),
    decreases s.len(),
{
    if s.len() > 0 && is_ws(s[0]) {
        lemma_trim_start_shape(s.drop_first());
        assert forall|i: int| 0 <= i < s.len() - trim_start(s).len() implies is_ws(#[trigger] s[i]) by {
            if i > 0 {
                assert(s[i] == s.drop_first()[i - 1]);
            }
        }
    }
}

/// Shape of `trim_end(s)`: a prefix of `s` that does not end with
/// whitespace, everything cut off being whitespace.
pub proof fn lemma_trim_end_shape(s: Seq<char>)
    ensures
        trim_end(s).len() <= s.len(),
        trim_end(s) =~= s.subrange(0, trim_end(s).len() as int),
        trim_end(s).len() == 0 || !is_ws(trim_end(s).last()),
        forall|i: int| trim_end(s).len() <= i < s.len() ==> is_ws(#[trigger] s[i]),
    decreases s.len(),
{
    if s.len() > 0 && is_ws(s.last()) {
        lemma_trim_end_shape(s.drop_last());
        assert forall|i: int| trim_end(s).len() <= i < s.len() implies is_ws(#[trigger] s[i]) by {
            if i < s.len() - 1 {
                assert(s[i] == s.drop_last()[i]);
            }
        }
    }
}

/// What `trim` leaves: a contiguous piece of `s` that is empty exactly when
/// `s` is all whitespace, and otherwise starts and ends with a character that
/// is not whitespace.
pub proof fn lemma_trim_shape(s: Seq<char>)
    ensures
        trim(s).len() == 0 <==> all_ws(s),
        trim(s).len() > 0 ==> !is_ws(trim(s)[0]) && !is_ws(trim(s).last()),
        exists|a: int| 0 <= a && a + trim(s).len() <= s.len() && trim(s) =~= #[trigger] s.subrange(a, a + trim(s).len()),
{
    let t = trim_start(s);
    let u = trim_end(t);
    lemma_trim_start_shape(s);
    lemma_trim_end_shape(t);
    let a = s.len() - t.len();
    assert(u =~= s.subrange(a, a + u.len()));
    if u.len() > 0 {
        assert(u[0] == t[0]);
        assert(!all_ws(s)) by {
            assert(s[a] == t[0]);
        }
    } else {
        assert forall|i: int| 0 <= i < s.len() implies is_ws(#[trigger] s[i]) by {
            if i >= a {
                assert(s[i] == t[i - a]);
            }
        }
    }
}

/// Trimming twice trims no more than trimming once.
pub proof fn trim_is_idempotent(s: Seq<char>)
    ensures
        trim(trim(s)) == trim(s),
{
    lemma_trim_shape(s);
    let u = trim(s);
    assert(trim_start(u) == u);
    assert(trim_end(u) == u);
}

/// The end of the run of non-whitespace characters that starts at `i`.
pub open spec fn word_end(s: Seq<char>, i: int) -> int
    decreases s.len() - i,
{
    if 0 <= i < s.len() && !is_ws(s[i]) {
        word_end(s, i + 1)
    } else {
        i
    }
}

/// `word_end(s, i)` ends the run of non-whitespace characters from `i`.
pub proof fn lemma_word_end(s: Seq<char>, i: int)
    requires
        0 <= i <= s.len(),
    ensures
        i <= word_end(s, i) <= s.len(),
        word_end(s, i) == s.len() || is_ws(s[word_end(s, i)]),
        forall|k: int| i <= k < word_end(s, i) ==> !is_ws(#[trigger] s[k]),
    decreases s.len() - i,
{
    if i < s.len() && !is_ws(s[i]) {
        lemma_word_end(s, i + 1);
    }
}

/// The whitespace-separated words of `s` from position `i` on.
pub open spec fn words_from(s: Seq<char>, i: int) -> Seq<Seq<char>>
    decreases s.len() - i,
{
    if i < 0 || i >= s.len() {
        Seq::empty()
    } else if is_ws(s[i]) {
        words_from(s, i + 1)
    } else {
        proof {
            lemma_word_end(s, i + 1);
        }
        seq![s.subrange(i, word_end(s, i))] + words_from(s, word_end(s, i))
    }
}

/// The whitespace-separated words of `s` (what `str::split_whitespace` yields).
pub open spec fn words(s: Seq<char>) -> Seq<Seq<char>> {
    words_from(s, 0)
}

/// The character views of a sequence of strings.
pub open spec fn string_views(v: Seq<String>) -> Seq<Seq<char>> {
    v.map_values(|w: String| w@)
}

/// The words of `s`, in order, as owned strings.
pub fn split_whitespace(s: &str) -> (r: Vec<String>)
    ensures
        string_views(r@) == words(s@),
{
    let n = s.unicode_len();
    let mut out: Vec<String> = Vec::new();
    let mut i: usize = 0;
    assert(string_views(out@) =~= Seq::<Seq<char>>::empty());
    while i < n
        invariant
            i <= n,
            n == s@.len(),
            string_views(out@) + words_from(s@, i as int) == words(s@),
        decreases n - i,
    {
        if is_whitespace(s.get_char(i)) {
            i = i + 1;
        } else {
            let mut j: usize = i + 1;
            while j < n && !is_whitespace(s.get_char(j))
                invariant
                    i < j <= n,
                    n == s@.len(),
                    word_end(s@, i as int) == word_end(s@, j as int),
                decreases n - j,
            {
                j = j + 1;
            }
            let ghost before = string_views(out@);
            let w = String::from_str(s.substring_char(i, j));
            out.push(w);
            assert(string_views(out@) =~= before.push(s@.subrange(i as int, j as int)));
            assert(before.push(s@.subrange(i as int, j as int)) + words_from(s@, j as int) =~= before
                + (seq![s@.subrange(i as int, j as int)] + words_from(s@, j as int)));
            i = j;
        }
    }
    assert(string_views(out@) + words_from(s@, n as int) =~= string_views(out@));
    out
}

/// Every word is non-empty and holds no whitespace.
pub proof fn lemma_words_from_are_words(s: Seq<char>, i: int)
    ensures
        forall|k: int|
            0 <= k < words_from(s, i).len() ==> (#[trigger] words_from(s, i)[k]).len() > 0 && no_ws(
                words_from(s, i)[k],
            ),
    decreases s.len() - i,
{
    if i < 0 || i >= s.len() {
        assert(words_from(s, i).len() == 0);
    } else if is_ws(s[i]) {
        lemma_words_from_are_words(s, i + 1);
        assert(words_from(s, i) == words_from(s, i + 1));
    } else {
        lemma_word_end(s, i + 1);
        let j = word_end(s, i);
        lemma_words_from_are_words(s, j);
        let w = s.subrange(i, j);
        assert(no_ws(w)) by {
            assert forall|k: int| 0 <= k < w.len() implies !is_ws(#[trigger] w[k]) by {
                assert(w[k] == s[i + k]);
            }
        }
        assert(words_from(s, i) == seq![w] + words_from(s, j));
        assert forall|k: int| 0 <= k < words_from(s, i).len() implies (#[trigger] words_from(
            s,
            i,
        )[k]).len() > 0 && no_ws(words_from(s, i)[k]) by {
            if k == 0 {
                assert(words_from(s, i)[k] == w);
            } else {
                assert(words_from(s, i)[k] == words_from(s, j)[k - 1]);
            }
        }
    }
}

/// The words of a string are non-empty and hold no whitespace.
pub proof fn words_are_nonempty_and_unspaced(s: Seq<char>)
    ensures
        forall|k: int|
            0 <= k < words(s).len() ==> (#[trigger] words(s)[k]).len() > 0 && no_ws(words(s)[k]),
{
    lemma_words_from_are_words(s, 0);
}

/// The `d`-th decimal digit character.
pub open spec fn digit_char(d: nat) -> char {
    seq!['0', '1', '2', '3', '4', '5', '6', '7', '8', '9'][d as int]
}

/// The decimal rendering of `n`, without leading zeros.
pub open spec fn decimal(n: nat) -> Seq<char>
    decreases n,
{
    if n < 10 {
        seq![digit_char(n)]
    } else {
        decimal(n / 10).push(digit_char(n % 10))
    }
}

/// The decimal rendering of `i`, with a leading `-` when negative.
pub open spec fn signed_decimal(i: int) -> Seq<char> {
    if i < 0 {
        seq!['-'] + decimal((-i) as nat)
    } else {
        decimal(i as nat)
    }
}

fn digit_str(d: u64) -> (r: &'static str)
    requires
        d < 10,
    ensures
        r@ == seq![digit_char(d as nat)],
{
    let digits = "0123456789";
    proof {
        reveal_strlit("0123456789");
    }
    let r = digits.substring_char(d as usize, d as usize + 1);
    assert(r@ =~= seq![digit_char(d as nat)]);
    r
}

/// `n` in decimal.
pub fn decimal_string(n: u64) -> (r: String)
    ensures
        r@ == decimal(n as nat),
    decreases n,
{
    if n < 10 {
        String::from_str(digit_str(n))
    } else {
        let mut r = decimal_string(n / 10);
        r.append(digit_str(n % 10));
        assert(r@ =~= decimal(n as nat));
        r
    }
}

/// `i` in decimal, negative numbers with a leading `-`.
pub fn signed_decimal_string(i: i32) -> (r: String)
    ensures
        r@ == signed_decimal(i as int),
{
    if i < 0 {
        let m: i64 = 0i64 - (i as i64);
        let digits = decimal_string(m as u64);
        let mut r = String::from_str("-");
        proof {
            reveal_strlit("-");
        }
        r.append(digits.as_str());
        assert(r@ =~= signed_decimal(i as int));
        r
    } else {
        decimal_string(i as u64)
    }
}

/// Whether `a` and `b` hold the same characters.
pub fn str_eq(a: &str, b: &str) -> (r: bool)
    ensures
        r == (a@ == b@),
{
    let n = a.unicode_len();
    if n != b.unicode_len() {
        return false;
    }
    let mut i: usize = 0;
    while i < n
        invariant
            i <= n,
            n == a@.len(),
            n == b@.len(),
            forall|k: int| 0 <= k < i ==> a@[k] == b@[k],
        decreases n - i,
    {
        if a.get_char(i) != b.get_char(i) {
            return false;
        }
        i = i + 1;
    }
    assert(a@ =~= b@);
    true
}

/// Whether `s` holds the character `c`.
pub fn contains_char(s: &str, c: char) -> (r: bool)
    ensures
        r == s@.contains(c),
{
    let n = s.unicode_len();
    let mut i: usize = 0;
    while i < n
        invariant
            i <= n,
            n == s@.len(),
            forall|k: int| 0 <= k < i ==> s@[k] != c,
        decreases n - i,
    {
        if s.get_char(i) == c {
            assert(s@[i as int] == c);
            return true;
        }
        i = i + 1;
    }
    false
}

/// Whether `s` begins with `prefix`.
pub fn starts_with(s: &str, prefix: &str) -> (r: bool)
    ensures
        r == (prefix@.len() <= s@.len() && s@.subrange(0, prefix@.len() as int) == prefix@),
{
    let n = prefix.unicode_len();
    if n > s.unicode_len() {
        return false;
    }
    let mut i: usize = 0;
    while i < n
        invariant
            i <= n,
            n == prefix@.len(),
            n <= s@.len(),
            forall|k: int| 0 <= k < i ==> s@[k] == prefix@[k],
        decreases n - i,
    {
        if s.get_char(i) != prefix.get_char(i) {
            assert(s@.subrange(0, n as int)[i as int] != prefix@[i as int]);
            return false;
        }
        i = i + 1;
    }
    assert(s@.subrange(0, n as int) =~= prefix@);
    true
}

/// Law: trimming removes only whitespace, and only from the ends: what is
/// left is a contiguous piece of `s`, everything before and after it is
/// whitespace, and it neither starts nor ends with whitespace.
pub proof fn trim_removes_only_outer_whitespace(s: Seq<char>)
    ensures
        exists|a: int|
            #![trigger s.subrange(a, a + trim(s).len())]
            {
                &&& 0 <= a && a + trim(s).len() <= s.len()
                &&& trim(s) == s.subrange(a, a + trim(s).len())
                &&& forall|k: int| 0 <= k < a ==> is_ws(#[trigger] s[k])
                &&& forall|k: int| a + trim(s).len() <= k < s.len() ==> is_ws(#[trigger] s[k])
            },
        trim(s).len() > 0 ==> !is_ws(trim(s)[0]) && !is_ws(trim(s).last()),
{
    let t = trim_start(s);
    let u = trim_end(t);
    lemma_trim_start_shape(s);
    lemma_trim_end_shape(t);
    lemma_trim_shape(s);
    let a = s.len() - t.len();
    assert(u =~= s.subrange(a, a + u.len()));
    assert forall|k: int| a + u.len() <= k < s.len() implies is_ws(#[trigger] s[k]) by {
        assert(s[k] == t[k - a]);
    }
}

/// Whether a character is not whitespace.
pub open spec fn not_ws() -> spec_fn(char) -> bool {
    |c: char| !is_ws(c)
}

/// A run of non-whitespace characters passes a whitespace filter whole.
proof fn lemma_filter_run(s: Seq<char>, i: int, j: int)
    requires
        0 <= i <= j <= s.len(),
        forall|k: int| i <= k < j ==> !is_ws(#[trigger] s[k]),
    ensures
        s.skip(i).filter(not_ws()) == s.subrange(i, j) + s.skip(j).filter(not_ws()),
    decreases j - i,
{
    if i < j {
        lemma_filter_run(s, i + 1, j);
        assert(s.skip(i) =~= seq![s[i]] + s.skip(i + 1));
        s.skip(i + 1).lemma_filter_prepend(s[i], not_ws());
        assert(s.subrange(i, j) =~= seq![s[i]] + s.subrange(i + 1, j));
    } else {
        assert(s.subrange(i, j) =~= Seq::<char>::empty());
    }
}

/// The words from position `i` on, joined, are the non-whitespace characters
/// from `i` on.
proof fn lemma_words_from_join(s: Seq<char>, i: int)
    requires
        0 <= i <= s.len(),
    ensures
        words_from(s, i).flatten() == s.skip(i).filter(not_ws()),
    decreases s.len() - i,
{
    if i >= s.len() {
        assert(s.skip(i) =~= Seq::<char>::empty());
        reveal_with_fuel(Seq::<_>::filter, 1);
    } else if is_ws(s[i]) {
        lemma_words_from_join(s, i + 1);
        assert(s.skip(i) =~= seq![s[i]] + s.skip(i + 1));
        s.skip(i + 1).lemma_filter_prepend(s[i], not_ws());
        assert(Seq::<char>::empty() + s.skip(i + 1).filter(not_ws()) =~= s.skip(i + 1).filter(not_ws()));
    } else {
        lemma_word_end(s, i + 1);
        let j = word_end(s, i);
        lemma_words_from_join(s, j);
        lemma_filter_run(s, i, j);
        let ws = words_from(s, i);
        assert(ws == seq![s.subrange(i, j)] + words_from(s, j));
        assert(ws.drop_first() =~= words_from(s, j));
    }
}

/// Which characters may precede or follow a word: none (the edge of the
/// text) or whitespace.
pub open spec fn word_bounded(s: Seq<char>, a: int, b: int) -> bool {
    &&& a == 0 || is_ws(s[a - 1])
    &&& b == s.len() || is_ws(s[b])
}

/// Whether `w` is a whole run of `s`: a piece of it with whitespace or the
/// edge of the text on either side.
pub open spec fn is_run_of(s: Seq<char>, w: Seq<char>) -> bool {
    exists|a: int|
        #![trigger s.subrange(a, a + w.len())]
        0 <= a && a + w.len() <= s.len() && w == s.subrange(a, a + w.len()) && word_bounded(
            s,
            a,
            a + w.len(),
        )
}

proof fn lemma_words_from_bounded(s: Seq<char>, i: int)
    requires
        0 <= i <= s.len(),
        i == 0 || i == s.len() || is_ws(s[i - 1]) || is_ws(s[i]),
    ensures
        forall|k: int| 0 <= k < words_from(s, i).len() ==> is_run_of(s, #[trigger] words_from(s, i)[k]),
    decreases s.len() - i,
{
    if i >= s.len() {
        assert(words_from(s, i).len() == 0);
    } else if is_ws(s[i]) {
        lemma_words_from_bounded(s, i + 1);
        assert(words_from(s, i) == words_from(s, i + 1));
        assert forall|k: int| 0 <= k < words_from(s, i).len() implies is_run_of(
            s,
            #[trigger] words_from(s, i)[k],
        ) by {
            assert(words_from(s, i)[k] == words_from(s, i + 1)[k]);
        }
    } else {
        lemma_word_end(s, i + 1);
        let j = word_end(s, i);
        lemma_words_from_bounded(s, j);
        let w = s.subrange(i, j);
        assert(words_from(s, i) == seq![w] + words_from(s, j));
        assert forall|k: int| 0 <= k < words_from(s, i).len() implies is_run_of(
            s,
            #[trigger] words_from(s, i)[k],
        ) by {
            if k == 0 {
                assert(words_from(s, i)[0] == w);
                assert(s.subrange(i, i + w.len()) == w);
            } else {
                assert(words_from(s, i)[k] == words_from(s, j)[k - 1]);
            }
        }
    }
}

/// Law: splitting at whitespace keeps every character that is not
/// whitespace, in order, and nothing else; and each word is a whole run of
/// `s`, with whitespace or the edge of the text on either side.
pub proof fn words_are_the_runs_between_whitespace(s: Seq<char>)
    ensures
        words(s).flatten() == s.filter(not_ws()),
        forall|k: int| 0 <= k < words(s).len() ==> is_run_of(s, #[trigger] words(s)[k]),
{
    lemma_words_from_join(s, 0);
    assert(s.skip(0) =~= s);
    lemma_words_from_bounded(s, 0);
    assert forall|k: int| 0 <= k < words(s).len() implies is_run_of(s, #[trigger] words(s)[k]) by {
        assert(words(s)[k] == words_from(s, 0)[k]);
    }
}

/// The number a string of decimal digits stands for.
pub open spec fn digits_value(s: Seq<char>) -> int
    decreases s.len(),
{
    if s.len() == 0 {
        0
    } else {
        digits_value(s.drop_last()) * 10 + digit_value(s.last())
    }
}

/// The value of a decimal digit character (`-1` for any other character).
pub open spec fn digit_value(c: char) -> int {
    if c == '0' {
        0
    } else if c == '1' {
        1
    } else if c == '2' {
        2
    } else if c == '3' {
        3
    } else if c == '4' {
        4
    } else if c == '5' {
        5
    } else if c == '6' {
        6
    } else if c == '7' {
        7
    } else if c == '8' {
        8
    } else if c == '9' {
        9
    } else {
        -1
    }
}

/// The digit character of `d` has the value `d`.
proof fn lemma_digit_char_value(d: nat)
    requires
        d < 10,
    ensures
        digit_value(digit_char(d)) == d,
        d > 0 ==> digit_char(d) != '0',
{
    let digits = seq!['0', '1', '2', '3', '4', '5', '6', '7', '8', '9'];
    assert(digit_char(d) == digits[d as int]);
}

/// Law: the decimal rendering of `n` is a non-empty string of digits that
/// stands for `n`, with no leading zero unless `n` is zero.
pub proof fn decimal_stands_for_its_number(n: nat)
    ensures
        decimal(n).len() > 0,
        forall|k: int| 0 <= k < decimal(n).len() ==> 0 <= digit_value(#[trigger] decimal(n)[k]) <= 9,
        digits_value(decimal(n)) == n,
        n > 0 ==> decimal(n)[0] != '0',
    decreases n,
{
    lemma_digit_char_value(n % 10);
    if n >= 10 {
        decimal_stands_for_its_number(n / 10);
        let d = decimal(n);
        assert(d.drop_last() =~= decimal(n / 10));
        assert forall|k: int| 0 <= k < d.len() implies 0 <= digit_value(#[trigger] d[k]) <= 9 by {
            if k < d.len() - 1 {
                assert(d[k] == decimal(n / 10)[k]);
            }
        }
        assert(d[0] == decimal(n / 10)[0]);
        assert(d.last() == digit_char(n % 10));
        assert(digits_value(d) == digits_value(d.drop_last()) * 10 + digit_value(d.last()));
        assert(n == (n / 10) * 10 + n % 10);
    } else {
        let d = decimal(n);
        assert(d.drop_last() =~= Seq::<char>::empty());
        assert(digits_value(d.drop_last()) == 0);
        assert(digits_value(d) == digits_value(d.drop_last()) * 10 + digit_value(d.last()));
    }
}

/// Law: a negative number is rendered as `-` followed by the rendering of its
/// magnitude; any other as the rendering of itself.
pub proof fn signed_decimal_marks_negatives(i: int)
    ensures
        i < 0 ==> signed_decimal(i)[0] == '-' && signed_decimal(i).drop_first() == decimal((-i) as nat),
        i >= 0 ==> signed_decimal(i) == decimal(i as nat),
{
    if i < 0 {
        assert(signed_decimal(i).drop_first() =~= decimal((-i) as nat));
    }
}

} // verus!
