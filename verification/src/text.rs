//! String helpers shared by the parser and the dispatcher, with their
//! meaning stated over sequences of characters.
use vstd::prelude::*;
use vstd::string::*;

verus! {

/// Whether `c` carries the Unicode `White_Space` property: the code
/// points that the Unicode Character Database lists under it.
pub open spec fn white_space(c: char) -> bool {
    let n: u32 = c as u32;
    ||| 0x09 <= n <= 0x0D
    ||| n == 0x20
    ||| n == 0x85
    ||| n == 0xA0
    ||| n == 0x1680
    ||| 0x2000 <= n <= 0x200A
    ||| n == 0x2028
    ||| n == 0x2029
    ||| n == 0x202F
    ||| n == 0x205F
    ||| n == 0x3000
}

/// The Unicode lowercase mapping of a whole string.
pub uninterp spec fn lowercase_of(s: Seq<char>) -> Seq<char>;

/// The text that bytes decode to as UTF-8 when every invalid sequence is
/// replaced by U+FFFD.
pub uninterp spec fn lossy_text(bytes: Seq<u8>) -> Seq<char>;

/// `String::from_utf8_lossy`: the text is the lossy UTF-8 decoding of
/// `bytes`.
#[verifier::external_body]
pub(crate) fn decode_lossy(bytes: &[u8]) -> (r: String)
    ensures
        r@ == lossy_text(bytes@),
{
    String::from_utf8_lossy(bytes).into_owned()
}

/// `char::is_whitespace`: the answer is whether `c` has the Unicode
/// `White_Space` property, that is, whether it is one of the code points
/// that `white_space` lists.
#[verifier::external_body]
pub(crate) fn is_space(c: char) -> (r: bool)
    ensures
        r == white_space(c),
{
    c.is_whitespace()
}

/// `str::to_lowercase`: the result is the lowercase mapping of `s`.
#[verifier::external_body]
pub(crate) fn lowercase(s: &str) -> (r: String)
    ensures
        r@ == lowercase_of(s@),
{
    s.to_lowercase()
}

/// `str::eq`: two string slices are equal exactly when they hold the same
/// characters.
#[verifier::external_body]
pub(crate) fn str_eq(a: &str, b: &str) -> (r: bool)
    ensures
        r == (a@ == b@),
{
    a == b
}

/// Number of leading whitespace characters of `s`.
pub open spec fn leading_space(s: Seq<char>) -> nat
    decreases s.len(),
{
    if s.len() > 0 && white_space(s[0]) {
        1 + leading_space(s.drop_first())
    } else {
        0
    }
}

/// Number of trailing whitespace characters of `s`.
pub open spec fn trailing_space(s: Seq<char>) -> nat
    decreases s.len(),
{
    if s.len() > 0 && white_space(s.last()) {
        1 + trailing_space(s.drop_last())
    } else {
        0
    }
}

/// `s` without its leading and trailing whitespace.
pub open spec fn trimmed(s: Seq<char>) -> Seq<char> {
    let rest = s.skip(leading_space(s) as int);
    rest.take(rest.len() - trailing_space(rest))
}

/// `str::trim`: the slice returned is `s` without the whitespace
/// characters at its two ends.
#[verifier::external_body]
pub(crate) fn trim<'a>(s: &'a str) -> (r: &'a str)
    ensures
        r@ == trimmed(s@),
{
    s.trim()
}

/// The characters of each string of a sequence.
pub open spec fn views(v: Seq<String>) -> Seq<Seq<char>> {
    Seq::new(v.len(), |i: int| v[i]@)
}

/// The characters of each string slice of a sequence.
pub open spec fn str_views(v: Seq<&str>) -> Seq<Seq<char>> {
    Seq::new(v.len(), |i: int| v[i]@)
}

/// `parts` written one after another with `sep` between neighbours.
pub open spec fn join(parts: Seq<Seq<char>>, sep: Seq<char>) -> Seq<char>
    decreases parts.len(),
{
    if parts.len() == 0 {
        Seq::empty()
    } else if parts.len() == 1 {
        parts[0]
    } else {
        join(parts.drop_last(), sep) + sep + parts.last()
    }
}

/// Joins `parts` with `sep` between neighbours.
pub fn join_strings(parts: &[String], sep: &str) -> (r: String)
    ensures
        r@ == join(views(parts@), sep@),
{
    let mut out = String::new();
    let mut i: usize = 0;
    while i < parts.len()
        invariant
            i <= parts.len(),
            out@ == join(views(parts@).take(i as int), sep@),
        decreases parts.len() - i,
    {
        proof {
            let all = views(parts@);
            assert(all.take(i + 1).drop_last() == all.take(i as int));
            assert(all.take(i + 1).last() == parts@[i as int]@);
            if i > 0 {
                assert(all.take(i as int).len() > 0);
            }
        }
        if i > 0 {
            out.append(sep);
        }
        out.append(parts[i].as_str());
        i = i + 1;
    }
    proof {
        assert(views(parts@).take(i as int) == views(parts@));
    }
    out
}

/// The characters of `s`, one by one.
pub fn to_chars(s: &str) -> (r: Vec<char>)
    ensures
        r@ == s@,
{
    let n: usize = s.unicode_len();
    let mut out: Vec<char> = Vec::new();
    let mut i: usize = 0;
    while i < n
        invariant
            n == s@.len(),
            i <= n,
            out@ == s@.take(i as int),
        decreases n - i,
    {
        out.push(s.get_char(i));
        i = i + 1;
    }
    out
}

/// The words of `s` from position `i` on, where a word that began at
/// `start` is still open: a word is a longest run of characters that are
/// not whitespace.
pub open spec fn words_from(s: Seq<char>, i: int, start: int) -> Seq<Seq<char>>
    decreases s.len() - i,
{
    let open_word = if start < i {
        seq![s.subrange(start, i)]
    } else {
        Seq::empty()
    };
    if i >= s.len() {
        open_word
    } else if white_space(s[i]) {
        open_word + words_from(s, i + 1, i + 1)
    } else {
        words_from(s, i + 1, start)
    }
}

/// The whitespace-delimited words of `s`.
pub open spec fn words(s: Seq<char>) -> Seq<Seq<char>> {
    words_from(s, 0, 0)
}

/// Splits `input` at its runs of whitespace.
pub fn split_words(input: &str) -> (r: Vec<String>)
    ensures
        views(r@) == words(input@),
{
    let chars = to_chars(input);
    let n: usize = chars.len();
    let mut out: Vec<String> = Vec::new();
    let mut start: usize = 0;
    let mut i: usize = 0;
    assert(views(out@) =~= Seq::<Seq<char>>::empty());
    while i < n
        invariant
            chars@ == input@,
            n == chars@.len(),
            start <= i <= n,
            words(input@) == views(out@) + words_from(input@, i as int, start as int),
        decreases n - i,
    {
        if is_space(chars[i]) {
            if start < i {
                let ghost before = views(out@);
                let word = input.substring_char(start, i);
                out.push(String::from_str(word));
                assert(views(out@) =~= before + seq![input@.subrange(start as int, i as int)]);
            }
            start = i + 1;
        }
        i = i + 1;
    }
    if start < i {
        let ghost before = views(out@);
        let word = input.substring_char(start, i);
        out.push(String::from_str(word));
        assert(views(out@) =~= before + seq![input@.subrange(start as int, i as int)]);
    }
    out
}

/// A string that neither begins nor ends with whitespace is its own
/// trimmed form.
pub proof fn lemma_trimmed_unchanged(s: Seq<char>)
    requires
        s.len() > 0 ==> !white_space(s[0]) && !white_space(s.last()),
    ensures
        trimmed(s) == s,
{
    assert(s.skip(0) =~= s);
    assert(s.take(s.len() as int) =~= s);
}

/// A non-empty string that holds no whitespace.
pub open spec fn is_word(w: Seq<char>) -> bool {
    w.len() > 0 && forall|k: int| 0 <= k < w.len() ==> !white_space(#[trigger] w[k])
}

/// Every word found from position `i` on is non-empty and holds no
/// whitespace, where the open word holds none so far.
pub proof fn lemma_words_from(s: Seq<char>, i: int, start: int)
    requires
        0 <= start <= i <= s.len(),
        forall|k: int| start <= k < i ==> !white_space(s[k]),
    ensures
        forall|j: int|
            0 <= j < words_from(s, i, start).len() ==> is_word(
                #[trigger] words_from(s, i, start)[j],
            ),
    decreases s.len() - i,
{
    let open_word = s.subrange(start, i);
    if start < i {
        assert(is_word(open_word));
    }
    if i < s.len() {
        if white_space(s[i]) {
            lemma_words_from(s, i + 1, i + 1);
            let rest = words_from(s, i + 1, i + 1);
            assert forall|j: int| 0 <= j < words_from(s, i, start).len() implies is_word(
                #[trigger] words_from(s, i, start)[j],
            ) by {
                if start < i {
                    if j > 0 {
                        assert(words_from(s, i, start)[j] == rest[j - 1]);
                    }
                } else {
                    assert(words_from(s, i, start)[j] == rest[j]);
                }
            }
        } else {
            lemma_words_from(s, i + 1, start);
            assert(words_from(s, i, start) == words_from(s, i + 1, start));
        }
    } else {
        assert forall|j: int| 0 <= j < words_from(s, i, start).len() implies is_word(
            #[trigger] words_from(s, i, start)[j],
        ) by {
            assert(words_from(s, i, start)[j] == open_word);
        }
    }
}

/// Every word of a string is non-empty, holds no whitespace, and is its
/// own trimmed form.
pub proof fn lemma_words_clean(s: Seq<char>)
    ensures
        forall|j: int|
            0 <= j < words(s).len() ==> is_word(#[trigger] words(s)[j]) && trimmed(words(s)[j])
                == words(s)[j],
{
    lemma_words_from(s, 0, 0);
    assert forall|j: int| 0 <= j < words(s).len() implies trimmed(#[trigger] words(s)[j]) == words(
        s,
    )[j] by {
        let word = words(s)[j];
        assert(is_word(word));
        assert(!white_space(word[0]));
        assert(!white_space(word[word.len() - 1]));
        lemma_trimmed_unchanged(word);
    }
}

/// A copy of `v`.
pub(crate) fn clone_strings(v: &[String]) -> (r: Vec<String>)
    ensures
        r@ == v@,
{
    let mut out: Vec<String> = Vec::new();
    let mut i: usize = 0;
    while i < v.len()
        invariant
            i <= v.len(),
            out@ == v@.take(i as int),
        decreases v.len() - i,
    {
        out.push(v[i].clone());
        i = i + 1;
    }
    out
}

/// The strings of `v` from index `from` on.
pub(crate) fn tail_strings(v: &Vec<String>, from: usize) -> (r: Vec<String>)
    requires
        from <= v.len(),
    ensures
        views(r@) == views(v@).skip(from as int),
{
    let mut out: Vec<String> = Vec::new();
    let mut i: usize = from;
    while i < v.len()
        invariant
            from <= i <= v.len(),
            out@.len() == i - from,
            forall|j: int| 0 <= j < out@.len() ==> (#[trigger] out@[j])@ == v@[from + j]@,
        decreases v.len() - i,
    {
        out.push(v[i].clone());
        i = i + 1;
    }
    assert(views(out@) =~= views(v@).skip(from as int));
    out
}

} // verus!
