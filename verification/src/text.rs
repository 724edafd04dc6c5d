//! Character-level helpers over `str` and `String`.
use vstd::prelude::*;
use vstd::string::StringExecFns;

verus! {

/// `String::push` appends the given character to the end of the string.
pub assume_specification[ String::push ](s: &mut String, c: char)
    ensures
        final(s)@ == old(s)@.push(c),
;

/// Whether a character has the Unicode `White_Space` property: the characters that
/// `char::is_whitespace` and `str::trim` take for whitespace.
pub open spec fn unicode_white_space(c: char) -> bool {
    ||| '\u{9}' <= c <= '\u{d}'
    ||| c == ' '
    ||| c == '\u{85}'
    ||| c == '\u{a0}'
    ||| c == '\u{1680}'
    ||| '\u{2000}' <= c <= '\u{200a}'
    ||| c == '\u{2028}'
    ||| c == '\u{2029}'
    ||| c == '\u{202f}'
    ||| c == '\u{205f}'
    ||| c == '\u{3000}'
}

/// Whether a character has the Unicode `White_Space` property.
fn char_is_whitespace(c: char) -> (r: bool)
    ensures
        r == unicode_white_space(c),
{
    ('\u{9}' <= c && c <= '\u{d}') || c == ' ' || c == '\u{85}' || c == '\u{a0}' || c
        == '\u{1680}' || ('\u{2000}' <= c && c <= '\u{200a}') || c == '\u{2028}' || c
        == '\u{2029}' || c == '\u{202f}' || c == '\u{205f}' || c == '\u{3000}'
}

/// `std::str::from_utf8`: the text that a byte string encodes in UTF-8, `None` where the
/// bytes are not valid UTF-8.
#[verifier::external_body]
pub(crate) fn utf8_text(bytes: &[u8]) -> (text: Option<String>)
    ensures
        text is Some <==> vstd::utf8::valid_utf8(bytes@),
        text is Some ==> text->0@ == vstd::utf8::decode_utf8(bytes@),
{
    match std::str::from_utf8(bytes) {
        Ok(text) => Some(text.to_string()),
        Err(_) => None,
    }
}

/// A text is blank when trimming whitespace leaves nothing.
pub open spec fn is_blank(s: Seq<char>) -> bool {
    forall|i: int| 0 <= i < s.len() ==> unicode_white_space(#[trigger] s[i])
}

/// The characters of a string, in order.
pub fn to_chars(s: &str) -> (chars: Vec<char>)
    ensures
        chars@ == s@,
{
    let mut chars: Vec<char> = Vec::new();
    for c in it: s.chars()
        invariant
            chars@ == it.seq().take(it.index()),
            it.seq() == s@,
    {
        chars.push(c);
    }
    chars
}

/// The string made of `chars[from..to]`.
pub fn text_of_range(chars: &Vec<char>, from: usize, to: usize) -> (s: String)
    requires
        from <= to <= chars.len(),
    ensures
        s@ == chars@.subrange(from as int, to as int),
{
    let mut s = String::new();
    let mut i: usize = from;
    while i < to
        invariant
            from <= i <= to <= chars.len(),
            s@ == chars@.subrange(from as int, i as int),
        decreases to - i,
    {
        s.push(chars[i]);
        i = i + 1;
    }
    s
}

/// The string made of all of `chars`.
pub fn from_chars(chars: &Vec<char>) -> (s: String)
    ensures
        s@ == chars@,
{
    let s = text_of_range(chars, 0, chars.len());
    assert(chars@.subrange(0, chars@.len() as int) == chars@);
    s
}

/// The number of bytes of a text in UTF-8.
pub fn byte_len(s: &str) -> (n: usize)
    ensures
        n == vstd::utf8::encode_utf8(s@).len(),
{
    let bytes = s.as_bytes();
    assert(bytes@ == vstd::string::StringSliceAdditionalSpecFns::spec_bytes(s));
    bytes.len()
}

/// Whether trimming whitespace from `s` leaves nothing.
pub fn blank(s: &str) -> (r: bool)
    ensures
        r == is_blank(s@),
{
    let chars = to_chars(s);
    let mut i: usize = 0;
    while i < chars.len()
        invariant
            i <= chars.len(),
            chars@ == s@,
            forall|j: int| 0 <= j < i ==> unicode_white_space(#[trigger] s@[j]),
        decreases chars.len() - i,
    {
        if !char_is_whitespace(chars[i]) {
            return false;
        }
        i = i + 1;
    }
    true
}

/// Text equality of two string slices.
pub fn same_text(a: &str, b: &str) -> (r: bool)
    ensures
        r == (a@ == b@),
{
    let x = String::from_str(a);
    let y = String::from_str(b);
    x == y
}

/// `a` followed by `b`.
pub fn join(a: &str, b: &str) -> (s: String)
    ensures
        s@ == a@ + b@,
{
    String::from_str(a).concat(b)
}

/// The first index at or after `from` that holds `c`.
pub open spec fn first_at(s: Seq<char>, c: char, from: int, at: int) -> bool {
    &&& from <= at < s.len()
    &&& s[at] == c
    &&& forall|j: int| from <= j < at ==> s[j] != c
}

/// No index at or after `from` holds `c`.
pub open spec fn none_from(s: Seq<char>, c: char, from: int) -> bool {
    forall|j: int| from <= j < s.len() ==> s[j] != c
}

/// Finds the first occurrence of `c` at or after `from`.
pub fn find_char(chars: &Vec<char>, c: char, from: usize) -> (found: Option<usize>)
    requires
        from <= chars.len(),
    ensures
        match found {
            Some(at) => first_at(chars@, c, from as int, at as int),
            None => none_from(chars@, c, from as int),
        },
{
    let mut i: usize = from;
    while i < chars.len()
        invariant
            from <= i <= chars.len(),
            forall|j: int| from <= j < i ==> chars@[j] != c,
        decreases chars.len() - i,
    {
        if chars[i] == c {
            return Some(i);
        }
        i = i + 1;
    }
    None
}

/// Whether `a` comes before `b`, or equals it, in the order of `str`: character by
/// character, a proper prefix first.
pub open spec fn text_before(a: Seq<char>, b: Seq<char>) -> bool
    decreases a.len(),
{
    if a.len() == 0 {
        true
    } else if b.len() == 0 {
        false
    } else if a[0] != b[0] {
        a[0] < b[0]
    } else {
        text_before(a.drop_first(), b.drop_first())
    }
}

/// Of two texts one comes before the other or equals it.
pub proof fn lemma_text_before_total(a: Seq<char>, b: Seq<char>)
    ensures
        text_before(a, b) || text_before(b, a),
    decreases a.len(),
{
    if a.len() > 0 && b.len() > 0 && a[0] == b[0] {
        lemma_text_before_total(a.drop_first(), b.drop_first());
    }
}

/// The order of texts is transitive.
pub proof fn lemma_text_before_transitive(a: Seq<char>, b: Seq<char>, c: Seq<char>)
    requires
        text_before(a, b),
        text_before(b, c),
    ensures
        text_before(a, c),
    decreases a.len(),
{
    if a.len() > 0 && b.len() > 0 && c.len() > 0 && a[0] == b[0] && b[0] == c[0] {
        lemma_text_before_transitive(a.drop_first(), b.drop_first(), c.drop_first());
    }
}

/// Whether `a` comes before `b`, or equals it, in the order of `str`.
pub fn text_le(a: &str, b: &str) -> (r: bool)
    ensures
        r == text_before(a@, b@),
{
    let x = to_chars(a);
    let y = to_chars(b);
    let mut i: usize = 0;
    assert(x@.skip(0) =~= x@);
    assert(y@.skip(0) =~= y@);
    while i < x.len() && i < y.len()
        invariant
            i <= x.len(),
            i <= y.len(),
            x@ == a@,
            y@ == b@,
            text_before(x@, y@) == text_before(x@.skip(i as int), y@.skip(i as int)),
        decreases x.len() - i,
    {
        proof {
            assert(x@.skip(i as int).drop_first() =~= x@.skip(i + 1));
            assert(y@.skip(i as int).drop_first() =~= y@.skip(i + 1));
            assert(x@.skip(i as int)[0] == x@[i as int]);
            assert(y@.skip(i as int)[0] == y@[i as int]);
        }
        if x[i] != y[i] {
            return x[i] < y[i];
        }
        i = i + 1;
    }
    i == x.len()
}

/// The position of the first text equal to `key`, or the number of texts if none is.
pub open spec fn text_position(texts: Seq<Seq<char>>, key: Seq<char>) -> int
    decreases texts.len(),
{
    if texts.len() == 0 {
        0
    } else if texts[0] == key {
        0
    } else {
        1 + text_position(texts.drop_first(), key)
    }
}

/// What `text_position` returns: an index within bounds that holds the key with no
/// earlier index holding it, or the length when no index holds it.
pub proof fn lemma_text_position(texts: Seq<Seq<char>>, key: Seq<char>)
    ensures
        0 <= text_position(texts, key) <= texts.len(),
        text_position(texts, key) < texts.len() ==> texts[text_position(texts, key)] == key,
        forall|j: int| 0 <= j < text_position(texts, key) ==> #[trigger] texts[j] != key,
        text_position(texts, key) < texts.len() <==> texts.contains(key),
    decreases texts.len(),
{
    if texts.len() > 0 && texts[0] != key {
        let rest = texts.drop_first();
        lemma_text_position(rest, key);
        assert forall|j: int| 0 <= j < text_position(texts, key) implies #[trigger] texts[j]
            != key by {
            if j > 0 {
                assert(texts[j] == rest[j - 1]);
            }
        }
        if rest.contains(key) {
            let k = choose|k: int| 0 <= k < rest.len() && rest[k] == key;
            assert(texts[k + 1] == key);
        }
        if texts.contains(key) {
            let k = choose|k: int| 0 <= k < texts.len() && texts[k] == key;
            assert(rest[k - 1] == key);
        }
    } else if texts.len() > 0 {
        assert(texts[0] == key);
    }
}

/// An index that holds `key` with no earlier index holding it is the position of `key`.
pub proof fn lemma_text_position_is(texts: Seq<Seq<char>>, key: Seq<char>, at: int)
    requires
        0 <= at <= texts.len(),
        at < texts.len() ==> texts[at] == key,
        forall|j: int| 0 <= j < at ==> #[trigger] texts[j] != key,
    ensures
        text_position(texts, key) == at,
{
    lemma_text_position(texts, key);
    let p = text_position(texts, key);
    if p < at {
        assert(texts[p] == key);
    } else if p > at {
        assert(texts[at] == key);
    }
}

/// Finds the first text equal to `key`.
pub fn find_text(texts: &Vec<String>, key: &str) -> (found: Option<usize>)
    ensures
        match found {
            Some(at) => at < texts.len() && text_position(texts.deep_view(), key@) == at,
            None => text_position(texts.deep_view(), key@) == texts.len(),
        },
{
    let mut i: usize = 0;
    while i < texts.len()
        invariant
            i <= texts.len(),
            forall|j: int| 0 <= j < i ==> (#[trigger] texts@[j])@ != key@,
        decreases texts.len() - i,
    {
        if same_text(texts[i].as_str(), key) {
            proof {
                let views = texts.deep_view();
                assert forall|j: int| 0 <= j < i implies #[trigger] views[j] != key@ by {
                    assert(views[j] == texts@[j]@);
                }
                lemma_text_position_is(views, key@, i as int);
            }
            return Some(i);
        }
        i = i + 1;
    }
    proof {
        let views = texts.deep_view();
        assert forall|j: int| 0 <= j < views.len() implies #[trigger] views[j] != key@ by {
            assert(views[j] == texts@[j]@);
        }
        lemma_text_position_is(views, key@, views.len() as int);
    }
    None
}

/// Copies a list of strings.
pub fn clone_texts(texts: &Vec<String>) -> (copy: Vec<String>)
    ensures
        copy.deep_view() == texts.deep_view(),
{
    let mut copy: Vec<String> = Vec::new();
    let mut i: usize = 0;
    while i < texts.len()
        invariant
            i <= texts.len(),
            copy@.len() == i,
            forall|j: int| 0 <= j < i ==> copy@[j]@ == texts@[j]@,
        decreases texts.len() - i,
    {
        copy.push(texts[i].clone());
        i = i + 1;
    }
    assert(copy.deep_view() =~= texts.deep_view());
    copy
}

/// Copies an optional string.
pub fn clone_opt_text(text: &Option<String>) -> (copy: Option<String>)
    ensures
        copy.deep_view() == text.deep_view(),
{
    match text {
        Some(s) => Some(s.clone()),
        None => None,
    }
}

/// Whether `needle` stands in `hay` from index `at` on.
pub open spec fn stands_at<T>(hay: Seq<T>, needle: Seq<T>, at: int) -> bool {
    0 <= at && at + needle.len() <= hay.len() && hay.subrange(at, at + needle.len()) == needle
}

/// Whether `needle` stands somewhere in `hay`. The empty sequence stands in every
/// sequence.
pub open spec fn has_fragment<T>(hay: Seq<T>, needle: Seq<T>) -> bool {
    exists|at: int| stands_at(hay, needle, at)
}

/// Whether `needle` stands somewhere in `hay`.
pub fn contains_fragment(hay: &str, needle: &str) -> (r: bool)
    ensures
        r == has_fragment(hay@, needle@),
{
    let h = to_chars(hay);
    let n = to_chars(needle);
    if n.len() > h.len() {
        assert forall|k: int| !stands_at(hay@, needle@, k) by {}
        return false;
    }
    let mut at: usize = 0;
    while at <= h.len() - n.len()
        invariant
            n.len() <= h.len(),
            at <= h.len() - n.len() + 1,
            h@ == hay@,
            n@ == needle@,
            forall|k: int| 0 <= k < at ==> !stands_at(hay@, needle@, k),
        decreases h.len() - n.len() + 1 - at,
    {
        let mut j: usize = 0;
        while j < n.len() && h[at + j] == n[j]
            invariant
                j <= n.len(),
                at + n.len() <= h.len(),
                forall|k: int| 0 <= k < j ==> h@[at + k] == n@[k],
            decreases n.len() - j,
        {
            j = j + 1;
        }
        if j == n.len() {
            assert(h@.subrange(at as int, at + n.len()) =~= n@);
            assert(stands_at(hay@, needle@, at as int));
            return true;
        }
        assert(!stands_at(hay@, needle@, at as int)) by {
            assert(h@.subrange(at as int, at + n.len())[j as int] == h@[at + j]);
        }
        at = at + 1;
    }
    assert forall|k: int| !stands_at(hay@, needle@, k) by {}
    false
}

/// Whether the bytes `needle` stand somewhere in the bytes `hay`.
pub fn contains_bytes(hay: &[u8], needle: &[u8]) -> (r: bool)
    ensures
        r == has_fragment(hay@, needle@),
{
    if needle.len() > hay.len() {
        assert forall|k: int| !stands_at(hay@, needle@, k) by {}
        return false;
    }
    let mut at: usize = 0;
    while at <= hay.len() - needle.len()
        invariant
            needle.len() <= hay.len(),
            at <= hay.len() - needle.len() + 1,
            forall|k: int| 0 <= k < at ==> !stands_at(hay@, needle@, k),
        decreases hay.len() - needle.len() + 1 - at,
    {
        let mut j: usize = 0;
        while j < needle.len() && hay[at + j] == needle[j]
            invariant
                j <= needle.len(),
                at + needle.len() <= hay.len(),
                forall|k: int| 0 <= k < j ==> hay@[at + k] == needle@[k],
            decreases needle.len() - j,
        {
            j = j + 1;
        }
        if j == needle.len() {
            assert(hay@.subrange(at as int, at + needle.len()) =~= needle@);
            assert(stands_at(hay@, needle@, at as int));
            return true;
        }
        assert(!stands_at(hay@, needle@, at as int)) by {
            assert(hay@.subrange(at as int, at + needle.len())[j as int] == hay@[at + j]);
        }
        at = at + 1;
    }
    assert forall|k: int| !stands_at(hay@, needle@, k) by {}
    false
}

/// Whether `word` is one of the words of `text`: it is not empty, holds no whitespace,
/// and stands in `text` between whitespace or the ends of the text.
pub open spec fn has_word(text: Seq<char>, word: Seq<char>) -> bool {
    &&& word.len() > 0
    &&& forall|k: int| 0 <= k < word.len() ==> !unicode_white_space(#[trigger] word[k])
    &&& exists|at: int| word_at(text, word, at)
}

/// Whether `word` stands in `text` from index `at` on, between whitespace or the ends of
/// the text.
pub open spec fn word_at(text: Seq<char>, word: Seq<char>, at: int) -> bool {
    &&& stands_at(text, word, at)
    &&& at == 0 || unicode_white_space(text[at - 1])
    &&& at + word.len() == text.len() || unicode_white_space(text[at + word.len()])
}

/// Whether `word` is one of the words of `text`.
pub fn contains_word(text: &str, word: &str) -> (r: bool)
    ensures
        r == has_word(text@, word@),
{
    let h = to_chars(text);
    let n = to_chars(word);
    if n.len() == 0 {
        return false;
    }
    if n.len() > h.len() {
        assert forall|k: int| !word_at(text@, word@, k) by {}
        return false;
    }
    let mut k: usize = 0;
    while k < n.len()
        invariant
            k <= n.len(),
            n@ == word@,
            forall|j: int| 0 <= j < k ==> !unicode_white_space(#[trigger] word@[j]),
        decreases n.len() - k,
    {
        if char_is_whitespace(n[k]) {
            return false;
        }
        k = k + 1;
    }
    let mut at: usize = 0;
    while at <= h.len() - n.len()
        invariant
            0 < n.len() <= h.len(),
            at <= h.len() - n.len() + 1,
            h@ == text@,
            n@ == word@,
            forall|j: int| 0 <= j < word@.len() ==> !unicode_white_space(#[trigger] word@[j]),
            forall|j: int| 0 <= j < at ==> !word_at(text@, word@, j),
        decreases h.len() - n.len() + 1 - at,
    {
        let mut j: usize = 0;
        while j < n.len() && h[at + j] == n[j]
            invariant
                j <= n.len(),
                at + n.len() <= h.len(),
                forall|i: int| 0 <= i < j ==> h@[at + i] == n@[i],
            decreases n.len() - j,
        {
            j = j + 1;
        }
        if j == n.len() {
            assert(h@.subrange(at as int, at + n.len()) =~= n@);
            let starts = at == 0 || char_is_whitespace(h[at - 1]);
            let ends = at + n.len() == h.len() || char_is_whitespace(h[at + n.len()]);
            if starts && ends {
                assert(word_at(text@, word@, at as int));
                return true;
            }
        } else {
            assert(!stands_at(text@, word@, at as int)) by {
                assert(h@.subrange(at as int, at + n.len())[j as int] == h@[at + j]);
            }
        }
        at = at + 1;
    }
    assert forall|j: int| !word_at(text@, word@, j) by {}
    false
}

/// Whether `s[from..to]` is `s` without the whitespace at its ends.
pub open spec fn trims_to(s: Seq<char>, from: int, to: int) -> bool {
    &&& 0 <= from <= to <= s.len()
    &&& forall|i: int| 0 <= i < from ==> unicode_white_space(#[trigger] s[i])
    &&& forall|i: int| to <= i < s.len() ==> unicode_white_space(#[trigger] s[i])
    &&& from < to ==> !unicode_white_space(s[from]) && !unicode_white_space(s[to - 1])
}

/// A text without the whitespace at its ends.
pub open spec fn trimmed(s: Seq<char>) -> Seq<char> {
    let (from, to) = choose|from: int, to: int| trims_to(s, from, to);
    s.subrange(from, to)
}

/// However the ends of a text are found, what is left between them is the same.
pub proof fn lemma_trimmed(s: Seq<char>, from: int, to: int)
    requires
        trims_to(s, from, to),
    ensures
        trimmed(s) == s.subrange(from, to),
{
    let (a, b) = choose|a: int, b: int| trims_to(s, a, b);
    assert(trims_to(s, a, b));
    if from < to {
        if a > from {
            assert(unicode_white_space(s[from]));
        }
        if b <= from {
            assert(unicode_white_space(s[from]));
        }
        if a < from {
            assert(unicode_white_space(s[a]));
        }
        if b < to {
            assert(unicode_white_space(s[to - 1]));
        }
        if b > to {
            assert(unicode_white_space(s[b - 1]));
        }
    } else {
        if a < b {
            if a < from {
                assert(unicode_white_space(s[a]));
            } else {
                assert(unicode_white_space(s[a]));
            }
        }
        assert(s.subrange(a, b) =~= s.subrange(from, to));
    }
}

/// A text without the whitespace at its ends.
pub fn trim_text(s: &str) -> (t: String)
    ensures
        t@ == trimmed(s@),
{
    let chars = to_chars(s);
    let mut from: usize = 0;
    while from < chars.len() && char_is_whitespace(chars[from])
        invariant
            from <= chars.len(),
            forall|i: int| 0 <= i < from ==> unicode_white_space(#[trigger] chars@[i]),
        decreases chars.len() - from,
    {
        from = from + 1;
    }
    let mut to: usize = chars.len();
    while to > from && char_is_whitespace(chars[to - 1])
        invariant
            from <= to <= chars.len(),
            forall|i: int| to <= i < chars.len() ==> unicode_white_space(#[trigger] chars@[i]),
        decreases to,
    {
        to = to - 1;
    }
    proof {
        lemma_trimmed(chars@, from as int, to as int);
    }
    text_of_range(&chars, from, to)
}

/// The lower-case form of an ASCII letter; any other character is itself.
pub open spec fn ascii_lower(c: char) -> char {
    if 'A' <= c <= 'Z' {
        ((c as int) + 32) as char
    } else {
        c
    }
}

/// A text with its ASCII letters in lower case.
pub open spec fn lowered(s: Seq<char>) -> Seq<char> {
    Seq::new(s.len(), |i: int| ascii_lower(s[i]))
}

/// A text with its ASCII letters in lower case.
pub fn to_ascii_lower(text: &str) -> (lower: String)
    ensures
        lower@ == lowered(text@),
{
    let chars = to_chars(text);
    let mut out: Vec<char> = Vec::new();
    let mut i: usize = 0;
    while i < chars.len()
        invariant
            i <= chars.len(),
            chars@ == text@,
            out@.len() == i,
            forall|j: int| 0 <= j < i ==> out@[j] == ascii_lower(chars@[j]),
        decreases chars.len() - i,
    {
        let c = chars[i];
        let lower = if 'A' <= c && c <= 'Z' {
            ((c as u8) + 32) as char
        } else {
            c
        };
        out.push(lower);
        i = i + 1;
    }
    assert(out@ =~= lowered(text@));
    from_chars(&out)
}

} // verus!
