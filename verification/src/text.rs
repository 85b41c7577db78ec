//! Text as header fields and URIs use it: which bytes and characters may occur, how a
//! comma-separated list falls into items, and what is blank around an item.
use vstd::prelude::*;

verus! {

/// Header values that are text hold only printable ASCII bytes and tabs.
pub open spec fn is_visible(b: u8) -> bool {
    32 <= b < 127 || b == 9
}

/// Whether a header value can be read as text.
pub open spec fn is_visible_text(bytes: Seq<u8>) -> bool {
    forall|i: int| 0 <= i < bytes.len() ==> is_visible(#[trigger] bytes[i])
}

/// A byte that a header value may hold: anything but control bytes, tab excepted.
pub open spec fn is_value_byte(b: u8) -> bool {
    b >= 32 && b != 127 || b == 9
}

/// The characters of a text given as one byte each.
pub open spec fn text_of(bytes: Seq<u8>) -> Seq<char> {
    Seq::new(bytes.len(), |i: int| bytes[i] as char)
}

/// The bytes of an ASCII text, one for each character.
pub open spec fn bytes_of(text: Seq<char>) -> Seq<u8> {
    Seq::new(text.len(), |i: int| text[i] as u8)
}

/// What separates a list item from the comma beside it.
pub open spec fn is_blank(c: char) -> bool {
    c == ' ' || c == '\t'
}

/// The text without the blanks it begins with.
pub open spec fn trim_start(s: Seq<char>) -> Seq<char>
    decreases s.len(),
{
    if s.len() > 0 && is_blank(s[0]) {
        trim_start(s.subrange(1, s.len() as int))
    } else {
        s
    }
}

/// The text without the blanks it ends with.
pub open spec fn trim_end(s: Seq<char>) -> Seq<char>
    decreases s.len(),
{
    if s.len() > 0 && is_blank(s[s.len() - 1]) {
        trim_end(s.subrange(0, s.len() - 1))
    } else {
        s
    }
}

/// The text without the blanks around it.
pub open spec fn trim(s: Seq<char>) -> Seq<char> {
    trim_end(trim_start(s))
}

/// `[i, j)` is one item of the comma-separated list `s`: it holds no comma, and on each side
/// stands a comma or the end of the text.
pub open spec fn is_item(s: Seq<char>, i: int, j: int) -> bool {
    &&& 0 <= i <= j <= s.len()
    &&& forall|k: int| i <= k < j ==> #[trigger] s[k] != ','
    &&& i == 0 || s[i - 1] == ','
    &&& j == s.len() || s[j] == ','
}

/// Finds the first comma at or after `from`, or the end of the text.
pub fn item_end(s: &str, from: usize) -> (to: usize)
    requires
        s.is_ascii(),
        from <= s@.len(),
    ensures
        from <= to <= s@.len(),
        forall|k: int| from <= k < to ==> #[trigger] s@[k] != ',',
        to == s@.len() || s@[to as int] == ',',
{
    let bytes: &[u8] = s.as_bytes();
    assert(bytes@ =~= bytes_of(s@));
    let mut to: usize = from;
    while to < bytes.len() && bytes[to] != 44
        invariant
            from <= to <= bytes@.len(),
            s.is_ascii(),
            bytes@ == bytes_of(s@),
            forall|k: int| from <= k < to ==> #[trigger] s@[k] != ',',
        decreases bytes@.len() - to,
    {
        assert(s@[to as int] as u8 == bytes@[to as int]);
        to = to + 1;
    }
    assert(to < bytes@.len() ==> s@[to as int] as u8 == bytes@[to as int]);
    to
}

/// Cuts the blanks off both ends of `[from, to)`.
pub fn trimmed(s: &str, from: usize, to: usize) -> (r: &str)
    requires
        s.is_ascii(),
        from <= to <= s@.len(),
    ensures
        r@ == trim(s@.subrange(from as int, to as int)),
        r.is_ascii(),
{
    let bytes: &[u8] = s.as_bytes();
    assert(bytes@ =~= bytes_of(s@));
    let mut i: usize = from;
    while i < to && (bytes[i] == 32 || bytes[i] == 9)
        invariant
            from <= i <= to <= bytes@.len(),
            s.is_ascii(),
            bytes@ == bytes_of(s@),
            trim_start(s@.subrange(from as int, to as int)) == trim_start(
                s@.subrange(i as int, to as int),
            ),
        decreases to - i,
    {
        assert(s@[i as int] as u8 == bytes@[i as int]);
        assert(s@.subrange(i as int, to as int).subrange(1, to - i)
            =~= s@.subrange(i + 1, to as int));
        i = i + 1;
    }
    assert(i < to ==> s@[i as int] as u8 == bytes@[i as int]);
    assert(trim_start(s@.subrange(from as int, to as int)) == s@.subrange(i as int, to as int));
    let mut j: usize = to;
    while j > i && (bytes[j - 1] == 32 || bytes[j - 1] == 9)
        invariant
            i <= j <= to <= bytes@.len(),
            s.is_ascii(),
            bytes@ == bytes_of(s@),
            trim_end(s@.subrange(i as int, to as int)) == trim_end(
                s@.subrange(i as int, j as int),
            ),
        decreases j - i,
    {
        assert(s@[j - 1] as u8 == bytes@[j - 1]);
        assert(s@.subrange(i as int, j as int).subrange(0, j - i - 1)
            =~= s@.subrange(i as int, j - 1));
        j = j - 1;
    }
    assert(j > i ==> s@[j - 1] as u8 == bytes@[j - 1]);
    s.substring_ascii(i, j)
}

proof fn lemma_trim_start(s: Seq<char>, a: int)
    requires
        0 <= a <= s.len(),
        forall|k: int| 0 <= k < a ==> is_blank(#[trigger] s[k]),
        a < s.len() ==> !is_blank(s[a]),
    ensures
        trim_start(s) == s.subrange(a, s.len() as int),
    decreases a,
{
    if a == 0 {
        assert(s.subrange(0, s.len() as int) =~= s);
    } else {
        let rest = s.subrange(1, s.len() as int);
        assert(is_blank(s[0]));
        assert forall|k: int| 0 <= k < a - 1 implies is_blank(#[trigger] rest[k]) by {
            assert(rest[k] == s[k + 1]);
        }
        lemma_trim_start(rest, a - 1);
        assert(rest.subrange(a - 1, rest.len() as int) =~= s.subrange(a, s.len() as int));
    }
}

proof fn lemma_trim_end(s: Seq<char>, b: int)
    requires
        0 <= b <= s.len(),
        forall|k: int| b <= k < s.len() ==> is_blank(#[trigger] s[k]),
        b > 0 ==> !is_blank(s[b - 1]),
    ensures
        trim_end(s) == s.subrange(0, b),
    decreases s.len() - b,
{
    if b == s.len() {
        assert(s.subrange(0, b) =~= s);
    } else {
        let rest = s.subrange(0, s.len() - 1);
        assert(is_blank(s[s.len() - 1]));
        assert forall|k: int| b <= k < rest.len() implies is_blank(#[trigger] rest[k]) by {
            assert(rest[k] == s[k]);
        }
        lemma_trim_end(rest, b);
        assert(rest.subrange(0, b) =~= s.subrange(0, b));
    }
}

/// Trimming leaves what stands between the spaces and tabs at both ends, whatever that is.
pub proof fn law_trim_leaves_what_is_between_blanks(s: Seq<char>, a: int, b: int)
    requires
        0 <= a <= b <= s.len(),
        forall|k: int| 0 <= k < a || b <= k < s.len() ==> #[trigger] s[k] == ' ' || s[k] == '\t',
        a < b ==> s[a] != ' ' && s[a] != '\t' && s[b - 1] != ' ' && s[b - 1] != '\t',
    ensures
        trim(s) == s.subrange(a, b),
{
    let len = s.len() as int;
    if a == b {
        lemma_trim_start(s, len);
        assert(s.subrange(len, len) =~= s.subrange(a, b));
    } else {
        lemma_trim_start(s, a);
        let rest = s.subrange(a, len);
        assert forall|k: int| b - a <= k < rest.len() implies is_blank(#[trigger] rest[k]) by {
            assert(rest[k] == s[k + a]);
        }
        assert(rest[b - a - 1] == s[b - 1]);
        lemma_trim_end(rest, b - a);
        assert(rest.subrange(0, b - a) =~= s.subrange(a, b));
    }
}

/// What trimming leaves stands somewhere in the text, with nothing but spaces and tabs around it,
/// and begins and ends with neither.
pub proof fn law_trim_cuts_only_blanks(s: Seq<char>) -> (ends: (int, int))
    ensures
        0 <= ends.0 <= ends.1 <= s.len(),
        forall|k: int|
            0 <= k < ends.0 || ends.1 <= k < s.len() ==> #[trigger] s[k] == ' ' || s[k] == '\t',
        ends.0 < ends.1 ==> s[ends.0] != ' ' && s[ends.0] != '\t' && s[ends.1 - 1] != ' '
            && s[ends.1 - 1] != '\t',
        trim(s) == s.subrange(ends.0, ends.1),
    decreases s.len(),
{
    let len = s.len() as int;
    if len > 0 && (s[0] == ' ' || s[0] == '\t') {
        let rest = s.subrange(1, len);
        let (a, b) = law_trim_cuts_only_blanks(rest);
        assert forall|k: int| 0 <= k < a + 1 || b + 1 <= k < len implies #[trigger] s[k] == ' '
            || s[k] == '\t' by {
            if k > 0 {
                assert(rest[k - 1] == s[k]);
            }
        }
        law_trim_leaves_what_is_between_blanks(s, a + 1, b + 1);
        (a + 1, b + 1)
    } else if len > 0 && (s[len - 1] == ' ' || s[len - 1] == '\t') {
        let rest = s.subrange(0, len - 1);
        let (a, b) = law_trim_cuts_only_blanks(rest);
        assert forall|k: int| 0 <= k < a || b <= k < len implies #[trigger] s[k] == ' ' || s[k]
            == '\t' by {
            if k < len - 1 {
                assert(rest[k] == s[k]);
            }
        }
        law_trim_leaves_what_is_between_blanks(s, a, b);
        (a, b)
    } else {
        law_trim_leaves_what_is_between_blanks(s, 0, len);
        (0, len)
    }
}

/// A text and its bytes correspond one for one, and going from bytes to text and back changes
/// nothing.
pub proof fn law_text_and_bytes_correspond(bytes: Seq<u8>, text: Seq<char>)
    ensures
        text_of(bytes).len() == bytes.len(),
        forall|k: int| 0 <= k < bytes.len() ==> #[trigger] text_of(bytes)[k] == bytes[k] as char,
        bytes_of(text).len() == text.len(),
        forall|k: int| 0 <= k < text.len() ==> #[trigger] bytes_of(text)[k] == text[k] as u8,
        bytes_of(text_of(bytes)) == bytes,
{
    assert(bytes_of(text_of(bytes)) =~= bytes);
}

} // verus!
