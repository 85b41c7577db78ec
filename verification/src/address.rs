//! Socket addresses, in the form in which they are written out.
use vstd::prelude::*;

verus! {

/// A decimal digit.
pub open spec fn is_digit(c: char) -> bool {
    '0' <= c <= '9'
}

/// A hexadecimal digit, in lower case.
pub open spec fn is_hex_digit(c: char) -> bool {
    is_digit(c) || 'a' <= c <= 'f'
}

/// The place of the first `c`, or the length where there is none.
pub open spec fn first_of(s: Seq<char>, c: char) -> int
    decreases s.len(),
{
    if s.len() == 0 || s[0] == c {
        0
    } else {
        1 + first_of(s.skip(1), c)
    }
}

/// The number that decimal digits write.
pub open spec fn decimal_value(s: Seq<char>) -> int
    decreases s.len(),
{
    if s.len() == 0 {
        0
    } else {
        decimal_value(s.drop_last()) * 10 + (s.last() as int - '0' as int)
    }
}

/// A number up to `max`, written in at most `digits` decimal digits, without leading zeros.
pub open spec fn is_decimal(s: Seq<char>, digits: int, max: int) -> bool {
    &&& 0 < s.len() <= digits
    &&& forall|i: int| 0 <= i < s.len() ==> is_digit(#[trigger] s[i])
    &&& s.len() == 1 || s[0] != '0'
    &&& decimal_value(s) <= max
}

/// `n` bytes, written in decimal with dots between them.
pub open spec fn is_dotted(s: Seq<char>, n: nat) -> bool
    decreases n,
{
    let i = first_of(s, '.');
    if n <= 1 {
        is_decimal(s, 3, 255)
    } else {
        &&& i < s.len()
        &&& is_decimal(s.take(i), 3, 255)
        &&& is_dotted(s.skip(i + 1), (n - 1) as nat)
    }
}

/// An IPv4 address.
pub open spec fn is_v4(s: Seq<char>) -> bool {
    is_dotted(s, 4)
}

/// A group of an IPv6 address: up to four hexadecimal digits.
pub open spec fn is_group(s: Seq<char>) -> bool {
    &&& 0 < s.len() <= 4
    &&& forall|i: int| 0 <= i < s.len() ==> is_hex_digit(#[trigger] s[i])
}

/// The number of groups that the text writes with colons between them, if it does.
pub open spec fn group_count(s: Seq<char>) -> Option<nat>
    decreases s.len(),
{
    let i = first_of(s, ':');
    if 0 <= i < s.len() {
        match group_count(s.skip(i + 1)) {
            Some(n) if is_group(s.take(i)) => Some(n + 1),
            _ => None,
        }
    } else if is_group(s) {
        Some(1)
    } else {
        None
    }
}

/// The number of groups on one side of `::`, where there may be none.
pub open spec fn side_count(s: Seq<char>) -> Option<nat> {
    if s.len() == 0 {
        Some(0)
    } else {
        group_count(s)
    }
}

/// At `i` stands a `::` for the groups, one or more, that are missing of eight.
pub open spec fn is_shortened_at(s: Seq<char>, i: int) -> bool {
    &&& 0 <= i <= s.len() - 2
    &&& s[i] == ':' && s[i + 1] == ':'
    &&& side_count(s.take(i)) matches Some(a) && side_count(s.skip(i + 2)) matches Some(b) && a + b
        <= 7
}

/// The text is `prefix` and an IPv4 address.
pub open spec fn embeds_v4(s: Seq<char>, prefix: Seq<char>) -> bool {
    &&& prefix.len() <= s.len()
    &&& s.take(prefix.len() as int) == prefix
    &&& is_v4(s.skip(prefix.len() as int))
}

/// An IPv6 address: eight groups, fewer with one `::` for those left out, or the form in which an
/// address that embeds an IPv4 address is written.
pub open spec fn is_v6(s: Seq<char>) -> bool {
    ||| group_count(s) == Some(8nat)
    ||| exists|i: int| is_shortened_at(s, i)
    ||| embeds_v4(s, "::"@)
    ||| embeds_v4(s, "::ffff:"@)
}

/// An IPv6 address with the number of its zone, if it has one.
pub open spec fn is_zoned_v6(s: Seq<char>) -> bool {
    let i = first_of(s, '%');
    if i < s.len() {
        is_v6(s.take(i)) && is_decimal(s.skip(i + 1), 10, 0xffff_ffff)
    } else {
        is_v6(s)
    }
}

/// An IPv6 address in square brackets.
pub open spec fn is_bracketed_v6(s: Seq<char>) -> bool {
    &&& s.len() > 2
    &&& s[0] == '['
    &&& s[s.len() - 1] == ']'
    &&& is_zoned_v6(s.subrange(1, s.len() - 1))
}

/// A port.
pub open spec fn is_port(s: Seq<char>) -> bool {
    is_decimal(s, 5, 0xffff)
}

/// The colon at `c` parts an IP address from a port.
pub open spec fn splits_at(s: Seq<char>, c: int) -> bool {
    &&& 0 <= c < s.len()
    &&& s[c] == ':'
    &&& is_port(s.skip(c + 1))
    &&& is_v4(s.take(c)) || is_bracketed_v6(s.take(c))
}

/// The form in which a socket address is written: `a.b.c.d:port` or `[v6]:port`.
pub open spec fn is_socket_address(s: Seq<char>) -> bool {
    exists|c: int| splits_at(s, c)
}

/// The longest that a socket address gets: an IPv6 address of eight groups, with brackets, a zone
/// and a port.
pub const MAX_ADDRESS_LEN: usize = 58;

/// What `first_of` finds.
proof fn lemma_first_of(s: Seq<char>, c: char)
    ensures
        0 <= first_of(s, c) <= s.len(),
        first_of(s, c) < s.len() ==> s[first_of(s, c)] == c,
        forall|j: int| 0 <= j < first_of(s, c) ==> #[trigger] s[j] != c,
    decreases s.len(),
{
    if s.len() > 0 && s[0] != c {
        lemma_first_of(s.skip(1), c);
        assert forall|j: int| 0 <= j < first_of(s, c) implies #[trigger] s[j] != c by {
            if j > 0 {
                assert(s.skip(1)[j - 1] == s[j]);
            }
        }
    }
}

/// There is one first place.
proof fn lemma_first_is(s: Seq<char>, c: char, i: int)
    requires
        0 <= i <= s.len(),
        i < s.len() ==> s[i] == c,
        forall|j: int| 0 <= j < i ==> #[trigger] s[j] != c,
    ensures
        first_of(s, c) == i,
{
    lemma_first_of(s, c);
    let found = first_of(s, c);
    if found < i {
        assert(s[found] != c);
    }
    if i < found {
        assert(s[i] != c);
    }
}

/// Digits only ever add to a number.
proof fn lemma_value_grows(s: Seq<char>, n: int)
    requires
        0 <= n <= s.len(),
        forall|i: int| 0 <= i < s.len() ==> is_digit(#[trigger] s[i]),
    ensures
        0 <= decimal_value(s.take(n)) <= decimal_value(s),
    decreases s.len(),
{
    if s.len() == 0 {
        assert(s.take(n) =~= s);
    } else {
        let front = s.drop_last();
        assert(is_digit(s.last()));
        assert forall|i: int| 0 <= i < front.len() implies is_digit(#[trigger] front[i]) by {
            assert(front[i] == s[i]);
        }
        if n < s.len() {
            lemma_value_grows(front, n);
            assert(front.take(n) =~= s.take(n));
        } else {
            lemma_value_grows(front, 0);
            assert(s.take(n) =~= s);
            assert(decimal_value(front.take(0)) == 0);
        }
    }
}

/// The characters of dotted bytes, and how many there can be.
proof fn lemma_dotted(s: Seq<char>, n: nat)
    requires
        is_dotted(s, n),
        n > 0,
    ensures
        0 < s.len() <= 4 * n - 1,
        forall|i: int| 0 <= i < s.len() ==> is_digit(#[trigger] s[i]) || s[i] == '.',
    decreases n,
{
    if n > 1 {
        let at = first_of(s, '.');
        lemma_first_of(s, '.');
        lemma_dotted(s.skip(at + 1), (n - 1) as nat);
        assert forall|i: int| 0 <= i < s.len() implies is_digit(#[trigger] s[i]) || s[i] == '.' by {
            if i < at {
                assert(s.take(at)[i] == s[i]);
            } else if i > at {
                assert(s.skip(at + 1)[i - at - 1] == s[i]);
            }
        }
    }
}

/// The characters of groups, and how many there can be.
proof fn lemma_groups(s: Seq<char>)
    ensures
        group_count(s) matches Some(n) ==> {
            &&& s.len() <= 5 * n - 1
            &&& forall|i: int| 0 <= i < s.len() ==> is_hex_digit(#[trigger] s[i]) || s[i] == ':'
        },
    decreases s.len(),
{
    let at = first_of(s, ':');
    lemma_first_of(s, ':');
    if at < s.len() {
        lemma_groups(s.skip(at + 1));
        if group_count(s) is Some {
            assert forall|i: int| 0 <= i < s.len() implies is_hex_digit(#[trigger] s[i]) || s[i]
                == ':' by {
                if i < at {
                    assert(s.take(at)[i] == s[i]);
                } else if i > at {
                    assert(s.skip(at + 1)[i - at - 1] == s[i]);
                }
            }
        }
    }
}

/// The characters of an IPv6 address, and how many there can be.
proof fn lemma_v6(s: Seq<char>)
    requires
        is_v6(s),
    ensures
        s.len() <= 39,
        forall|i: int|
            0 <= i < s.len() ==> is_hex_digit(#[trigger] s[i]) || s[i] == ':' || s[i] == '.',
{
    if group_count(s) == Some(8nat) {
        lemma_groups(s);
    } else if exists|i: int| is_shortened_at(s, i) {
        let at = choose|i: int| is_shortened_at(s, i);
        lemma_groups(s.take(at));
        lemma_groups(s.skip(at + 2));
        assert forall|i: int| 0 <= i < s.len() implies is_hex_digit(#[trigger] s[i]) || s[i] == ':'
            || s[i] == '.' by {
            if i < at {
                assert(s.take(at)[i] == s[i]);
            } else if i > at + 1 {
                assert(s.skip(at + 2)[i - at - 2] == s[i]);
            }
        }
    } else {
        reveal_strlit("::");
        reveal_strlit("::ffff:");
        let prefix = if embeds_v4(s, "::"@) {
            "::"@
        } else {
            "::ffff:"@
        };
        let n = prefix.len() as int;
        lemma_dotted(s.skip(n), 4);
        assert forall|i: int| 0 <= i < s.len() implies is_hex_digit(#[trigger] s[i]) || s[i] == ':'
            || s[i] == '.' by {
            if i < n {
                assert(s.take(n)[i] == s[i]);
            } else {
                assert(s.skip(n)[i - n] == s[i]);
            }
        }
    }
}

/// The characters of an IPv6 address with its zone, and how many there can be.
proof fn lemma_zoned_v6(s: Seq<char>)
    requires
        is_zoned_v6(s),
    ensures
        s.len() <= 50,
        forall|i: int| 0 <= i < s.len() ==> '!' <= #[trigger] s[i] <= '~',
{
    let at = first_of(s, '%');
    lemma_first_of(s, '%');
    if at < s.len() {
        lemma_v6(s.take(at));
        assert forall|i: int| 0 <= i < s.len() implies '!' <= #[trigger] s[i] <= '~' by {
            if i < at {
                assert(s.take(at)[i] == s[i]);
            } else if i > at {
                assert(s.skip(at + 1)[i - at - 1] == s[i]);
            }
        }
    } else {
        lemma_v6(s);
    }
}

/// All characters of a socket address are visible, and there are no more than `MAX_ADDRESS_LEN`.
pub proof fn law_address_is_short_and_visible(s: Seq<char>)
    requires
        is_socket_address(s),
    ensures
        s.len() <= MAX_ADDRESS_LEN,
        forall|i: int| 0 <= i < s.len() ==> '!' <= #[trigger] s[i] <= '~',
{
    let c = choose|c: int| splits_at(s, c);
    let host = s.take(c);
    let port = s.skip(c + 1);
    if is_v4(host) {
        lemma_dotted(host, 4);
    } else {
        lemma_zoned_v6(host.subrange(1, c - 1));
    }
    assert forall|i: int| 0 <= i < s.len() implies '!' <= #[trigger] s[i] <= '~' by {
        if i < c {
            assert(host[i] == s[i]);
            if !is_v4(host) && 0 < i < c - 1 {
                assert(host.subrange(1, c - 1)[i - 1] == host[i]);
            }
        } else if i > c {
            assert(port[i - c - 1] == s[i]);
        }
    }
}

/// Finds the first `c`, or the end.
fn find(s: &str, c: u8) -> (at: usize)
    requires
        s.is_ascii(),
        c < 128,
    ensures
        at == first_of(s@, c as char),
        at <= s@.len(),
{
    let len: usize = s.unicode_len();
    let mut i: usize = 0;
    while i < len && s.get_ascii(i) != c
        invariant
            i <= len == s@.len(),
            s.is_ascii(),
            c < 128,
            forall|j: int| 0 <= j < i ==> #[trigger] s@[j] != c as char,
        decreases len - i,
    {
        i = i + 1;
    }
    proof {
        lemma_first_is(s@, c as char, i as int);
    }
    i
}

/// Tells whether the text is a number up to `max`, in at most `digits` digits.
fn check_decimal(s: &str, digits: usize, max: u64) -> (ok: bool)
    requires
        s.is_ascii(),
        max <= 0xffff_ffff,
    ensures
        ok == is_decimal(s@, digits as int, max as int),
{
    let len: usize = s.unicode_len();
    if len == 0 || len > digits {
        return false;
    }
    if len > 1 && s.get_ascii(0) == 48 {
        return false;
    }
    let mut i: usize = 0;
    while i < len
        invariant
            i <= len == s@.len(),
            s.is_ascii(),
            forall|j: int| 0 <= j < i ==> is_digit(#[trigger] s@[j]),
        decreases len - i,
    {
        let b: u8 = s.get_ascii(i);
        if b < 48 || b > 57 {
            assert(!is_digit(s@[i as int]));
            return false;
        }
        i = i + 1;
    }
    let mut value: u64 = 0;
    let mut k: usize = 0;
    assert(s@.take(0) =~= Seq::<char>::empty());
    while k < len
        invariant
            k <= len == s@.len(),
            s.is_ascii(),
            max <= 0xffff_ffff,
            value <= max,
            value == decimal_value(s@.take(k as int)),
            forall|j: int| 0 <= j < s@.len() ==> is_digit(#[trigger] s@[j]),
        decreases len - k,
    {
        let b: u8 = s.get_ascii(k);
        assert(is_digit(s@[k as int]));
        value = value * 10 + (b - 48) as u64;
        k = k + 1;
        assert(s@.take(k as int).drop_last() =~= s@.take(k - 1));
        if value > max {
            proof {
                lemma_value_grows(s@, k as int);
            }
            return false;
        }
    }
    assert(s@.take(len as int) =~= s@);
    true
}

/// Tells whether the text is `n` bytes in decimal with dots between them.
fn check_dotted(s: &str, n: usize) -> (ok: bool)
    requires
        s.is_ascii(),
    ensures
        ok == is_dotted(s@, n as nat),
    decreases n,
{
    if n <= 1 {
        return check_decimal(s, 3, 255);
    }
    let len: usize = s.unicode_len();
    let at: usize = find(s, 46);
    if at == len {
        return false;
    }
    assert(s@.take(at as int) =~= s@.subrange(0, at as int));
    assert(s@.skip(at + 1) =~= s@.subrange(at + 1, len as int));
    check_decimal(s.substring_ascii(0, at), 3, 255) && check_dotted(
        s.substring_ascii(at + 1, len),
        n - 1,
    )
}

/// Tells whether the text is a group of an IPv6 address.
fn check_group(s: &str) -> (ok: bool)
    requires
        s.is_ascii(),
    ensures
        ok == is_group(s@),
{
    let len: usize = s.unicode_len();
    if len == 0 || len > 4 {
        return false;
    }
    let mut i: usize = 0;
    while i < len
        invariant
            i <= len == s@.len(),
            s.is_ascii(),
            forall|j: int| 0 <= j < i ==> is_hex_digit(#[trigger] s@[j]),
        decreases len - i,
    {
        let b: u8 = s.get_ascii(i);
        if !(48 <= b && b <= 57) && !(97 <= b && b <= 102) {
            assert(!is_hex_digit(s@[i as int]));
            return false;
        }
        i = i + 1;
    }
    true
}

/// Counts the groups of a text that writes up to `most` groups with colons between them.
fn count_groups(s: &str, most: usize) -> (count: Option<usize>)
    requires
        s.is_ascii(),
        most <= 8,
    ensures
        match count {
            Some(n) => n <= most && group_count(s@) == Some(n as nat),
            None => group_count(s@) is None || group_count(s@)->0 > most,
        },
    decreases most,
{
    let len: usize = s.unicode_len();
    let at: usize = find(s, 58);
    if at == len {
        return if most > 0 && check_group(s) {
            Some(1)
        } else {
            None
        };
    }
    assert(s@.take(at as int) =~= s@.subrange(0, at as int));
    assert(s@.skip(at + 1) =~= s@.subrange(at + 1, len as int));
    if most == 0 || !check_group(s.substring_ascii(0, at)) {
        return None;
    }
    match count_groups(s.substring_ascii(at + 1, len), most - 1) {
        Some(n) => Some(n + 1),
        None => None,
    }
}

/// Tells whether `::` stands at `i` for missing groups.
fn check_shortened(s: &str, i: usize) -> (ok: bool)
    requires
        s.is_ascii(),
        i + 2 <= s@.len(),
    ensures
        ok == is_shortened_at(s@, i as int),
{
    let len: usize = s.unicode_len();
    if s.get_ascii(i) != 58 || s.get_ascii(i + 1) != 58 {
        return false;
    }
    assert(s@.take(i as int) =~= s@.subrange(0, i as int));
    assert(s@.skip(i + 2) =~= s@.subrange(i + 2, len as int));
    let left: usize = if i == 0 {
        0
    } else {
        match count_groups(s.substring_ascii(0, i), 7) {
            Some(n) => n,
            None => {
                return false;
            },
        }
    };
    let right: usize = if i + 2 == len {
        0
    } else {
        match count_groups(s.substring_ascii(i + 2, len), 7) {
            Some(n) => n,
            None => {
                return false;
            },
        }
    };
    left + right <= 7
}

/// Tells whether the text is `prefix` and an IPv4 address.
fn check_embedded(s: &str, prefix: &str) -> (ok: bool)
    requires
        s.is_ascii(),
        prefix.is_ascii(),
    ensures
        ok == embeds_v4(s@, prefix@),
{
    let len: usize = s.unicode_len();
    let n: usize = prefix.unicode_len();
    if n > len {
        return false;
    }
    let mut i: usize = 0;
    while i < n
        invariant
            i <= n <= len,
            n == prefix@.len(),
            len == s@.len(),
            s.is_ascii(),
            prefix.is_ascii(),
            forall|j: int| 0 <= j < i ==> #[trigger] s@[j] == prefix@[j],
        decreases n - i,
    {
        if s.get_ascii(i) != prefix.get_ascii(i) {
            assert(s@.take(n as int)[i as int] != prefix@[i as int]);
            return false;
        }
        i = i + 1;
    }
    assert(s@.take(n as int) =~= prefix@);
    assert(s@.skip(n as int) =~= s@.subrange(n as int, len as int));
    check_dotted(s.substring_ascii(n, len), 4)
}

/// Tells whether the text is an IPv6 address.
fn check_v6(s: &str) -> (ok: bool)
    requires
        s.is_ascii(),
    ensures
        ok == is_v6(s@),
{
    proof {
        reveal_strlit("::");
        reveal_strlit("::ffff:");
    }
    if check_embedded(s, "::") || check_embedded(s, "::ffff:") {
        return true;
    }
    if let Some(n) = count_groups(s, 8) {
        if n == 8 {
            return true;
        }
    }
    let len: usize = s.unicode_len();
    let mut i: usize = 0;
    while len - i >= 2
        invariant
            i <= len == s@.len(),
            s.is_ascii(),
            forall|k: int| 0 <= k < i ==> !is_shortened_at(s@, k),
        decreases len - i,
    {
        if check_shortened(s, i) {
            return true;
        }
        i = i + 1;
    }
    false
}

/// Tells whether the text is an IPv6 address, with its zone if it has one.
fn check_zoned_v6(s: &str) -> (ok: bool)
    requires
        s.is_ascii(),
    ensures
        ok == is_zoned_v6(s@),
{
    let len: usize = s.unicode_len();
    let at: usize = find(s, 37);
    if at == len {
        return check_v6(s);
    }
    assert(s@.take(at as int) =~= s@.subrange(0, at as int));
    assert(s@.skip(at + 1) =~= s@.subrange(at + 1, len as int));
    check_v6(s.substring_ascii(0, at)) && check_decimal(
        s.substring_ascii(at + 1, len),
        10,
        0xffff_ffff,
    )
}

/// Tells whether the text is an IP address as it stands before a port.
fn check_host(s: &str) -> (ok: bool)
    requires
        s.is_ascii(),
    ensures
        ok == (is_v4(s@) || is_bracketed_v6(s@)),
{
    if check_dotted(s, 4) {
        return true;
    }
    let len: usize = s.unicode_len();
    if len <= 2 || s.get_ascii(0) != 91 || s.get_ascii(len - 1) != 93 {
        return false;
    }
    check_zoned_v6(s.substring_ascii(1, len - 1))
}

/// A socket address, as it is written out.
pub struct SocketAddr {
    text: String,
}

impl View for SocketAddr {
    type V = Seq<char>;

    closed spec fn view(&self) -> Seq<char> {
        self.text@
    }
}

impl SocketAddr {
    #[verifier::type_invariant]
    spec fn inv(self) -> bool {
        is_socket_address(self.text@)
    }

    /// Takes the address that `text` writes out, if it does.
    pub fn from_text(text: String) -> (addr: Option<SocketAddr>)
        ensures
            addr is Some <==> is_socket_address(text@),
            addr matches Some(a) ==> a@ == text@,
    {
        let s: &str = text.as_str();
        if !s.is_ascii() {
            proof {
                if is_socket_address(s@) {
                    law_address_is_short_and_visible(s@);
                    assert(vstd::utf8::is_ascii_chars(s@));
                }
            }
            return None;
        }
        let len: usize = s.unicode_len();
        let mut c: usize = len;
        while c > 0 && s.get_ascii(c - 1) != 58
            invariant
                c <= len == s@.len(),
                s.is_ascii(),
                forall|k: int| c <= k < len ==> #[trigger] s@[k] != ':',
            decreases c,
        {
            c = c - 1;
        }
        proof {
            if is_socket_address(s@) {
                let at = choose|at: int| splits_at(s@, at);
                if at < c - 1 {
                    assert(is_digit(s@.skip(at + 1)[c - 1 - (at + 1)]));
                }
                assert(at == c - 1);
            }
        }
        if c == 0 {
            return None;
        }
        assert(s@.take(c - 1) =~= s@.subrange(0, c - 1));
        assert(s@.skip(c as int) =~= s@.subrange(c as int, len as int));
        if check_decimal(s.substring_ascii(c, len), 5, 0xffff) && check_host(
            s.substring_ascii(0, c - 1),
        ) {
            assert(splits_at(s@, c - 1));
            Some(SocketAddr { text })
        } else {
            None
        }
    }

    /// The address as text.
    pub fn as_str(&self) -> (text: &str)
        ensures
            text@ == self@,
            is_socket_address(text@),
    {
        proof {
            use_type_invariant(self);
        }
        self.text.as_str()
    }
}

impl Clone for SocketAddr {
    fn clone(&self) -> (copy: SocketAddr)
        ensures
            copy == *self,
    {
        proof {
            use_type_invariant(self);
        }
        SocketAddr { text: self.text.clone() }
    }
}

/// A number, written in decimal.
pub open spec fn decimal(n: nat) -> Seq<char>
    decreases n,
{
    if n < 10 {
        seq![(48 + n) as char]
    } else {
        decimal(n / 10).push((48 + n % 10) as char)
    }
}

proof fn lemma_decimal(n: nat, digits: nat, bound: nat)
    requires
        n < bound,
        digits > 0,
        digits == 1 ==> bound <= 10,
        digits == 2 ==> bound <= 100,
        digits == 3 ==> bound <= 1000,
        digits == 4 ==> bound <= 10000,
        digits == 5 ==> bound <= 100000,
        digits == 6 ==> bound <= 1000000,
        digits == 7 ==> bound <= 10000000,
        digits == 8 ==> bound <= 100000000,
        digits == 9 ==> bound <= 1000000000,
        digits == 10 ==> bound <= 10000000000,
        digits <= 10,
    ensures
        is_decimal(decimal(n), digits as int, n as int),
        decimal_value(decimal(n)) == n,
        n > 0 ==> decimal(n)[0] != '0',
    decreases n,
{
    let s = decimal(n);
    if n < 10 {
        assert(s.drop_last() =~= Seq::<char>::empty());
        assert(decimal_value(s.drop_last()) == 0);
    } else {
        lemma_decimal(n / 10, (digits - 1) as nat, (n / 10 + 1) as nat);
        let front = decimal(n / 10);
        assert(s.drop_last() =~= front);
        assert(s[0] == front[0]);
        assert forall|i: int| 0 <= i < s.len() implies is_digit(#[trigger] s[i]) by {
            if i < front.len() {
                assert(s[i] == front[i]);
            }
        }
    }
}

/// Dotted bytes that begin with the given one.
proof fn lemma_dotted_step(first: Seq<char>, rest: Seq<char>, n: nat)
    requires
        is_decimal(first, 3, 255),
        is_dotted(rest, n),
        n > 0,
    ensures
        is_dotted(first + seq!['.'] + rest, n + 1),
{
    let s = first + seq!['.'] + rest;
    let at = first.len() as int;
    assert forall|j: int| 0 <= j < at implies #[trigger] s[j] != '.' by {
        assert(s[j] == first[j]);
    }
    lemma_first_is(s, '.', at);
    assert(s.take(at) =~= first);
    assert(s.skip(at + 1) =~= rest);
}

/// A host and a port, with a colon between them.
proof fn lemma_host_and_port(host: Seq<char>, port: u16)
    requires
        is_v4(host) || is_bracketed_v6(host),
    ensures
        is_socket_address(host + seq![':'] + decimal(port as nat)),
{
    let s = host + seq![':'] + decimal(port as nat);
    let c = host.len() as int;
    lemma_decimal(port as nat, 5, 65536);
    assert(s.take(c) =~= host);
    assert(s.skip(c + 1) =~= decimal(port as nat));
    assert(splits_at(s, c));
}

/// Four bytes in decimal, with dots between them, and a port are a socket address, whatever they
/// are.
pub proof fn law_v4_addresses_are_addresses(a: u8, b: u8, c: u8, d: u8, port: u16)
    ensures
        is_socket_address(
            decimal(a as nat) + seq!['.'] + (decimal(b as nat) + seq!['.'] + (decimal(c as nat)
                + seq!['.'] + decimal(d as nat))) + seq![':'] + decimal(port as nat),
        ),
{
    lemma_decimal(a as nat, 3, 256);
    lemma_decimal(b as nat, 3, 256);
    lemma_decimal(c as nat, 3, 256);
    lemma_decimal(d as nat, 3, 256);
    let last = decimal(d as nat);
    assert(is_dotted(last, 1));
    let two = decimal(c as nat) + seq!['.'] + last;
    lemma_dotted_step(decimal(c as nat), last, 1);
    let three = decimal(b as nat) + seq!['.'] + two;
    lemma_dotted_step(decimal(b as nat), two, 2);
    lemma_dotted_step(decimal(a as nat), three, 3);
    lemma_host_and_port(decimal(a as nat) + seq!['.'] + three, port);
}

/// Groups of an IPv6 address, with colons between them.
pub open spec fn joined(groups: Seq<Seq<char>>) -> Seq<char>
    decreases groups.len(),
{
    if groups.len() == 0 {
        Seq::empty()
    } else if groups.len() == 1 {
        groups[0]
    } else {
        groups[0] + seq![':'] + joined(groups.skip(1))
    }
}

/// One to four hexadecimal digits, in lower case.
pub open spec fn are_groups(groups: Seq<Seq<char>>) -> bool {
    forall|g: int|
        0 <= g < groups.len() ==> 0 < (#[trigger] groups[g]).len() <= 4 && forall|i: int|
            0 <= i < groups[g].len() ==> '0' <= #[trigger] groups[g][i] <= '9' || 'a'
                <= groups[g][i] <= 'f'
}

proof fn lemma_joined(groups: Seq<Seq<char>>)
    requires
        are_groups(groups),
    ensures
        side_count(joined(groups)) == Some(groups.len()),
        groups.len() > 0 ==> joined(groups).len() > 0 && group_count(joined(groups)) == Some(
            groups.len(),
        ),
        forall|i: int| 0 <= i < joined(groups).len() ==> #[trigger] joined(groups)[i] != '%',
    decreases groups.len(),
{
    if groups.len() > 0 {
        let first = groups[0];
        assert forall|i: int| 0 <= i < first.len() implies is_hex_digit(#[trigger] first[i]) by {
            assert(groups[0][i] == first[i]);
        }
        let s = joined(groups);
        if groups.len() == 1 {
            lemma_first_is(s, ':', s.len() as int);
        } else {
            let rest = groups.skip(1);
            assert forall|g: int| 0 <= g < rest.len() implies 0 < (#[trigger] rest[g]).len() <= 4
                && forall|i: int|
                0 <= i < rest[g].len() ==> '0' <= #[trigger] rest[g][i] <= '9' || 'a' <= rest[g][i]
                    <= 'f' by {
                assert(rest[g] == groups[g + 1]);
            }
            lemma_joined(rest);
            let at = first.len() as int;
            assert forall|j: int| 0 <= j < at implies #[trigger] s[j] != ':' by {
                assert(s[j] == first[j]);
            }
            lemma_first_is(s, ':', at);
            assert(s.take(at) =~= first);
            assert(s.skip(at + 1) =~= joined(rest));
            assert forall|i: int| 0 <= i < s.len() implies #[trigger] s[i] != '%' by {
                if i < at {
                    assert(s[i] == first[i]);
                } else if i > at {
                    assert(s[i] == joined(rest)[i - at - 1]);
                }
            }
        }
    }
}

proof fn lemma_bracketed(v6: Seq<char>, port: u16)
    requires
        is_v6(v6),
        v6.len() > 0,
        forall|i: int| 0 <= i < v6.len() ==> #[trigger] v6[i] != '%',
    ensures
        is_socket_address(seq!['['] + v6 + seq![']', ':'] + decimal(port as nat)),
{
    let host = seq!['['] + v6 + seq![']'];
    assert(host.subrange(1, host.len() - 1) =~= v6);
    lemma_first_is(v6, '%', v6.len() as int);
    lemma_host_and_port(host, port);
    assert(host + seq![':'] + decimal(port as nat) =~= seq!['['] + v6 + seq![']', ':'] + decimal(
        port as nat,
    ));
}

/// Eight groups in square brackets, and a port, are a socket address, whatever they are; so are
/// fewer, where `::` stands for the others.
pub proof fn law_v6_addresses_are_addresses(
    left: Seq<Seq<char>>,
    right: Seq<Seq<char>>,
    port: u16,
)
    requires
        are_groups(left),
        are_groups(right),
    ensures
        left.len() == 8 ==> is_socket_address(
            seq!['['] + joined(left) + seq![']', ':'] + decimal(port as nat),
        ),
        left.len() + right.len() <= 7 ==> is_socket_address(
            seq!['['] + (joined(left) + seq![':', ':'] + joined(right)) + seq![']', ':'] + decimal(
                port as nat,
            ),
        ),
{
    lemma_joined(left);
    lemma_joined(right);
    if left.len() == 8 {
        lemma_bracketed(joined(left), port);
    }
    if left.len() + right.len() <= 7 {
        let s = joined(left) + seq![':', ':'] + joined(right);
        let at = joined(left).len() as int;
        assert(s.take(at) =~= joined(left));
        assert(s.skip(at + 2) =~= joined(right));
        assert(is_shortened_at(s, at));
        assert forall|i: int| 0 <= i < s.len() implies #[trigger] s[i] != '%' by {
            if i < at {
                assert(s[i] == joined(left)[i]);
            } else if i > at + 1 {
                assert(s[i] == joined(right)[i - at - 2]);
            }
        }
        lemma_bracketed(s, port);
    }
}

/// An IPv6 address with a zone, in square brackets, and a port are a socket address, whatever the
/// zone is; so is an IPv4 address that is written as an IPv6 one.
pub proof fn law_zones_and_embedded_addresses(v6: Seq<char>, v4: Seq<char>, zone: u32, port: u16)
    requires
        is_v6(v6),
        is_v4(v4),
    ensures
        is_socket_address(
            seq!['['] + (v6 + seq!['%'] + decimal(zone as nat)) + seq![']', ':'] + decimal(
                port as nat,
            ),
        ),
        is_v6(seq![':', ':', 'f', 'f', 'f', 'f', ':'] + v4),
{
    lemma_v6(v6);
    lemma_decimal(zone as nat, 10, 0x1_0000_0000);
    let inner = v6 + seq!['%'] + decimal(zone as nat);
    let at = v6.len() as int;
    assert forall|j: int| 0 <= j < at implies #[trigger] inner[j] != '%' by {
        assert(inner[j] == v6[j]);
    }
    lemma_first_is(inner, '%', at);
    assert(inner.take(at) =~= v6);
    assert(inner.skip(at + 1) =~= decimal(zone as nat));
    let host = seq!['['] + inner + seq![']'];
    assert(host.subrange(1, host.len() - 1) =~= inner);
    lemma_host_and_port(host, port);
    assert(host + seq![':'] + decimal(port as nat) =~= seq!['['] + inner + seq![']', ':'] + decimal(
        port as nat,
    ));
    reveal_strlit("::ffff:");
    let mapped = seq![':', ':', 'f', 'f', 'f', 'f', ':'] + v4;
    assert(mapped.take(7) =~= "::ffff:"@);
    assert(mapped.skip(7) =~= v4);
    assert(embeds_v4(mapped, "::ffff:"@));
}

} // verus!
