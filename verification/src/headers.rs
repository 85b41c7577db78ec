//! Header fields: what the proxy reads from and writes to an `http::HeaderMap`, and the removal
//! of the fields that are meant for one connection only.
use vstd::prelude::*;

use crate::text::{self, item_end, trimmed};

verus! {

broadcast use vstd::map_lib::lemma_map_new_domain, vstd::map_lib::lemma_map_new_values;

/// `http::HeaderMap`, the collection of header fields of a message.
#[verifier::external_type_specification]
#[verifier::external_body]
#[verifier::reject_recursive_types(T)]
pub struct ExHeaderMap<T>(http::HeaderMap<T>);

/// `http::header::HeaderValue`, the value type of the maps used here.
#[verifier::external_type_specification]
#[verifier::external_body]
pub struct ExHeaderValue(http::header::HeaderValue);

/// What a header map holds: for each field name, in lower case, the values of that field in the
/// order in which they were added.
pub uninterp spec fn header_entries(map: http::HeaderMap) -> Map<Seq<char>, Seq<Seq<u8>>>;

/// The names that `http` puts into a map are shorter than this.
pub const MAX_NAME_LEN: usize = 65536;

/// A map takes no further name once it holds this many.
pub const MAX_NAMES: usize = 32768;

/// A character that a field name may hold.
pub open spec fn is_name_char(c: char) -> bool {
    ||| 'a' <= c <= 'z'
    ||| 'A' <= c <= 'Z'
    ||| '0' <= c <= '9'
    ||| '!' <= c <= '\''
    ||| c == '*' || c == '+' || c == '-' || c == '.'
    ||| c == '^' || c == '_' || c == '`' || c == '|' || c == '~'
}

/// The form in which a character of a field name is looked up: lower case, or the NUL that no
/// well-formed name holds.
pub open spec fn key_char(c: char) -> char {
    if 'A' <= c <= 'Z' {
        (c as u32 + 32) as char
    } else if is_name_char(c) {
        c
    } else {
        '\0'
    }
}

/// The key under which a field name is looked up.
pub open spec fn header_key(name: Seq<char>) -> Seq<char> {
    Seq::new(name.len(), |i: int| key_char(name[i]))
}

/// A field name that `http` accepts.
pub open spec fn is_header_name(name: Seq<char>) -> bool {
    &&& 0 < name.len() < MAX_NAME_LEN
    &&& forall|i: int| 0 <= i < name.len() ==> is_name_char(#[trigger] name[i])
}

/// A value that `http` accepts.
pub open spec fn is_header_value(value: Seq<u8>) -> bool {
    forall|i: int| 0 <= i < value.len() ==> text::is_value_byte(#[trigger] value[i])
}

/// Calls `http::HeaderMap::get` with a name given as text. It finds the field whatever the case
/// of the name, and gives the first value where there are several. A name of `MAX_NAME_LEN`
/// bytes or more makes `http` panic.
#[verifier::external_body]
pub(crate) fn get_header(headers: &http::HeaderMap, name: &str) -> (value: Option<Vec<u8>>)
    requires
        name.is_ascii(),
        name@.len() < MAX_NAME_LEN,
    ensures
        value is Some <==> header_entries(*headers).contains_key(header_key(name@)),
        value matches Some(v) ==> {
            &&& header_entries(*headers)[header_key(name@)].len() > 0
            &&& v@ == header_entries(*headers)[header_key(name@)][0]
        },
{
    headers.get(name).map(|v| v.as_bytes().to_vec())
}

/// Calls `http::HeaderMap::remove` with a name given as text. All values of the field go; the
/// first of them is returned. A name that is not well-formed is in no map, so nothing goes. A
/// name of `MAX_NAME_LEN` bytes or more makes `http` panic.
#[verifier::external_body]
pub(crate) fn remove_header(headers: &mut http::HeaderMap, name: &str) -> (value: Option<Vec<u8>>)
    requires
        name.is_ascii(),
        name@.len() < MAX_NAME_LEN,
    ensures
        header_entries(*final(headers)) == header_entries(*old(headers)).remove(header_key(name@)),
        value is Some <==> header_entries(*old(headers)).contains_key(header_key(name@)),
        value matches Some(v) ==> {
            &&& header_entries(*old(headers))[header_key(name@)].len() > 0
            &&& v@ == header_entries(*old(headers))[header_key(name@)][0]
        },
{
    headers.remove(name).map(|v| v.as_bytes().to_vec())
}

/// Calls `http::HeaderMap::insert` with a value made by `HeaderValue::from_shared`. The value
/// replaces all that the field had. `from_shared` accepts just the values of `is_header_value`;
/// `http` panics on a malformed name, and on a new name where the map holds `MAX_NAMES`.
#[verifier::external_body]
pub(crate) fn insert_header(headers: &mut http::HeaderMap, name: &'static str, value: Vec<u8>)
    requires
        is_header_name(name@),
        is_header_value(value@),
        header_entries(*old(headers)).contains_key(header_key(name@)) || header_entries(
            *old(headers),
        ).dom().len() < MAX_NAMES,
    ensures
        header_entries(*final(headers)) == header_entries(*old(headers)).insert(
            header_key(name@),
            seq![value@],
        ),
{
    let value = http::header::HeaderValue::from_shared(bytes::Bytes::from(value))
        .expect("the bytes form a header value");
    headers.insert(name, value);
}

/// Calls `http::HeaderMap::keys_len`, the number of names in the map.
#[verifier::external_body]
pub(crate) fn keys_len(headers: &http::HeaderMap) -> (n: usize)
    ensures
        n == header_entries(*headers).dom().len(),
{
    headers.keys_len()
}

/// Calls `http::header::HeaderValue::to_str`: a value is text where all its bytes are visible,
/// and the text has one character for each byte.
#[verifier::external_body]
pub(crate) fn value_to_str(value: &[u8]) -> (text: Option<String>)
    ensures
        text is Some <==> text::is_visible_text(value@),
        text matches Some(t) ==> t@ == text::text_of(value@),
{
    let value = http::header::HeaderValue::from_bytes(value).ok()?;
    value.to_str().ok().map(String::from)
}

/// The name of the field that lists the fields meant for this connection only.
pub open spec fn connection() -> Seq<char> {
    "connection"@
}

/// The comma-separated list `text` names the field `key`.
pub open spec fn lists(text: Seq<char>, key: Seq<char>) -> bool {
    exists|i: int, j: int| #[trigger]
        text::is_item(text, i, j) && header_key(text::trim(text.subrange(i, j))) == key
}

/// The fields that are meant for this connection only: `Connection` itself and, where its
/// first value is text, those that it lists.
pub open spec fn connection_fields(entries: Map<Seq<char>, Seq<Seq<u8>>>) -> Set<Seq<char>> {
    if !entries.contains_key(connection()) {
        Set::empty()
    } else {
        let value = entries[connection()][0];
        Set::new(
            |key: Seq<char>|
                key == connection() || (text::is_visible_text(value) && lists(
                    text::text_of(value),
                    key,
                )),
        )
    }
}

/// The fields that remain once those meant for this connection only are gone.
pub open spec fn stripped(entries: Map<Seq<char>, Seq<Seq<u8>>>) -> Map<Seq<char>, Seq<Seq<u8>>> {
    entries.remove_keys(connection_fields(entries))
}

/// All names in the list are short enough to be looked up.
pub open spec fn items_fit(text: Seq<char>) -> bool {
    forall|i: int, j: int| #[trigger]
        text::is_item(text, i, j) ==> text::trim(text.subrange(i, j)).len() < MAX_NAME_LEN
}

/// The `Connection` field, if there is one that is text, names only fields that can be looked
/// up.
pub open spec fn connection_fits(entries: Map<Seq<char>, Seq<Seq<u8>>>) -> bool {
    entries.contains_key(connection()) && text::is_visible_text(entries[connection()][0])
        ==> items_fit(text::text_of(entries[connection()][0]))
}

/// The fields named by the items that end before `end`, and `Connection`.
spec fn named_before(text: Seq<char>, end: int) -> Set<Seq<char>> {
    Set::new(
        |key: Seq<char>|
            key == connection() || exists|i: int, j: int| #[trigger]
                text::is_item(text, i, j) && j < end && header_key(
                    text::trim(text.subrange(i, j)),
                ) == key,
    )
}

/// Two items of a list are the same if one ends inside the other.
proof fn lemma_item_unique(text: Seq<char>, start: int, end: int, i: int, j: int)
    requires
        text::is_item(text, start, end),
        text::is_item(text, i, j),
        start <= j <= end,
    ensures
        i == start,
        j == end,
{
    if j < end {
        assert(text[j] != ',');
    }
    if i < start {
        assert(text[start - 1] != ',');
    }
    if i > start {
        assert(text[i - 1] != ',');
    }
}

/// The step from one item to the next: what the items before `end + 1` name is what those
/// before `start` name, and the item between.
proof fn lemma_named_step(text: Seq<char>, start: int, end: int)
    requires
        text::is_item(text, start, end),
    ensures
        named_before(text, end + 1) =~= named_before(text, start).insert(
            header_key(text::trim(text.subrange(start, end))),
        ),
{
    let item_key = header_key(text::trim(text.subrange(start, end)));
    assert forall|key: Seq<char>| named_before(text, end + 1).contains(key) implies named_before(
        text,
        start,
    ).insert(item_key).contains(key) by {
        if key != connection() {
            let (i, j) = choose|i: int, j: int| #[trigger]
                text::is_item(text, i, j) && j < end + 1 && header_key(
                    text::trim(text.subrange(i, j)),
                ) == key;
            if j >= start {
                lemma_item_unique(text, start, end, i, j);
            }
        }
    }
    assert forall|key: Seq<char>|
        named_before(text, start).insert(item_key).contains(key) implies named_before(
        text,
        end + 1,
    ).contains(key) by {
        if key == item_key {
            assert(text::is_item(text, start, end));
        } else if key != connection() {
            let (i, j) = choose|i: int, j: int| #[trigger]
                text::is_item(text, i, j) && j < start && header_key(
                    text::trim(text.subrange(i, j)),
                ) == key;
            assert(text::is_item(text, i, j) && j < end + 1);
        }
    }
}

/// A text whose bytes are all visible is ASCII.
proof fn lemma_visible_is_ascii(value: Seq<u8>)
    requires
        text::is_visible_text(value),
    ensures
        vstd::utf8::is_ascii_chars(text::text_of(value)),
{
    assert forall|i: int| 0 <= i < value.len() implies 0 <= #[trigger] text::text_of(
        value,
    )[i] < 128 by {
        assert(text::is_visible(value[i]));
    }
}

/// The key of the `Connection` field is its name.
proof fn lemma_connection_key()
    ensures
        header_key(connection()) == connection(),
        connection().len() == 10,
        vstd::utf8::is_ascii_chars(connection()),
{
    reveal_strlit("connection");
    assert(header_key(connection()) =~= connection());
}

/// Removes the header fields that are meant for this connection only: `Connection` itself, and
/// the fields that its first value lists.
pub fn strip_connection_headers(headers: &mut http::HeaderMap)
    requires
        connection_fits(header_entries(*old(headers))),
    ensures
        header_entries(*final(headers)) == stripped(header_entries(*old(headers))),
{
    proof {
        lemma_connection_key();
    }
    let ghost entries = header_entries(*headers);
    let value: Vec<u8> = match remove_header(headers, "connection") {
        Some(value) => value,
        None => {
            assert(entries.remove(connection()) =~= stripped(entries));
            return;
        },
    };
    let text: String = match value_to_str(value.as_slice()) {
        Some(text) => text,
        None => {
            assert(entries.remove(connection()) =~= stripped(entries));
            return;
        },
    };
    proof {
        lemma_visible_is_ascii(value@);
    }
    let names: &str = text.as_str();
    assert(names.is_ascii());
    let bytes: &[u8] = names.as_bytes();
    assert(bytes@ =~= text::bytes_of(names@));
    let len: usize = bytes.len();
    let mut start: usize = 0;
    assert(header_entries(*headers) =~= entries.remove_keys(named_before(names@, 0)));
    loop
        invariant_except_break
            header_entries(*headers) == entries.remove_keys(named_before(names@, start as int)),
        invariant
            names.is_ascii(),
            len == names@.len(),
            start <= len,
            start == 0 || names@[start - 1] == ',',
            items_fit(names@),
        ensures
            header_entries(*headers) == entries.remove_keys(named_before(names@, len + 1)),
        decreases len - start,
    {
        let end: usize = item_end(names, start);
        assert(text::is_item(names@, start as int, end as int));
        let name: &str = trimmed(names, start, end);
        remove_header(headers, name);
        proof {
            lemma_named_step(names@, start as int, end as int);
            assert(header_entries(*headers) =~= entries.remove_keys(
                named_before(names@, end + 1),
            ));
        }
        if end == len {
            break;
        }
        start = end + 1;
    }
    proof {
        assert(named_before(names@, len + 1) =~= connection_fields(entries)) by {
            assert forall|key: Seq<char>|
                lists(names@, key) implies named_before(names@, len + 1).contains(key) by {
                let (i, j) = choose|i: int, j: int| #[trigger]
                    text::is_item(names@, i, j) && header_key(
                        text::trim(names@.subrange(i, j)),
                    ) == key;
                assert(text::is_item(names@, i, j) && j < len + 1);
            }
        }
    }
}

/// Tells whether every item of the list is short enough to be looked up.
fn check_items(names: &str) -> (fit: bool)
    requires
        names.is_ascii(),
    ensures
        fit == items_fit(names@),
{
    let bytes: &[u8] = names.as_bytes();
    assert(bytes@ =~= text::bytes_of(names@));
    let len: usize = bytes.len();
    let mut start: usize = 0;
    loop
        invariant
            names.is_ascii(),
            len == names@.len(),
            start <= len,
            start == 0 || names@[start - 1] == ',',
            forall|i: int, j: int| #[trigger]
                text::is_item(names@, i, j) && j < start ==> text::trim(
                    names@.subrange(i, j),
                ).len() < MAX_NAME_LEN,
        decreases len - start,
    {
        let end: usize = item_end(names, start);
        assert(text::is_item(names@, start as int, end as int));
        let name: &str = trimmed(names, start, end);
        let name_bytes: &[u8] = name.as_bytes();
        assert(name_bytes@ =~= text::bytes_of(name@));
        if name_bytes.len() >= MAX_NAME_LEN {
            return false;
        }
        assert forall|i: int, j: int| #[trigger]
            text::is_item(names@, i, j) && j <= end implies text::trim(
            names@.subrange(i, j),
        ).len() < MAX_NAME_LEN by {
            if j >= start {
                lemma_item_unique(names@, start as int, end as int, i, j);
            }
        }
        if end == len {
            return true;
        }
        start = end + 1;
    }
}

/// Tells whether `strip_connection_headers` can be called: whether the `Connection` field names
/// only fields that can be looked up.
pub fn check_connection(headers: &http::HeaderMap) -> (fits: bool)
    ensures
        fits == connection_fits(header_entries(*headers)),
{
    proof {
        lemma_connection_key();
    }
    match get_header(headers, "connection") {
        Some(value) => match value_to_str(value.as_slice()) {
            Some(text) => {
                proof {
                    lemma_visible_is_ascii(value@);
                }
                check_items(text.as_str())
            },
            None => true,
        },
        None => true,
    }
}

/// The `Connection` field never remains.
pub proof fn law_connection_is_stripped(entries: Map<Seq<char>, Seq<Seq<u8>>>)
    ensures
        !stripped(entries).contains_key(connection()),
{
}

/// A field that an item of the `Connection` field names does not remain, whatever the case and
/// the blanks around the name.
pub proof fn law_listed_field_is_stripped(entries: Map<Seq<char>, Seq<Seq<u8>>>, i: int, j: int)
    requires
        entries.contains_key(connection()),
        text::is_visible_text(entries[connection()][0]),
        text::is_item(text::text_of(entries[connection()][0]), i, j),
    ensures
        !stripped(entries).contains_key(
            header_key(text::trim(text::text_of(entries[connection()][0]).subrange(i, j))),
        ),
{
    let text = text::text_of(entries[connection()][0]);
    assert(lists(text, header_key(text::trim(text.subrange(i, j)))));
}

/// Every other field remains, with all its values in order.
pub proof fn law_other_fields_remain(entries: Map<Seq<char>, Seq<Seq<u8>>>, key: Seq<char>)
    requires
        entries.contains_key(key),
        !connection_fields(entries).contains(key),
    ensures
        stripped(entries).contains_key(key),
        stripped(entries)[key] == entries[key],
{
}

/// Nothing is added, and without a `Connection` field nothing changes.
pub proof fn law_strip_only_removes(entries: Map<Seq<char>, Seq<Seq<u8>>>)
    ensures
        stripped(entries).submap_of(entries),
        !entries.contains_key(connection()) ==> stripped(entries) == entries,
{
    if !entries.contains_key(connection()) {
        assert(stripped(entries) =~= entries);
    }
}

/// Stripping what has been stripped changes nothing, and can always be done.
pub proof fn law_strip_is_idempotent(entries: Map<Seq<char>, Seq<Seq<u8>>>)
    ensures
        stripped(stripped(entries)) == stripped(entries),
        connection_fits(stripped(entries)),
{
    assert(stripped(stripped(entries)) =~= stripped(entries));
}

/// The bytes `[i, j)` stand between two commas, or a comma and an end, and `[a, b)` is what is
/// left of them without the spaces and tabs around it.
pub open spec fn stands_in_list(value: Seq<u8>, i: int, a: int, b: int, j: int) -> bool {
    &&& 0 <= i <= a <= b <= j <= value.len()
    &&& i == 0 || value[i - 1] == 44
    &&& j == value.len() || value[j] == 44
    &&& forall|k: int| i <= k < j ==> #[trigger] value[k] != 44
    &&& forall|k: int| i <= k < a || b <= k < j ==> #[trigger] value[k] == 32 || value[k] == 9
    &&& a < b ==> value[a] != 32 && value[a] != 9 && value[b - 1] != 32 && value[b - 1] != 9
}

/// The bytes `[a, b)` spell `key`, but for capital letters.
pub open spec fn spells(value: Seq<u8>, a: int, b: int, key: Seq<char>) -> bool {
    &&& key.len() == b - a
    &&& forall|k: int|
        0 <= k < key.len() ==> (#[trigger] key[k]) as int == if 65 <= value[a + k] <= 90 {
            value[a + k] + 32
        } else {
            value[a + k] as int
        }
}

/// A name as header maps hold it: without capital letters, and of characters that names may hold.
pub open spec fn is_map_name(key: Seq<char>) -> bool {
    forall|k: int|
        0 <= k < key.len() ==> {
            let c = #[trigger] key[k];
            ||| 'a' <= c <= 'z' || '0' <= c <= '9' || '!' <= c <= '\''
            ||| c == '*' || c == '+' || c == '-' || c == '.'
            ||| c == '^' || c == '_' || c == '`' || c == '|' || c == '~'
        }
}

/// A name is looked up in lower case: names that differ in capital letters only have one key, and
/// a name as maps hold it is its own.
pub proof fn law_names_are_looked_up_in_any_case(name: Seq<char>, key: Seq<char>)
    requires
        is_map_name(key),
    ensures
        header_key(key) == key,
        header_key(name) == key <==> (name.len() == key.len() && forall|k: int|
            0 <= k < key.len() ==> (#[trigger] name[k] == key[k] || ('A' <= name[k] <= 'Z'
                && name[k] as int + 32 == key[k] as int))),
{
    assert(header_key(key) =~= key);
    if header_key(name) == key {
        assert forall|k: int| 0 <= k < key.len() implies (#[trigger] name[k] == key[k] || ('A'
            <= name[k] <= 'Z' && name[k] as int + 32 == key[k] as int)) by {
            assert(header_key(name)[k] == key[k]);
        }
    }
    if name.len() == key.len() && forall|k: int|
        0 <= k < key.len() ==> (#[trigger] name[k] == key[k] || ('A' <= name[k] <= 'Z'
            && name[k] as int + 32 == key[k] as int)) {
        assert forall|k: int| 0 <= k < key.len() implies #[trigger] header_key(name)[k]
            == key[k] by {
            assert(name[k] == name[k]);
        }
        assert(header_key(name) =~= key);
    }
}

/// What stands in the list, as an item of the text.
proof fn lemma_stands_as_item(value: Seq<u8>, i: int, a: int, b: int, j: int)
    requires
        stands_in_list(value, i, a, b, j),
    ensures
        text::is_item(text::text_of(value), i, j),
        text::trim(text::text_of(value).subrange(i, j)) == text::text_of(value).subrange(a, b),
{
    let text = text::text_of(value);
    let item = text.subrange(i, j);
    assert forall|k: int| i <= k < j implies #[trigger] text[k] != ',' by {
        assert(value[k] != 44);
    }
    assert forall|k: int| 0 <= k < a - i || b - i <= k < item.len() implies #[trigger] item[k]
        == ' ' || item[k] == '\t' by {
        assert(value[k + i] == 32 || value[k + i] == 9);
    }
    if a < b {
        assert(item[a - i] == value[a] as char);
        assert(item[b - i - 1] == value[b - 1] as char);
    }
    text::law_trim_leaves_what_is_between_blanks(item, a - i, b - i);
    assert(item.subrange(a - i, b - i) =~= text.subrange(a, b));
}

/// An item of the text, as what stands in the list.
proof fn lemma_item_stands(value: Seq<u8>, i: int, j: int) -> (ends: (int, int))
    requires
        text::is_item(text::text_of(value), i, j),
    ensures
        stands_in_list(value, i, ends.0, ends.1, j),
        text::trim(text::text_of(value).subrange(i, j)) == text::text_of(value).subrange(
            ends.0,
            ends.1,
        ),
{
    let text = text::text_of(value);
    let item = text.subrange(i, j);
    let (a, b) = text::law_trim_cuts_only_blanks(item);
    assert forall|k: int| i <= k < j implies #[trigger] value[k] != 44 by {
        assert(text[k] != ',');
    }
    assert forall|k: int| i <= k < i + a || i + b <= k < j implies #[trigger] value[k] == 32
        || value[k] == 9 by {
        assert(item[k - i] == value[k] as char);
    }
    if a < b {
        assert(item[a] == value[i + a] as char);
        assert(item[b - 1] == value[i + b - 1] as char);
    }
    if i > 0 {
        assert(text[i - 1] == value[i - 1] as char);
    }
    if j < value.len() {
        assert(text[j] == value[j] as char);
    }
    assert(item.subrange(a, b) =~= text.subrange(i + a, i + b));
    (i + a, i + b)
}

proof fn lemma_spells(value: Seq<u8>, a: int, b: int, key: Seq<char>)
    requires
        0 <= a <= b <= value.len(),
        is_map_name(key),
    ensures
        header_key(text::text_of(value).subrange(a, b)) == key <==> spells(value, a, b, key),
{
    let name = text::text_of(value).subrange(a, b);
    law_names_are_looked_up_in_any_case(name, key);
    if header_key(name) == key {
        assert forall|k: int| 0 <= k < key.len() implies (#[trigger] key[k]) as int == if 65
            <= value[a + k] <= 90 {
            value[a + k] + 32
        } else {
            value[a + k] as int
        } by {
            assert(name[k] == value[a + k] as char);
        }
    }
    if spells(value, a, b, key) {
        assert forall|k: int| 0 <= k < key.len() implies (#[trigger] name[k] == key[k] || ('A'
            <= name[k] <= 'Z' && name[k] as int + 32 == key[k] as int)) by {
            assert(name[k] == value[a + k] as char);
            assert(key[k] as int == if 65 <= value[a + k] <= 90 {
                value[a + k] + 32
            } else {
                value[a + k] as int
            });
        }
    }
}

/// Just the `Connection` field goes and, where its first value is of visible bytes, the fields
/// that stand in it between commas, whatever the case and the blanks around them. Every other
/// field remains with all its values, and none is added.
pub proof fn law_just_the_listed_fields_go(entries: Map<Seq<char>, Seq<Seq<u8>>>, key: Seq<char>)
    requires
        is_map_name(key),
    ensures
        ({
            let value = entries["connection"@][0];
            let goes = entries.contains_key("connection"@) && (key == "connection"@ || ((forall|
                k: int,
            |
                0 <= k < value.len() ==> 32 <= #[trigger] value[k] <= 126 || value[k] == 9)
                && exists|i: int, a: int, b: int, j: int| #[trigger]
                stands_in_list(value, i, a, b, j) && spells(value, a, b, key)));
            stripped(entries).contains_key(key) <==> entries.contains_key(key) && !goes
        }),
        stripped(entries).contains_key(key) ==> stripped(entries)[key] == entries[key],
{
    let value = entries["connection"@][0];
    let text = text::text_of(value);
    let visible = forall|k: int|
        0 <= k < value.len() ==> 32 <= #[trigger] value[k] <= 126 || value[k] == 9;
    assert(visible == text::is_visible_text(value)) by {
        if text::is_visible_text(value) {
            assert forall|k: int| 0 <= k < value.len() implies 32 <= #[trigger] value[k] <= 126
                || value[k] == 9 by {
                assert(text::is_visible(value[k]));
            }
        }
    }
    let named = exists|i: int, a: int, b: int, j: int| #[trigger]
        stands_in_list(value, i, a, b, j) && spells(value, a, b, key);
    assert(named == lists(text, key)) by {
        if named {
            let (i, a, b, j) = choose|i: int, a: int, b: int, j: int| #[trigger]
                stands_in_list(value, i, a, b, j) && spells(value, a, b, key);
            lemma_stands_as_item(value, i, a, b, j);
            lemma_spells(value, a, b, key);
            assert(text::is_item(text, i, j) && header_key(text::trim(text.subrange(i, j)))
                == key);
        }
        if lists(text, key) {
            let (i, j) = choose|i: int, j: int| #[trigger]
                text::is_item(text, i, j) && header_key(text::trim(text.subrange(i, j))) == key;
            let (a, b) = lemma_item_stands(value, i, j);
            lemma_spells(value, a, b, key);
            assert(stands_in_list(value, i, a, b, j) && spells(value, a, b, key));
        }
    }
}

/// What `strip_connection_headers` needs: where the first `Connection` value is of visible bytes,
/// nothing that stands in it between commas is longer than a name can be. It is met wherever the
/// whole value is not.
pub proof fn law_short_names_can_be_stripped(entries: Map<Seq<char>, Seq<Seq<u8>>>)
    ensures
        ({
            let value = entries["connection"@][0];
            let visible = forall|k: int|
                0 <= k < value.len() ==> 32 <= #[trigger] value[k] <= 126 || value[k] == 9;
            &&& connection_fits(entries) <==> (entries.contains_key("connection"@) && visible
                ==> forall|i: int, a: int, b: int, j: int| #[trigger]
                stands_in_list(value, i, a, b, j) ==> b - a < 65536)
            &&& value.len() < 65536 ==> connection_fits(entries)
        }),
{
    let value = entries["connection"@][0];
    let text = text::text_of(value);
    let visible = forall|k: int|
        0 <= k < value.len() ==> 32 <= #[trigger] value[k] <= 126 || value[k] == 9;
    assert(visible == text::is_visible_text(value)) by {
        if text::is_visible_text(value) {
            assert forall|k: int| 0 <= k < value.len() implies 32 <= #[trigger] value[k] <= 126
                || value[k] == 9 by {
                assert(text::is_visible(value[k]));
            }
        }
    }
    let short = forall|i: int, a: int, b: int, j: int| #[trigger]
        stands_in_list(value, i, a, b, j) ==> b - a < 65536;
    assert(short == items_fit(text)) by {
        if short {
            assert forall|i: int, j: int| #[trigger] text::is_item(text, i, j) implies text::trim(
                text.subrange(i, j),
            ).len() < MAX_NAME_LEN by {
                let (a, b) = lemma_item_stands(value, i, j);
                assert(stands_in_list(value, i, a, b, j));
            }
        }
        if items_fit(text) {
            assert forall|i: int, a: int, b: int, j: int| #[trigger]
                stands_in_list(value, i, a, b, j) implies b - a < 65536 by {
                lemma_stands_as_item(value, i, a, b, j);
                assert(text::is_item(text, i, j));
            }
        }
    }
}

} // verus!
