use vstd::prelude::*;

verus! {

/// A value of a request body before it is encoded.
///
/// A number is held as the two texts that the caller's floating-point value
/// prints: `text`, its decimal form (`1`, `0.5`, `-3`, `NaN`, `inf`), and
/// `debug`, its debug form (`1.0`, `0.5`, `1e21`).
pub enum BodyDataMap {
    String(String),
    Number { text: String, debug: String },
    Boolean(bool),
    Array(Vec<BodyDataMap>),
    Object(Vec<(String, BodyDataMap)>),
}

/// The upper-case hexadecimal digit of `d`, for `0 <= d < 16`.
pub open spec fn upper_hex(d: int) -> char {
    seq!['0', '1', '2', '3', '4', '5', '6', '7', '8', '9', 'A', 'B', 'C', 'D', 'E', 'F'][d]
}

/// The lower-case hexadecimal digit of `d`, for `0 <= d < 16`.
pub open spec fn lower_hex(d: int) -> char {
    seq!['0', '1', '2', '3', '4', '5', '6', '7', '8', '9', 'a', 'b', 'c', 'd', 'e', 'f'][d]
}

/// A byte written as `%XX`.
pub open spec fn percent(b: int) -> Seq<char> {
    seq!['%', upper_hex(b / 16), upper_hex(b % 16)]
}

/// The UTF-8 bytes of a character, each `%XX`.
pub open spec fn percent_utf8(c: char) -> Seq<char> {
    let n = c as int;
    if n < 0x80 {
        percent(n)
    } else if n < 0x800 {
        percent(0xC0 + n / 64) + percent(0x80 + n % 64)
    } else if n < 0x10000 {
        percent(0xE0 + n / 4096) + percent(0x80 + (n / 64) % 64) + percent(0x80 + n % 64)
    } else {
        percent(0xF0 + n / 262144) + percent(0x80 + (n / 4096) % 64) + percent(
            0x80 + (n / 64) % 64,
        ) + percent(0x80 + n % 64)
    }
}

/// What URL encoding makes of a text: each unreserved character kept, each
/// other one as the `%XX` of its UTF-8 bytes.
pub open spec fn url_encoded(s: Seq<char>) -> Seq<char>
    decreases s.len(),
{
    if s.len() == 0 {
        Seq::empty()
    } else {
        url_encoded(s.drop_last()) + if is_unreserved(s.last()) {
            seq![s.last()]
        } else {
            percent_utf8(s.last())
        }
    }
}

/// One character inside a JSON string: `"` and `\` and the control
/// characters escaped, short forms where JSON has them.
pub open spec fn json_char(c: char) -> Seq<char> {
    let n = c as int;
    if c == '"' {
        seq!['\\', '"']
    } else if c == '\\' {
        seq!['\\', '\\']
    } else if n == 0x08 {
        seq!['\\', 'b']
    } else if n == 0x09 {
        seq!['\\', 't']
    } else if n == 0x0A {
        seq!['\\', 'n']
    } else if n == 0x0C {
        seq!['\\', 'f']
    } else if n == 0x0D {
        seq!['\\', 'r']
    } else if n < 0x20 {
        seq!['\\', 'u', '0', '0', lower_hex(n / 16), lower_hex(n % 16)]
    } else {
        seq![c]
    }
}

/// The escaped characters of a JSON string, without the quotes.
pub open spec fn json_chars(s: Seq<char>) -> Seq<char>
    decreases s.len(),
{
    if s.len() == 0 {
        Seq::empty()
    } else {
        json_chars(s.drop_last()) + json_char(s.last())
    }
}

/// A text as a JSON string: quoted, with its characters escaped.
pub open spec fn json_string(s: Seq<char>) -> Seq<char> {
    seq!['"'] + json_chars(s) + seq!['"']
}

/// What `Debug` writes for a string: the text quoted and escaped.
pub uninterp spec fn debug_string(s: Seq<char>) -> Seq<char>;

/// A character that URL encoding leaves as it is.
pub open spec fn is_unreserved(c: char) -> bool {
    ('a' <= c <= 'z') || ('A' <= c <= 'Z') || ('0' <= c <= '9') || c == '-' || c == '_' || c
        == '.' || c == '~'
}

/// Relies on `urlencoding::encode`: every UTF-8 byte but the alphanumerics
/// and `-`, `_`, `.`, `~` written as `%XX` in upper-case hexadecimal.
#[verifier::external_body]
pub(crate) fn url_encode(s: &str) -> (r: String)
    ensures
        r@ == url_encoded(s@),
{
    urlencoding::encode(s).into_owned()
}

#[verifier::external_type_specification]
#[verifier::external_body]
pub struct ExJsonError(serde_json::Error);

/// Relies on `serde_json::to_string` on a `str`: it writes the quoted
/// string, escaping `"`, `\` and the control characters, and fails only for
/// a value whose `Serialize` fails or for a map with keys that are not
/// strings, which a `str` is not.
#[verifier::external_body]
pub(crate) fn json_quote(s: &str) -> (r: Result<String, serde_json::Error>)
    ensures
        r is Ok,
        r is Ok ==> r->Ok_0@ == json_string(s@),
{
    serde_json::to_string(s)
}

/// Relies on `Debug` for `str` (`format!("{:?}", s)`): the quoted, escaped
/// text, which depends on the text alone.
#[verifier::external_body]
pub(crate) fn debug_quote(s: &str) -> (r: String)
    ensures
        r@ == debug_string(s@),
{
    format!("{:?}", s)
}

/// `true` or `false`.
pub open spec fn bool_text(b: bool) -> Seq<char> {
    if b {
        "true"@
    } else {
        "false"@
    }
}

/// The debug dump of a value: `String("a")`, `Number(1.0)`, `Boolean(true)`,
/// `Array([...])`, `Map({"k": ...})`.
pub open spec fn dump_of(v: BodyDataMap) -> Seq<char>
    decreases v,
{
    match v {
        BodyDataMap::String(s) => "String("@ + debug_string(s@) + ")"@,
        BodyDataMap::Number { debug, .. } => "Number("@ + debug@ + ")"@,
        BodyDataMap::Boolean(b) => "Boolean("@ + bool_text(b) + ")"@,
        BodyDataMap::Array(a) => "Array(["@ + dump_list(a@) + "])"@,
        BodyDataMap::Object(m) => "Map({"@ + dump_entries(m@) + "})"@,
    }
}

/// The dumps of `items`, joined by `, `.
pub open spec fn dump_list(items: Seq<BodyDataMap>) -> Seq<char>
    decreases items,
{
    if items.len() == 0 {
        Seq::empty()
    } else if items.len() == 1 {
        dump_of(items[0])
    } else {
        dump_list(items.drop_last()) + ", "@ + dump_of(items.last())
    }
}

/// The entries of a map as `"key": dump`, joined by `, `.
pub open spec fn dump_entries(entries: Seq<(String, BodyDataMap)>) -> Seq<char>
    decreases entries,
{
    if entries.len() == 0 {
        Seq::empty()
    } else if entries.len() == 1 {
        debug_string(entries[0].0@) + ": "@ + dump_of(entries[0].1)
    } else {
        dump_entries(entries.drop_last()) + ", "@ + debug_string(entries.last().0@) + ": "@
            + dump_of(entries.last().1)
    }
}

/// The text of a value in a form-encoded body: a string as it is, a number
/// as its decimal text, a boolean as `true` or `false`, an array as
/// `[dump, ...]` and an object as `{"key": dump, ...}`.
pub open spec fn text_of(v: BodyDataMap) -> Seq<char> {
    match v {
        BodyDataMap::String(s) => s@,
        BodyDataMap::Number { text, .. } => text@,
        BodyDataMap::Boolean(b) => bool_text(b),
        BodyDataMap::Array(a) => "["@ + dump_list(a@) + "]"@,
        BodyDataMap::Object(m) => "{"@ + dump_entries(m@) + "}"@,
    }
}

/// A number text that has no JSON form: not a number, or infinite.
pub open spec fn is_non_finite(t: Seq<char>) -> bool {
    t == "NaN"@ || t == "inf"@ || t == "-inf"@
}

/// The JSON text of a number: its decimal text, or `null` where it is not
/// finite.
pub open spec fn json_number(t: Seq<char>) -> Seq<char> {
    if is_non_finite(t) {
        "null"@
    } else {
        t
    }
}

/// The compact JSON text of a value.
pub open spec fn json_of(v: BodyDataMap) -> Seq<char>
    decreases v,
{
    match v {
        BodyDataMap::String(s) => json_string(s@),
        BodyDataMap::Number { text, .. } => json_number(text@),
        BodyDataMap::Boolean(b) => bool_text(b),
        BodyDataMap::Array(a) => "["@ + json_list(a@) + "]"@,
        BodyDataMap::Object(m) => "{"@ + json_entries(m@) + "}"@,
    }
}

/// The JSON texts of `items`, joined by `,`.
pub open spec fn json_list(items: Seq<BodyDataMap>) -> Seq<char>
    decreases items,
{
    if items.len() == 0 {
        Seq::empty()
    } else if items.len() == 1 {
        json_of(items[0])
    } else {
        json_list(items.drop_last()) + ","@ + json_of(items.last())
    }
}

/// The entries of an object as `"key":value`, joined by `,`.
pub open spec fn json_entries(entries: Seq<(String, BodyDataMap)>) -> Seq<char>
    decreases entries,
{
    if entries.len() == 0 {
        Seq::empty()
    } else if entries.len() == 1 {
        json_string(entries[0].0@) + ":"@ + json_of(entries[0].1)
    } else {
        json_entries(entries.drop_last()) + ","@ + json_string(entries.last().0@) + ":"@
            + json_of(entries.last().1)
    }
}

/// A decimal digit.
pub open spec fn is_digit(c: char) -> bool {
    '0' <= c <= '9'
}

/// The characters of `t` from `start` on are a decimal: digits with at most
/// one `.`, a digit first and a digit last.
pub open spec fn is_decimal_from(t: Seq<char>, start: int) -> bool {
    &&& 0 <= start < t.len()
    &&& is_digit(t[start])
    &&& is_digit(t.last())
    &&& forall|i: int| start <= i < t.len() ==> is_digit(#[trigger] t[i]) || t[i] == '.'
    &&& forall|i: int, j: int|
        #![trigger t[i], t[j]]
        start <= i < t.len() && start <= j < t.len() && t[i] == '.' && t[j] == '.' ==> i == j
}

/// The length of a leading minus sign: 1 or 0.
pub open spec fn sign_len(t: Seq<char>) -> int {
    if t.len() > 0 && t[0] == '-' {
        1
    } else {
        0
    }
}

/// The decimal text of a number: an optional `-` and a decimal, or `NaN`,
/// `inf`, `-inf`.
pub open spec fn is_number_text(t: Seq<char>) -> bool {
    is_non_finite(t) || is_decimal_from(t, sign_len(t))
}

/// Every number in the value has a valid decimal text.
pub open spec fn is_valid(v: BodyDataMap) -> bool
    decreases v,
{
    match v {
        BodyDataMap::Number { text, .. } => is_number_text(text@),
        BodyDataMap::Array(a) => valid_list(a@),
        BodyDataMap::Object(m) => valid_entries(m@),
        _ => true,
    }
}

/// Every item of `items` is valid.
pub open spec fn valid_list(items: Seq<BodyDataMap>) -> bool
    decreases items,
{
    if items.len() == 0 {
        true
    } else {
        valid_list(items.drop_last()) && is_valid(items.last())
    }
}

/// Every value of `entries` is valid.
pub open spec fn valid_entries(entries: Seq<(String, BodyDataMap)>) -> bool
    decreases entries,
{
    if entries.len() == 0 {
        true
    } else {
        valid_entries(entries.drop_last()) && is_valid(entries.last().1)
    }
}

/// A list is valid where each of its items is.
pub proof fn lemma_valid_list(items: Seq<BodyDataMap>)
    ensures
        valid_list(items) <==> forall|i: int| 0 <= i < items.len() ==> is_valid(#[trigger] items[i]),
    decreases items.len(),
{
    if items.len() > 0 {
        let d = items.drop_last();
        lemma_valid_list(d);
        if forall|i: int| 0 <= i < items.len() ==> is_valid(#[trigger] items[i]) {
            assert forall|i: int| 0 <= i < d.len() implies is_valid(#[trigger] d[i]) by {
                assert(d[i] == items[i]);
            }
            assert(is_valid(items[items.len() - 1]));
        }
        if valid_list(items) {
            assert forall|i: int| 0 <= i < items.len() implies is_valid(#[trigger] items[i]) by {
                if i < d.len() {
                    assert(d[i] == items[i]);
                }
            }
        }
    }
}

/// The entries of an object are valid where each of their values is.
pub proof fn lemma_valid_entries(entries: Seq<(String, BodyDataMap)>)
    ensures
        valid_entries(entries) <==> forall|i: int|
            0 <= i < entries.len() ==> is_valid(#[trigger] entries[i].1),
    decreases entries.len(),
{
    if entries.len() > 0 {
        let d = entries.drop_last();
        lemma_valid_entries(d);
        if forall|i: int| 0 <= i < entries.len() ==> is_valid(#[trigger] entries[i].1) {
            assert forall|i: int| 0 <= i < d.len() implies is_valid(#[trigger] d[i].1) by {
                assert(d[i] == entries[i]);
            }
            assert(is_valid(entries[entries.len() - 1].1));
        }
        if valid_entries(entries) {
            assert forall|i: int| 0 <= i < entries.len() implies is_valid(
                #[trigger] entries[i].1,
            ) by {
                if i < d.len() {
                    assert(d[i] == entries[i]);
                }
            }
        }
    }
}

/// The debug dumps of `items`, joined by `, `.
fn dump_items(items: &Vec<BodyDataMap>) -> (r: String)
    ensures
        r@ == dump_list(items@),
    decreases items, 0nat,
{
    let mut r = String::new();
    let mut i: usize = 0;
    while i < items.len()
        invariant
            i <= items.len(),
            r@ == dump_list(items@.take(i as int)),
        decreases items.len() - i,
    {
        proof {
            assert(items@.take(i + 1).drop_last() =~= items@.take(i as int));
            reveal_strlit(", ");
        }
        if i > 0 {
            r.append(", ");
        }
        assert(decreases_to!(items => items[i as int]));
        let d = items[i].dump();
        r.append(d.as_str());
        i = i + 1;
    }
    assert(items@.take(items.len() as int) =~= items@);
    r
}

/// The debug dumps of an object's entries, `"key": dump`, joined by `, `.
fn dump_object(entries: &Vec<(String, BodyDataMap)>) -> (r: String)
    ensures
        r@ == dump_entries(entries@),
    decreases entries, 0nat,
{
    let mut r = String::new();
    let mut i: usize = 0;
    while i < entries.len()
        invariant
            i <= entries.len(),
            r@ == dump_entries(entries@.take(i as int)),
        decreases entries.len() - i,
    {
        proof {
            assert(entries@.take(i + 1).drop_last() =~= entries@.take(i as int));
            reveal_strlit(", ");
            reveal_strlit(": ");
        }
        if i > 0 {
            r.append(", ");
        }
        let k = debug_quote(entries[i].0.as_str());
        r.append(k.as_str());
        r.append(": ");
        assert(decreases_to!(entries => entries[i as int].1));
        let d = entries[i].1.dump();
        r.append(d.as_str());
        i = i + 1;
    }
    assert(entries@.take(entries.len() as int) =~= entries@);
    r
}

impl BodyDataMap {
    /// The debug dump of this value.
    pub fn dump(&self) -> (r: String)
        ensures
            r@ == dump_of(*self),
        decreases *self, 1nat,
    {
        match self {
            BodyDataMap::String(s) => {
                let q = debug_quote(s.as_str());
                String::from_str("String(").concat(q.as_str()).concat(")")
            },
            BodyDataMap::Number { debug, .. } => {
                String::from_str("Number(").concat(debug.as_str()).concat(")")
            },
            BodyDataMap::Boolean(b) => {
                String::from_str("Boolean(").concat(bool_str(*b)).concat(")")
            },
            BodyDataMap::Array(a) => {
                let inner = dump_items(a);
                String::from_str("Array([").concat(inner.as_str()).concat("])")
            },
            BodyDataMap::Object(m) => {
                let inner = dump_object(m);
                String::from_str("Map({").concat(inner.as_str()).concat("})")
            },
        }
    }

    /// The text of this value in a form-encoded body.
    pub fn to_string(&self) -> (r: String)
        ensures
            r@ == text_of(*self),
    {
        match self {
            BodyDataMap::String(s) => s.clone(),
            BodyDataMap::Number { text, .. } => text.clone(),
            BodyDataMap::Boolean(b) => String::from_str(bool_str(*b)),
            BodyDataMap::Array(a) => {
                let inner = dump_items(a);
                String::from_str("[").concat(inner.as_str()).concat("]")
            },
            BodyDataMap::Object(m) => {
                let inner = dump_object(m);
                String::from_str("{").concat(inner.as_str()).concat("}")
            },
        }
    }
}

/// `true` or `false` as a literal.
fn bool_str(b: bool) -> (r: &'static str)
    ensures
        r@ == bool_text(b),
{
    if b {
        "true"
    } else {
        "false"
    }
}

/// The quoted JSON string of `s`.
fn json_str(s: &str) -> (r: String)
    ensures
        r@ == json_string(s@),
{
    json_quote(s).unwrap()
}

/// Whether a number text has no JSON form.
fn non_finite(t: &String) -> (r: bool)
    ensures
        r == is_non_finite(t@),
{
    *t == String::from_str("NaN") || *t == String::from_str("inf") || *t == String::from_str(
        "-inf",
    )
}

/// Whether the characters of `t` from `start` on are a decimal.
fn decimal_from(t: &str, start: usize) -> (r: bool)
    requires
        start <= t@.len(),
    ensures
        r == is_decimal_from(t@, start as int),
{
    let n = t.unicode_len();
    if start >= n {
        return false;
    }
    let mut seen_dot = false;
    let ghost mut dot: int = 0;
    let mut i: usize = start;
    while i < n
        invariant
            n == t@.len(),
            start <= i <= n,
            forall|k: int| start <= k < i ==> is_digit(#[trigger] t@[k]) || t@[k] == '.',
            seen_dot ==> start <= dot < i && t@[dot] == '.',
            forall|k: int| start <= k < i && #[trigger] t@[k] == '.' ==> seen_dot && k == dot,
        decreases n - i,
    {
        let c = t.get_char(i);
        if c == '.' {
            if seen_dot {
                assert(t@[dot] == '.' && t@[i as int] == '.');
                return false;
            }
            seen_dot = true;
            proof {
                dot = i as int;
            }
        } else if !('0' <= c && c <= '9') {
            return false;
        }
        i = i + 1;
    }
    let first = t.get_char(start);
    let last = t.get_char(n - 1);
    '0' <= first && first <= '9' && '0' <= last && last <= '9'
}

/// Whether `t` is the decimal text of a number.
fn number_text(t: &String) -> (r: bool)
    ensures
        r == is_number_text(t@),
{
    if non_finite(t) {
        return true;
    }
    let s = t.as_str();
    let n = s.unicode_len();
    if n > 0 && s.get_char(0) == '-' {
        decimal_from(s, 1)
    } else {
        decimal_from(s, 0)
    }
}

/// The JSON texts of `items`, joined by `,`, where every item is valid.
fn json_items(items: &Vec<BodyDataMap>) -> (r: Option<String>)
    ensures
        r is Some <==> valid_list(items@),
        r is Some ==> r->0@ == json_list(items@),
    decreases items, 0nat,
{
    proof {
        lemma_valid_list(items@);
    }
    let mut r = String::new();
    let mut i: usize = 0;
    while i < items.len()
        invariant
            i <= items.len(),
            forall|k: int| 0 <= k < i ==> is_valid(#[trigger] items@[k]),
            r@ == json_list(items@.take(i as int)),
            valid_list(items@) <==> forall|k: int|
                0 <= k < items@.len() ==> is_valid(#[trigger] items@[k]),
        decreases items.len() - i,
    {
        proof {
            assert(items@.take(i + 1).drop_last() =~= items@.take(i as int));
        }
        if i > 0 {
            r.append(",");
        }
        assert(decreases_to!(items => items[i as int]));
        match items[i].to_json() {
            Some(d) => r.append(d.as_str()),
            None => return None,
        }
        i = i + 1;
    }
    assert(items@.take(items.len() as int) =~= items@);
    Some(r)
}

/// The JSON entries of an object, `"key":value`, joined by `,`, where every
/// value is valid.
pub fn json_object(entries: &Vec<(String, BodyDataMap)>) -> (r: Option<String>)
    ensures
        r is Some <==> valid_entries(entries@),
        r is Some ==> r->0@ == json_entries(entries@),
    decreases entries, 0nat,
{
    proof {
        lemma_valid_entries(entries@);
    }
    let mut r = String::new();
    let mut i: usize = 0;
    while i < entries.len()
        invariant
            i <= entries.len(),
            forall|k: int| 0 <= k < i ==> is_valid(#[trigger] entries@[k].1),
            r@ == json_entries(entries@.take(i as int)),
            valid_entries(entries@) <==> forall|k: int|
                0 <= k < entries@.len() ==> is_valid(#[trigger] entries@[k].1),
        decreases entries.len() - i,
    {
        proof {
            assert(entries@.take(i + 1).drop_last() =~= entries@.take(i as int));
        }
        if i > 0 {
            r.append(",");
        }
        let k = json_str(entries[i].0.as_str());
        r.append(k.as_str());
        r.append(":");
        assert(decreases_to!(entries => entries[i as int].1));
        match entries[i].1.to_json() {
            Some(d) => r.append(d.as_str()),
            None => return None,
        }
        i = i + 1;
    }
    assert(entries@.take(entries.len() as int) =~= entries@);
    Some(r)
}

impl BodyDataMap {
    /// The compact JSON text of this value, where every number in it has a
    /// valid decimal text.
    pub fn to_json(&self) -> (r: Option<String>)
        ensures
            r is Some <==> is_valid(*self),
            r is Some ==> r->0@ == json_of(*self),
        decreases *self, 1nat,
    {
        match self {
            BodyDataMap::String(s) => Some(json_str(s.as_str())),
            BodyDataMap::Number { text, .. } => {
                if !number_text(text) {
                    None
                } else if non_finite(text) {
                    Some(String::from_str("null"))
                } else {
                    Some(text.clone())
                }
            },
            BodyDataMap::Boolean(b) => Some(String::from_str(bool_str(*b))),
            BodyDataMap::Array(a) => match json_items(a) {
                Some(inner) => Some(String::from_str("[").concat(inner.as_str()).concat("]")),
                None => None,
            },
            BodyDataMap::Object(m) => match json_object(m) {
                Some(inner) => Some(String::from_str("{").concat(inner.as_str()).concat("}")),
                None => None,
            },
        }
    }
}

} // verus!
