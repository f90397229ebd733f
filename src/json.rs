use vstd::prelude::*;
use crate::text::{chars_of, push_char};

verus! {

/// The mathematical shape of a scene document: what a parsed value holds,
/// with strings and number lexemes as character sequences.
pub enum JsonModel {
    Null,
    Number(Seq<char>),
    Boolean(bool),
    Text(Seq<char>),
    Array(Seq<JsonModel>),
    Object(Seq<(Seq<char>, JsonModel)>),
}

/// A parsed value of a scene document. A number keeps its lexeme, which is
/// always a valid decimal literal (an optional sign, digits, at most one point).
#[derive(Debug, PartialEq)]
pub enum JsonValue {
    Null,
    Number(String),
    Boolean(bool),
    String(String),
    Array(Vec<JsonValue>),
    Object(Vec<(String, JsonValue)>),
}

pub open spec fn json_view(v: JsonValue) -> JsonModel
    decreases v,
{
    match v {
        JsonValue::Null => JsonModel::Null,
        JsonValue::Number(n) => JsonModel::Number(n@),
        JsonValue::Boolean(b) => JsonModel::Boolean(b),
        JsonValue::String(s) => JsonModel::Text(s@),
        JsonValue::Array(items) => JsonModel::Array(
            Seq::new(
                items.len() as nat,
                |i: int|
                    if 0 <= i < items.len() {
                        json_view(items[i])
                    } else {
                        JsonModel::Null
                    },
            ),
        ),
        JsonValue::Object(fields) => JsonModel::Object(
            Seq::new(
                fields.len() as nat,
                |i: int|
                    if 0 <= i < fields.len() {
                        (fields[i].0@, json_view(fields[i].1))
                    } else {
                        (Seq::empty(), JsonModel::Null)
                    },
            ),
        ),
    }
}

pub open spec fn is_ws(c: char) -> bool {
    c == ' ' || c == '\n' || c == '\r' || c == '\t'
}

pub open spec fn is_digit(c: char) -> bool {
    '0' <= c <= '9'
}

/// Characters that may start a number.
pub open spec fn is_number_start(c: char) -> bool {
    is_digit(c) || c == '+' || c == '-'
}

/// Characters that make up a number lexeme.
pub open spec fn is_number_part(c: char) -> bool {
    is_number_start(c) || c == '.'
}

/// Length of the run of whitespace starting at `p`.
pub open spec fn ws_run(s: Seq<char>, p: int) -> nat
    decreases s.len() - p,
{
    if 0 <= p < s.len() && is_ws(s[p]) {
        1 + ws_run(s, p + 1)
    } else {
        0
    }
}

/// Length of the run of number characters starting at `p`.
pub open spec fn number_run(s: Seq<char>, p: int) -> nat
    decreases s.len() - p,
{
    if 0 <= p < s.len() && is_number_part(s[p]) {
        1 + number_run(s, p + 1)
    } else {
        0
    }
}

/// Length of the run of characters other than a double quote starting at `p`.
pub open spec fn text_run(s: Seq<char>, p: int) -> nat
    decreases s.len() - p,
{
    if 0 <= p < s.len() && s[p] != '"' {
        1 + text_run(s, p + 1)
    } else {
        0
    }
}

/// How many of `n` characters are left to step over from `p`.
pub open spec fn span(s: Seq<char>, p: int, n: nat) -> nat {
    if p + n <= s.len() {
        n
    } else if p <= s.len() {
        (s.len() - p) as nat
    } else {
        0
    }
}

/// A lexeme without its sign, if it has one.
pub open spec fn unsigned_part(t: Seq<char>) -> Seq<char> {
    if t.len() > 0 && (t[0] == '+' || t[0] == '-') {
        t.subrange(1, t.len() as int)
    } else {
        t
    }
}

/// A decimal literal: an optional sign, then digits with at most one point,
/// and at least one digit.
pub open spec fn is_float_lexeme(t: Seq<char>) -> bool {
    let body = unsigned_part(t);
    &&& forall|i: int| 0 <= i < body.len() ==> is_digit(#[trigger] body[i]) || body[i] == '.'
    &&& forall|i: int, j: int|
        0 <= i < j < body.len() ==> !(#[trigger] body[i] == '.' && #[trigger] body[j] == '.')
    &&& exists|i: int| 0 <= i < body.len() && is_digit(#[trigger] body[i])
}

/// Adds `d` to the number of consumed characters of a parse outcome.
pub open spec fn shift(r: Option<(JsonModel, nat)>, d: int) -> Option<(JsonModel, nat)> {
    match r {
        Some((m, k)) => Some((m, (k + d) as nat)),
        None => None,
    }
}

/// The text read by a string reader at `p`: the first character is stepped
/// over as the opening quote, the text runs to the next double quote, which
/// is stepped over too. Returns the text and the number of characters read.
pub open spec fn text_at(s: Seq<char>, p: int) -> (Seq<char>, nat) {
    let a = p + span(s, p, 1);
    let e = a + text_run(s, a);
    (s.subrange(a, e), (e + span(s, e, 1) - p) as nat)
}

/// The value that starts at `p`, with the number of characters it spans;
/// `None` where the text at `p` is not a value.
pub open spec fn value_at(s: Seq<char>, p: int) -> Option<(JsonModel, nat)>
    decreases s.len() - p, 0int,
{
    if p < 0 || p >= s.len() {
        None
    } else {
        let c = s[p];
        if c == 't' || c == 'T' {
            Some((JsonModel::Boolean(true), span(s, p, 4)))
        } else if c == 'f' || c == 'F' {
            Some((JsonModel::Boolean(false), span(s, p, 5)))
        } else if c == 'n' || c == 'N' {
            Some((JsonModel::Null, span(s, p, 4)))
        } else if is_number_start(c) {
            let t = s.subrange(p, p + number_run(s, p));
            if is_float_lexeme(t) {
                Some((JsonModel::Number(t), number_run(s, p)))
            } else {
                None
            }
        } else if c == '"' {
            Some((JsonModel::Text(text_at(s, p).0), text_at(s, p).1))
        } else if c == '[' {
            shift(items_at(s, p + 1, Seq::empty()), 1)
        } else if c == '{' {
            shift(fields_at(s, p + 1, Seq::empty()), 1)
        } else {
            None
        }
    }
}

/// The rest of an array whose items so far are `acc`, from `p` on; the count
/// includes the closing bracket.
pub open spec fn items_at(s: Seq<char>, p: int, acc: Seq<JsonModel>) -> Option<(JsonModel, nat)>
    decreases s.len() - p, 1int,
{
    if p < 0 || p >= s.len() {
        None
    } else if s[p] == ']' {
        Some((JsonModel::Array(acc), 1))
    } else {
        let q = p + ws_run(s, p);
        proof {
            lemma_ws_run_bound(s, p);
        }
        match value_at(s, q) {
            None => None,
            Some((v, k)) => {
                let r = q + k + ws_run(s, q + k);
                if r >= s.len() {
                    None
                } else if s[r] == ',' {
                    shift(items_at(s, r + 1, acc.push(v)), r + 1 - p)
                } else if s[r] == ']' {
                    Some((JsonModel::Array(acc.push(v)), (r + 1 - p) as nat))
                } else {
                    None
                }
            },
        }
    }
}

/// The rest of an object whose fields so far are `acc`, from `p` on; the
/// count includes the closing brace.
pub open spec fn fields_at(s: Seq<char>, p: int, acc: Seq<(Seq<char>, JsonModel)>) -> Option<
    (JsonModel, nat),
>
    decreases s.len() - p, 1int,
{
    if p < 0 || p >= s.len() {
        None
    } else if s[p] == '}' {
        Some((JsonModel::Object(acc), 1))
    } else {
        let q = p + ws_run(s, p);
        let name = text_at(s, q).0;
        let b0 = q + text_at(s, q).1;
        let b = b0 + ws_run(s, b0);
        if b >= s.len() || s[b] != ':' {
            None
        } else {
            let d = b + 1 + ws_run(s, b + 1);
            proof {
                lemma_ws_run_bound(s, b + 1);
            }
            match value_at(s, d) {
                None => None,
                Some((v, k)) => {
                    let r = d + k + ws_run(s, d + k);
                    if r >= s.len() {
                        None
                    } else if s[r] == ',' {
                        shift(fields_at(s, r + 1, acc.push((name, v))), r + 1 - p)
                    } else if s[r] == '}' {
                        Some((JsonModel::Object(acc.push((name, v))), (r + 1 - p) as nat))
                    } else {
                        None
                    }
                },
            }
        }
    }
}

/// What a document parses to: after leading whitespace, the first character
/// is stepped over as the opening brace and the fields of an object follow.
pub open spec fn parse_spec(s: Seq<char>) -> Option<JsonModel> {
    let q = ws_run(s, 0) as int;
    match fields_at(s, q + span(s, q, 1), Seq::empty()) {
        Some((m, _)) => Some(m),
        None => None,
    }
}

pub proof fn lemma_ws_run_bound(s: Seq<char>, p: int)
    requires
        0 <= p <= s.len(),
    ensures
        p + ws_run(s, p) <= s.len(),
    decreases s.len() - p,
{
    if p < s.len() && is_ws(s[p]) {
        lemma_ws_run_bound(s, p + 1);
    }
}

/// The models of a list of values, item by item.
pub open spec fn models(v: Seq<JsonValue>) -> Seq<JsonModel> {
    Seq::new(v.len(), |i: int| json_view(v[i]))
}

/// The models of a list of fields, field by field.
pub open spec fn field_models(v: Seq<(String, JsonValue)>) -> Seq<(Seq<char>, JsonModel)> {
    Seq::new(v.len(), |i: int| (v[i].0@, json_view(v[i].1)))
}

/// A reader's outcome: the value read and where the reader stopped.
pub open spec fn outcome(r: Option<JsonValue>, pos: usize) -> Option<(JsonModel, nat)> {
    match r {
        Some(v) => Some((json_view(v), pos as nat)),
        None => None,
    }
}

pub proof fn lemma_array_view(items: Vec<JsonValue>)
    ensures
        json_view(JsonValue::Array(items)) == JsonModel::Array(models(items@)),
{
    let m = json_view(JsonValue::Array(items));
    let sq = m->Array_0;
    assert forall|i: int| 0 <= i < sq.len() implies sq[i] == models(items@)[i] by {}
    assert(sq =~= models(items@));
}

pub proof fn lemma_object_view(fields: Vec<(String, JsonValue)>)
    ensures
        json_view(JsonValue::Object(fields)) == JsonModel::Object(field_models(fields@)),
{
    let m = json_view(JsonValue::Object(fields));
    let sq = m->Object_0;
    assert forall|i: int| 0 <= i < sq.len() implies sq[i] == field_models(fields@)[i] by {}
    assert(sq =~= field_models(fields@));
}

/// A cursor over the characters of a document.
struct StringIterator {
    characters: Vec<char>,
    position: usize,
}

impl StringIterator {
    spec fn text(&self) -> Seq<char> {
        self.characters@
    }

    spec fn wf(&self) -> bool {
        self.position <= self.characters.len()
    }

    fn new(chars: &str) -> (r: StringIterator)
        ensures
            r.text() == chars@,
            r.position == 0,
    {
        StringIterator { characters: chars_of(chars), position: 0 }
    }

    fn peek(&self) -> (r: Option<char>)
        requires
            self.wf(),
        ensures
            r == (if self.position < self.text().len() {
                Some(self.text()[self.position as int])
            } else {
                None
            }),
    {
        if self.position >= self.characters.len() {
            return None;
        }
        Some(self.characters[self.position])
    }

    fn next(&mut self) -> (r: Option<char>)
        requires
            old(self).wf(),
        ensures
            final(self).wf(),
            final(self).text() == old(self).text(),
            final(self).position == old(self).position + span(
                old(self).text(),
                old(self).position as int,
                1,
            ),
            r == (if old(self).position < old(self).text().len() {
                Some(old(self).text()[old(self).position as int])
            } else {
                None
            }),
    {
        if self.position >= self.characters.len() {
            return None;
        }
        let result = self.characters[self.position];
        self.position = self.position + 1;
        Some(result)
    }

    /// Steps over up to `n` characters.
    fn skip(&mut self, n: usize)
        requires
            old(self).wf(),
        ensures
            final(self).wf(),
            final(self).text() == old(self).text(),
            final(self).position == old(self).position + span(
                old(self).text(),
                old(self).position as int,
                n as nat,
            ),
    {
        if n <= self.characters.len() - self.position {
            self.position = self.position + n;
        } else {
            self.position = self.characters.len();
        }
    }
}

/// Parses a scene document: an object, after optional leading whitespace.
/// Returns `None` exactly where the text is not such a document.
fn try_parse_json(json: &str) -> (r: Option<JsonValue>)
    ensures
        match parse_spec(json@) {
            Some(m) => r is Some && json_view(r->0) == m,
            None => r is None,
        },
{
    let mut chars = StringIterator::new(json);
    skip_white_spaces(&mut chars);
    proof {
        lemma_ws_run_bound(chars.text(), 0);
    }
    read_object(&mut chars)
}

/// Reads the value at the cursor.
fn read_value(chars: &mut StringIterator) -> (r: Option<JsonValue>)
    requires
        old(chars).wf(),
    ensures
        final(chars).wf(),
        final(chars).text() == old(chars).text(),
        outcome(r, final(chars).position) == shift(
            value_at(old(chars).text(), old(chars).position as int),
            old(chars).position as int,
        ),
    decreases old(chars).text().len() - old(chars).position, 1int,
{
    match chars.peek() {
        None => None,
        Some(c) => {
            if is_bool_char(&c) {
                read_bool(chars)
            } else if is_null_char(&c) {
                read_null(chars)
            } else if is_number_char(&c) {
                read_number(chars)
            } else if is_string_char(&c) {
                read_string(chars)
            } else if is_array_char(&c) {
                read_array(chars)
            } else if is_object_char(&c) {
                read_object(chars)
            } else {
                None
            }
        },
    }
}

fn read_bool(chars: &mut StringIterator) -> (r: Option<JsonValue>)
    requires
        old(chars).wf(),
        old(chars).position < old(chars).text().len(),
        ({
            let c = old(chars).text()[old(chars).position as int];
            c == 't' || c == 'T' || c == 'f' || c == 'F'
        }),
    ensures
        final(chars).wf(),
        final(chars).text() == old(chars).text(),
        outcome(r, final(chars).position) == shift(
            value_at(old(chars).text(), old(chars).position as int),
            old(chars).position as int,
        ),
{
    let c = chars.characters[chars.position];
    if c == 't' || c == 'T' {
        chars.skip(4);
        Some(JsonValue::Boolean(true))
    } else {
        chars.skip(5);
        Some(JsonValue::Boolean(false))
    }
}

fn read_null(chars: &mut StringIterator) -> (r: Option<JsonValue>)
    requires
        old(chars).wf(),
        old(chars).position < old(chars).text().len(),
        ({
            let c = old(chars).text()[old(chars).position as int];
            (c == 'n' || c == 'N') && !(c == 't' || c == 'T' || c == 'f' || c == 'F')
        }),
    ensures
        final(chars).wf(),
        final(chars).text() == old(chars).text(),
        outcome(r, final(chars).position) == shift(
            value_at(old(chars).text(), old(chars).position as int),
            old(chars).position as int,
        ),
{
    chars.skip(4);
    Some(JsonValue::Null)
}

/// Whether `c[start..end]` is a decimal literal.
fn is_float_lexeme_at(c: &Vec<char>, start: usize, end: usize) -> (r: bool)
    requires
        start <= end <= c.len(),
    ensures
        r == is_float_lexeme(c@.subrange(start as int, end as int)),
{
    let ghost t = c@.subrange(start as int, end as int);
    let mut i: usize = start;
    if i < end && (c[i] == '+' || c[i] == '-') {
        i = i + 1;
    }
    let b: usize = i;
    let ghost body = c@.subrange(b as int, end as int);
    assert(body =~= unsigned_part(t));
    let mut dot = false;
    let mut digit = false;
    while i < end
        invariant
            start <= b <= i <= end <= c.len(),
            t == c@.subrange(start as int, end as int),
            body == c@.subrange(b as int, end as int),
            body == unsigned_part(t),
            forall|j: int| 0 <= j < i - b ==> is_digit(#[trigger] body[j]) || body[j] == '.',
            forall|j: int, k: int|
                0 <= j < k < i - b ==> !(#[trigger] body[j] == '.' && #[trigger] body[k] == '.'),
            dot <==> exists|j: int| 0 <= j < i - b && #[trigger] body[j] == '.',
            digit <==> exists|j: int| 0 <= j < i - b && is_digit(#[trigger] body[j]),
        decreases end - i,
    {
        let ch = c[i];
        let ghost j = i - b;
        assert(body[j] == ch);
        if '0' <= ch && ch <= '9' {
            digit = true;
        } else if ch == '.' {
            if dot {
                let ghost k = choose|k: int| 0 <= k < i - b && #[trigger] body[k] == '.';
                assert(!(body[k] == '.' && body[j] == '.') ==> false);
                return false;
            }
            dot = true;
        } else {
            assert(!(is_digit(body[j]) || body[j] == '.'));
            return false;
        }
        i = i + 1;
    }
    digit
}

fn read_number(chars: &mut StringIterator) -> (r: Option<JsonValue>)
    requires
        old(chars).wf(),
        old(chars).position < old(chars).text().len(),
        ({
            let c = old(chars).text()[old(chars).position as int];
            is_number_start(c) && !(c == 't' || c == 'T' || c == 'f' || c == 'F' || c == 'n'
                || c == 'N')
        }),
    ensures
        final(chars).wf(),
        final(chars).text() == old(chars).text(),
        outcome(r, final(chars).position) == shift(
            value_at(old(chars).text(), old(chars).position as int),
            old(chars).position as int,
        ),
{
    let ghost s = chars.text();
    let start = chars.position;
    let mut number = String::new();
    loop
        invariant
            chars.wf(),
            chars.text() == s,
            s == old(chars).text(),
            start == old(chars).position,
            start <= chars.position,
            start + number_run(s, start as int) == chars.position + number_run(
                s,
                chars.position as int,
            ),
            number@ == s.subrange(start as int, chars.position as int),
        ensures
            number_run(s, chars.position as int) == 0,
        decreases s.len() - chars.position,
    {
        match chars.peek() {
            Some(c) => {
                if !(is_number_char(&c) || c == '.') {
                    break;
                }
                push_char(&mut number, c);
                chars.next();
                assert(number@ =~= s.subrange(start as int, chars.position as int));
            },
            None => {
                break;
            },
        }
    }
    if is_float_lexeme_at(&chars.characters, start, chars.position) {
        Some(JsonValue::Number(number))
    } else {
        None
    }
}

/// Reads a quoted text: steps over the opening quote, takes the characters
/// up to the next double quote, steps over that.
fn read_text(chars: &mut StringIterator) -> (r: String)
    requires
        old(chars).wf(),
    ensures
        final(chars).wf(),
        final(chars).text() == old(chars).text(),
        r@ == text_at(old(chars).text(), old(chars).position as int).0,
        final(chars).position == old(chars).position + text_at(
            old(chars).text(),
            old(chars).position as int,
        ).1,
{
    let ghost s = chars.text();
    let ghost p0 = chars.position as int;
    chars.next();
    let start = chars.position;
    let mut result = String::new();
    loop
        invariant
            chars.wf(),
            chars.text() == s,
            s == old(chars).text(),
            start == old(chars).position + span(s, old(chars).position as int, 1),
            start <= chars.position,
            start + text_run(s, start as int) == chars.position + text_run(
                s,
                chars.position as int,
            ),
            result@ == s.subrange(start as int, chars.position as int),
        ensures
            text_run(s, chars.position as int) == 0,
        decreases s.len() - chars.position,
    {
        match chars.peek() {
            Some(c) => {
                if c == '"' {
                    break;
                }
                push_char(&mut result, c);
                chars.next();
                assert(result@ =~= s.subrange(start as int, chars.position as int));
            },
            None => {
                break;
            },
        }
    }
    chars.next();
    result
}

fn read_string(chars: &mut StringIterator) -> (r: Option<JsonValue>)
    requires
        old(chars).wf(),
        old(chars).position < old(chars).text().len(),
        old(chars).text()[old(chars).position as int] == '"',
    ensures
        final(chars).wf(),
        final(chars).text() == old(chars).text(),
        outcome(r, final(chars).position) == shift(
            value_at(old(chars).text(), old(chars).position as int),
            old(chars).position as int,
        ),
{
    Some(JsonValue::String(read_text(chars)))
}

fn read_array(chars: &mut StringIterator) -> (r: Option<JsonValue>)
    requires
        old(chars).wf(),
        old(chars).position < old(chars).text().len(),
        old(chars).text()[old(chars).position as int] == '[',
    ensures
        final(chars).wf(),
        final(chars).text() == old(chars).text(),
        outcome(r, final(chars).position) == shift(
            value_at(old(chars).text(), old(chars).position as int),
            old(chars).position as int,
        ),
    decreases old(chars).text().len() - old(chars).position, 0int,
{
    let ghost s = chars.text();
    let ghost p0 = chars.position as int;
    chars.next();
    let mut values: Vec<JsonValue> = Vec::new();
    assert(models(values@) =~= Seq::empty());
    loop
        invariant
            chars.wf(),
            chars.text() == s,
            s == old(chars).text(),
            p0 == old(chars).position,
            p0 < s.len(),
            s[p0] == '[',
            p0 < chars.position,
            shift(items_at(s, p0 + 1, Seq::empty()), p0 + 1) == shift(
                items_at(s, chars.position as int, models(values@)),
                chars.position as int,
            ),
        decreases s.len() - chars.position,
    {
        let ghost p = chars.position as int;
        match chars.peek() {
            None => {
                return None;
            },
            Some(c) => {
                if c == ']' {
                    chars.next();
                    proof {
                        lemma_array_view(values);
                    }
                    return Some(JsonValue::Array(values));
                }
            },
        }
        skip_white_spaces(chars);
        proof {
            lemma_ws_run_bound(s, p);
        }
        let ghost q = chars.position as int;
        let value = read_value(chars);
        match value {
            None => {
                return None;
            },
            Some(v) => {
                let ghost vm = json_view(v);
                let ghost old_values = values@;
                values.push(v);
                assert(models(values@) =~= models(old_values).push(vm));
                skip_white_spaces(chars);
                match chars.peek() {
                    None => {
                        return None;
                    },
                    Some(c) => {
                        if c == ',' {
                            chars.next();
                        } else if c == ']' {
                            chars.next();
                            proof {
                                lemma_array_view(values);
                            }
                            return Some(JsonValue::Array(values));
                        } else {
                            return None;
                        }
                    },
                }
            },
        }
    }
}

fn read_object(chars: &mut StringIterator) -> (r: Option<JsonValue>)
    requires
        old(chars).wf(),
    ensures
        final(chars).wf(),
        final(chars).text() == old(chars).text(),
        outcome(r, final(chars).position) == shift(
            fields_at(
                old(chars).text(),
                old(chars).position + span(old(chars).text(), old(chars).position as int, 1),
                Seq::empty(),
            ),
            old(chars).position + span(old(chars).text(), old(chars).position as int, 1),
        ),
    decreases old(chars).text().len() - old(chars).position, 0int,
{
    let ghost s = chars.text();
    let ghost p0 = chars.position as int;
    chars.next();
    let ghost p1 = chars.position as int;
    let mut values: Vec<(String, JsonValue)> = Vec::new();
    assert(field_models(values@) =~= Seq::empty());
    loop
        invariant
            chars.wf(),
            chars.text() == s,
            s == old(chars).text(),
            p0 == old(chars).position,
            p1 == p0 + span(s, p0, 1),
            p1 <= chars.position,
            p0 < chars.position || chars.position == s.len(),
            shift(fields_at(s, p1, Seq::empty()), p1) == shift(
                fields_at(s, chars.position as int, field_models(values@)),
                chars.position as int,
            ),
        decreases s.len() - chars.position,
    {
        let ghost p = chars.position as int;
        match chars.peek() {
            None => {
                return None;
            },
            Some(c) => {
                if c == '}' {
                    chars.next();
                    proof {
                        lemma_object_view(values);
                    }
                    return Some(JsonValue::Object(values));
                }
            },
        }
        skip_white_spaces(chars);
        let name = read_text(chars);
        skip_white_spaces(chars);
        match chars.peek() {
            None => {
                return None;
            },
            Some(c) => {
                if c != ':' {
                    return None;
                }
            },
        }
        chars.next();
        skip_white_spaces(chars);
        let value = read_value(chars);
        match value {
            None => {
                return None;
            },
            Some(v) => {
                let ghost fm = (name@, json_view(v));
                let ghost old_values = values@;
                values.push((name, v));
                assert(field_models(values@) =~= field_models(old_values).push(fm));
                skip_white_spaces(chars);
                match chars.peek() {
                    None => {
                        return None;
                    },
                    Some(c) => {
                        if c == ',' {
                            chars.next();
                        } else if c == '}' {
                            chars.next();
                            proof {
                                lemma_object_view(values);
                            }
                            return Some(JsonValue::Object(values));
                        } else {
                            return None;
                        }
                    },
                }
            },
        }
    }
}

fn skip_white_spaces(chars: &mut StringIterator)
    requires
        old(chars).wf(),
    ensures
        final(chars).wf(),
        final(chars).text() == old(chars).text(),
        final(chars).position == old(chars).position + ws_run(
            old(chars).text(),
            old(chars).position as int,
        ),
{
    let ghost s = chars.text();
    let ghost p0 = chars.position as int;
    loop
        invariant
            chars.wf(),
            chars.text() == s,
            s == old(chars).text(),
            p0 == old(chars).position,
            p0 <= chars.position,
            p0 + ws_run(s, p0) == chars.position + ws_run(s, chars.position as int),
        decreases s.len() - chars.position,
    {
        match chars.peek() {
            Some(c) => {
                if !is_white_space(&c) {
                    return;
                }
            },
            None => {
                return;
            },
        }
        chars.next();
    }
}

fn is_white_space(c: &char) -> (r: bool)
    ensures
        r == is_ws(*c),
{
    (*c == ' ') || (*c == '\n') || (*c == '\r') || (*c == '\t')
}

fn is_bool_char(c: &char) -> (r: bool)
    ensures
        r == (*c == 'F' || *c == 'f' || *c == 'T' || *c == 't'),
{
    *c == 'F' || *c == 'f' || *c == 'T' || *c == 't'
}

fn is_null_char(c: &char) -> (r: bool)
    ensures
        r == (*c == 'N' || *c == 'n'),
{
    *c == 'N' || *c == 'n'
}

fn is_string_char(c: &char) -> (r: bool)
    ensures
        r == (*c == '"'),
{
    *c == '"'
}

fn is_number_char(c: &char) -> (r: bool)
    ensures
        r == is_number_start(*c),
{
    ('0' <= *c && *c <= '9') || *c == '+' || *c == '-'
}

fn is_array_char(c: &char) -> (r: bool)
    ensures
        r == (*c == '['),
{
    *c == '['
}

fn is_object_char(c: &char) -> (r: bool)
    ensures
        r == (*c == '{'),
{
    *c == '{'
}

/// Whether a text is a scene document that `parse_json` reads.
pub fn is_json_document(json: &str) -> (r: bool)
    ensures
        r == parse_spec(json@) is Some,
{
    try_parse_json(json).is_some()
}

/// Parses a scene document: an object, after optional leading whitespace.
/// Only for text that is such a document (`is_json_document` tells); the
/// result is then always there.
pub fn parse_json(json: &str) -> (r: Option<JsonValue>)
    requires
        parse_spec(json@) is Some,
    ensures
        r is Some && parse_spec(json@) == Some(json_view(r->0)),
{
    try_parse_json(json)
}

} // verus!
