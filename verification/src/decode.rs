//! Reading the fields of a record out of a JSON object, the tolerant way
//! the upstream payloads need, and saying where a value has the wrong shape.

use crate::fields::{find, lookup, Found};
use crate::json::{entries_of, Json, JsonValue, Member};
use crate::text::view_of;
use vstd::prelude::*;
use vstd::string::StringExecFns;

verus! {

/// One step on the way from a value to a part of it.
#[derive(Debug, Clone, PartialEq, Eq)]
pub enum Step {
    /// Into the field of this name.
    Field(String),
    /// Into the element at this index.
    Index(usize),
}

pub enum StepView {
    Field(Seq<char>),
    Index(nat),
}

impl View for Step {
    type V = StepView;

    open spec fn view(&self) -> StepView {
        match self {
            Step::Field(name) => StepView::Field(name@),
            Step::Index(i) => StepView::Index(*i as nat),
        }
    }
}

/// A value does not describe the record it was taken for. The path leads
/// from the value to the part of it that has the wrong shape: of several
/// such parts the one whose field the record lists first, and of the
/// elements of a list the first. It is empty where the value itself has
/// the wrong shape. A field is named by the first of its names.
#[derive(Debug, Clone, PartialEq, Eq)]
pub struct DecodeError {
    pub path: Vec<Step>,
}

impl View for DecodeError {
    type V = Seq<StepView>;

    open spec fn view(&self) -> Seq<StepView> {
        self.path@.map_values(|s: Step| s@)
    }
}

/// The path that ends at the field `name`.
pub open spec fn at(name: Seq<char>) -> Seq<StepView> {
    seq![StepView::Field(name)]
}

/// The path that goes on from the field `name` along `rest`.
pub open spec fn under(name: Seq<char>, rest: Seq<StepView>) -> Seq<StepView> {
    seq![StepView::Field(name)] + rest
}

/// The path that goes on from the element at `index` along `rest`.
pub open spec fn under_index(index: nat, rest: Seq<StepView>) -> Seq<StepView> {
    seq![StepView::Index(index)] + rest
}

/// The view of what decoding a record came to.
pub open spec fn outcome<T: View>(r: Result<T, DecodeError>) -> Result<T::V, Seq<StepView>> {
    match r {
        Ok(v) => Ok(v@),
        Err(e) => Err(e@),
    }
}

/// The view of what decoding an optional record came to.
pub open spec fn optional_outcome<T: View>(r: Result<Option<T>, DecodeError>) -> Result<
    Option<T::V>,
    Seq<StepView>,
> {
    match r {
        Ok(v) => Ok(view_of(v)),
        Err(e) => Err(e@),
    }
}

/// One step as it is written in a path: a field by its name, behind a dot
/// unless it comes first; an index in square brackets.
pub open spec fn written_step(step: StepView, first: bool) -> Seq<char> {
    match step {
        StepView::Field(name) => if first {
            name
        } else {
            "."@ + name
        },
        StepView::Index(i) => "["@ + decimal(i) + "]"@,
    }
}

/// The steps of a path, written one behind the other.
pub open spec fn written_steps(path: Seq<StepView>) -> Seq<char>
    decreases path.len(),
{
    if path.len() == 0 {
        Seq::empty()
    } else {
        written_steps(path.drop_last()) + written_step(path.last(), path.len() == 1)
    }
}

/// A path as it is written: `author.name`, `child_comments[1].id`, and a
/// lone dot for the empty path.
pub open spec fn written_path(path: Seq<StepView>) -> Seq<char> {
    if path.len() == 0 {
        "."@
    } else {
        written_steps(path)
    }
}

impl DecodeError {
    /// Writes the path of the failure.
    pub fn to_text(&self) -> (r: String)
        ensures
            r@ == written_path(self@),
    {
        if self.path.len() == 0 {
            return String::from_str(".");
        }
        let mut out = String::new();
        let mut i: usize = 0;
        proof {
            assert(self@.take(0) =~= Seq::<StepView>::empty());
        }
        while i < self.path.len()
            invariant
                i <= self.path.len(),
                self@.len() == self.path.len(),
                out@ == written_steps(self@.take(i as int)),
            decreases self.path.len() - i,
        {
            proof {
                let now = self@.take(i as int + 1);
                assert(now.drop_last() =~= self@.take(i as int));
                assert(now.last() == self.path@[i as int]@);
            }
            match &self.path[i] {
                Step::Field(name) => {
                    if i > 0 {
                        out.append(".");
                    }
                    out.append(name.as_str());
                    proof {
                        let before = written_steps(self@.take(i as int));
                        if i > 0 {
                            assert(out@ =~= before + ("."@ + name@));
                        }
                    }
                },
                Step::Index(index) => {
                    out.append("[");
                    push_decimal(&mut out, *index as u64);
                    out.append("]");
                    proof {
                        let before = written_steps(self@.take(i as int));
                        assert(out@ =~= before + ("["@ + decimal(*index as nat) + "]"@));
                    }
                },
            }
            i += 1;
        }
        proof {
            assert(self@.take(self.path.len() as int) =~= self@);
        }
        out
    }

    /// The failure of the value itself.
    pub fn here() -> (r: DecodeError)
        ensures
            r@ == Seq::<StepView>::empty(),
    {
        let r = DecodeError { path: Vec::new() };
        assert(r@ =~= Seq::<StepView>::empty());
        r
    }

    /// The failure of the field `name`.
    pub fn at_field(name: &str) -> (r: DecodeError)
        ensures
            r@ == at(name@),
    {
        let mut path: Vec<Step> = Vec::new();
        path.push(Step::Field(String::from_str(name)));
        let r = DecodeError { path };
        assert(r@ =~= at(name@));
        r
    }

    /// The same failure, seen from the record that holds the failing
    /// value in its field `name`.
    pub fn within(self, name: &str) -> (r: DecodeError)
        ensures
            r@ == under(name@, self@),
    {
        let mut path = self.path;
        path.insert(0, Step::Field(String::from_str(name)));
        let r = DecodeError { path };
        assert(r@ =~= under(name@, self@));
        r
    }

    /// The same failure, seen from the list that holds the failing value
    /// at `index`.
    pub fn within_element(self, index: usize) -> (r: DecodeError)
        ensures
            r@ == under_index(index as nat, self@),
    {
        let mut path = self.path;
        path.insert(0, Step::Index(index));
        let r = DecodeError { path };
        assert(r@ =~= under_index(index as nat, self@));
        r
    }
}

/// The decimal digit for `d`, which is below ten.
pub open spec fn digit(d: int) -> char {
    if d == 0 {
        '0'
    } else if d == 1 {
        '1'
    } else if d == 2 {
        '2'
    } else if d == 3 {
        '3'
    } else if d == 4 {
        '4'
    } else if d == 5 {
        '5'
    } else if d == 6 {
        '6'
    } else if d == 7 {
        '7'
    } else if d == 8 {
        '8'
    } else {
        '9'
    }
}

/// `n` in decimal, without leading zeros.
pub open spec fn decimal(n: nat) -> Seq<char>
    decreases n,
{
    if n < 10 {
        seq![digit(n as int)]
    } else {
        decimal(n / 10).push(digit((n % 10) as int))
    }
}

/// `i` in decimal, with a minus sign in front where it is negative.
pub open spec fn signed_decimal(i: int) -> Seq<char> {
    if i < 0 {
        seq!['-'] + decimal((-i) as nat)
    } else {
        decimal(i as nat)
    }
}

fn digit_char(d: u64) -> (r: char)
    requires
        d < 10,
    ensures
        r == digit(d as int),
{
    if d == 0 {
        '0'
    } else if d == 1 {
        '1'
    } else if d == 2 {
        '2'
    } else if d == 3 {
        '3'
    } else if d == 4 {
        '4'
    } else if d == 5 {
        '5'
    } else if d == 6 {
        '6'
    } else if d == 7 {
        '7'
    } else if d == 8 {
        '8'
    } else {
        '9'
    }
}

/// Appends `n` in decimal to `out`.
pub fn push_decimal(out: &mut String, n: u64)
    ensures
        final(out)@ == old(out)@ + decimal(n as nat),
    decreases n,
{
    if n >= 10 {
        push_decimal(out, n / 10);
    }
    out.push(digit_char(n % 10));
    assert(final(out)@ =~= old(out)@ + decimal(n as nat));
}

/// A string field: the text itself, and nothing else will do.
pub open spec fn as_text(v: JsonValue) -> Option<Seq<char>> {
    match v {
        JsonValue::Text(t) => Some(t),
        _ => None,
    }
}

/// What `serde_this_or_that::as_string` makes of what `serde_json` reads
/// from the text `number`. Of the JSON text of a number that is not whole
/// it makes the number as Rust writes it, which need not be that text.
pub uninterp spec fn number_as_text(number: Seq<char>) -> Option<Seq<char>>;

/// `serde_this_or_that::as_string` on what `serde_json` reads from the
/// text.
#[verifier::external_body]
fn number_text(number: &str) -> (r: Option<String>)
    ensures
        view_of(r) == number_as_text(number@),
{
    serde_this_or_that::as_string(&mut serde_json::Deserializer::from_str(number)).ok()
}

/// An identifier, which upstream sends as a string or as a number: text
/// stays as it is, a whole number is written in decimal, any other number
/// as `serde_this_or_that` writes it, a truth value by its word, `null` is
/// the empty string. Arrays and objects are no identifier.
pub open spec fn as_lenient_text(v: JsonValue) -> Option<Seq<char>> {
    match v {
        JsonValue::Null => Some(Seq::empty()),
        JsonValue::Bool(b) => Some(
            if b {
                seq!['t', 'r', 'u', 'e']
            } else {
                seq!['f', 'a', 'l', 's', 'e']
            },
        ),
        JsonValue::Int(i) => Some(signed_decimal(i)),
        JsonValue::Real(t) => number_as_text(t),
        JsonValue::Text(t) => Some(t),
        _ => None,
    }
}

/// An identifier comes out the same whether upstream sends it as a number
/// or as the decimal text of that number.
pub proof fn lemma_number_and_text_normalise_alike(n: int)
    ensures
        as_lenient_text(JsonValue::Int(n)) == as_lenient_text(JsonValue::Text(signed_decimal(n))),
        as_lenient_text(JsonValue::Int(n)) == Some(signed_decimal(n)),
{
}

/// An integer field: a whole number between `low` and `high`.
pub open spec fn as_int_within(v: JsonValue, low: int, high: int) -> Option<int> {
    match v {
        JsonValue::Int(i) => if low <= i <= high {
            Some(i)
        } else {
            None
        },
        _ => None,
    }
}

/// A truth value field.
pub open spec fn as_flag(v: JsonValue) -> Option<bool> {
    match v {
        JsonValue::Bool(b) => Some(b),
        _ => None,
    }
}

/// What was read of the field `name`, or the failure of that field.
pub open spec fn needed<T>(read: Option<T>, name: Seq<char>) -> Result<T, Seq<StepView>> {
    match read {
        Some(v) => Ok(v),
        None => Err(at(name)),
    }
}

/// A string field that defaults to the empty string. It fails where the
/// object is ambiguous about it or holds anything but a string in it.
pub open spec fn text_at(
    entries: Seq<(Seq<char>, JsonValue)>,
    a: Seq<char>,
    b: Seq<char>,
    c: Seq<char>,
) -> Result<Seq<char>, Seq<StepView>> {
    match lookup(entries, a, b, c) {
        Found::Absent => Ok(Seq::empty()),
        Found::Once(v) => needed(as_text(v), a),
        Found::Repeated(_) => Err(at(a)),
    }
}

/// An identifier field that defaults to the empty string.
pub open spec fn lenient_text_at(
    entries: Seq<(Seq<char>, JsonValue)>,
    a: Seq<char>,
    b: Seq<char>,
    c: Seq<char>,
) -> Result<Seq<char>, Seq<StepView>> {
    match lookup(entries, a, b, c) {
        Found::Absent => Ok(Seq::empty()),
        Found::Once(v) => needed(as_lenient_text(v), a),
        Found::Repeated(_) => Err(at(a)),
    }
}

/// An optional string field: absent and `null` both mean "not given".
pub open spec fn optional_text_at(
    entries: Seq<(Seq<char>, JsonValue)>,
    a: Seq<char>,
    b: Seq<char>,
    c: Seq<char>,
) -> Result<Option<Seq<char>>, Seq<StepView>> {
    match lookup(entries, a, b, c) {
        Found::Absent => Ok(None),
        Found::Once(v) => if v is Null {
            Ok(None)
        } else {
            match as_text(v) {
                Some(t) => Ok(Some(t)),
                None => Err(at(a)),
            }
        },
        Found::Repeated(_) => Err(at(a)),
    }
}

/// An integer field between `low` and `high` that defaults to zero.
pub open spec fn int_at(
    entries: Seq<(Seq<char>, JsonValue)>,
    a: Seq<char>,
    b: Seq<char>,
    c: Seq<char>,
    low: int,
    high: int,
) -> Result<int, Seq<StepView>> {
    match lookup(entries, a, b, c) {
        Found::Absent => Ok(0),
        Found::Once(v) => needed(as_int_within(v, low, high), a),
        Found::Repeated(_) => Err(at(a)),
    }
}

/// An optional integer field between `low` and `high`.
pub open spec fn optional_int_at(
    entries: Seq<(Seq<char>, JsonValue)>,
    a: Seq<char>,
    b: Seq<char>,
    c: Seq<char>,
    low: int,
    high: int,
) -> Result<Option<int>, Seq<StepView>> {
    match lookup(entries, a, b, c) {
        Found::Absent => Ok(None),
        Found::Once(v) => if v is Null {
            Ok(None)
        } else {
            match as_int_within(v, low, high) {
                Some(i) => Ok(Some(i)),
                None => Err(at(a)),
            }
        },
        Found::Repeated(_) => Err(at(a)),
    }
}

/// An optional truth value field.
pub open spec fn optional_flag_at(
    entries: Seq<(Seq<char>, JsonValue)>,
    a: Seq<char>,
    b: Seq<char>,
    c: Seq<char>,
) -> Result<Option<bool>, Seq<StepView>> {
    match lookup(entries, a, b, c) {
        Found::Absent => Ok(None),
        Found::Once(v) => if v is Null {
            Ok(None)
        } else {
            match as_flag(v) {
                Some(f) => Ok(Some(f)),
                None => Err(at(a)),
            }
        },
        Found::Repeated(_) => Err(at(a)),
    }
}

/// A field that holds a record and defaults to `default`. Where the
/// record fails, the field leads the path of its failure.
pub open spec fn record_at<T>(
    found: Found<JsonValue>,
    name: Seq<char>,
    default: T,
    decode: spec_fn(JsonValue) -> Result<T, Seq<StepView>>,
) -> Result<T, Seq<StepView>> {
    match found {
        Found::Absent => Ok(default),
        Found::Once(v) => match decode(v) {
            Ok(t) => Ok(t),
            Err(path) => Err(under(name, path)),
        },
        Found::Repeated(_) => Err(at(name)),
    }
}

/// A field that may hold a record: absent and `null` both mean "not given".
pub open spec fn optional_record_at<T>(
    found: Found<JsonValue>,
    name: Seq<char>,
    decode: spec_fn(JsonValue) -> Result<T, Seq<StepView>>,
) -> Result<Option<T>, Seq<StepView>> {
    match found {
        Found::Absent => Ok(None),
        Found::Once(v) => if v is Null {
            Ok(None)
        } else {
            match decode(v) {
                Ok(t) => Ok(Some(t)),
                Err(path) => Err(under(name, path)),
            }
        },
        Found::Repeated(_) => Err(at(name)),
    }
}

/// Reads a string.
pub fn read_text(value: &Json) -> (r: Option<String>)
    ensures
        view_of(r) == as_text(value@),
{
    match value {
        Json::Text(t) => Some(t.clone()),
        _ => None,
    }
}

/// Reads an identifier given as a string or as a number.
pub fn read_lenient_text(value: &Json) -> (r: Option<String>)
    ensures
        view_of(r) == as_lenient_text(value@),
{
    match value {
        Json::Null => Some(String::new()),
        Json::Bool(b) => {
            let mut out = String::new();
            if *b {
                out.push('t');
                out.push('r');
                out.push('u');
                out.push('e');
                assert(out@ =~= seq!['t', 'r', 'u', 'e']);
            } else {
                out.push('f');
                out.push('a');
                out.push('l');
                out.push('s');
                out.push('e');
                assert(out@ =~= seq!['f', 'a', 'l', 's', 'e']);
            }
            Some(out)
        },
        Json::Unsigned(n) => {
            let mut out = String::new();
            push_decimal(&mut out, *n);
            assert(out@ =~= decimal(*n as nat));
            Some(out)
        },
        Json::Signed(n) => {
            let mut out = String::new();
            if *n < 0 {
                out.push('-');
                let size: u64 = if *n == i64::MIN {
                    9223372036854775808u64
                } else {
                    (-*n) as u64
                };
                push_decimal(&mut out, size);
                assert(out@ =~= seq!['-'] + decimal((-*n) as nat));
            } else {
                push_decimal(&mut out, *n as u64);
                assert(out@ =~= decimal(*n as nat));
            }
            Some(out)
        },
        Json::Real(t) => number_text(t.as_str()),
        Json::Text(t) => Some(t.clone()),
        _ => None,
    }
}

/// Reads a whole number that fits in `u64`.
pub fn read_u64(value: &Json) -> (r: Option<u64>)
    ensures
        match r {
            Some(n) => as_int_within(value@, 0, u64::MAX as int) == Some(n as int),
            None => as_int_within(value@, 0, u64::MAX as int) is None,
        },
{
    match value {
        Json::Unsigned(n) => Some(*n),
        Json::Signed(n) => if *n >= 0 {
            Some(*n as u64)
        } else {
            None
        },
        _ => None,
    }
}

/// Reads a whole number that fits in `u32`.
pub fn read_u32(value: &Json) -> (r: Option<u32>)
    ensures
        match r {
            Some(n) => as_int_within(value@, 0, u32::MAX as int) == Some(n as int),
            None => as_int_within(value@, 0, u32::MAX as int) is None,
        },
{
    match read_u64(value) {
        Some(n) => if n <= 0xffff_ffff {
            Some(n as u32)
        } else {
            None
        },
        None => None,
    }
}

/// Reads a whole number that fits in `i64`.
pub fn read_i64(value: &Json) -> (r: Option<i64>)
    ensures
        match r {
            Some(n) => as_int_within(value@, i64::MIN as int, i64::MAX as int) == Some(n as int),
            None => as_int_within(value@, i64::MIN as int, i64::MAX as int) is None,
        },
{
    match value {
        Json::Unsigned(n) => if *n <= 0x7fff_ffff_ffff_ffff {
            Some(*n as i64)
        } else {
            None
        },
        Json::Signed(n) => Some(*n),
        _ => None,
    }
}

/// Reads the string field named `a`, `b` or `c`; the empty string where
/// the object has none.
pub fn text_field(members: &Vec<Member>, a: &str, b: &str, c: &str) -> (r: Result<
    String,
    DecodeError,
>)
    ensures
        outcome(r) == text_at(entries_of(members@), a@, b@, c@),
{
    match find(members, a, b, c) {
        Found::Absent => Ok(String::new()),
        Found::Once(v) => match read_text(v) {
            Some(t) => Ok(t),
            None => Err(DecodeError::at_field(a)),
        },
        Found::Repeated(_) => Err(DecodeError::at_field(a)),
    }
}

/// Reads the identifier field named `a`, `b` or `c`; the empty string
/// where the object has none.
pub fn lenient_text_field(members: &Vec<Member>, a: &str, b: &str, c: &str) -> (r: Result<
    String,
    DecodeError,
>)
    ensures
        outcome(r) == lenient_text_at(entries_of(members@), a@, b@, c@),
{
    match find(members, a, b, c) {
        Found::Absent => Ok(String::new()),
        Found::Once(v) => match read_lenient_text(v) {
            Some(t) => Ok(t),
            None => Err(DecodeError::at_field(a)),
        },
        Found::Repeated(_) => Err(DecodeError::at_field(a)),
    }
}

/// Reads the optional string field named `a`, `b` or `c`.
pub fn optional_text_field(members: &Vec<Member>, a: &str, b: &str, c: &str) -> (r: Result<
    Option<String>,
    DecodeError,
>)
    ensures
        optional_outcome(r) == optional_text_at(entries_of(members@), a@, b@, c@),
{
    match find(members, a, b, c) {
        Found::Absent => Ok(None),
        Found::Once(v) => match v {
            Json::Null => Ok(None),
            _ => match read_text(v) {
                Some(t) => Ok(Some(t)),
                None => Err(DecodeError::at_field(a)),
            },
        },
        Found::Repeated(_) => Err(DecodeError::at_field(a)),
    }
}

/// Reads the count field named `a`, `b` or `c`; zero where the object has none.
pub fn u64_field(members: &Vec<Member>, a: &str, b: &str, c: &str) -> (r: Result<
    u64,
    DecodeError,
>)
    ensures
        match r {
            Ok(n) => int_at(entries_of(members@), a@, b@, c@, 0, u64::MAX as int) == Ok::<
                int,
                Seq<StepView>,
            >(n as int),
            Err(e) => int_at(entries_of(members@), a@, b@, c@, 0, u64::MAX as int) == Err::<
                int,
                Seq<StepView>,
            >(e@),
        },
{
    match find(members, a, b, c) {
        Found::Absent => Ok(0),
        Found::Once(v) => match read_u64(v) {
            Some(n) => Ok(n),
            None => Err(DecodeError::at_field(a)),
        },
        Found::Repeated(_) => Err(DecodeError::at_field(a)),
    }
}

/// Reads the small count field named `a`, `b` or `c`; zero where the
/// object has none.
pub fn u32_field(members: &Vec<Member>, a: &str, b: &str, c: &str) -> (r: Result<
    u32,
    DecodeError,
>)
    ensures
        match r {
            Ok(n) => int_at(entries_of(members@), a@, b@, c@, 0, u32::MAX as int) == Ok::<
                int,
                Seq<StepView>,
            >(n as int),
            Err(e) => int_at(entries_of(members@), a@, b@, c@, 0, u32::MAX as int) == Err::<
                int,
                Seq<StepView>,
            >(e@),
        },
{
    match find(members, a, b, c) {
        Found::Absent => Ok(0),
        Found::Once(v) => match read_u32(v) {
            Some(n) => Ok(n),
            None => Err(DecodeError::at_field(a)),
        },
        Found::Repeated(_) => Err(DecodeError::at_field(a)),
    }
}

/// Reads the time field named `a`, `b` or `c`; zero where the object has none.
pub fn i64_field(members: &Vec<Member>, a: &str, b: &str, c: &str) -> (r: Result<
    i64,
    DecodeError,
>)
    ensures
        match r {
            Ok(n) => int_at(
                entries_of(members@),
                a@,
                b@,
                c@,
                i64::MIN as int,
                i64::MAX as int,
            ) == Ok::<int, Seq<StepView>>(n as int),
            Err(e) => int_at(
                entries_of(members@),
                a@,
                b@,
                c@,
                i64::MIN as int,
                i64::MAX as int,
            ) == Err::<int, Seq<StepView>>(e@),
        },
{
    match find(members, a, b, c) {
        Found::Absent => Ok(0),
        Found::Once(v) => match read_i64(v) {
            Some(n) => Ok(n),
            None => Err(DecodeError::at_field(a)),
        },
        Found::Repeated(_) => Err(DecodeError::at_field(a)),
    }
}

/// The view of an optional time.
pub open spec fn int_view(t: Option<i64>) -> Option<int> {
    match t {
        Some(t) => Some(t as int),
        None => None,
    }
}

/// Reads the optional time field named `a`, `b` or `c`.
pub fn optional_i64_field(members: &Vec<Member>, a: &str, b: &str, c: &str) -> (r: Result<
    Option<i64>,
    DecodeError,
>)
    ensures
        match r {
            Ok(t) => optional_int_at(
                entries_of(members@),
                a@,
                b@,
                c@,
                i64::MIN as int,
                i64::MAX as int,
            ) == Ok::<Option<int>, Seq<StepView>>(int_view(t)),
            Err(e) => optional_int_at(
                entries_of(members@),
                a@,
                b@,
                c@,
                i64::MIN as int,
                i64::MAX as int,
            ) == Err::<Option<int>, Seq<StepView>>(e@),
        },
{
    match find(members, a, b, c) {
        Found::Absent => Ok(None),
        Found::Once(v) => match v {
            Json::Null => Ok(None),
            _ => match read_i64(v) {
                Some(t) => Ok(Some(t)),
                None => Err(DecodeError::at_field(a)),
            },
        },
        Found::Repeated(_) => Err(DecodeError::at_field(a)),
    }
}

/// Reads the optional truth value field named `a`, `b` or `c`.
pub fn optional_flag_field(members: &Vec<Member>, a: &str, b: &str, c: &str) -> (r: Result<
    Option<bool>,
    DecodeError,
>)
    ensures
        match r {
            Ok(f) => optional_flag_at(entries_of(members@), a@, b@, c@) == Ok::<
                Option<bool>,
                Seq<StepView>,
            >(f),
            Err(e) => optional_flag_at(entries_of(members@), a@, b@, c@) == Err::<
                Option<bool>,
                Seq<StepView>,
            >(e@),
        },
{
    match find(members, a, b, c) {
        Found::Absent => Ok(None),
        Found::Once(v) => match v {
            Json::Null => Ok(None),
            Json::Bool(b) => Ok(Some(*b)),
            _ => Err(DecodeError::at_field(a)),
        },
        Found::Repeated(_) => Err(DecodeError::at_field(a)),
    }
}

} // verus!
