//! Finding a field of a JSON object under its name or one of its aliases.

use crate::json::{entries_of, Json, JsonValue, Member};
use crate::text::same_text;
use vstd::prelude::*;

verus! {

/// What a search for a field comes back with.
pub enum Found<T> {
    /// No entry carries any of the names.
    Absent,
    /// Exactly one entry does.
    Once(T),
    /// Two or more do, the first of which is given: the object is ambiguous
    /// about this field.
    Repeated(T),
}

/// `name` is `a`, `b` or `c`. A field with fewer than three names repeats one.
pub open spec fn answers_to(name: Seq<char>, a: Seq<char>, b: Seq<char>, c: Seq<char>) -> bool {
    name == a || name == b || name == c
}

/// The values of the entries named `a`, `b` or `c`, in document order.
pub open spec fn hits(
    entries: Seq<(Seq<char>, JsonValue)>,
    a: Seq<char>,
    b: Seq<char>,
    c: Seq<char>,
) -> Seq<JsonValue>
    decreases entries.len(),
{
    if entries.len() == 0 {
        Seq::empty()
    } else {
        let before = hits(entries.drop_last(), a, b, c);
        if answers_to(entries.last().0, a, b, c) {
            before.push(entries.last().1)
        } else {
            before
        }
    }
}

/// The field named `a`, `b` or `c` among `entries`.
pub open spec fn lookup(
    entries: Seq<(Seq<char>, JsonValue)>,
    a: Seq<char>,
    b: Seq<char>,
    c: Seq<char>,
) -> Found<JsonValue> {
    let h = hits(entries, a, b, c);
    if h.len() == 0 {
        Found::Absent
    } else if h.len() == 1 {
        Found::Once(h[0])
    } else {
        Found::Repeated(h[0])
    }
}

/// What indexing `value` by `name` gives: the first member of that name,
/// and `null` where `value` is no object or has no such member.
pub open spec fn member_or_null(value: JsonValue, name: Seq<char>) -> JsonValue {
    match value {
        JsonValue::Object(entries) => match lookup(entries, name, name, name) {
            Found::Absent => JsonValue::Null,
            Found::Once(v) => v,
            Found::Repeated(v) => v,
        },
        _ => JsonValue::Null,
    }
}

/// The members that no field answers to, in document order: what is left
/// of an object once the fields that `known` names are taken out.
pub open spec fn residual(
    entries: Seq<(Seq<char>, JsonValue)>,
    known: spec_fn(Seq<char>) -> bool,
) -> Seq<(Seq<char>, JsonValue)>
    decreases entries.len(),
{
    if entries.len() == 0 {
        Seq::empty()
    } else {
        let before = residual(entries.drop_last(), known);
        if known(entries.last().0) {
            before
        } else {
            before.push(entries.last())
        }
    }
}

/// A value found under a name is part of the object it was found in.
pub proof fn lemma_found_is_smaller(
    entries: Seq<(Seq<char>, JsonValue)>,
    a: Seq<char>,
    b: Seq<char>,
    c: Seq<char>,
)
    ensures
        lookup(entries, a, b, c) matches Found::Once(v) ==> decreases_to!(entries => v),
        lookup(entries, a, b, c) matches Found::Repeated(v) ==> decreases_to!(entries => v),
{
    lemma_hits_come_from_entries(entries, a, b, c);
    if hits(entries, a, b, c).len() > 0 {
        let v = hits(entries, a, b, c)[0];
        let i = choose|i: int|
            0 <= i < entries.len() && answers_to(entries[i].0, a, b, c) && entries[i].1 == v;
        assert(decreases_to!(entries => entries[i]));
        assert(decreases_to!(entries[i] => entries[i].1));
    }
}

/// Every hit is the value of an entry that answers to one of the names.
pub proof fn lemma_hits_come_from_entries(
    entries: Seq<(Seq<char>, JsonValue)>,
    a: Seq<char>,
    b: Seq<char>,
    c: Seq<char>,
)
    ensures
        forall|k: int|
            0 <= k < hits(entries, a, b, c).len() ==> exists|i: int|
                0 <= i < entries.len() && answers_to(entries[i].0, a, b, c) && entries[i].1
                    == #[trigger] hits(entries, a, b, c)[k],
    decreases entries.len(),
{
    if entries.len() > 0 {
        let front = entries.drop_last();
        lemma_hits_come_from_entries(front, a, b, c);
        assert forall|k: int| 0 <= k < hits(entries, a, b, c).len() implies exists|i: int|
            0 <= i < entries.len() && answers_to(entries[i].0, a, b, c) && entries[i].1
                == #[trigger] hits(entries, a, b, c)[k] by {
            if k < hits(front, a, b, c).len() {
                let i = choose|i: int|
                    0 <= i < front.len() && answers_to(front[i].0, a, b, c) && front[i].1 == hits(
                        front,
                        a,
                        b,
                        c,
                    )[k];
                assert(entries[i] == front[i]);
            } else {
                assert(entries[entries.len() - 1] == entries.last());
            }
        }
    }
}

/// Finds the member named `a`, `b` or `c`.
pub fn find<'a>(members: &'a Vec<Member>, a: &str, b: &str, c: &str) -> (r: Found<&'a Json>)
    ensures
        match r {
            Found::Absent => lookup(entries_of(members@), a@, b@, c@) is Absent,
            Found::Once(v) => lookup(entries_of(members@), a@, b@, c@) == Found::Once(v@),
            Found::Repeated(v) => lookup(entries_of(members@), a@, b@, c@) == Found::Repeated(
                v@,
            ),
        },
        r matches Found::Once(v) ==> decreases_to!(members => v),
        r matches Found::Repeated(v) ==> decreases_to!(members => v),
{
    let mut first: Option<&'a Json> = None;
    let mut seen: usize = 0;
    let mut i: usize = 0;
    while i < members.len()
        invariant
            i <= members.len(),
            seen <= 2,
            seen < 2 ==> seen == hits(entries_of(members@.take(i as int)), a@, b@, c@).len(),
            seen == 2 ==> hits(entries_of(members@.take(i as int)), a@, b@, c@).len() >= 2,
            seen >= 1 ==> first is Some && first->0@ == hits(
                entries_of(members@.take(i as int)),
                a@,
                b@,
                c@,
            )[0],
            first matches Some(v) ==> decreases_to!(members => v),
        decreases members.len() - i,
    {
        let member = &members[i];
        proof {
            let now = members@.take(i as int + 1);
            assert(now.drop_last() =~= members@.take(i as int));
            assert(now.last() == members@[i as int]);
            assert(entries_of(now) == entries_of(now.drop_last()).push(
                (now.last().name@, now.last().value@),
            ));
            assert(entries_of(now).drop_last() =~= entries_of(now.drop_last()));
        }
        let name = member.name.as_str();
        if same_text(name, a) || same_text(name, b) || same_text(name, c) {
            if seen == 0 {
                first = Some(&member.value);
            }
            if seen < 2 {
                seen += 1;
            }
        }
        i += 1;
    }
    assert(members@.take(members.len() as int) =~= members@);
    if seen == 0 {
        Found::Absent
    } else if seen == 1 {
        match first {
            Some(v) => Found::Once(v),
            None => Found::Absent,
        }
    } else {
        match first {
            Some(v) => Found::Repeated(v),
            None => Found::Absent,
        }
    }
}

/// Indexes `value` by `name`: the first member of that name, if `value` is
/// an object that has one.
pub fn member_of<'a>(value: &'a Json, name: &str) -> (r: Option<&'a Json>)
    ensures
        match r {
            Some(v) => member_or_null(value@, name@) == v@,
            None => member_or_null(value@, name@) is Null,
        },
{
    match value {
        Json::Object(members) => match find(members, name, name, name) {
            Found::Absent => None,
            Found::Once(v) => Some(v),
            Found::Repeated(v) => Some(v),
        },
        _ => None,
    }
}

} // verus!
