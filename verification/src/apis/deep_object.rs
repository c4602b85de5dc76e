//! JSON values as the `deepObject` query style reads them, and the
//! parameter list that style makes of an object.

use vstd::prelude::*;

use super::text::decimal;

verus! {

/// A JSON value. A number is held as the text of its JSON rendering; an
/// object holds its members in the order in which they are walked.
#[derive(Debug)]
pub enum JsonValue {
    Null,
    Bool(bool),
    Number(String),
    Str(String),
    Array(Vec<JsonValue>),
    Object(Vec<(String, JsonValue)>),
}

/// `name[key]`: the name of a member `key` under `name`.
pub open spec fn bracketed(name: Seq<char>, key: Seq<char>) -> Seq<char> {
    name + seq!['['] + key + seq![']']
}

/// The compact JSON text of a null, a boolean or a number.
pub open spec fn scalar_text(v: JsonValue) -> Seq<char> {
    match v {
        JsonValue::Null => seq!['n', 'u', 'l', 'l'],
        JsonValue::Bool(b) => if b {
            seq!['t', 'r', 'u', 'e']
        } else {
            seq!['f', 'a', 'l', 's', 'e']
        },
        JsonValue::Number(text) => text@,
        _ => Seq::empty(),
    }
}

/// The view of a list of name/value pairs.
pub open spec fn pairs_view(pairs: Seq<(String, String)>) -> Seq<(Seq<char>, Seq<char>)> {
    pairs.map_values(|p: (String, String)| (p.0@, p.1@))
}

/// `v` can be laid out in the `deepObject` style: it is an object, each of
/// its members is an object that can be laid out, an array whose elements
/// are all objects that can be laid out, or a string, number, boolean or null.
pub open spec fn deep_object_supported(v: JsonValue) -> bool
    decreases v, 0int,
{
    match v {
        JsonValue::Object(entries) => forall|i: int|
            #![trigger entries@[i]]
            0 <= i < entries@.len() ==> member_supported(entries@[i].1),
        _ => false,
    }
}

/// A member value that the `deepObject` style can lay out.
pub open spec fn member_supported(v: JsonValue) -> bool
    decreases v, 1int,
{
    match v {
        JsonValue::Object(_) => deep_object_supported(v),
        JsonValue::Array(items) => forall|j: int|
            #![trigger items@[j]]
            0 <= j < items@.len() ==> deep_object_supported(items@[j]),
        _ => true,
    }
}

/// The parameters of the object `v` under `prefix`: for each member in turn,
/// the parameters of its value under `prefix[key]`.
pub open spec fn object_params(prefix: Seq<char>, v: JsonValue) -> Seq<(Seq<char>, Seq<char>)>
    decreases v, 0int,
{
    match v {
        JsonValue::Object(entries) => {
            proof {
                assert(decreases_to!(entries => entries@));
            }
            entries_params(prefix, entries@, entries@.len() as int)
        },
        _ => Seq::empty(),
    }
}

/// The parameters of the first `n` members of `entries` under `prefix`.
pub open spec fn entries_params(
    prefix: Seq<char>,
    entries: Seq<(String, JsonValue)>,
    n: int,
) -> Seq<(Seq<char>, Seq<char>)>
    decreases entries, n,
{
    if n <= 0 || n > entries.len() {
        Seq::empty()
    } else {
        proof {
            assert(decreases_to!(entries => entries[n - 1]));
        }
        entries_params(prefix, entries, n - 1) + member_params(
            bracketed(prefix, entries[n - 1].0@),
            entries[n - 1].1,
        )
    }
}

/// The parameters of a member value named `name`: an object's own
/// parameters, those of each array element under `name[index]`, or the one
/// pair of `name` and the value's text.
pub open spec fn member_params(name: Seq<char>, v: JsonValue) -> Seq<(Seq<char>, Seq<char>)>
    decreases v, 1int,
{
    match v {
        JsonValue::Object(_) => object_params(name, v),
        JsonValue::Array(items) => {
            proof {
                assert(decreases_to!(items => items@));
            }
            items_params(name, items@, items@.len() as int)
        },
        JsonValue::Str(s) => seq![(name, s@)],
        _ => seq![(name, scalar_text(v))],
    }
}

/// The parameters of the first `n` elements of `items`, each under
/// `name[index]`.
pub open spec fn items_params(name: Seq<char>, items: Seq<JsonValue>, n: int) -> Seq<
    (Seq<char>, Seq<char>),
>
    decreases items, n,
{
    if n <= 0 || n > items.len() {
        Seq::empty()
    } else {
        items_params(name, items, n - 1) + object_params(
            bracketed(name, decimal((n - 1) as nat)),
            items[n - 1],
        )
    }
}

/// Tells whether `value` can be laid out in the `deepObject` style, that is,
/// whether `parse_deep_object` accepts it.
pub fn is_deep_object(value: &JsonValue) -> (ok: bool)
    ensures
        ok == deep_object_supported(*value),
    decreases value,
{
    match value {
        JsonValue::Object(object) => {
            let mut i: usize = 0;
            while i < object.len()
                invariant
                    i <= object@.len(),
                    *value == JsonValue::Object(*object),
                    forall|k: int| 0 <= k < i ==> member_supported(#[trigger] object@[k].1),
                decreases object@.len() - i,
            {
                let member = &object[i].1;
                assert(decreases_to!(*value => value->Object_0));
                assert(decreases_to!(value->Object_0 => value->Object_0[i as int]));
                assert(decreases_to!(value->Object_0[i as int] => value->Object_0[i as int].1));
                match member {
                    JsonValue::Object(_) => {
                        if !is_deep_object(member) {
                            assert(!member_supported(object@[i as int].1));
                            return false;
                        }
                    },
                    JsonValue::Array(items) => {
                        let mut j: usize = 0;
                        while j < items.len()
                            invariant
                                j <= items@.len(),
                                i < object@.len(),
                                *value == JsonValue::Object(*object),
                                *member == object@[i as int].1,
                                *member == JsonValue::Array(*items),
                                decreases_to!(*value => *member),
                                forall|k: int|
                                    0 <= k < j ==> deep_object_supported(#[trigger] items@[k]),
                            decreases items@.len() - j,
                        {
                            assert(decreases_to!(*member => member->Array_0));
                            assert(decreases_to!(member->Array_0 => member->Array_0[j as int]));
                            if !is_deep_object(&items[j]) {
                                assert(!deep_object_supported(member->Array_0@[j as int]));
                                assert(!member_supported(object@[i as int].1));
                                assert(value->Object_0@[i as int] == object@[i as int]);
                                return false;
                            }
                            j = j + 1;
                        }
                    },
                    _ => {},
                }
                assert(member_supported(object@[i as int].1));
                i = i + 1;
            }
            true
        },
        _ => false,
    }
}

/// Every name in `params` starts with `p`.
pub open spec fn names_start_with(params: Seq<(Seq<char>, Seq<char>)>, p: Seq<char>) -> bool {
    forall|i: int| 0 <= i < params.len() ==> p.is_prefix_of(#[trigger] params[i].0)
}

proof fn lemma_prefix_trans(a: Seq<char>, b: Seq<char>, c: Seq<char>)
    requires
        a.is_prefix_of(b),
        b.is_prefix_of(c),
    ensures
        a.is_prefix_of(c),
{
    assert forall|i: int| 0 <= i < a.len() implies a[i] == c.subrange(0, a.len() as int)[i] by {
        assert(a[i] == b.subrange(0, a.len() as int)[i]);
        assert(b[i] == c.subrange(0, b.len() as int)[i]);
    }
    assert(a =~= c.subrange(0, a.len() as int));
}

proof fn lemma_names_concat(
    a: Seq<(Seq<char>, Seq<char>)>,
    b: Seq<(Seq<char>, Seq<char>)>,
    p: Seq<char>,
)
    requires
        names_start_with(a, p),
        names_start_with(b, p),
    ensures
        names_start_with(a + b, p),
{
    assert forall|i: int| 0 <= i < (a + b).len() implies p.is_prefix_of(#[trigger] (a + b)[i].0) by {
        if i < a.len() {
            assert((a + b)[i] == a[i]);
        } else {
            assert((a + b)[i] == b[i - a.len()]);
        }
    }
}

proof fn lemma_names_weaken(params: Seq<(Seq<char>, Seq<char>)>, p: Seq<char>, q: Seq<char>)
    requires
        names_start_with(params, p),
        q.is_prefix_of(p),
    ensures
        names_start_with(params, q),
{
    assert forall|i: int| 0 <= i < params.len() implies q.is_prefix_of(#[trigger] params[i].0) by {
        lemma_prefix_trans(q, p, params[i].0);
    }
}

/// `name[` starts `name[key]`.
proof fn lemma_bracketed_prefix(name: Seq<char>, key: Seq<char>)
    ensures
        (name + seq!['[']).is_prefix_of(bracketed(name, key)),
        name.is_prefix_of(name + seq!['[']),
{
    assert((name + seq!['[']) =~= bracketed(name, key).subrange(0, name.len() + 1int));
    assert(name =~= (name + seq!['[']).subrange(0, name.len() as int));
}

proof fn lemma_object_names(prefix: Seq<char>, v: JsonValue)
    ensures
        names_start_with(object_params(prefix, v), prefix + seq!['[']),
    decreases v, 0int,
{
    if let JsonValue::Object(entries) = v {
        assert(decreases_to!(entries => entries@));
        lemma_entries_names(prefix, entries@, entries@.len() as int);
    }
}

proof fn lemma_member_names(name: Seq<char>, v: JsonValue)
    ensures
        names_start_with(member_params(name, v), name),
    decreases v, 1int,
{
    match v {
        JsonValue::Object(_) => {
            lemma_object_names(name, v);
            lemma_bracketed_prefix(name, Seq::empty());
            lemma_names_weaken(object_params(name, v), name + seq!['['], name);
        },
        JsonValue::Array(items) => {
            assert(decreases_to!(items => items@));
            lemma_items_names(name, items@, items@.len() as int);
            lemma_bracketed_prefix(name, Seq::empty());
            lemma_names_weaken(
                items_params(name, items@, items@.len() as int),
                name + seq!['['],
                name,
            );
        },
        _ => {
            assert(name.is_prefix_of(member_params(name, v)[0].0)) by {
                assert(name =~= name.subrange(0, name.len() as int));
            }
        },
    }
}

proof fn lemma_entries_names(prefix: Seq<char>, entries: Seq<(String, JsonValue)>, n: int)
    ensures
        names_start_with(entries_params(prefix, entries, n), prefix + seq!['[']),
    decreases entries, n,
{
    if 0 < n && n <= entries.len() {
        assert(decreases_to!(entries => entries[n - 1]));
        let name = bracketed(prefix, entries[n - 1].0@);
        lemma_entries_names(prefix, entries, n - 1);
        lemma_member_names(name, entries[n - 1].1);
        lemma_bracketed_prefix(prefix, entries[n - 1].0@);
        lemma_names_weaken(member_params(name, entries[n - 1].1), name, prefix + seq!['[']);
        lemma_names_concat(
            entries_params(prefix, entries, n - 1),
            member_params(name, entries[n - 1].1),
            prefix + seq!['['],
        );
    }
}

proof fn lemma_items_names(name: Seq<char>, items: Seq<JsonValue>, n: int)
    ensures
        names_start_with(items_params(name, items, n), name + seq!['[']),
    decreases items, n,
{
    if 0 < n && n <= items.len() {
        let item_name = bracketed(name, decimal((n - 1) as nat));
        lemma_items_names(name, items, n - 1);
        lemma_object_names(item_name, items[n - 1]);
        lemma_bracketed_prefix(name, decimal((n - 1) as nat));
        lemma_bracketed_prefix(item_name, Seq::empty());
        lemma_prefix_trans(name + seq!['['], item_name, item_name + seq!['[']);
        lemma_names_weaken(
            object_params(item_name, items[n - 1]),
            item_name + seq!['['],
            name + seq!['['],
        );
        lemma_names_concat(
            items_params(name, items, n - 1),
            object_params(item_name, items[n - 1]),
            name + seq!['['],
        );
    }
}

/// Every parameter that the `deepObject` layout of an object makes under
/// `prefix` is named `prefix[...`: the prefix, then an opening bracket.
pub proof fn law_deep_object_names_under_prefix(prefix: Seq<char>, v: JsonValue)
    ensures
        names_start_with(object_params(prefix, v), prefix + seq!['[']),
{
    lemma_object_names(prefix, v);
}

/// `params` with `p` put before every name.
pub open spec fn with_name_prefix(
    p: Seq<char>,
    params: Seq<(Seq<char>, Seq<char>)>,
) -> Seq<(Seq<char>, Seq<char>)> {
    params.map_values(|x: (Seq<char>, Seq<char>)| (p + x.0, x.1))
}

proof fn lemma_with_name_prefix_concat(
    p: Seq<char>,
    a: Seq<(Seq<char>, Seq<char>)>,
    b: Seq<(Seq<char>, Seq<char>)>,
)
    ensures
        with_name_prefix(p, a + b) == with_name_prefix(p, a) + with_name_prefix(p, b),
{
    assert(with_name_prefix(p, a + b) =~= with_name_prefix(p, a) + with_name_prefix(p, b));
}

proof fn lemma_bracketed_assoc(p: Seq<char>, q: Seq<char>, key: Seq<char>)
    ensures
        bracketed(p + q, key) == p + bracketed(q, key),
{
    assert(bracketed(p + q, key) =~= p + bracketed(q, key));
}

proof fn lemma_object_shift(p: Seq<char>, q: Seq<char>, v: JsonValue)
    ensures
        object_params(p + q, v) == with_name_prefix(p, object_params(q, v)),
    decreases v, 0int,
{
    if let JsonValue::Object(entries) = v {
        assert(decreases_to!(entries => entries@));
        lemma_entries_shift(p, q, entries@, entries@.len() as int);
    } else {
        assert(with_name_prefix(p, object_params(q, v)) =~= Seq::empty());
    }
}

proof fn lemma_member_shift(p: Seq<char>, q: Seq<char>, v: JsonValue)
    ensures
        member_params(p + q, v) == with_name_prefix(p, member_params(q, v)),
    decreases v, 1int,
{
    match v {
        JsonValue::Object(_) => {
            lemma_object_shift(p, q, v);
        },
        JsonValue::Array(items) => {
            assert(decreases_to!(items => items@));
            lemma_items_shift(p, q, items@, items@.len() as int);
        },
        _ => {
            assert(member_params(p + q, v) =~= with_name_prefix(p, member_params(q, v)));
        },
    }
}

proof fn lemma_entries_shift(
    p: Seq<char>,
    q: Seq<char>,
    entries: Seq<(String, JsonValue)>,
    n: int,
)
    ensures
        entries_params(p + q, entries, n) == with_name_prefix(p, entries_params(q, entries, n)),
    decreases entries, n,
{
    if 0 < n && n <= entries.len() {
        assert(decreases_to!(entries => entries[n - 1]));
        let key = entries[n - 1].0@;
        lemma_entries_shift(p, q, entries, n - 1);
        lemma_bracketed_assoc(p, q, key);
        lemma_member_shift(p, bracketed(q, key), entries[n - 1].1);
        lemma_with_name_prefix_concat(
            p,
            entries_params(q, entries, n - 1),
            member_params(bracketed(q, key), entries[n - 1].1),
        );
    } else {
        assert(with_name_prefix(p, entries_params(q, entries, n)) =~= Seq::empty());
    }
}

proof fn lemma_items_shift(p: Seq<char>, q: Seq<char>, items: Seq<JsonValue>, n: int)
    ensures
        items_params(p + q, items, n) == with_name_prefix(p, items_params(q, items, n)),
    decreases items, n,
{
    if 0 < n && n <= items.len() {
        let index = decimal((n - 1) as nat);
        lemma_items_shift(p, q, items, n - 1);
        lemma_bracketed_assoc(p, q, index);
        lemma_object_shift(p, bracketed(q, index), items[n - 1]);
        lemma_with_name_prefix_concat(
            p,
            items_params(q, items, n - 1),
            object_params(bracketed(q, index), items[n - 1]),
        );
    } else {
        assert(with_name_prefix(p, items_params(q, items, n)) =~= Seq::empty());
    }
}

/// The prefix only prefixes: laying out `v` under `prefix` gives the layout
/// under the empty prefix with `prefix` put before every name, the same
/// values in the same order.
pub proof fn law_deep_object_prefix_only_prefixes(prefix: Seq<char>, v: JsonValue)
    ensures
        object_params(prefix, v) == with_name_prefix(prefix, object_params(Seq::empty(), v)),
{
    lemma_object_shift(prefix, Seq::empty(), v);
    assert(prefix + Seq::<char>::empty() =~= prefix);
}

proof fn lemma_entries_contain_member(
    prefix: Seq<char>,
    entries: Seq<(String, JsonValue)>,
    n: int,
    i: int,
    x: (Seq<char>, Seq<char>),
)
    requires
        0 <= i < n <= entries.len(),
        member_params(bracketed(prefix, entries[i].0@), entries[i].1).contains(x),
    ensures
        entries_params(prefix, entries, n).contains(x),
    decreases n,
{
    let front = entries_params(prefix, entries, n - 1);
    let last = member_params(bracketed(prefix, entries[n - 1].0@), entries[n - 1].1);
    assert(entries_params(prefix, entries, n) == front + last);
    if i == n - 1 {
        let k = choose|k: int| 0 <= k < last.len() && last[k] == x;
        assert((front + last)[front.len() + k] == x);
    } else {
        lemma_entries_contain_member(prefix, entries, n - 1, i, x);
        let k = choose|k: int| 0 <= k < front.len() && front[k] == x;
        assert((front + last)[k] == x);
    }
}

proof fn lemma_items_contain_element(
    name: Seq<char>,
    items: Seq<JsonValue>,
    n: int,
    j: int,
    x: (Seq<char>, Seq<char>),
)
    requires
        0 <= j < n <= items.len(),
        object_params(bracketed(name, decimal(j as nat)), items[j]).contains(x),
    ensures
        items_params(name, items, n).contains(x),
    decreases n,
{
    let front = items_params(name, items, n - 1);
    let last = object_params(bracketed(name, decimal((n - 1) as nat)), items[n - 1]);
    assert(items_params(name, items, n) == front + last);
    if j == n - 1 {
        let k = choose|k: int| 0 <= k < last.len() && last[k] == x;
        assert((front + last)[front.len() + k] == x);
    } else {
        lemma_items_contain_element(name, items, n - 1, j, x);
        let k = choose|k: int| 0 <= k < front.len() && front[k] == x;
        assert((front + last)[k] == x);
    }
}

/// A string member `key` of an object laid out under `prefix` gives the
/// parameter `prefix[key]` whose value is the member string itself,
/// character for character.
pub proof fn law_deep_object_string_member_passes_through(
    prefix: Seq<char>,
    members: Vec<(String, JsonValue)>,
    i: int,
    text: String,
)
    requires
        0 <= i < members@.len(),
        members@[i].1 == JsonValue::Str(text),
    ensures
        object_params(prefix, JsonValue::Object(members)).contains(
            (prefix + seq!['['] + members@[i].0@ + seq![']'], text@),
        ),
{
    let name = prefix + seq!['['] + members@[i].0@ + seq![']'];
    assert(member_params(name, members@[i].1)[0] == (name, text@));
    lemma_entries_contain_member(prefix, members@, members@.len() as int, i, (name, text@));
}

/// A number member `key` gives the parameter `prefix[key]` whose value is
/// the number's JSON text.
pub proof fn law_deep_object_number_member_passes_through(
    prefix: Seq<char>,
    members: Vec<(String, JsonValue)>,
    i: int,
    text: String,
)
    requires
        0 <= i < members@.len(),
        members@[i].1 == JsonValue::Number(text),
    ensures
        object_params(prefix, JsonValue::Object(members)).contains(
            (prefix + seq!['['] + members@[i].0@ + seq![']'], text@),
        ),
{
    let name = prefix + seq!['['] + members@[i].0@ + seq![']'];
    assert(member_params(name, members@[i].1)[0] == (name, text@));
    lemma_entries_contain_member(prefix, members@, members@.len() as int, i, (name, text@));
}

/// A boolean member `key` gives the parameter `prefix[key]` with value
/// `true` or `false`, and a null member the value `null`.
pub proof fn law_deep_object_literal_member(
    prefix: Seq<char>,
    members: Vec<(String, JsonValue)>,
    i: int,
)
    requires
        0 <= i < members@.len(),
        members@[i].1 is Null || members@[i].1 is Bool,
    ensures
        members@[i].1 is Null ==> object_params(prefix, JsonValue::Object(members)).contains(
            (prefix + seq!['['] + members@[i].0@ + seq![']'], seq!['n', 'u', 'l', 'l']),
        ),
        members@[i].1 == JsonValue::Bool(true) ==> object_params(
            prefix,
            JsonValue::Object(members),
        ).contains((prefix + seq!['['] + members@[i].0@ + seq![']'], seq!['t', 'r', 'u', 'e'])),
        members@[i].1 == JsonValue::Bool(false) ==> object_params(
            prefix,
            JsonValue::Object(members),
        ).contains(
            (prefix + seq!['['] + members@[i].0@ + seq![']'], seq!['f', 'a', 'l', 's', 'e']),
        ),
{
    let name = prefix + seq!['['] + members@[i].0@ + seq![']'];
    let x = member_params(name, members@[i].1)[0];
    assert(member_params(name, members@[i].1).contains(x));
    lemma_entries_contain_member(prefix, members@, members@.len() as int, i, x);
}

/// Every parameter of an object member `key`, laid out on its own under
/// `prefix[key]`, is a parameter of the whole object.
pub proof fn law_deep_object_nested_member(
    prefix: Seq<char>,
    members: Vec<(String, JsonValue)>,
    i: int,
    x: (Seq<char>, Seq<char>),
)
    requires
        0 <= i < members@.len(),
        members@[i].1 is Object,
        object_params(prefix + seq!['['] + members@[i].0@ + seq![']'], members@[i].1).contains(x),
    ensures
        object_params(prefix, JsonValue::Object(members)).contains(x),
{
    lemma_entries_contain_member(prefix, members@, members@.len() as int, i, x);
}

/// Every parameter of the `j`-th element of an array member `key`, laid out
/// on its own under `prefix[key][j]`, is a parameter of the whole object.
pub proof fn law_deep_object_array_element(
    prefix: Seq<char>,
    members: Vec<(String, JsonValue)>,
    i: int,
    items: Vec<JsonValue>,
    j: int,
    x: (Seq<char>, Seq<char>),
)
    requires
        0 <= i < members@.len(),
        members@[i].1 == JsonValue::Array(items),
        0 <= j < items@.len(),
        object_params(
            prefix + seq!['['] + members@[i].0@ + seq![']'] + seq!['['] + decimal(j as nat)
                + seq![']'],
            items@[j],
        ).contains(x),
    ensures
        object_params(prefix, JsonValue::Object(members)).contains(x),
{
    let name = prefix + seq!['['] + members@[i].0@ + seq![']'];
    assert(bracketed(name, decimal(j as nat)) == prefix + seq!['['] + members@[i].0@ + seq![']']
        + seq!['['] + decimal(j as nat) + seq![']']);
    lemma_items_contain_element(name, items@, items@.len() as int, j, x);
    lemma_entries_contain_member(prefix, members@, members@.len() as int, i, x);
}

proof fn lemma_string_entries(prefix: Seq<char>, entries: Seq<(String, JsonValue)>, n: int)
    requires
        0 <= n <= entries.len(),
        forall|i: int| 0 <= i < entries.len() ==> (#[trigger] entries[i]).1 is Str,
    ensures
        entries_params(prefix, entries, n).len() == n,
        forall|i: int|
            0 <= i < n ==> #[trigger] entries_params(prefix, entries, n)[i] == (prefix + seq!['[']
                + entries[i].0@ + seq![']'], entries[i].1->Str_0@),
    decreases n,
{
    if n > 0 {
        lemma_string_entries(prefix, entries, n - 1);
        assert(entries[n - 1].1 is Str);
        let front = entries_params(prefix, entries, n - 1);
        let last = member_params(bracketed(prefix, entries[n - 1].0@), entries[n - 1].1);
        assert(entries_params(prefix, entries, n) == front + last);
        assert forall|i: int| 0 <= i < n implies #[trigger] entries_params(prefix, entries, n)[i]
            == (prefix + seq!['['] + entries[i].0@ + seq![']'], entries[i].1->Str_0@) by {
            if i < n - 1 {
                assert((front + last)[i] == front[i]);
            } else {
                assert((front + last)[i] == last[0]);
            }
        }
    }
}

/// An object whose members are all strings is laid out as exactly one
/// parameter per member, in member order: `prefix[key]` with the member
/// string unchanged.
pub proof fn law_deep_object_string_members_exactly(
    prefix: Seq<char>,
    members: Vec<(String, JsonValue)>,
)
    requires
        forall|i: int| 0 <= i < members@.len() ==> (#[trigger] members@[i]).1 is Str,
    ensures
        object_params(prefix, JsonValue::Object(members)).len() == members@.len(),
        forall|i: int|
            0 <= i < members@.len() ==> #[trigger] object_params(
                prefix,
                JsonValue::Object(members),
            )[i] == (prefix + seq!['['] + members@[i].0@ + seq![']'], members@[i].1->Str_0@),
{
    lemma_string_entries(prefix, members@, members@.len() as int);
}

/// An object whose members are strings, numbers, booleans, nulls or arrays
/// without elements can be laid out; an empty array member is accepted.
pub proof fn law_deep_object_flat_object_supported(members: Vec<(String, JsonValue)>)
    requires
        forall|i: int|
            0 <= i < members@.len() ==> !((#[trigger] members@[i]).1 is Object) && (
            members@[i].1 matches JsonValue::Array(items) ==> items@.len() == 0),
    ensures
        deep_object_supported(JsonValue::Object(members)),
{
    assert forall|i: int| #![trigger members@[i]]
        0 <= i < members@.len() implies member_supported(members@[i].1) by {
        if let JsonValue::Array(items) = members@[i].1 {
            assert(items@.len() == 0);
        }
    }
}

/// An object member is accepted exactly when it can be laid out, and an
/// array member exactly when each of its elements (none, for an empty array)
/// is an object that can be laid out.
pub proof fn law_deep_object_array_member_supported(
    members: Vec<(String, JsonValue)>,
    i: int,
    items: Vec<JsonValue>,
)
    requires
        0 <= i < members@.len(),
        members@[i].1 == JsonValue::Array(items),
        forall|j: int| 0 <= j < items@.len() ==> deep_object_supported(#[trigger] items@[j]),
        forall|k: int| 0 <= k < members@.len() && k != i ==> !((#[trigger] members@[k]).1 is Object)
            && !(members@[k].1 is Array),
    ensures
        deep_object_supported(JsonValue::Object(members)),
{
    assert forall|k: int| #![trigger members@[k]]
        0 <= k < members@.len() implies member_supported(members@[k].1) by {
        if k == i {
        }
    }
}

} // verus!
