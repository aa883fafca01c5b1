use vstd::prelude::*;

verus! {

/// What a scope writes before an element: nothing before the first one, a
/// comma before every other.
pub open spec fn separator(first: bool) -> Seq<char> {
    if first {
        Seq::empty()
    } else {
        seq![',']
    }
}

/// What a scope appends when the tokens `items` are added one after the other,
/// `first` telling whether the scope was still empty before them.
pub open spec fn elements_text(first: bool, items: Seq<Seq<char>>) -> Seq<char>
    decreases items.len(),
{
    if items.len() == 0 {
        Seq::empty()
    } else {
        elements_text(first, items.drop_last()) + separator(first && items.len() == 1)
            + items.last()
    }
}

/// The tokens `items` with one comma between each two neighbours.
pub open spec fn comma_separated(items: Seq<Seq<char>>) -> Seq<char>
    decreases items.len(),
{
    if items.len() == 0 {
        Seq::empty()
    } else if items.len() == 1 {
        items[0]
    } else {
        comma_separated(items.drop_last()) + seq![','] + items.last()
    }
}

/// The JSON array whose elements are the tokens `items`.
pub open spec fn array_text(items: Seq<Seq<char>>) -> Seq<char> {
    seq!['['] + comma_separated(items) + seq![']']
}

/// A key and a value of an object, each as the text written for it.
pub type Member = (Seq<char>, Seq<char>);

/// One member of an object: key, colon, value.
pub open spec fn member_text(key: Seq<char>, value: Seq<char>) -> Seq<char> {
    key + seq![':'] + value
}

/// What an object scope appends for one field.
pub open spec fn field_text(first: bool, key: Seq<char>, value: Seq<char>) -> Seq<char> {
    separator(first) + key + seq![':'] + value
}

/// What an object scope appends when `fields` are added one after the other,
/// `first` telling whether the scope was still empty before them.
pub open spec fn fields_text(first: bool, fields: Seq<Member>) -> Seq<char>
    decreases fields.len(),
{
    if fields.len() == 0 {
        Seq::empty()
    } else {
        fields_text(first, fields.drop_last()) + field_text(
            first && fields.len() == 1,
            fields.last().0,
            fields.last().1,
        )
    }
}

/// The members of an object, each as one token.
pub open spec fn member_texts(fields: Seq<Member>) -> Seq<Seq<char>> {
    fields.map_values(|f: Member| member_text(f.0, f.1))
}

/// The JSON object whose members are `fields`, in that order.
pub open spec fn object_text(fields: Seq<Member>) -> Seq<char> {
    seq!['{'] + comma_separated(member_texts(fields)) + seq!['}']
}

/// How often `c` occurs in `s`.
pub open spec fn occurrences(s: Seq<char>, c: char) -> nat
    decreases s.len(),
{
    if s.len() == 0 {
        0
    } else {
        occurrences(s.drop_last(), c) + if s.last() == c {
            1nat
        } else {
            0nat
        }
    }
}

/// How often `c` occurs in all of `items` together.
pub open spec fn occurrences_in_all(items: Seq<Seq<char>>, c: char) -> nat
    decreases items.len(),
{
    if items.len() == 0 {
        0
    } else {
        occurrences_in_all(items.drop_last(), c) + occurrences(items.last(), c)
    }
}

/// How often `c` occurs in the keys and values of `fields` together.
pub open spec fn occurrences_in_members(fields: Seq<Member>, c: char) -> nat
    decreases fields.len(),
{
    if fields.len() == 0 {
        0
    } else {
        occurrences_in_members(fields.drop_last(), c) + occurrences(fields.last().0, c)
            + occurrences(fields.last().1, c)
    }
}

/// Occurrences add up over concatenation.
pub proof fn lemma_occurrences_concat(a: Seq<char>, b: Seq<char>, c: char)
    ensures
        occurrences(a + b, c) == occurrences(a, c) + occurrences(b, c),
    decreases b.len(),
{
    if b.len() == 0 {
        assert(a + b =~= a);
    } else {
        lemma_occurrences_concat(a, b.drop_last(), c);
        assert((a + b).drop_last() =~= a + b.drop_last());
        assert((a + b).last() == b.last());
    }
}

/// A single character occurs once in itself and not at all in another one.
pub proof fn lemma_occurrences_single(d: char, c: char)
    ensures
        occurrences(seq![d], c) == if d == c {
            1nat
        } else {
            0nat
        },
{
    assert(seq![d].drop_last() =~= Seq::<char>::empty());
    reveal_with_fuel(occurrences, 2);
}

/// Elements added to an empty scope come out as a comma-separated list.
pub proof fn lemma_elements_of_empty_scope(items: Seq<Seq<char>>)
    ensures
        elements_text(true, items) == comma_separated(items),
    decreases items.len(),
{
    if items.len() == 1 {
        assert(items.drop_last().len() == 0);
        assert(elements_text(true, items.drop_last()) =~= Seq::<char>::empty());
        assert(elements_text(true, items) =~= items[0]);
    } else if items.len() > 1 {
        lemma_elements_of_empty_scope(items.drop_last());
    }
}

/// Elements added to a scope that already holds something each come with a
/// comma before them.
pub proof fn lemma_elements_of_used_scope(items: Seq<Seq<char>>)
    ensures
        items.len() > 0 ==> elements_text(false, items) == seq![','] + comma_separated(items),
        items.len() == 0 ==> elements_text(false, items) == Seq::<char>::empty(),
    decreases items.len(),
{
    if items.len() == 1 {
        assert(items.drop_last().len() == 0);
        assert(elements_text(false, items.drop_last()) =~= Seq::<char>::empty());
        assert(elements_text(false, items) =~= seq![','] + items[0]);
    } else if items.len() > 1 {
        lemma_elements_of_used_scope(items.drop_last());
        assert(elements_text(false, items) =~= seq![','] + comma_separated(items));
    }
}

/// One element added is the separator that is due and the element.
pub proof fn lemma_elements_one(first: bool, item: Seq<char>)
    ensures
        elements_text(first, seq![item]) == separator(first) + item,
{
    let items = seq![item];
    assert(items.drop_last().len() == 0);
    assert(elements_text(first, items.drop_last()) =~= Seq::<char>::empty());
    assert(elements_text(first, items) =~= separator(first) + item);
}

/// Adding in two runs is adding in one.
pub proof fn lemma_elements_split(first: bool, a: Seq<Seq<char>>, b: Seq<Seq<char>>)
    ensures
        elements_text(first, a + b) == elements_text(first, a) + elements_text(
            first && a.len() == 0,
            b,
        ),
    decreases b.len(),
{
    if b.len() == 0 {
        assert(a + b =~= a);
        assert(elements_text(first, a) + Seq::<char>::empty() =~= elements_text(first, a));
    } else {
        lemma_elements_split(first, a, b.drop_last());
        assert((a + b).drop_last() =~= a + b.drop_last());
        assert((a + b).last() == b.last());
        assert(elements_text(first, a + b) =~= elements_text(first, a) + elements_text(
            first && a.len() == 0,
            b,
        ));
    }
}

/// Scopes nest as a stack: a scope that is opened inside an array after the
/// elements `before`, and closed again before the elements `after` are
/// added, is one element of that array with all of its text `inner`, however
/// many elements any of the scopes holds.
pub proof fn lemma_nested_scope_is_one_element(
    before: Seq<Seq<char>>,
    inner: Seq<char>,
    after: Seq<Seq<char>>,
)
    ensures
        elements_text(true, before) + separator(before.len() == 0) + inner + elements_text(
            false,
            after,
        ) == comma_separated(before.push(inner) + after),
{
    let items = before.push(inner);
    lemma_elements_split(true, items, after);
    lemma_elements_split(true, before, seq![inner]);
    lemma_elements_one(before.len() == 0, inner);
    lemma_elements_of_empty_scope(items + after);
    assert(items =~= before + seq![inner]);
    assert(elements_text(true, before) + separator(before.len() == 0) + inner =~= elements_text(
        true,
        before,
    ) + (separator(before.len() == 0) + inner));
}

/// An array of N elements is an opening bracket, the elements with commas
/// strictly between them, and a closing bracket: the scope writes N - 1
/// commas of its own (none for the empty array), the list begins with the
/// first element and ends with the last one.
pub proof fn lemma_array_commas(items: Seq<Seq<char>>)
    ensures
        array_text(items).first() == '[',
        array_text(items).last() == ']',
        items.len() == 0 ==> array_text(items) == seq!['[', ']'],
        occurrences(comma_separated(items), ',') == occurrences_in_all(items, ',') + (if items.len()
            == 0 {
            0
        } else {
            items.len() - 1
        }),
        items.len() > 0 ==> items.first().is_prefix_of(comma_separated(items)),
        items.len() > 0 ==> items.last().is_suffix_of(comma_separated(items)),
    decreases items.len(),
{
    if items.len() == 0 {
        assert(array_text(items) =~= seq!['[', ']']);
    } else if items.len() == 1 {
        assert(items.drop_last().len() == 0);
        assert(occurrences_in_all(items.drop_last(), ',') == 0);
        assert(items.first() == items.last());
        assert(items[0].subrange(0, items[0].len() as int) =~= items[0]);
    } else {
        let front = items.drop_last();
        lemma_array_commas(front);
        lemma_occurrences_concat(comma_separated(front), seq![','], ',');
        lemma_occurrences_concat(comma_separated(front) + seq![','], items.last(), ',');
        lemma_occurrences_single(',', ',');
        let whole = comma_separated(items);
        assert(front.first() == items.first());
        assert(whole.subrange(0, items.first().len() as int) =~= comma_separated(front).subrange(
            0,
            items.first().len() as int,
        ));
        assert(whole.subrange(whole.len() - items.last().len(), whole.len() as int)
            =~= items.last());
    }
}

/// An array scope that is opened after `before`, given the tokens `items`
/// one after the other and then closed leaves `before` followed by the JSON
/// array of those tokens, whatever their number.
pub proof fn lemma_array_scope(before: Seq<char>, items: Seq<Seq<char>>)
    ensures
        (before.push('[') + elements_text(true, items)).push(']') == before + array_text(items),
{
    lemma_elements_of_empty_scope(items);
    assert((before.push('[') + elements_text(true, items)).push(']') =~= before + array_text(
        items,
    ));
}

/// An object scope that is opened after `before`, given `fields` one after
/// the other and then closed leaves `before` followed by the JSON object of
/// those members, whatever their number.
pub proof fn lemma_object_scope(before: Seq<char>, fields: Seq<Member>)
    ensures
        (before.push('{') + fields_text(true, fields)).push('}') == before + object_text(fields),
{
    lemma_fields_of_empty_scope(fields);
    assert((before.push('{') + fields_text(true, fields)).push('}') =~= before + object_text(
        fields,
    ));
}

/// One field added is what `field_text` says.
pub proof fn lemma_fields_one(first: bool, key: Seq<char>, value: Seq<char>)
    ensures
        fields_text(first, seq![(key, value)]) == field_text(first, key, value),
{
    let fields = seq![(key, value)];
    assert(fields.drop_last().len() == 0);
    assert(fields_text(first, fields.drop_last()) =~= Seq::<char>::empty());
    assert(fields_text(first, fields) =~= field_text(first, key, value));
}

/// Adding fields in two runs is adding them in one.
pub proof fn lemma_fields_split(first: bool, a: Seq<Member>, b: Seq<Member>)
    ensures
        fields_text(first, a + b) == fields_text(first, a) + fields_text(
            first && a.len() == 0,
            b,
        ),
    decreases b.len(),
{
    if b.len() == 0 {
        assert(a + b =~= a);
        assert(fields_text(first, a) + Seq::<char>::empty() =~= fields_text(first, a));
    } else {
        lemma_fields_split(first, a, b.drop_last());
        assert((a + b).drop_last() =~= a + b.drop_last());
        assert((a + b).last() == b.last());
        assert(fields_text(first, a + b) =~= fields_text(first, a) + fields_text(
            first && a.len() == 0,
            b,
        ));
    }
}

/// Fields added to an empty object scope come out as the comma-separated
/// list of the members.
pub proof fn lemma_fields_of_empty_scope(fields: Seq<Member>)
    ensures
        fields_text(true, fields) == comma_separated(member_texts(fields)),
    decreases fields.len(),
{
    let members = member_texts(fields);
    if fields.len() == 1 {
        assert(fields.drop_last().len() == 0);
        assert(fields_text(true, fields.drop_last()) =~= Seq::<char>::empty());
        assert(fields_text(true, fields) =~= members[0]);
    } else if fields.len() > 1 {
        lemma_fields_of_empty_scope(fields.drop_last());
        assert(members.drop_last() =~= member_texts(fields.drop_last()));
        assert(fields_text(true, fields) =~= comma_separated(members));
    }
}

/// The scope of an object with N fields writes one colon for each field and
/// N - 1 commas of its own, and the commas stand strictly between the
/// members: the list begins with the first key and ends with the last value.
pub proof fn lemma_object_colons_and_commas(fields: Seq<Member>)
    ensures
        object_text(fields).first() == '{',
        object_text(fields).last() == '}',
        fields.len() == 0 ==> object_text(fields) == seq!['{', '}'],
        occurrences(comma_separated(member_texts(fields)), ':') == occurrences_in_members(
            fields,
            ':',
        ) + fields.len(),
        occurrences(comma_separated(member_texts(fields)), ',') == occurrences_in_members(
            fields,
            ',',
        ) + (if fields.len() == 0 {
            0
        } else {
            fields.len() - 1
        }),
        fields.len() > 0 ==> fields.first().0.is_prefix_of(comma_separated(member_texts(fields))),
        fields.len() > 0 ==> fields.last().1.is_suffix_of(comma_separated(member_texts(fields))),
    decreases fields.len(),
{
    let members = member_texts(fields);
    let whole = comma_separated(members);
    if fields.len() == 0 {
        assert(object_text(fields) =~= seq!['{', '}']);
    } else {
        let key = fields.last().0;
        let value = fields.last().1;
        let front = fields.drop_last();
        assert(members.drop_last() =~= member_texts(front));
        assert(members.last() == member_text(key, value));
        lemma_object_colons_and_commas(front);
        lemma_occurrences_concat(key, seq![':'], ':');
        lemma_occurrences_concat(key + seq![':'], value, ':');
        lemma_occurrences_concat(key, seq![':'], ',');
        lemma_occurrences_concat(key + seq![':'], value, ',');
        lemma_occurrences_single(':', ':');
        lemma_occurrences_single(':', ',');
        lemma_occurrences_single(',', ',');
        lemma_occurrences_single(',', ':');
        if fields.len() > 1 {
            let before = comma_separated(member_texts(front));
            lemma_occurrences_concat(before, seq![','], ':');
            lemma_occurrences_concat(before + seq![','], members.last(), ':');
            lemma_occurrences_concat(before, seq![','], ',');
            lemma_occurrences_concat(before + seq![','], members.last(), ',');
            assert(front.first() == fields.first());
            assert(whole.subrange(0, fields.first().0.len() as int) =~= before.subrange(
                0,
                fields.first().0.len() as int,
            ));
        } else {
            assert(whole == member_text(key, value));
            assert(front.len() == 0);
            assert(whole.subrange(0, key.len() as int) =~= key);
        }
        assert(whole.subrange(whole.len() - value.len(), whole.len() as int) =~= value);
    }
}

} // verus!
