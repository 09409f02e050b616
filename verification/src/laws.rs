use crate::config::{first_at, lemma_first_at_unique, lemma_position_none, lookup, position, ConfigModel};
use crate::element::{
    attributes, children_list, collect, definition, each_use, first_error, hash_definition, label,
    lemma_collect_err, lemma_collect_ok, text_label, widget_use, DefinitionModel, WidgetModel,
};
use crate::error::ErrorModel;
use crate::text::lowercase;
use crate::value::{coerce, AttrModel};
use vstd::prelude::*;

verus! {

/// A string, a number or a boolean always becomes a widget, and that widget
/// is the `label` without children whose one attribute, `text`, holds the
/// coerced value.
pub proof fn lemma_primitive_becomes_label(primitive: ConfigModel)
    requires
        primitive.is_primitive(),
    ensures
        coerce(primitive) is Some,
        widget_use(primitive) == Ok::<WidgetModel, ErrorModel>(
            WidgetModel {
                name: "label"@,
                children: Seq::empty(),
                attrs: Map::<Seq<char>, AttrModel>::empty().insert(
                    "text"@,
                    coerce(primitive)->Some_0,
                ),
            },
        ),
{
}

/// A widget whose hash holds nothing but `children` is the widget whose
/// name maps straight to the same children: the two forms give the same
/// widget, or fail with the same error. This holds for every children
/// value but a hash, which the second form reads as attributes.
pub proof fn lemma_children_shorthand(name: Seq<char>, children: ConfigModel)
    requires
        !(children is Hash),
    ensures
        widget_use(ConfigModel::Hash(seq![(name, ConfigModel::Hash(seq![("children"@, children)]))]))
            == widget_use(ConfigModel::Hash(seq![(name, children)])),
{
    let config = seq![("children"@, children)];
    assert(first_at(config, "children"@, 0));
    lemma_first_at_unique(config, "children"@, 0);
    assert(config.remove(0) =~= Seq::empty());
    assert(attributes(Seq::empty()) == Map::<Seq<char>, AttrModel>::empty());
}

/// A single value at a children position stands for the array that holds
/// only that value.
pub proof fn lemma_single_child(child: ConfigModel)
    requires
        !(child is Hash),
        !(child is Array),
    ensures
        children_list(child) == children_list(ConfigModel::Array(seq![child])),
{
    let results = each_use(seq![child]);
    assert(results[0] == widget_use(child));
    assert(widget_use(child) == text_label(child));
    match text_label(child) {
        Ok(only) => {
            lemma_collect_ok(results);
            assert(collect(results)->Ok_0 =~= seq![only]);
        },
        Err(error) => {
            lemma_collect_err(results, 0);
        },
    }
}

/// The children of an array come in the order of its items: where every
/// item describes a widget, the child at each place is the widget of the
/// item at that place; otherwise the error is that of the first item that
/// describes none.
pub proof fn lemma_children_keep_order(items: Seq<ConfigModel>)
    ensures
        match children_list(ConfigModel::Array(items)) {
            Ok(children) => {
                &&& children.len() == items.len()
                &&& forall|i: int|
                    0 <= i < items.len() ==> widget_use(#[trigger] items[i]) == Ok::<
                        WidgetModel,
                        ErrorModel,
                    >(children[i])
            },
            Err(error) => exists|at: int|
                {
                    &&& 0 <= at < items.len()
                    &&& #[trigger] widget_use(items[at]) == Err::<WidgetModel, ErrorModel>(error)
                    &&& forall|before: int|
                        0 <= before < at ==> (#[trigger] widget_use(items[before])) is Ok
                },
        },
{
    let results = each_use(items);
    if exists|at: int| first_error(results, at) {
        let at = choose|at: int| first_error(results, at);
        assert(results[at] == widget_use(items[at]));
        assert forall|before: int| 0 <= before < at implies (#[trigger] widget_use(
            items[before],
        )) is Ok by {
            assert(results[before] is Ok);
        }
    } else {
        let children = collect(results)->Ok_0;
        assert forall|i: int| 0 <= i < items.len() implies widget_use(#[trigger] items[i]) == Ok::<
            WidgetModel,
            ErrorModel,
        >(children[i]) by {
            if results[i] is Err {
                lemma_has_first_error(results, i);
            }
            assert(results[i] == widget_use(items[i]));
        }
    }
}

/// Where some result up to `at` is an error, a first error exists.
proof fn lemma_has_first_error<T, E>(results: Seq<Result<T, E>>, at: int)
    requires
        0 <= at < results.len(),
        results[at] is Err,
    ensures
        exists|first: int| first_error(results, first),
    decreases at,
{
    if forall|before: int| 0 <= before < at ==> results[before] is Ok {
        assert(first_error(results, at));
    } else {
        let before = choose|before: int| 0 <= before < at && !(results[before] is Ok);
        lemma_has_first_error(results, before);
    }
}

/// Whether the entry of `entries` at `at` gives an attribute under `key`:
/// its lower-cased key is `key`, and its value coerces.
pub open spec fn gives(entries: Seq<(Seq<char>, ConfigModel)>, key: Seq<char>, at: int) -> bool {
    &&& 0 <= at < entries.len()
    &&& lowercase(entries[at].0) == key
    &&& coerce(entries[at].1) is Some
}

/// The attributes hold a key exactly where some entry gives it, and the
/// value under it is that of the last entry that does.
pub proof fn lemma_attributes_last_wins(entries: Seq<(Seq<char>, ConfigModel)>, key: Seq<char>)
    ensures
        attributes(entries).contains_key(key) <==> exists|at: int| gives(entries, key, at),
        forall|at: int|
            #![trigger gives(entries, key, at)]
            gives(entries, key, at) && (forall|later: int|
                at < later < entries.len() ==> !gives(entries, key, later))
                ==> attributes(entries)[key] == coerce(entries[at].1)->Some_0,
    decreases entries.len(),
{
    if entries.len() > 0 {
        let earlier = entries.drop_last();
        let last = entries.len() - 1;
        lemma_attributes_last_wins(earlier, key);
        assert forall|at: int| gives(earlier, key, at) implies gives(entries, key, at) by {}
        if attributes(entries).contains_key(key) && !gives(entries, key, last) {
            assert(attributes(earlier).contains_key(key));
            let at = choose|at: int| gives(earlier, key, at);
            assert(gives(entries, key, at));
        }
        if exists|at: int| gives(entries, key, at) {
            let at = choose|at: int| gives(entries, key, at);
            if at < last {
                assert(gives(earlier, key, at));
            }
        }
        assert forall|at: int|
            #![trigger gives(entries, key, at)]
            gives(entries, key, at) && (forall|later: int|
                at < later < entries.len() ==> !gives(entries, key, later)) implies attributes(
            entries,
        )[key] == coerce(entries[at].1)->Some_0 by {
            if at < last {
                assert(!gives(entries, key, last));
                assert(gives(earlier, key, at));
                assert forall|later: int| at < later < earlier.len() implies !gives(
                    earlier,
                    key,
                    later,
                ) by {
                    assert(!gives(entries, key, later));
                }
            }
        }
    }
}

/// The attributes of finitely many entries are finitely many.
pub proof fn lemma_attributes_finite(entries: Seq<(Seq<char>, ConfigModel)>)
    ensures
        attributes(entries).dom().finite(),
        attributes(entries).len() <= entries.len(),
    decreases entries.len(),
{
    if entries.len() > 0 {
        lemma_attributes_finite(entries.drop_last());
    }
}

/// The case of an attribute key does not matter: two lists of entries that
/// agree in their values and, once lower-cased, in their keys give the same
/// attributes.
pub proof fn lemma_attribute_keys_ignore_case(
    one: Seq<(Seq<char>, ConfigModel)>,
    other: Seq<(Seq<char>, ConfigModel)>,
)
    requires
        one.len() == other.len(),
        forall|i: int|
            0 <= i < one.len() ==> lowercase(one[i].0) == lowercase(other[i].0) && one[i].1
                == other[i].1,
    ensures
        attributes(one) == attributes(other),
    decreases one.len(),
{
    if one.len() > 0 {
        lemma_attribute_keys_ignore_case(one.drop_last(), other.drop_last());
    }
}

/// Two widgets in hash form whose one entry differs only in the case of its
/// key are the same widget. The key `children` itself is no attribute key,
/// so neither key may be that word as it stands.
pub proof fn lemma_widget_attribute_ignores_case(
    name: Seq<char>,
    key: Seq<char>,
    other_key: Seq<char>,
    value: ConfigModel,
)
    requires
        lowercase(key) == lowercase(other_key),
        key != "children"@,
        other_key != "children"@,
    ensures
        widget_use(ConfigModel::Hash(seq![(name, ConfigModel::Hash(seq![(key, value)]))]))
            == widget_use(
            ConfigModel::Hash(seq![(name, ConfigModel::Hash(seq![(other_key, value)]))]),
        ),
{
    let one = seq![(key, value)];
    let other = seq![(other_key, value)];
    lemma_position_none(one, "children"@);
    lemma_position_none(other, "children"@);
    lemma_attribute_keys_ignore_case(one, other);
}

/// A hash without the key `structure` describes no definition: building
/// one fails and names the missing key and the definition.
pub proof fn lemma_definition_needs_structure(
    name: Seq<char>,
    entries: Seq<(Seq<char>, ConfigModel)>,
)
    requires
        forall|i: int| 0 <= i < entries.len() ==> entries[i].0 != "structure"@,
    ensures
        definition(name, ConfigModel::Hash(entries)) == Err::<DefinitionModel, ErrorModel>(
            ErrorModel::MissingField { field: "structure"@, definition: name },
        ),
{
    lemma_position_none(entries, "structure"@);
}

/// A definition with a width but no height, or a height but no width, is
/// still a definition, and it has no size.
pub proof fn lemma_size_needs_both(name: Seq<char>, entries: Seq<(Seq<char>, ConfigModel)>)
    requires
        lookup(entries, "structure"@) matches Some(structure) && widget_use(structure) is Ok,
        lookup(entries, "size_x"@) is None || lookup(entries, "size_y"@) is None,
    ensures
        definition(name, ConfigModel::Hash(entries)) matches Ok(made) && made.size is None,
{
}

} // verus!
