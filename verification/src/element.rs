use crate::attrs::AttrMap;
use crate::config::{
    as_i64, entry_views, find_key, lemma_array_view, lemma_hash_view, lookup, position, views,
    ConfigModel, ConfigValue,
};
use crate::error::{ConfigError, ErrorModel};
use crate::text::{lowercase, to_lowercase};
use crate::value::{coerce, AttrModel, AttrValue};
use vstd::prelude::*;

verus! {

/// A named widget template: the widget tree that it stands for and, where
/// both are given, its width and height.
#[derive(Debug, PartialEq)]
pub struct WidgetDefinition {
    pub name: String,
    pub structure: WidgetUse,
    pub size: Option<(i32, i32)>,
}

/// What a [`WidgetDefinition`] stands for in contracts.
pub struct DefinitionModel {
    pub name: Seq<char>,
    pub structure: WidgetModel,
    pub size: Option<(i32, i32)>,
}

impl View for WidgetDefinition {
    type V = DefinitionModel;

    open spec fn view(&self) -> DefinitionModel {
        DefinitionModel { name: self.name@, structure: self.structure@, size: self.size }
    }
}

impl Clone for WidgetDefinition {
    fn clone(&self) -> (copy: Self)
        ensures
            copy@ == self@,
    {
        WidgetDefinition {
            name: self.name.clone(),
            structure: self.structure.clone(),
            size: self.size,
        }
    }
}

/// The size that a width and a height give: both, each cut down to its low
/// 32 bits, or none if either is missing.
pub open spec fn size_pair(width: Option<i64>, height: Option<i64>) -> Option<(i32, i32)> {
    match (width, height) {
        (Some(x), Some(y)) => Some((x as i32, y as i32)),
        _ => None,
    }
}

/// The integer under `key` in `entries`, if the key is there and its value
/// reads as an integer.
pub open spec fn entry_i64(entries: Seq<(Seq<char>, ConfigModel)>, key: Seq<char>) -> Option<i64> {
    match lookup(entries, key) {
        Some(value) => as_i64(value),
        None => None,
    }
}

/// The definition `name` that a configuration value describes.
///
/// The value must be a hash with the key `structure`, whose value describes
/// the widget tree. The size is taken from `size_x` and `size_y` where both
/// read as integers; a size that is missing or unreadable is no error.
pub open spec fn definition(name: Seq<char>, data: ConfigModel) -> Result<
    DefinitionModel,
    ErrorModel,
> {
    match data {
        ConfigModel::Hash(entries) => match lookup(entries, "structure"@) {
            Some(structure) => match widget_use(structure) {
                Ok(structure) => Ok(
                    DefinitionModel {
                        name,
                        structure,
                        size: size_pair(
                            entry_i64(entries, "size_x"@),
                            entry_i64(entries, "size_y"@),
                        ),
                    },
                ),
                Err(error) => Err(error),
            },
            None => Err(ErrorModel::MissingField { field: "structure"@, definition: name }),
        },
        _ => Err(ErrorModel::NotAHash { value: data }),
    }
}

/// What a result of building a definition stands for in contracts.
pub open spec fn definition_outcome(made: Result<WidgetDefinition, ConfigError>) -> Result<
    DefinitionModel,
    ErrorModel,
> {
    match made {
        Ok(definition) => Ok(definition@),
        Err(error) => Err(error@),
    }
}

impl WidgetDefinition {
    /// Builds the definition `name` that `hocon` describes.
    pub fn parse_hocon(name: String, hocon: &ConfigValue) -> (made: Result<Self, ConfigError>)
        ensures
            definition_outcome(made) == definition(name@, hocon@),
    {
        let entries = match hocon.as_hash() {
            Ok(entries) => entries,
            Err(error) => {
                return Err(error);
            },
        };
        let structure_key = "structure".to_owned();
        let structure = match find_key(entries, &structure_key) {
            Some(at) => match WidgetUse::parse_hocon(entries[at].1.clone()) {
                Ok(structure) => structure,
                Err(error) => {
                    return Err(error);
                },
            },
            None => {
                return Err(ConfigError::MissingField { field: structure_key, definition: name });
            },
        };
        let width = read_i64(entries, &"size_x".to_owned());
        let height = read_i64(entries, &"size_y".to_owned());
        Ok(WidgetDefinition { name, structure, size: WidgetDefinition::size_of(width, height) })
    }

    /// The size that a width and a height give, if both are there.
    pub fn size_of(width: Option<i64>, height: Option<i64>) -> (size: Option<(i32, i32)>)
        ensures
            size == size_pair(width, height),
    {
        match (width, height) {
            (Some(x), Some(y)) => Some((#[verifier::truncate] (x as i32), #[verifier::truncate] (y as i32))),
            _ => None,
        }
    }
}

/// Reads the value under `key` in `entries` as an integer.
fn read_i64(entries: &Vec<(String, ConfigValue)>, key: &String) -> (number: Option<i64>)
    ensures
        number == entry_i64(entry_views(entries@), key@),
{
    match find_key(entries, key) {
        Some(at) => entries[at].1.as_i64(),
        None => None,
    }
}

/// One widget in a widget tree: the name of the widget to show, the widgets
/// inside it in order, and its attributes under lower-cased keys.
#[derive(Debug, PartialEq)]
pub struct WidgetUse {
    pub name: String,
    pub children: Vec<WidgetUse>,
    pub attrs: AttrMap,
}

/// What a [`WidgetUse`] stands for in contracts.
pub struct WidgetModel {
    pub name: Seq<char>,
    pub children: Seq<WidgetModel>,
    pub attrs: Map<Seq<char>, AttrModel>,
}

impl WidgetUse {
    /// The model of this widget: the same tree over sequences and maps.
    pub open spec fn model(self) -> WidgetModel
        decreases self,
    {
        WidgetModel {
            name: self.name@,
            children: Seq::new(
                self.children.len() as nat,
                |i: int|
                    if 0 <= i < self.children.len() {
                        self.children[i].model()
                    } else {
                        WidgetModel { name: Seq::empty(), children: Seq::empty(), attrs: Map::empty() }
                    },
            ),
            attrs: self.attrs@,
        }
    }
}

impl View for WidgetUse {
    type V = WidgetModel;

    open spec fn view(&self) -> WidgetModel {
        self.model()
    }
}

/// The models of the widgets in `widgets`, in order.
pub open spec fn widget_views(widgets: Seq<WidgetUse>) -> Seq<WidgetModel> {
    Seq::new(widgets.len(), |i: int| widgets[i]@)
}

/// A widget's model holds the models of its children.
pub proof fn lemma_widget_view(widget: WidgetUse)
    ensures
        widget@ == (WidgetModel {
            name: widget.name@,
            children: widget_views(widget.children@),
            attrs: widget.attrs@,
        }),
{
    assert(widget@.children =~= widget_views(widget.children@));
}

impl Clone for WidgetUse {
    #[verifier::loop_isolation(false)]
    fn clone(&self) -> (copy: Self)
        ensures
            copy@ == self@,
        decreases self,
    {
        let mut children: Vec<WidgetUse> = Vec::new();
        let mut i: usize = 0;
        while i < self.children.len()
            invariant
                i <= self.children.len(),
                children.len() == i,
                forall|j: int| 0 <= j < i ==> children[j]@ == self.children[j]@,
            decreases self.children.len() - i,
        {
            children.push(self.children[i].clone());
            i += 1;
        }
        let copy = WidgetUse { name: self.name.clone(), children, attrs: self.attrs.clone() };
        proof {
            lemma_widget_view(copy);
            lemma_widget_view(*self);
            assert(widget_views(copy.children@) =~= widget_views(self.children@));
        }
        copy
    }
}

impl Default for WidgetUse {
    fn default() -> (widget: Self)
        ensures
            widget@ == (WidgetModel {
                name: Seq::empty(),
                children: Seq::empty(),
                attrs: Map::empty(),
            }),
    {
        let widget = WidgetUse { name: String::new(), children: Vec::new(), attrs: AttrMap::new() };
        proof {
            lemma_widget_view(widget);
            assert(widget_views(widget.children@) =~= Seq::empty());
        }
        widget
    }
}

/// The widget that stands for a bare value: a `label` whose one attribute,
/// `text`, holds the value.
pub open spec fn label(text: AttrModel) -> WidgetModel {
    WidgetModel {
        name: "label"@,
        children: Seq::empty(),
        attrs: Map::<Seq<char>, AttrModel>::empty().insert("text"@, text),
    }
}

/// Whether `at` is the first place in `results` that holds an error.
pub open spec fn first_error<T, E>(results: Seq<Result<T, E>>, at: int) -> bool {
    &&& 0 <= at < results.len()
    &&& results[at] is Err
    &&& forall|before: int| 0 <= before < at ==> results[before] is Ok
}

/// All of `results` in order if none is an error, else the first error.
pub open spec fn collect<T, E>(results: Seq<Result<T, E>>) -> Result<Seq<T>, E> {
    if exists|at: int| first_error(results, at) {
        Err(results[choose|at: int| first_error(results, at)]->Err_0)
    } else {
        Ok(Seq::new(results.len(), |i: int| results[i]->Ok_0))
    }
}

/// The `label` for a value that coerces to an attribute value, and the
/// coercion error for one that does not.
pub open spec fn text_label(value: ConfigModel) -> Result<WidgetModel, ErrorModel> {
    match coerce(value) {
        Some(text) => Ok(label(text)),
        None => Err(ErrorModel::AttrValueCoercionFailed { value }),
    }
}

/// The widget `name` around `children` and without attributes, or the error
/// that `children` holds.
pub open spec fn with_children(
    name: Seq<char>,
    children: Result<Seq<WidgetModel>, ErrorModel>,
) -> Result<WidgetModel, ErrorModel> {
    match children {
        Ok(children) => Ok(WidgetModel { name, children, attrs: Map::empty() }),
        Err(error) => Err(error),
    }
}

/// The attributes that the entries of a widget's hash give: each entry
/// whose value coerces is set under its lower-cased key, in order, so that
/// of two entries with one lower-cased key the later one stays. An entry
/// whose value does not coerce is left out.
pub open spec fn attributes(entries: Seq<(Seq<char>, ConfigModel)>) -> Map<Seq<char>, AttrModel>
    decreases entries.len(),
{
    if entries.len() == 0 {
        Map::empty()
    } else {
        let earlier = attributes(entries.drop_last());
        match coerce(entries.last().1) {
            Some(value) => earlier.insert(lowercase(entries.last().0), value),
            None => earlier,
        }
    }
}

/// The widget that a configuration value describes.
///
/// A hash names a widget by its first entry: the key is the widget's name,
/// and the value is either a hash of attributes and children or the
/// children themselves. Any other value is shown as a `label`.
pub open spec fn widget_use(data: ConfigModel) -> Result<WidgetModel, ErrorModel>
    decreases data,
{
    match data {
        ConfigModel::Hash(entries) => {
            if entries.len() == 0 {
                Err(ErrorModel::EmptyWidgetUse)
            } else {
                match entries[0].1 {
                    ConfigModel::Hash(config) => hash_definition(entries[0].0, config),
                    direct_children => with_children(entries[0].0, children_list(direct_children)),
                }
            }
        },
        _ => text_label(data),
    }
}

/// The widget `name` that a hash of attributes and children describes: the
/// first entry under the key `children` gives the children, and the other
/// entries give the attributes.
pub open spec fn hash_definition(
    name: Seq<char>,
    config: Seq<(Seq<char>, ConfigModel)>,
) -> Result<WidgetModel, ErrorModel>
    decreases config,
{
    match position(config, "children"@) {
        Some(at) => match children_list(config[at].1) {
            Ok(children) => Ok(
                WidgetModel { name, children, attrs: attributes(config.remove(at)) },
            ),
            Err(error) => Err(error),
        },
        None => Ok(WidgetModel { name, children: Seq::empty(), attrs: attributes(config) }),
    }
}

/// The widgets that the value at a children position describes, in order:
/// an array gives one widget for each item, any other value but a hash
/// gives one `label`, and a hash is refused.
pub open spec fn children_list(children: ConfigModel) -> Result<Seq<WidgetModel>, ErrorModel>
    decreases children,
{
    match children {
        ConfigModel::Hash(_) => Err(ErrorModel::InvalidChildrenShape { value: children }),
        ConfigModel::Array(items) => collect(each_use(items)),
        _ => match text_label(children) {
            Ok(only) => Ok(seq![only]),
            Err(error) => Err(error),
        },
    }
}

/// What [`widget_use`] gives for each of `items`, in order.
pub open spec fn each_use(items: Seq<ConfigModel>) -> Seq<Result<WidgetModel, ErrorModel>>
    decreases items,
{
    Seq::new(
        items.len(),
        |i: int|
            if 0 <= i < items.len() {
                widget_use(items[i])
            } else {
                Err(ErrorModel::EmptyWidgetUse)
            },
    )
}

/// The widget `name` whose children the array `items` describes.
pub open spec fn array_definition(name: Seq<char>, items: Seq<ConfigModel>) -> Result<
    WidgetModel,
    ErrorModel,
> {
    with_children(name, collect(each_use(items)))
}

/// What a result of building a widget stands for in contracts.
pub open spec fn use_outcome(made: Result<WidgetUse, ConfigError>) -> Result<
    WidgetModel,
    ErrorModel,
> {
    match made {
        Ok(widget) => Ok(widget@),
        Err(error) => Err(error@),
    }
}

/// What a result of building a list of children stands for in contracts.
pub open spec fn children_outcome(made: Result<Vec<WidgetUse>, ConfigError>) -> Result<
    Seq<WidgetModel>,
    ErrorModel,
> {
    match made {
        Ok(widgets) => Ok(widget_views(widgets@)),
        Err(error) => Err(error@),
    }
}

impl WidgetUse {
    /// A widget with the given name and children, and no attributes.
    pub fn new(name: String, children: Vec<WidgetUse>) -> (widget: Self)
        ensures
            widget@ == (WidgetModel {
                name: name@,
                children: widget_views(children@),
                attrs: Map::empty(),
            }),
    {
        let widget = WidgetUse { name, children, attrs: AttrMap::new() };
        proof {
            lemma_widget_view(widget);
        }
        widget
    }

    /// The `label` widget that shows `text`.
    pub fn simple_text(text: AttrValue) -> (widget: Self)
        ensures
            widget@ == label(text@),
    {
        let mut attrs = AttrMap::new();
        attrs.insert("text".to_owned(), text);
        let widget = WidgetUse { name: "label".to_owned(), children: Vec::new(), attrs };
        proof {
            lemma_widget_view(widget);
            assert(widget_views(widget.children@) =~= Seq::empty());
        }
        widget
    }

    /// The value of the attribute `key`, or the error that names the key and
    /// this widget where there is no such attribute.
    pub fn get_attr(&self, key: &str) -> (found: Result<&AttrValue, ConfigError>)
        ensures
            match found {
                Ok(value) => self@.attrs.contains_key(key@) && value@ == self@.attrs[key@],
                Err(error) => !self@.attrs.contains_key(key@) && error@ == (
                ErrorModel::MissingAttribute { key: key@, widget: self@.name }),
            },
    {
        match self.attrs.get(key) {
            Some(value) => Ok(value),
            None => Err(
                ConfigError::MissingAttribute { key: key.to_owned(), widget: self.name.clone() },
            ),
        }
    }
}

impl WidgetUse {
    /// Builds the widget that `data` describes.
    pub fn parse_hocon(data: ConfigValue) -> (made: Result<Self, ConfigError>)
        ensures
            use_outcome(made) == widget_use(data@),
        decreases data,
    {
        match data {
            ConfigValue::Hash(entries) => {
                let mut entries = entries;
                proof {
                    lemma_hash_view(entries);
                }
                if entries.len() == 0 {
                    return Err(ConfigError::EmptyWidgetUse);
                }
                let (widget_name, widget_config) = entries.remove(0);
                match widget_config {
                    ConfigValue::Hash(inner) => {
                        proof {
                            lemma_hash_view(inner);
                        }
                        WidgetUse::from_hash_definition(widget_name, inner)
                    },
                    direct_children => match parse_widget_use_children(direct_children) {
                        Ok(children) => Ok(WidgetUse::new(widget_name, children)),
                        Err(error) => Err(error),
                    },
                }
            },
            primitive => match AttrValue::try_from_config(&primitive) {
                Some(text) => Ok(WidgetUse::simple_text(text)),
                None => Err(ConfigError::AttrValueCoercionFailed { value: primitive }),
            },
        }
    }

    /// Builds the widget `widget_name` from the array of its children.
    pub fn from_array_definition(widget_name: String, children: Vec<ConfigValue>) -> (made: Result<
        Self,
        ConfigError,
    >)
        ensures
            use_outcome(made) == array_definition(widget_name@, views(children@)),
    {
        match parse_each(children) {
            Ok(children) => Ok(WidgetUse::new(widget_name, children)),
            Err(error) => Err(error),
        }
    }

    /// Builds the widget `widget_name` from the hash of its attributes and
    /// children.
    ///
    /// An entry whose value is no attribute value is left out and is no
    /// error; only the children can make this fail.
    pub fn from_hash_definition(
        widget_name: String,
        widget_config: Vec<(String, ConfigValue)>,
    ) -> (made: Result<Self, ConfigError>)
        ensures
            use_outcome(made) == hash_definition(widget_name@, entry_views(widget_config@)),
        decreases widget_config,
    {
        let mut config = widget_config;
        let children_key = "children".to_owned();
        let children = match find_key(&config, &children_key) {
            Some(at) => {
                let (_, value) = config.remove(at);
                proof {
                    assert(entry_views(config@) =~= entry_views(widget_config@).remove(at as int));
                }
                match parse_widget_use_children(value) {
                    Ok(children) => children,
                    Err(error) => {
                        return Err(error);
                    },
                }
            },
            None => Vec::new(),
        };
        let ghost rest = entry_views(config@);
        let mut attrs = AttrMap::new();
        let mut i: usize = 0;
        while i < config.len()
            invariant
                i <= config.len(),
                rest == entry_views(config@),
                attrs@ == attributes(rest.take(i as int)),
            decreases config.len() - i,
        {
            let key = to_lowercase(config[i].0.as_str());
            match AttrValue::try_from_config(&config[i].1) {
                Some(value) => {
                    attrs.insert(key, value);
                },
                None => {},
            }
            proof {
                assert(rest.take(i + 1).drop_last() =~= rest.take(i as int));
            }
            i += 1;
        }
        proof {
            assert(rest.take(i as int) =~= rest);
        }
        let widget = WidgetUse { name: widget_name, children, attrs };
        proof {
            lemma_widget_view(widget);
            assert(widget_views(Seq::<WidgetUse>::empty()) =~= Seq::empty());
        }
        Ok(widget)
    }
}

/// Builds the widgets that the value at a children position describes.
pub fn parse_widget_use_children(children: ConfigValue) -> (made: Result<
    Vec<WidgetUse>,
    ConfigError,
>)
    ensures
        children_outcome(made) == children_list(children@),
    decreases children,
{
    match children {
        ConfigValue::Hash(entries) => Err(
            ConfigError::InvalidChildrenShape { value: ConfigValue::Hash(entries) },
        ),
        ConfigValue::Array(items) => {
            proof {
                lemma_array_view(items);
            }
            parse_each(items)
        },
        primitive => match AttrValue::try_from_config(&primitive) {
            Some(text) => {
                let mut only: Vec<WidgetUse> = Vec::new();
                only.push(WidgetUse::simple_text(text));
                proof {
                    assert(widget_views(only@) =~= seq![label(text@)]);
                }
                Ok(only)
            },
            None => Err(ConfigError::AttrValueCoercionFailed { value: primitive }),
        },
    }
}

/// Builds one widget for each of `items`, in order, and stops at the first
/// that fails.
fn parse_each(items: Vec<ConfigValue>) -> (made: Result<Vec<WidgetUse>, ConfigError>)
    ensures
        children_outcome(made) == collect(each_use(views(items@))),
    decreases items,
{
    let ghost results = each_use(views(items@));
    let mut widgets: Vec<WidgetUse> = Vec::new();
    for item in iter: items
        invariant
            results == each_use(views(items@)),
            widgets.len() == iter.index(),
            forall|i: int| 0 <= i < widgets.len() ==> results[i] == Ok::<WidgetModel, ErrorModel>(widgets[i]@),
    {
        match WidgetUse::parse_hocon(item) {
            Ok(widget) => {
                widgets.push(widget);
            },
            Err(error) => {
                proof {
                    lemma_collect_err(results, widgets.len() as int);
                }
                return Err(error);
            },
        }
    }
    proof {
        lemma_collect_ok(results);
        assert(widget_views(widgets@) =~= collect(results)->Ok_0);
    }
    Ok(widgets)
}

/// Collecting gives the error at `at` if that is the first error.
pub proof fn lemma_collect_err<T, E>(results: Seq<Result<T, E>>, at: int)
    requires
        first_error(results, at),
    ensures
        collect(results) == Err::<Seq<T>, E>(results[at]->Err_0),
{
    let chosen = choose|other: int| first_error(results, other);
    assert(first_error(results, chosen));
    if chosen < at {
        assert(results[chosen] is Ok);
    } else if at < chosen {
        assert(results[at] is Ok);
    }
}

/// Collecting gives every value in order if no result is an error.
pub proof fn lemma_collect_ok<T, E>(results: Seq<Result<T, E>>)
    requires
        forall|i: int| 0 <= i < results.len() ==> results[i] is Ok,
    ensures
        collect(results) == Ok::<Seq<T>, E>(Seq::new(results.len(), |i: int| results[i]->Ok_0)),
{
    assert forall|at: int| !first_error(results, at) by {
        if 0 <= at < results.len() {
            assert(results[at] is Ok);
        }
    }
}

} // verus!
