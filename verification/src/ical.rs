//! The calendar-document library behind contracts: building a to-do entry,
//! writing it out as a document, and reading one back.

use crate::model::TaskStatus;
use crate::text::{decimal_text, folds, is_plain_name, occurrences, uppercase_text};
use vstd::prelude::*;

verus! {

#[verifier::external_type_specification]
#[verifier::external_body]
pub struct ExTodo(icalendar::Todo);

/// One property of an entry: its value and its parameters by name.
pub ghost struct PropertyModel {
    pub value: Seq<char>,
    pub params: Map<Seq<char>, Seq<char>>,
}

/// What a to-do entry holds: the properties that occur once, by name; those
/// that may repeat, by name and in order; and the number of nested
/// components.
pub ghost struct TodoModel {
    pub properties: Map<Seq<char>, PropertyModel>,
    pub multi_properties: Map<Seq<char>, Seq<PropertyModel>>,
    pub children: nat,
}

/// A property without parameters.
pub open spec fn plain(value: Seq<char>) -> PropertyModel {
    PropertyModel { value, params: Map::empty() }
}

/// A property with one parameter.
pub open spec fn with_param(value: Seq<char>, name: Seq<char>, param: Seq<char>) -> PropertyModel {
    PropertyModel { value, params: Map::empty().insert(name, param) }
}

impl TodoModel {
    /// An entry that holds nothing.
    pub open spec fn empty() -> TodoModel {
        TodoModel { properties: Map::empty(), multi_properties: Map::empty(), children: 0 }
    }

    /// The entry with the single property `key` set to `value`.
    pub open spec fn set(self, key: Seq<char>, value: Seq<char>) -> TodoModel {
        TodoModel { properties: self.properties.insert(key, plain(value)), ..self }
    }

    /// The repeated properties under `key`, in order.
    pub open spec fn repeated(self, key: Seq<char>) -> Seq<PropertyModel> {
        if self.multi_properties.contains_key(key) {
            self.multi_properties[key]
        } else {
            Seq::empty()
        }
    }

    /// The entry with one more repeated property under `key`.
    pub open spec fn append(self, key: Seq<char>, property: PropertyModel) -> TodoModel {
        TodoModel {
            multi_properties: self.multi_properties.insert(key, self.repeated(key).push(property)),
            ..self
        }
    }

    /// The value of the single property `key`, if the entry has it.
    pub open spec fn value(self, key: Seq<char>) -> Option<Seq<char>> {
        if self.properties.contains_key(key) {
            Some(self.properties[key].value)
        } else {
            None
        }
    }

    /// Every line of the entry can be folded.
    pub open spec fn foldable(self) -> bool {
        &&& forall|key: Seq<char>| #[trigger]
            self.properties.contains_key(key) ==> property_folds(key, self.properties[key])
        &&& forall|key: Seq<char>, i: int|
            self.multi_properties.contains_key(key) && 0 <= i < self.multi_properties[key].len()
                ==> property_folds(key, #[trigger] self.multi_properties[key][i])
    }

    /// The entry can be written out: every line can be folded, and the
    /// library adds neither a time stamp nor an identifier of its own.
    pub open spec fn writable(self) -> bool {
        &&& self.children == 0
        &&& self.properties.contains_key("DTSTAMP"@)
        &&& self.properties.contains_key("UID"@)
        &&& self.foldable()
    }
}

/// The line of a property can be folded: its key and its parameters are
/// plain names, and its value can stand in a folded line.
pub open spec fn property_folds(key: Seq<char>, property: PropertyModel) -> bool {
    &&& is_plain_name(key)
    &&& forall|name: Seq<char>| #[trigger]
        property.params.contains_key(name) ==> is_plain_name(name) && is_plain_name(
            property.params[name],
        )
    &&& folds(property.value)
}

/// The keyword that stands for a status in a document.
pub open spec fn status_keyword(status: TaskStatus) -> Seq<char> {
    match status {
        TaskStatus::NeedsAction => "NEEDS-ACTION"@,
        TaskStatus::InProcess => "IN-PROCESS"@,
        TaskStatus::Completed => "COMPLETED"@,
        TaskStatus::Cancelled => "CANCELLED"@,
    }
}

/// What a to-do entry holds.
pub uninterp spec fn todo_model(todo: icalendar::Todo) -> TodoModel;

/// The document that holds one to-do entry with the given contents.
pub uninterp spec fn document_text(model: TodoModel) -> Seq<char>;

/// What reading a document gives: for each of its components in order the
/// contents of a to-do entry, or nothing for a component of another kind; or
/// the reader's complaint.
pub uninterp spec fn parsed_components(text: Seq<char>) -> Result<
    Seq<Option<TodoModel>>,
    Seq<char>,
>;

/// What a list of components holds: the contents of each to-do entry.
pub open spec fn entry_models(components: Seq<Option<icalendar::Todo>>) -> Seq<Option<TodoModel>> {
    components.map_values(
        |c: Option<icalendar::Todo>|
            match c {
                Some(todo) => Some(todo_model(todo)),
                None => None,
            },
    )
}

/// The first to-do entry among some components, where there is one.
pub open spec fn first_entry(components: Seq<Option<TodoModel>>) -> Option<TodoModel>
    decreases components.len(),
{
    if components.len() == 0 {
        None
    } else if components[0] is Some {
        components[0]
    } else {
        first_entry(components.skip(1))
    }
}

/// The most components that a document may open and still be read.
pub const MAX_COMPONENTS: usize = 64;

/// The document opens few components: the word that opens a component, in
/// whatever case, occurs at most 64 times.
pub open spec fn nests_little(text: Seq<char>) -> bool {
    occurrences(uppercase_text(text), "BEGIN:"@) <= MAX_COMPONENTS
}

/// The complaint about a document that opens too many components.
pub open spec fn too_nested() -> Seq<char> {
    "too many components"@
}

/// What a document gives to read a task from: the contents of its first
/// to-do entry, no entry, or a complaint: the reader's, or that the
/// document opens too many components to be handed to the reader.
pub open spec fn parsed_todo(text: Seq<char>) -> Result<Option<TodoModel>, Seq<char>> {
    if !nests_little(text) {
        Err(too_nested())
    } else {
        match parsed_components(text) {
            Ok(components) => Ok(first_entry(components)),
            Err(e) => Err(e),
        }
    }
}

/// A new, empty to-do entry.
///
/// Trusted: `icalendar::Todo::new` gives an entry without properties and
/// without nested components.
#[verifier::external_body]
pub(crate) fn todo_new() -> (todo: icalendar::Todo)
    ensures
        todo_model(todo) == TodoModel::empty(),
{
    icalendar::Todo::new()
}

/// Sets the single property `key` to `value`.
///
/// Trusted: `icalendar::Component::add_property` stores a property without
/// parameters under its key, in place of one already there, and touches
/// nothing else.
#[verifier::external_body]
pub(crate) fn todo_add_property(todo: &mut icalendar::Todo, key: &str, value: &str)
    ensures
        todo_model(*final(todo)) == todo_model(*old(todo)).set(key@, value@),
{
    icalendar::Component::add_property(todo, key, value);
}

/// Sets the status.
///
/// Trusted: `icalendar::Todo::status` stores the property `STATUS` with the
/// keyword of the status as its value.
#[verifier::external_body]
pub(crate) fn todo_status(todo: &mut icalendar::Todo, status: TaskStatus)
    ensures
        todo_model(*final(todo)) == todo_model(*old(todo)).set(
            "STATUS"@,
            status_keyword(status),
        ),
{
    todo.status(
        match status {
            TaskStatus::NeedsAction => icalendar::TodoStatus::NeedsAction,
            TaskStatus::InProcess => icalendar::TodoStatus::InProcess,
            TaskStatus::Completed => icalendar::TodoStatus::Completed,
            TaskStatus::Cancelled => icalendar::TodoStatus::Cancelled,
        },
    );
}

/// Sets the priority.
///
/// Trusted: `icalendar::Component::priority` stores the property `PRIORITY`
/// with the decimal digits of the priority, or of 10 where it is larger.
#[verifier::external_body]
pub(crate) fn todo_priority(todo: &mut icalendar::Todo, priority: u32)
    ensures
        todo_model(*final(todo)) == todo_model(*old(todo)).set(
            "PRIORITY"@,
            decimal_text(
                if priority <= 10 {
                    priority as int
                } else {
                    10
                },
            ),
        ),
{
    icalendar::Component::priority(todo, priority);
}

/// Adds a repeated property without parameters.
///
/// Trusted: `icalendar::Component::append_multi_property` puts the property
/// after those already stored under its key and touches nothing else.
#[verifier::external_body]
pub(crate) fn todo_append(todo: &mut icalendar::Todo, key: &str, value: &str)
    ensures
        todo_model(*final(todo)) == todo_model(*old(todo)).append(key@, plain(value@)),
{
    icalendar::Component::append_multi_property(todo, icalendar::Property::new(key, value));
}

/// Adds a repeated property with one parameter.
///
/// Trusted: `icalendar::Property::add_parameter` gives the property that
/// parameter, and `icalendar::Component::append_multi_property` puts the
/// property after those already stored under its key.
#[verifier::external_body]
pub(crate) fn todo_append_with(
    todo: &mut icalendar::Todo,
    key: &str,
    value: &str,
    name: &str,
    param: &str,
)
    ensures
        todo_model(*final(todo)) == todo_model(*old(todo)).append(
            key@,
            with_param(value@, name@, param@),
        ),
{
    let mut property = icalendar::Property::new(key, value);
    property.add_parameter(name, param);
    icalendar::Component::append_multi_property(todo, property);
}

/// The document that holds this entry alone.
///
/// Trusted: a new `icalendar::Calendar` with the entry pushed, written out by
/// its `Display`. The text depends on the entry's contents alone where the
/// entry has a time stamp and an identifier and no nested components;
/// otherwise the library would add the current time or a random identifier.
///
/// The writer folds each line of more than 75 bytes (`fold_line`), 74 bytes
/// on from the last fold. Looking for the place of a fold it steps back to a
/// character boundary, at most three bytes, and it steps back one byte more
/// each time the character whose index is the byte position just reached
/// is white space. In a line of ASCII that happens once at most. In any
/// line two such characters found one after the other lie two to four
/// characters apart, and the search stops within four bytes of the last one
/// found. So with at most fifteen white-space characters in a cluster the
/// search steps back 63 bytes at most and the fold moves on; with more, the
/// writer may cut a line backwards or never end. Keys and parameters hold
/// no white space, and escaping a value only moves its white space apart,
/// so the clusters of a line are clusters of its value. Hence the demand
/// that every line can be folded.
#[verifier::external_body]
pub(crate) fn calendar_text(todo: icalendar::Todo) -> (text: String)
    requires
        todo_model(todo).writable(),
    ensures
        text@ == document_text(todo_model(todo)),
{
    let mut calendar = icalendar::Calendar::new();
    calendar.push(todo);
    calendar.to_string()
}

/// Reads a document and hands out its components in order: each to-do
/// entry, and nothing in the place of a component of another kind.
///
/// Trusted: `icalendar::Calendar`'s `FromStr`, then the components of the
/// calendar, each told apart by its kind. The outcome depends on the text
/// alone. The reader calls itself once for each component that is opened
/// inside another, and it takes the opening word in any case; a text that
/// opens few components keeps it from descending without end.
#[verifier::external_body]
pub(crate) fn parse_components(raw: &str) -> (r: Result<Vec<Option<icalendar::Todo>>, String>)
    requires
        nests_little(raw@),
    ensures
        match r {
            Ok(components) => parsed_components(raw@) == Ok::<Seq<Option<TodoModel>>, Seq<char>>(
                entry_models(components@),
            ),
            Err(e) => parsed_components(raw@) == Err::<Seq<Option<TodoModel>>, Seq<char>>(e@),
        },
{
    let calendar: icalendar::Calendar = raw.parse()?;
    Ok(
        calendar.components.iter().map(
            |c| match c {
                icalendar::CalendarComponent::Todo(t) => Some(t.clone()),
                _ => None,
            },
        ).collect(),
    )
}

/// The value of the single property `key`.
///
/// Trusted: `icalendar::Component::property_value` looks the key up among
/// the properties that occur once and gives the value stored there.
#[verifier::external_body]
pub(crate) fn todo_value(todo: &icalendar::Todo, key: &str) -> (r: Option<String>)
    ensures
        r.deep_view() == todo_model(*todo).value(key@),
{
    icalendar::Component::property_value(todo, key).map(|v| v.to_string())
}

} // verus!
