//! The codec engine: a declarative `CommandSpec` describes the
//! fields of one command type (prefix, positional, separator-joined
//! list, trailing, each required or optional), and one generic
//! algorithm decodes a `BaseMessage` into a typed `Record` and
//! encodes a `Record` back into wire text.

use vstd::prelude::*;

use crate::message::{BaseMessage, BaseMessageView, spec_command_text, spec_prefix_text};
use crate::text::{eq_ignore_case, spec_join, spec_split, split_string, str_eq, str_eq_ci,
    join_strings};

verus! {

/// The role a field plays in the wire form of a command.
#[derive(Debug)]
pub enum FieldRole {
    /// The field is bound to the textual form of the message prefix.
    Prefix,
    /// The field consumes one middle parameter.
    PositionalArg,
    /// The field holds a list. With a single-space separator it
    /// consumes all remaining middle parameters; with any other
    /// separator it consumes one middle parameter and splits it.
    SeparatedList(String),
    /// The field is bound to the trailing parameter.
    Trailing,
}

/// Mathematical form of a `FieldRole`.
pub enum FieldRoleView {
    Prefix,
    PositionalArg,
    SeparatedList(Seq<char>),
    Trailing,
}

impl View for FieldRole {
    type V = FieldRoleView;

    open spec fn view(&self) -> FieldRoleView {
        match self {
            FieldRole::Prefix => FieldRoleView::Prefix,
            FieldRole::PositionalArg => FieldRoleView::PositionalArg,
            FieldRole::SeparatedList(s) => FieldRoleView::SeparatedList(s@),
            FieldRole::Trailing => FieldRoleView::Trailing,
        }
    }
}

/// One field of a command: its identifier, its role, and whether a
/// message may leave it out.
#[derive(Debug)]
pub struct FieldSpec {
    pub id: String,
    pub role: FieldRole,
    pub optional: bool,
}

/// Mathematical form of a `FieldSpec`.
pub struct FieldSpecView {
    pub id: Seq<char>,
    pub role: FieldRoleView,
    pub optional: bool,
}

impl View for FieldSpec {
    type V = FieldSpecView;

    open spec fn view(&self) -> FieldSpecView {
        FieldSpecView { id: self.id@, role: self.role@, optional: self.optional }
    }
}

impl DeepView for FieldSpec {
    type V = FieldSpecView;

    open spec fn deep_view(&self) -> FieldSpecView {
        self.view()
    }
}

/// A field that consumes middle parameters.
pub open spec fn is_positional_field(f: FieldSpecView) -> bool {
    f.role is PositionalArg || f.role is SeparatedList
}

/// At most one field of the prefix role.
pub open spec fn spec_one_prefix(fields: Seq<FieldSpecView>) -> bool {
    forall|i: int, j: int|
        0 <= i < j < fields.len() && #[trigger] fields[i].role is Prefix ==> !(
        #[trigger] fields[j].role is Prefix)
}

/// At most one field of the trailing role.
pub open spec fn spec_one_trailing(fields: Seq<FieldSpecView>) -> bool {
    forall|i: int, j: int|
        0 <= i < j < fields.len() && #[trigger] fields[i].role is Trailing ==> !(
        #[trigger] fields[j].role is Trailing)
}

/// Every list field declares a non-empty separator.
pub open spec fn spec_separators_nonempty(fields: Seq<FieldSpecView>) -> bool {
    forall|i: int|
        0 <= i < fields.len() ==> match #[trigger] fields[i].role {
            FieldRoleView::SeparatedList(sep) => sep.len() >= 1,
            _ => true,
        }
}

/// A list field whose separator is a single space consumes all
/// remaining middle parameters, so it must be the last positional
/// field.
pub open spec fn spec_space_list_last(fields: Seq<FieldSpecView>) -> bool {
    forall|i: int, j: int|
        0 <= i < j < fields.len() && #[trigger] fields[i].role == FieldRoleView::SeparatedList(
            seq![' '],
        ) ==> !is_positional_field(#[trigger] fields[j])
}

/// Optional positional fields come after all required positional
/// fields: a message binds them by running short at the tail.
pub open spec fn spec_optional_suffix(fields: Seq<FieldSpecView>) -> bool {
    forall|i: int, j: int|
        0 <= i < j < fields.len() && is_positional_field(#[trigger] fields[i])
            && is_positional_field(#[trigger] fields[j]) && fields[i].optional
            ==> fields[j].optional
}

/// The construction-time invariants of a command spec.
pub open spec fn spec_fields_wf(fields: Seq<FieldSpecView>) -> bool {
    &&& spec_one_prefix(fields)
    &&& spec_one_trailing(fields)
    &&& spec_separators_nonempty(fields)
    &&& spec_space_list_last(fields)
    &&& spec_optional_suffix(fields)
}

/// A way a command spec can break its construction-time
/// invariants. Such a mistake is a configuration error, reported at
/// build time and never caused by a message.
#[derive(Debug, PartialEq, Eq)]
pub enum ConfigurationError {
    MultiplePrefixFields,
    MultipleTrailingFields,
    EmptySeparator,
    SpaceListNotLast,
    OptionalBeforeRequired,
    DuplicateCommandName,
}

/// The first construction-time invariant the fields break, checked
/// in a fixed order, or `None` where they are well formed.
pub open spec fn spec_fields_error(fields: Seq<FieldSpecView>) -> Option<ConfigurationError> {
    if !spec_one_prefix(fields) {
        Some(ConfigurationError::MultiplePrefixFields)
    } else if !spec_one_trailing(fields) {
        Some(ConfigurationError::MultipleTrailingFields)
    } else if !spec_separators_nonempty(fields) {
        Some(ConfigurationError::EmptySeparator)
    } else if !spec_space_list_last(fields) {
        Some(ConfigurationError::SpaceListNotLast)
    } else if !spec_optional_suffix(fields) {
        Some(ConfigurationError::OptionalBeforeRequired)
    } else {
        None
    }
}

/// The declarative description of one command type: its name and
/// its ordered fields. Built once by `new`, which enforces the
/// construction-time invariants, and immutable afterwards.
#[derive(Debug)]
pub struct CommandSpec {
    name: String,
    fields: Vec<FieldSpec>,
}

/// Mathematical form of a `CommandSpec`.
pub struct CommandSpecView {
    pub name: Seq<char>,
    pub fields: Seq<FieldSpecView>,
}

impl CommandSpecView {
    /// The construction-time invariants, stated of the whole spec.
    pub open spec fn wf(self) -> bool {
        spec_fields_wf(self.fields)
    }
}

impl View for CommandSpec {
    type V = CommandSpecView;

    closed spec fn view(&self) -> CommandSpecView {
        CommandSpecView { name: self.name@, fields: self.fields.deep_view() }
    }
}

/// Reports whether a second field of the prefix role occurs.
fn fields_second_prefix(fields: &Vec<FieldSpec>) -> (r: bool)
    ensures
        r == !spec_one_prefix(fields.deep_view()),
{
    let ghost fv = fields.deep_view();
    let mut seen = false;
    let mut i: usize = 0;
    while i < fields.len()
        invariant
            i <= fields.len(),
            fv == fields.deep_view(),
            fv.len() == fields.len(),
            seen == exists|t: int| 0 <= t < i && #[trigger] fv[t].role is Prefix,
            spec_one_prefix(fv.take(i as int)),
        decreases fields.len() - i,
    {
        let is_p = match &fields[i].role {
            FieldRole::Prefix => true,
            _ => false,
        };
        if is_p {
            if seen {
                proof {
                    let ghost t = choose|t: int| 0 <= t < i && #[trigger] fv[t].role is Prefix;
                    assert(fv[t].role is Prefix && fv[i as int].role is Prefix && t < i as int);
                }
                return true;
            }
            seen = true;
        }
        proof {
            assert(fv.take(i + 1).drop_last() =~= fv.take(i as int));
            assert forall|a: int, b: int|
                0 <= a < b < i + 1 && #[trigger] fv.take(i + 1)[a].role is Prefix implies !(
            #[trigger] fv.take(i + 1)[b].role is Prefix) by {
                if b == i as int {
                    assert(!(fv[a].role is Prefix) || !(fv[b].role is Prefix));
                }
            }
        }
        i = i + 1;
    }
    proof {
        assert(fv.take(fields.len() as int) =~= fv);
    }
    false
}

/// Reports whether a second field of the trailing role occurs.
fn fields_second_trailing(fields: &Vec<FieldSpec>) -> (r: bool)
    ensures
        r == !spec_one_trailing(fields.deep_view()),
{
    let ghost fv = fields.deep_view();
    let mut seen = false;
    let mut i: usize = 0;
    while i < fields.len()
        invariant
            i <= fields.len(),
            fv == fields.deep_view(),
            fv.len() == fields.len(),
            seen == exists|t: int| 0 <= t < i && #[trigger] fv[t].role is Trailing,
            spec_one_trailing(fv.take(i as int)),
        decreases fields.len() - i,
    {
        let is_t = match &fields[i].role {
            FieldRole::Trailing => true,
            _ => false,
        };
        if is_t {
            if seen {
                proof {
                    let ghost t = choose|t: int| 0 <= t < i && #[trigger] fv[t].role is Trailing;
                    assert(fv[t].role is Trailing && fv[i as int].role is Trailing && t < i as int);
                }
                return true;
            }
            seen = true;
        }
        proof {
            assert(fv.take(i + 1).drop_last() =~= fv.take(i as int));
            assert forall|a: int, b: int|
                0 <= a < b < i + 1 && #[trigger] fv.take(i + 1)[a].role is Trailing implies !(
            #[trigger] fv.take(i + 1)[b].role is Trailing) by {
                if b == i as int {
                    assert(!(fv[a].role is Trailing) || !(fv[b].role is Trailing));
                }
            }
        }
        i = i + 1;
    }
    proof {
        assert(fv.take(fields.len() as int) =~= fv);
    }
    false
}

/// Reports whether some list field declares an empty separator.
fn fields_empty_separator(fields: &Vec<FieldSpec>) -> (r: bool)
    ensures
        r == !spec_separators_nonempty(fields.deep_view()),
{
    let ghost fv = fields.deep_view();
    let mut i: usize = 0;
    while i < fields.len()
        invariant
            i <= fields.len(),
            fv == fields.deep_view(),
            fv.len() == fields.len(),
            forall|t: int|
                0 <= t < i ==> match #[trigger] fv[t].role {
                    FieldRoleView::SeparatedList(sep) => sep.len() >= 1,
                    _ => true,
                },
        decreases fields.len() - i,
    {
        match &fields[i].role {
            FieldRole::SeparatedList(sep) => {
                if sep.as_str().unicode_len() == 0 {
                    proof {
                        assert(fv[i as int].role == FieldRoleView::SeparatedList(sep@));
                        assert(!(match fv[i as int].role {
                            FieldRoleView::SeparatedList(s) => s.len() >= 1,
                            _ => true,
                        }));
                    }
                    return true;
                }
            },
            _ => {},
        }
        i = i + 1;
    }
    false
}

/// Reports whether a single-space list field is followed by a
/// further positional field.
fn fields_space_list_not_last(fields: &Vec<FieldSpec>) -> (r: bool)
    ensures
        r == !spec_space_list_last(fields.deep_view()),
{
    let ghost fv = fields.deep_view();
    let mut seen = false;
    let mut i: usize = 0;
    while i < fields.len()
        invariant
            i <= fields.len(),
            fv == fields.deep_view(),
            fv.len() == fields.len(),
            seen == exists|t: int|
                0 <= t < i && #[trigger] fv[t].role == FieldRoleView::SeparatedList(seq![' ']),
            spec_space_list_last(fv.take(i as int)),
        decreases fields.len() - i,
    {
        let f = &fields[i];
        let is_pos = match &f.role {
            FieldRole::PositionalArg => true,
            FieldRole::SeparatedList(_) => true,
            _ => false,
        };
        if is_pos && seen {
            proof {
                let ghost t = choose|t: int|
                    0 <= t < i && #[trigger] fv[t].role == FieldRoleView::SeparatedList(seq![' ']);
                assert(is_positional_field(fv[i as int]));
            }
            return true;
        }
        let is_space_list = match &f.role {
            FieldRole::SeparatedList(sep) => {
                sep.as_str().unicode_len() == 1 && sep.as_str().get_char(0) == ' '
            },
            _ => false,
        };
        if is_space_list {
            proof {
                let ghost sep = fv[i as int].role->SeparatedList_0;
                assert(sep =~= seq![' ']);
            }
            seen = true;
        }
        proof {
            if !is_space_list {
                match fv[i as int].role {
                    FieldRoleView::SeparatedList(sep) => {
                        if sep == seq![' '] {
                            assert(sep.len() == 1 && sep[0] == ' ');
                            assert(false);
                        }
                    },
                    _ => {},
                }
            }
            assert forall|a: int, b: int|
                0 <= a < b < i + 1 && #[trigger] fv.take(i + 1)[a].role
                    == FieldRoleView::SeparatedList(seq![' ']) implies !is_positional_field(
                #[trigger] fv.take(i + 1)[b],
            ) by {
                if b == i as int {
                    assert(fv[a].role == FieldRoleView::SeparatedList(seq![' ']));
                    assert(!(is_pos && seen));
                } else {
                    assert(spec_space_list_last(fv.take(i as int)));
                    assert(fv.take(i as int)[a] == fv[a] && fv.take(i as int)[b] == fv[b]);
                }
            }
        }
        i = i + 1;
    }
    proof {
        assert(fv.take(fields.len() as int) =~= fv);
    }
    false
}

/// Reports whether a required positional field follows an optional
/// one.
fn fields_optional_before_required(fields: &Vec<FieldSpec>) -> (r: bool)
    ensures
        r == !spec_optional_suffix(fields.deep_view()),
{
    let ghost fv = fields.deep_view();
    let mut seen_opt = false;
    let mut i: usize = 0;
    while i < fields.len()
        invariant
            i <= fields.len(),
            fv == fields.deep_view(),
            fv.len() == fields.len(),
            seen_opt == exists|t: int|
                0 <= t < i && is_positional_field(#[trigger] fv[t]) && fv[t].optional,
            spec_optional_suffix(fv.take(i as int)),
        decreases fields.len() - i,
    {
        let f = &fields[i];
        let is_pos = match &f.role {
            FieldRole::PositionalArg => true,
            FieldRole::SeparatedList(_) => true,
            _ => false,
        };
        if is_pos && !f.optional && seen_opt {
            proof {
                let ghost t = choose|t: int|
                    0 <= t < i && is_positional_field(#[trigger] fv[t]) && fv[t].optional;
                assert(is_positional_field(fv[i as int]) && !fv[i as int].optional);
            }
            return true;
        }
        if is_pos && f.optional {
            seen_opt = true;
        }
        proof {
            assert forall|a: int, b: int|
                0 <= a < b < i + 1 && is_positional_field(#[trigger] fv.take(i + 1)[a])
                    && is_positional_field(#[trigger] fv.take(i + 1)[b]) && fv.take(
                i + 1,
            )[a].optional implies fv.take(i + 1)[b].optional by {
                if b == i as int {
                    assert(is_positional_field(fv[a]) && fv[a].optional);
                } else {
                    assert(spec_optional_suffix(fv.take(i as int)));
                    assert(fv.take(i as int)[a] == fv[a] && fv.take(i as int)[b] == fv[b]);
                }
            }
        }
        i = i + 1;
    }
    proof {
        assert(fv.take(fields.len() as int) =~= fv);
    }
    false
}

impl CommandSpec {
    /// Builds a command spec after checking the construction-time
    /// invariants, and reports the first broken one as a
    /// `ConfigurationError` instead.
    pub fn new(name: String, fields: Vec<FieldSpec>) -> (r: Result<CommandSpec, ConfigurationError>)
        ensures
            match r {
                Ok(s) => spec_fields_error(fields.deep_view()) is None && s@
                    == (CommandSpecView { name: name@, fields: fields.deep_view() }) && s@.wf(),
                Err(e) => Some(e) == spec_fields_error(fields.deep_view()),
            },
    {
        if fields_second_prefix(&fields) {
            return Err(ConfigurationError::MultiplePrefixFields);
        }
        if fields_second_trailing(&fields) {
            return Err(ConfigurationError::MultipleTrailingFields);
        }
        if fields_empty_separator(&fields) {
            return Err(ConfigurationError::EmptySeparator);
        }
        if fields_space_list_not_last(&fields) {
            return Err(ConfigurationError::SpaceListNotLast);
        }
        if fields_optional_before_required(&fields) {
            return Err(ConfigurationError::OptionalBeforeRequired);
        }
        Ok(CommandSpec { name, fields })
    }

    /// The command name the spec was declared with.
    pub fn name(&self) -> (r: &str)
        ensures
            r@ == self@.name,
    {
        self.name.as_str()
    }

    /// The declared fields, in order.
    pub fn fields(&self) -> (r: &Vec<FieldSpec>)
        ensures
            r.deep_view() == self@.fields,
    {
        &self.fields
    }
}

/// The value bound to one field of a decoded record.
#[derive(Debug, PartialEq, Eq)]
pub enum FieldValue {
    /// An optional field the message left out.
    Absent,
    /// A prefix, positional or trailing field's text.
    Text(String),
    /// A list field's entries.
    List(Vec<String>),
}

/// Mathematical form of a `FieldValue`.
pub enum FieldValueView {
    Absent,
    Text(Seq<char>),
    List(Seq<Seq<char>>),
}

impl View for FieldValue {
    type V = FieldValueView;

    open spec fn view(&self) -> FieldValueView {
        match self {
            FieldValue::Absent => FieldValueView::Absent,
            FieldValue::Text(s) => FieldValueView::Text(s@),
            FieldValue::List(l) => FieldValueView::List(l.deep_view()),
        }
    }
}

/// One bound field of a decoded record: the field identifier from
/// the spec, and the value the message bound to it.
#[derive(Debug, PartialEq, Eq)]
pub struct RecordEntry {
    pub id: String,
    pub value: FieldValue,
}

/// Mathematical form of a `RecordEntry`.
pub struct RecordEntryView {
    pub id: Seq<char>,
    pub value: FieldValueView,
}

impl View for RecordEntry {
    type V = RecordEntryView;

    open spec fn view(&self) -> RecordEntryView {
        RecordEntryView { id: self.id@, value: self.value@ }
    }
}

impl DeepView for RecordEntry {
    type V = RecordEntryView;

    open spec fn deep_view(&self) -> RecordEntryView {
        self.view()
    }
}

/// A typed command record: one entry per field of the command
/// spec, in declared order, with values keyed by field identifier.
#[derive(Debug, PartialEq, Eq)]
pub struct Record {
    pub entries: Vec<RecordEntry>,
}

impl View for Record {
    type V = Seq<RecordEntryView>;

    open spec fn view(&self) -> Seq<RecordEntryView> {
        self.entries.deep_view()
    }
}

/// The first value bound under the identifier, if any.
pub open spec fn spec_record_get(entries: Seq<RecordEntryView>, id: Seq<char>) -> Option<
    FieldValueView,
>
    decreases entries.len(),
{
    if entries.len() == 0 {
        None
    } else if entries[0].id == id {
        Some(entries[0].value)
    } else {
        spec_record_get(entries.drop_first(), id)
    }
}

impl Record {
    /// Looks a bound value up by its field identifier.
    pub fn get(&self, id: &str) -> (r: Option<&FieldValue>)
        ensures
            match r {
                Some(v) => spec_record_get(self@, id@) == Some(v@),
                None => spec_record_get(self@, id@) is None,
            },
    {
        proof {
            assert(self@.subrange(0, self@.len() as int) =~= self@);
        }
        let mut i: usize = 0;
        while i < self.entries.len()
            invariant
                i <= self.entries.len(),
                i <= self@.len(),
                spec_record_get(self@, id@) == spec_record_get(
                    self@.subrange(i as int, self@.len() as int),
                    id@,
                ),
            decreases self.entries.len() - i,
        {
            proof {
                let ghost tail = self@.subrange(i as int, self@.len() as int);
                assert(tail.len() > 0 && tail[0] == self@[i as int]);
                assert(tail.drop_first() =~= self@.subrange(i + 1, self@.len() as int));
            }
            if str_eq(self.entries[i].id.as_str(), id) {
                return Some(&self.entries[i].value);
            }
            i = i + 1;
        }
        proof {
            assert(self@.subrange(self@.len() as int, self@.len() as int) =~= Seq::<
                RecordEntryView,
            >::empty());
        }
        None
    }
}

/// A per-message decode failure.
#[derive(Debug, PartialEq, Eq)]
#[allow(inconsistent_fields)]
pub enum CodecError {
    /// The message's command is not the spec's command.
    CommandMismatch { found: String, expected: String },
    /// A required prefix field, but the message has no prefix.
    MissingPrefix,
    /// A required trailing field, but the message has no trailing
    /// parameter.
    MissingTrailing,
    /// Fewer middle parameters than required positional fields.
    InsufficientParameterCount { found: usize, required: usize, command: String },
}

/// Mathematical form of a `CodecError`.
#[allow(inconsistent_fields)]
pub enum CodecErrorView {
    CommandMismatch { found: Seq<char>, expected: Seq<char> },
    MissingPrefix,
    MissingTrailing,
    InsufficientParameterCount { found: int, required: int, command: Seq<char> },
}

impl View for CodecError {
    type V = CodecErrorView;

    open spec fn view(&self) -> CodecErrorView {
        match self {
            CodecError::CommandMismatch { found, expected } => CodecErrorView::CommandMismatch {
                found: found@,
                expected: expected@,
            },
            CodecError::MissingPrefix => CodecErrorView::MissingPrefix,
            CodecError::MissingTrailing => CodecErrorView::MissingTrailing,
            CodecError::InsufficientParameterCount { found, required, command } =>
                CodecErrorView::InsufficientParameterCount {
                found: *found as int,
                required: *required as int,
                command: command@,
            },
        }
    }
}

/// The middle parameters of a message, or the empty sequence where
/// it has none.
pub open spec fn spec_msg_middles(m: BaseMessageView) -> Seq<Seq<char>> {
    match m.parameters {
        Some(p) => p.middle,
        None => Seq::empty(),
    }
}

/// The trailing parameter of a message, if any.
pub open spec fn spec_msg_trailing(m: BaseMessageView) -> Option<Seq<char>> {
    match m.parameters {
        Some(p) => p.trailing,
        None => None,
    }
}

/// A prefix field that a message may not leave out.
pub open spec fn spec_has_required_prefix(fields: Seq<FieldSpecView>) -> bool {
    exists|i: int| 0 <= i < fields.len() && #[trigger] fields[i].role is Prefix && !fields[i].optional
}

/// A trailing field that a message may not leave out.
pub open spec fn spec_has_required_trailing(fields: Seq<FieldSpecView>) -> bool {
    exists|i: int|
        0 <= i < fields.len() && #[trigger] fields[i].role is Trailing && !fields[i].optional
}

/// The number of positional fields.
pub open spec fn spec_positional_count(fields: Seq<FieldSpecView>) -> int
    decreases fields.len(),
{
    if fields.len() == 0 {
        0
    } else {
        spec_positional_count(fields.drop_last()) + if is_positional_field(fields.last()) {
            1int
        } else {
            0int
        }
    }
}

/// The number of required positional fields.
pub open spec fn spec_required_count(fields: Seq<FieldSpecView>) -> int
    decreases fields.len(),
{
    if fields.len() == 0 {
        0
    } else {
        spec_required_count(fields.drop_last()) + if is_positional_field(fields.last())
            && !fields.last().optional {
            1int
        } else {
            0int
        }
    }
}

/// The value decode binds to one field, where `j` is the number of
/// positional fields declared before it and `a` the message's
/// middle parameters.
pub open spec fn spec_bind_field(f: FieldSpecView, j: int, m: BaseMessageView) -> FieldValueView {
    let a = spec_msg_middles(m);
    match f.role {
        FieldRoleView::Prefix => match m.prefix {
            Some(p) => FieldValueView::Text(spec_prefix_text(p)),
            None => FieldValueView::Absent,
        },
        FieldRoleView::Trailing => match spec_msg_trailing(m) {
            Some(t) => FieldValueView::Text(t),
            None => FieldValueView::Absent,
        },
        FieldRoleView::PositionalArg => if j < a.len() {
            FieldValueView::Text(a[j])
        } else {
            FieldValueView::Absent
        },
        FieldRoleView::SeparatedList(sep) => if j < a.len() {
            if sep == seq![' '] {
                FieldValueView::List(a.subrange(j, a.len() as int))
            } else {
                FieldValueView::List(spec_split(a[j], sep))
            }
        } else {
            FieldValueView::Absent
        },
    }
}

/// The entries of the record decode builds: one per field, in
/// declared order, each bound by `spec_bind_field`.
pub open spec fn spec_decode_entries(sp: CommandSpecView, m: BaseMessageView) -> Seq<
    RecordEntryView,
> {
    Seq::new(
        sp.fields.len(),
        |i: int|
            RecordEntryView {
                id: sp.fields[i].id,
                value: spec_bind_field(
                    sp.fields[i],
                    spec_positional_count(sp.fields.take(i)),
                    m,
                ),
            },
    )
}

/// The meaning of decode: the command must match the spec's name up
/// to ASCII case; a required prefix, enough middle parameters, and
/// a required trailing parameter must be present; then every field
/// binds its part of the message.
pub open spec fn spec_decode(sp: CommandSpecView, m: BaseMessageView) -> Result<
    Seq<RecordEntryView>,
    CodecErrorView,
> {
    let found = spec_command_text(m.command);
    let a = spec_msg_middles(m);
    if !str_eq_ci(found, sp.name) {
        Err(CodecErrorView::CommandMismatch { found, expected: sp.name })
    } else if spec_has_required_prefix(sp.fields) && m.prefix is None {
        Err(CodecErrorView::MissingPrefix)
    } else if a.len() < spec_required_count(sp.fields) {
        Err(
            CodecErrorView::InsufficientParameterCount {
                found: a.len() as int,
                required: spec_required_count(sp.fields),
                command: sp.name,
            },
        )
    } else if spec_has_required_trailing(sp.fields) && spec_msg_trailing(m) is None {
        Err(CodecErrorView::MissingTrailing)
    } else {
        Ok(spec_decode_entries(sp, m))
    }
}

/// Clones the middle parameters from the `j`-th onward.
fn middles_tail(a: &Vec<String>, j: usize) -> (r: Vec<String>)
    requires
        j <= a.len(),
    ensures
        r.deep_view() == a.deep_view().subrange(j as int, a.len() as int),
{
    let mut out: Vec<String> = Vec::new();
    let mut k = j;
    while k < a.len()
        invariant
            j <= k <= a.len(),
            out.deep_view() =~= a.deep_view().subrange(j as int, k as int),
        decreases a.len() - k,
    {
        let ghost old_out = out.deep_view();
        out.push(a[k].clone());
        proof {
            assert(out.deep_view() =~= old_out.push(a.deep_view()[k as int]));
            assert(out.deep_view() =~= a.deep_view().subrange(j as int, k + 1));
        }
        k = k + 1;
    }
    out
}

impl CommandSpec {
    /// Scans the fields for a required prefix field.
    fn has_required_prefix(&self) -> (r: bool)
        ensures
            r == spec_has_required_prefix(self@.fields),
    {
        let ghost fv = self@.fields;
        let mut i: usize = 0;
        while i < self.fields.len()
            invariant
                i <= self.fields.len(),
                fv == self@.fields,
                fv.len() == self.fields.len(),
                forall|t: int|
                    0 <= t < i ==> !(#[trigger] fv[t].role is Prefix && !fv[t].optional),
            decreases self.fields.len() - i,
        {
            let f = &self.fields[i];
            let is_p = match &f.role {
                FieldRole::Prefix => true,
                _ => false,
            };
            if is_p && !f.optional {
                proof {
                    assert(fv[i as int].role is Prefix && !fv[i as int].optional);
                }
                return true;
            }
            i = i + 1;
        }
        false
    }

    /// Scans the fields for a required trailing field.
    fn has_required_trailing(&self) -> (r: bool)
        ensures
            r == spec_has_required_trailing(self@.fields),
    {
        let ghost fv = self@.fields;
        let mut i: usize = 0;
        while i < self.fields.len()
            invariant
                i <= self.fields.len(),
                fv == self@.fields,
                fv.len() == self.fields.len(),
                forall|t: int|
                    0 <= t < i ==> !(#[trigger] fv[t].role is Trailing && !fv[t].optional),
            decreases self.fields.len() - i,
        {
            let f = &self.fields[i];
            let is_t = match &f.role {
                FieldRole::Trailing => true,
                _ => false,
            };
            if is_t && !f.optional {
                proof {
                    assert(fv[i as int].role is Trailing && !fv[i as int].optional);
                }
                return true;
            }
            i = i + 1;
        }
        false
    }

    /// Counts the required positional fields.
    fn required_count(&self) -> (r: usize)
        ensures
            r as int == spec_required_count(self@.fields),
    {
        let ghost fv = self@.fields;
        let mut count: usize = 0;
        let mut i: usize = 0;
        while i < self.fields.len()
            invariant
                i <= self.fields.len(),
                fv == self@.fields,
                fv.len() == self.fields.len(),
                count <= i,
                count as int == spec_required_count(fv.take(i as int)),
            decreases self.fields.len() - i,
        {
            let f = &self.fields[i];
            let is_pos = match &f.role {
                FieldRole::PositionalArg => true,
                FieldRole::SeparatedList(_) => true,
                _ => false,
            };
            proof {
                assert(fv.take(i + 1).drop_last() =~= fv.take(i as int));
                assert(fv.take(i + 1).last() == fv[i as int]);
            }
            if is_pos && !f.optional {
                count = count + 1;
            }
            i = i + 1;
        }
        proof {
            assert(fv.take(self.fields.len() as int) =~= fv);
        }
        count
    }

    /// Decodes a message against this spec into a typed record,
    /// exactly as `spec_decode` describes.
    pub fn decode(&self, message: &BaseMessage) -> (r: Result<Record, CodecError>)
        ensures
            match r {
                Ok(rec) => spec_decode(self@, message@) == Ok::<_, CodecErrorView>(rec@),
                Err(e) => spec_decode(self@, message@) == Err::<Seq<RecordEntryView>, _>(e@),
            },
    {
        let found = message.command.to_text();
        if !eq_ignore_case(found.as_str(), self.name.as_str()) {
            return Err(CodecError::CommandMismatch { found, expected: self.name.clone() });
        }
        if self.has_required_prefix() && message.prefix.is_none() {
            return Err(CodecError::MissingPrefix);
        }
        let empty_middles: Vec<String> = Vec::new();
        let a: &Vec<String> = match &message.parameters {
            Some(p) => &p.middle,
            None => &empty_middles,
        };
        proof {
            assert(a.deep_view() =~= spec_msg_middles(message@));
        }
        let required = self.required_count();
        if a.len() < required {
            return Err(
                CodecError::InsufficientParameterCount {
                    found: a.len(),
                    required,
                    command: self.name.clone(),
                },
            );
        }
        let has_trailing = match &message.parameters {
            Some(p) => p.trailing.is_some(),
            None => false,
        };
        if self.has_required_trailing() && !has_trailing {
            return Err(CodecError::MissingTrailing);
        }
        let ghost fv = self@.fields;
        let mut entries: Vec<RecordEntry> = Vec::new();
        let mut j: usize = 0;
        let mut i: usize = 0;
        while i < self.fields.len()
            invariant
                i <= self.fields.len(),
                fv == self@.fields,
                fv.len() == self.fields.len(),
                j <= i,
                j as int == spec_positional_count(fv.take(i as int)),
                a.deep_view() == spec_msg_middles(message@),
                entries.deep_view().len() == i,
                forall|t: int|
                    0 <= t < i ==> entries.deep_view()[t] == spec_decode_entries(
                        self@,
                        message@,
                    )[t],
            decreases self.fields.len() - i,
        {
            let f = &self.fields[i];
            proof {
                assert(fv[i as int] == f@);
            }
            let mut value: FieldValue = FieldValue::Absent;
            match &f.role {
                FieldRole::Prefix => match &message.prefix {
                    Some(p) => {
                        value = FieldValue::Text(p.to_text());
                        proof {
                            assert(value@ == spec_bind_field(f@, j as int, message@));
                        }
                    },
                    None => {
                        proof {
                            assert(value@ == spec_bind_field(f@, j as int, message@));
                        }
                    },
                },
                FieldRole::Trailing => {
                    match &message.parameters {
                        Some(ps) => match &ps.trailing {
                            Some(t) => {
                                value = FieldValue::Text(t.clone());
                            },
                            None => {},
                        },
                        None => {},
                    }
                    proof {
                        assert(value@ == spec_bind_field(f@, j as int, message@));
                    }
                },
                FieldRole::PositionalArg => {
                    if j < a.len() {
                        value = FieldValue::Text(a[j].clone());
                    }
                    proof {
                        assert(value@ == spec_bind_field(f@, j as int, message@));
                    }
                },
                FieldRole::SeparatedList(sep) => {
                    if j < a.len() {
                        let is_space = sep.as_str().unicode_len() == 1 && sep.as_str().get_char(0)
                            == ' ';
                        if is_space {
                            proof {
                                assert(sep@ =~= seq![' ']);
                            }
                            value = FieldValue::List(middles_tail(a, j));
                        } else {
                            proof {
                                if sep@ == seq![' '] {
                                    assert(sep@.len() == 1 && sep@[0] == ' ');
                                    assert(false);
                                }
                            }
                            if sep.as_str().unicode_len() == 0 {
                                // a list field always declares a non-empty
                                // separator; an empty one splits nothing
                                let single = vec![a[j].clone()];
                                proof {
                                    assert(single.deep_view() =~= seq![
                                        a.deep_view()[j as int],
                                    ]);
                                }
                                value = FieldValue::List(single);
                            } else {
                                value = FieldValue::List(
                                    split_string(a[j].as_str(), sep.as_str()),
                                );
                            }
                        }
                    }
                    proof {
                        assert(value@ == spec_bind_field(f@, j as int, message@));
                    }
                },
            }
            let ghost old_entries = entries.deep_view();
            entries.push(RecordEntry { id: f.id.clone(), value });
            proof {
                assert(entries.deep_view() =~= old_entries.push(
                    RecordEntryView { id: f.id@, value: value@ },
                ));
                assert(fv.take(i + 1).drop_last() =~= fv.take(i as int));
                assert(fv.take(i + 1).last() == fv[i as int]);
                assert(value@ == spec_bind_field(fv[i as int], j as int, message@));
                assert(entries.deep_view()[i as int] == spec_decode_entries(self@, message@)[i as int]);
            }
            let is_pos = match &f.role {
                FieldRole::PositionalArg => true,
                FieldRole::SeparatedList(_) => true,
                _ => false,
            };
            if is_pos {
                j = j + 1;
            }
            i = i + 1;
        }
        let rec = Record { entries };
        proof {
            assert(rec@ =~= spec_decode_entries(self@, message@));
        }
        Ok(rec)
    }
}

/// The wire text a bound prefix field contributes: `:`, the bound
/// text, and a space, from the first prefix field whose value is
/// bound; nothing otherwise.
pub open spec fn spec_prefix_part(
    fields: Seq<FieldSpecView>,
    entries: Seq<RecordEntryView>,
    i: int,
) -> Seq<char>
    decreases fields.len() - i,
{
    if i < 0 || i >= fields.len() || i >= entries.len() {
        Seq::empty()
    } else if fields[i].role is Prefix {
        match entries[i].value {
            FieldValueView::Text(p) => seq![':'] + p + seq![' '],
            _ => Seq::empty(),
        }
    } else {
        spec_prefix_part(fields, entries, i + 1)
    }
}

/// The wire text one positional field contributes: a space and the
/// bound text, or a space and the list joined with the declared
/// separator; nothing where the field is unbound.
pub open spec fn spec_positional_emit(f: FieldSpecView, v: FieldValueView) -> Seq<char> {
    match f.role {
        FieldRoleView::PositionalArg => match v {
            FieldValueView::Text(t) => seq![' '] + t,
            _ => Seq::empty(),
        },
        FieldRoleView::SeparatedList(sep) => match v {
            FieldValueView::List(l) => seq![' '] + spec_join(l, sep),
            _ => Seq::empty(),
        },
        _ => Seq::empty(),
    }
}

/// The wire text of all positional fields from `i` on, in declared
/// order.
pub open spec fn spec_positional_part(
    fields: Seq<FieldSpecView>,
    entries: Seq<RecordEntryView>,
    i: int,
) -> Seq<char>
    decreases fields.len() - i,
{
    if i < 0 || i >= fields.len() || i >= entries.len() {
        Seq::empty()
    } else {
        spec_positional_emit(fields[i], entries[i].value) + spec_positional_part(
            fields,
            entries,
            i + 1,
        )
    }
}

/// The wire text a bound trailing field contributes: a space, `:`
/// and the bound text, from the first trailing field whose value is
/// bound; nothing otherwise.
pub open spec fn spec_trailing_part(
    fields: Seq<FieldSpecView>,
    entries: Seq<RecordEntryView>,
    i: int,
) -> Seq<char>
    decreases fields.len() - i,
{
    if i < 0 || i >= fields.len() || i >= entries.len() {
        Seq::empty()
    } else if fields[i].role is Trailing {
        match entries[i].value {
            FieldValueView::Text(t) => seq![' ', ':'] + t,
            _ => Seq::empty(),
        }
    } else {
        spec_trailing_part(fields, entries, i + 1)
    }
}

/// The meaning of encode: the prefix part, the spec's command name,
/// the positional parts in declared order, and the trailing part.
pub open spec fn spec_encode(sp: CommandSpecView, entries: Seq<RecordEntryView>) -> Seq<char> {
    spec_prefix_part(sp.fields, entries, 0) + sp.name + spec_positional_part(sp.fields, entries, 0)
        + spec_trailing_part(sp.fields, entries, 0)
}

/// A record that fits its spec: one entry per field carrying the
/// field's identifier, text bound to prefix, positional and
/// trailing fields, a list bound to list fields, and a value absent
/// only where the field is optional.
pub open spec fn spec_record_wf(sp: CommandSpecView, entries: Seq<RecordEntryView>) -> bool {
    &&& entries.len() == sp.fields.len()
    &&& forall|i: int| 0 <= i < entries.len() ==> #[trigger] entries[i].id == sp.fields[i].id
    &&& forall|i: int|
        0 <= i < entries.len() ==> match sp.fields[i].role {
            FieldRoleView::SeparatedList(_) => (#[trigger] entries[i].value) is List || (
            sp.fields[i].optional && entries[i].value is Absent),
            _ => entries[i].value is Text || (sp.fields[i].optional
                && entries[i].value is Absent),
        }
}

impl CommandSpec {
    /// Encodes a record back into wire text, exactly as
    /// `spec_encode` describes: deterministic, and total in the
    /// record.
    pub fn encode(&self, record: &Record) -> (r: String)
        ensures
            r@ == spec_encode(self@, record@),
    {
        let ghost fvv = self@.fields;
        let ghost ev = record@;
        let n = if self.fields.len() <= record.entries.len() {
            self.fields.len()
        } else {
            record.entries.len()
        };
        let mut out = String::new();
        // the prefix part: the first prefix field decides
        let mut i: usize = 0;
        let mut stop = false;
        while i < n && !stop
            invariant
                i <= n,
                fvv == self@.fields,
                ev == record@,
                fvv.len() == self.fields.len(),
                ev.len() == record.entries.len(),
                n == if fvv.len() <= ev.len() {
                    fvv.len() as int
                } else {
                    ev.len() as int
                },
                !stop ==> spec_prefix_part(fvv, ev, 0) == spec_prefix_part(fvv, ev, i as int)
                    && out@ =~= Seq::<char>::empty(),
                stop ==> out@ == spec_prefix_part(fvv, ev, 0),
            decreases n - i, if stop { 0int } else { 1int },
        {
            let f = &self.fields[i];
            match &f.role {
                FieldRole::Prefix => {
                    match &record.entries[i].value {
                        FieldValue::Text(p) => {
                            out.append(":");
                            out.append(p.as_str());
                            out.append(" ");
                            proof {
                                reveal_strlit(":");
                                reveal_strlit(" ");
                                assert(out@ =~= seq![':'] + p@ + seq![' ']);
                            }
                        },
                        _ => {},
                    }
                    stop = true;
                },
                _ => {
                    i = i + 1;
                },
            }
        }
        proof {
            if !stop {
                assert(spec_prefix_part(fvv, ev, i as int) =~= Seq::<char>::empty());
            }
            assert(out@ == spec_prefix_part(fvv, ev, 0));
        }
        // the command name
        out.append(self.name.as_str());
        let ghost base = out@;
        // the positional parts, in declared order
        let mut i: usize = 0;
        while i < n
            invariant
                i <= n,
                fvv == self@.fields,
                ev == record@,
                fvv.len() == self.fields.len(),
                ev.len() == record.entries.len(),
                n == if fvv.len() <= ev.len() {
                    fvv.len() as int
                } else {
                    ev.len() as int
                },
                base == spec_prefix_part(fvv, ev, 0) + self@.name,
                base + spec_positional_part(fvv, ev, 0) == out@ + spec_positional_part(
                    fvv,
                    ev,
                    i as int,
                ),
            decreases n - i,
        {
            let f = &self.fields[i];
            let ghost out_before = out@;
            match &f.role {
                FieldRole::PositionalArg => {
                    match &record.entries[i].value {
                        FieldValue::Text(t) => {
                            out.append(" ");
                            out.append(t.as_str());
                            proof {
                                reveal_strlit(" ");
                                assert(out@ =~= out_before + (seq![' '] + t@));
                            }
                        },
                        _ => {},
                    }
                },
                FieldRole::SeparatedList(sep) => {
                    match &record.entries[i].value {
                        FieldValue::List(l) => {
                            let joined = join_strings(l, sep.as_str());
                            out.append(" ");
                            out.append(joined.as_str());
                            proof {
                                reveal_strlit(" ");
                                assert(out@ =~= out_before + (seq![' '] + spec_join(
                                    l.deep_view(),
                                    sep@,
                                )));
                            }
                        },
                        _ => {},
                    }
                },
                _ => {},
            }
            proof {
                assert(out@ =~= out_before + spec_positional_emit(fvv[i as int], ev[i as int].value));
                assert(spec_positional_part(fvv, ev, i as int) == spec_positional_emit(
                    fvv[i as int],
                    ev[i as int].value,
                ) + spec_positional_part(fvv, ev, i + 1));
                assert(out_before + (spec_positional_emit(fvv[i as int], ev[i as int].value)
                    + spec_positional_part(fvv, ev, i + 1)) =~= (out_before
                    + spec_positional_emit(fvv[i as int], ev[i as int].value))
                    + spec_positional_part(fvv, ev, i + 1));
            }
            i = i + 1;
        }
        proof {
            assert(spec_positional_part(fvv, ev, i as int) =~= Seq::<char>::empty());
            assert(out@ + Seq::<char>::empty() =~= out@);
            assert(out@ == base + spec_positional_part(fvv, ev, 0));
        }
        let ghost base2 = out@;
        // the trailing part: the first trailing field decides
        let mut i: usize = 0;
        let mut stop = false;
        while i < n && !stop
            invariant
                i <= n,
                fvv == self@.fields,
                ev == record@,
                fvv.len() == self.fields.len(),
                ev.len() == record.entries.len(),
                n == if fvv.len() <= ev.len() {
                    fvv.len() as int
                } else {
                    ev.len() as int
                },
                !stop ==> spec_trailing_part(fvv, ev, 0) == spec_trailing_part(fvv, ev, i as int)
                    && out@ == base2,
                stop ==> out@ == base2 + spec_trailing_part(fvv, ev, 0),
            decreases n - i, if stop { 0int } else { 1int },
        {
            let f = &self.fields[i];
            match &f.role {
                FieldRole::Trailing => {
                    let ghost out_before = out@;
                    match &record.entries[i].value {
                        FieldValue::Text(t) => {
                            out.append(" :");
                            out.append(t.as_str());
                            proof {
                                reveal_strlit(" :");
                                assert(out@ =~= out_before + (seq![' ', ':'] + t@));
                            }
                        },
                        _ => {
                            proof {
                                assert(out@ =~= out_before + Seq::<char>::empty());
                            }
                        },
                    }
                    stop = true;
                },
                _ => {
                    i = i + 1;
                },
            }
        }
        proof {
            if !stop {
                assert(spec_trailing_part(fvv, ev, i as int) =~= Seq::<char>::empty());
                assert(out@ =~= base2 + spec_trailing_part(fvv, ev, i as int));
            }
            assert(out@ =~= spec_prefix_part(fvv, ev, 0) + self@.name + spec_positional_part(
                fvv,
                ev,
                0,
            ) + spec_trailing_part(fvv, ev, 0));
        }
        out
    }
}

} // verus!
