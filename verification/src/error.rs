//! Diagnostics: located parse errors and the grammatical hints they carry.
use vstd::prelude::*;
use vstd::string::StringExecFns;
use crate::token::SourceRange;

verus! {

/// What the grammar expected at the point where parsing failed.
#[derive(Clone, Copy, Debug, PartialEq, Eq, Structural)]
pub enum Suggestion {
    UberGroup,
    UberId,
    UberTriggerValue,
    Integer,
    Float,
    Boolean,
    NumericBoolean,
    Identifier,
    IconKind,
    ShardIcon,
    SpellIcon,
    OpherIcon,
    LupoIcon,
    GromIcon,
    TuleyIcon,
    SetupKind,
    Annotation,
    Expression,
    InterpolationCommand,
    UberConditionValue,
    ItemKind,
    Resource,
    Skill,
    Shard,
    CommandKind,
    ToggleCommandKind,
    EquipSlot,
    Spell,
    Teleporter,
    MessageFlag,
    UberType,
    WorldEvent,
    BonusItem,
    BonusUpgrade,
    Zone,
    SysMessageKind,
    WheelCommandKind,
    WheelItemPosition,
    WheelBind,
    ShopCommandKind,
    HeaderCommand,
    ParameterType,
}

impl Suggestion {
    /// The label under which the suggestion is shown.
    pub open spec fn label_text(self) -> Seq<char> {
        match self {
            Suggestion::UberGroup => "UberGroup"@,
            Suggestion::UberId => "UberId"@,
            Suggestion::UberTriggerValue => "UberTriggerValue"@,
            Suggestion::Integer => "Integer"@,
            Suggestion::Float => "Float"@,
            Suggestion::Boolean => "Boolean"@,
            Suggestion::NumericBoolean => "NumericBoolean"@,
            Suggestion::Identifier => "Identifier"@,
            Suggestion::IconKind => "IconKind"@,
            Suggestion::ShardIcon => "ShardIcon"@,
            Suggestion::SpellIcon => "SpellIcon"@,
            Suggestion::OpherIcon => "OpherIcon"@,
            Suggestion::LupoIcon => "LupoIcon"@,
            Suggestion::GromIcon => "GromIcon"@,
            Suggestion::TuleyIcon => "TuleyIcon"@,
            Suggestion::SetupKind => "SetupKind"@,
            Suggestion::Annotation => "Annotation"@,
            Suggestion::Expression => "Expression"@,
            Suggestion::InterpolationCommand => "InterpolationCommand"@,
            Suggestion::UberConditionValue => "UberConditionValue"@,
            Suggestion::ItemKind => "ItemKind"@,
            Suggestion::Resource => "Resource"@,
            Suggestion::Skill => "Skill"@,
            Suggestion::Shard => "Shard"@,
            Suggestion::CommandKind => "CommandKind"@,
            Suggestion::ToggleCommandKind => "ToggleCommandKind"@,
            Suggestion::EquipSlot => "EquipSlot"@,
            Suggestion::Spell => "Spell"@,
            Suggestion::Teleporter => "Teleporter"@,
            Suggestion::MessageFlag => "MessageFlag"@,
            Suggestion::UberType => "UberType"@,
            Suggestion::WorldEvent => "WorldEvent"@,
            Suggestion::BonusItem => "BonusItem"@,
            Suggestion::BonusUpgrade => "BonusUpgrade"@,
            Suggestion::Zone => "Zone"@,
            Suggestion::SysMessageKind => "SysMessageKind"@,
            Suggestion::WheelCommandKind => "WheelCommandKind"@,
            Suggestion::WheelItemPosition => "WheelItemPosition"@,
            Suggestion::WheelBind => "WheelBind"@,
            Suggestion::ShopCommandKind => "ShopCommandKind"@,
            Suggestion::HeaderCommand => "HeaderCommand"@,
            Suggestion::ParameterType => "ParameterType"@,
        }
    }

    /// The label under which the suggestion is shown.
    pub fn label(&self) -> (s: &'static str)
        ensures
            s@ == self.label_text(),
    {
        match self {
            Suggestion::UberGroup => "UberGroup",
            Suggestion::UberId => "UberId",
            Suggestion::UberTriggerValue => "UberTriggerValue",
            Suggestion::Integer => "Integer",
            Suggestion::Float => "Float",
            Suggestion::Boolean => "Boolean",
            Suggestion::NumericBoolean => "NumericBoolean",
            Suggestion::Identifier => "Identifier",
            Suggestion::IconKind => "IconKind",
            Suggestion::ShardIcon => "ShardIcon",
            Suggestion::SpellIcon => "SpellIcon",
            Suggestion::OpherIcon => "OpherIcon",
            Suggestion::LupoIcon => "LupoIcon",
            Suggestion::GromIcon => "GromIcon",
            Suggestion::TuleyIcon => "TuleyIcon",
            Suggestion::SetupKind => "SetupKind",
            Suggestion::Annotation => "Annotation",
            Suggestion::Expression => "Expression",
            Suggestion::InterpolationCommand => "InterpolationCommand",
            Suggestion::UberConditionValue => "UberConditionValue",
            Suggestion::ItemKind => "ItemKind",
            Suggestion::Resource => "Resource",
            Suggestion::Skill => "Skill",
            Suggestion::Shard => "Shard",
            Suggestion::CommandKind => "CommandKind",
            Suggestion::ToggleCommandKind => "ToggleCommandKind",
            Suggestion::EquipSlot => "EquipSlot",
            Suggestion::Spell => "Spell",
            Suggestion::Teleporter => "Teleporter",
            Suggestion::MessageFlag => "MessageFlag",
            Suggestion::UberType => "UberType",
            Suggestion::WorldEvent => "WorldEvent",
            Suggestion::BonusItem => "BonusItem",
            Suggestion::BonusUpgrade => "BonusUpgrade",
            Suggestion::Zone => "Zone",
            Suggestion::SysMessageKind => "SysMessageKind",
            Suggestion::WheelCommandKind => "WheelCommandKind",
            Suggestion::WheelItemPosition => "WheelItemPosition",
            Suggestion::WheelBind => "WheelBind",
            Suggestion::ShopCommandKind => "ShopCommandKind",
            Suggestion::HeaderCommand => "HeaderCommand",
            Suggestion::ParameterType => "ParameterType",
        }
    }
}

/// A failure to parse, located in the source text.
#[derive(Debug, PartialEq, Eq)]
pub struct ParseError {
    pub message: String,
    pub range: SourceRange,
    pub suggestion: Option<Suggestion>,
}

/// The mathematical content of a [`ParseError`].
pub struct ParseErrorView {
    pub message: Seq<char>,
    pub range: SourceRange,
    pub suggestion: Option<Suggestion>,
}

impl View for ParseError {
    type V = ParseErrorView;

    open spec fn view(&self) -> ParseErrorView {
        ParseErrorView {
            message: self.message@,
            range: self.range,
            suggestion: self.suggestion,
        }
    }
}

/// The message of an error that names what was expected.
pub open spec fn expected_text(label: Seq<char>) -> Seq<char> {
    "Expected "@ + label
}

/// The message of an error on a token of the right kind whose text does not
/// decode.
pub open spec fn invalid_text(label: Seq<char>) -> Seq<char> {
    "Invalid "@ + label
}

impl ParseError {
    /// An error with the given message at the given range, without a
    /// suggestion.
    pub fn new(message: &str, range: SourceRange) -> (e: ParseError)
        ensures
            e@ == (ParseErrorView { message: message@, range, suggestion: None }),
    {
        ParseError { message: String::from_str(message), range, suggestion: None }
    }

    /// An error that says `Expected` and the label.
    pub fn expected(label: &str, range: SourceRange) -> (e: ParseError)
        ensures
            e@ == (ParseErrorView { message: expected_text(label@), range, suggestion: None }),
    {
        let message = String::from_str("Expected ").concat(label);
        ParseError { message, range, suggestion: None }
    }

    /// An error that says `Invalid` and the suggestion's label, and carries
    /// the suggestion.
    pub fn invalid(suggestion: Suggestion, range: SourceRange) -> (e: ParseError)
        ensures
            e@ == (ParseErrorView {
                message: invalid_text(suggestion.label_text()),
                range,
                suggestion: Some(suggestion),
            }),
    {
        let message = String::from_str("Invalid ").concat(suggestion.label());
        ParseError { message, range, suggestion: Some(suggestion) }
    }

    /// The same error with the suggestion attached.
    pub fn with_suggestion(self, suggestion: Suggestion) -> (e: ParseError)
        ensures
            e@ == (ParseErrorView { suggestion: Some(suggestion), ..self@ }),
    {
        ParseError { message: self.message, range: self.range, suggestion: Some(suggestion) }
    }
}

/// The errors of one parse, in the order in which they were found.
#[derive(Debug, PartialEq, Eq)]
pub struct ParseErrorCollection {
    pub errors: Vec<ParseError>,
}

impl View for ParseErrorCollection {
    type V = Seq<ParseErrorView>;

    open spec fn view(&self) -> Seq<ParseErrorView> {
        self.errors@.map_values(|e: ParseError| e@)
    }
}

impl ParseErrorCollection {
    /// An empty collection.
    pub fn new() -> (c: ParseErrorCollection)
        ensures
            c@ == Seq::<ParseErrorView>::empty(),
    {
        let c = ParseErrorCollection { errors: Vec::new() };
        assert(c@ =~= Seq::<ParseErrorView>::empty());
        c
    }

    /// Appends an error; the earlier ones stay as they are.
    pub fn push(&mut self, error: ParseError)
        ensures
            final(self)@ == old(self)@.push(error@),
    {
        self.errors.push(error);
        assert(self@ =~= old(self)@.push(error@));
    }

    /// The number of errors recorded.
    pub fn len(&self) -> (n: usize)
        ensures
            n == self@.len(),
    {
        self.errors.len()
    }

    /// Whether no error was recorded: the parse succeeded.
    pub fn is_empty(&self) -> (r: bool)
        ensures
            r == (self@.len() == 0),
    {
        self.errors.len() == 0
    }
}

} // verus!
