//! The document that a header parses into.
use vstd::prelude::*;
use crate::token::SourceRange;
use crate::value::{VView, V};

verus! {

/// The two-part address of a persistent flag or counter of the game state.
#[derive(Clone, Copy, Debug, PartialEq, Eq, Structural)]
pub struct UberIdentifier {
    pub uber_group: u32,
    pub uber_id: u32,
}

impl View for UberIdentifier {
    type V = UberIdentifier;

    open spec fn view(&self) -> UberIdentifier {
        *self
    }
}

/// An identifier with the value that triggers on it. The empty literal
/// stands for "no condition": any change triggers.
#[derive(Debug, PartialEq, Eq)]
pub struct VUberState {
    pub identifier: UberIdentifier,
    pub value: V<Vec<u8>>,
}

/// The mathematical content of a [`VUberState`].
pub struct VUberStateView {
    pub identifier: UberIdentifier,
    pub value: VView<Seq<u8>>,
}

impl View for VUberState {
    type V = VUberStateView;

    open spec fn view(&self) -> VUberStateView {
        VUberStateView { identifier: self.identifier, value: self.value@ }
    }
}

/// An icon: one of the built-in sets by index, or a file by path.
#[derive(Debug, PartialEq, Eq)]
pub enum Icon {
    Shard(u32),
    Spell(u32),
    Opher(u32),
    Lupo(u32),
    Grom(u32),
    Tuley(u32),
    File(Vec<u8>),
}

/// The mathematical content of an [`Icon`].
pub enum IconView {
    Shard(u32),
    Spell(u32),
    Opher(u32),
    Lupo(u32),
    Grom(u32),
    Tuley(u32),
    File(Seq<u8>),
}

impl View for Icon {
    type V = IconView;

    open spec fn view(&self) -> IconView {
        match self {
            Icon::Shard(index) => IconView::Shard(*index),
            Icon::Spell(index) => IconView::Spell(*index),
            Icon::Opher(index) => IconView::Opher(*index),
            Icon::Lupo(index) => IconView::Lupo(*index),
            Icon::Grom(index) => IconView::Grom(*index),
            Icon::Tuley(index) => IconView::Tuley(*index),
            Icon::File(path) => IconView::File(path@),
        }
    }
}

/// A timer: a switch that turns it on and the counter that it advances.
#[derive(Clone, Copy, Debug, PartialEq, Eq, Structural)]
pub struct SetupTimer {
    pub switch: UberIdentifier,
    pub counter: UberIdentifier,
}

/// Something that is set up once, before any pickup is granted.
#[derive(Clone, Copy, Debug, PartialEq, Eq, Structural)]
pub enum Setup {
    Timer(SetupTimer),
}

impl View for Setup {
    type V = Setup;

    open spec fn view(&self) -> Setup {
        *self
    }
}

/// A stretch of a line that a grammar outside this crate decodes: where it
/// stands and what it says.
#[derive(Debug, PartialEq, Eq)]
pub struct Fragment {
    pub range: SourceRange,
    pub text: Vec<u8>,
}

/// The mathematical content of a [`Fragment`].
pub struct FragmentView {
    pub range: SourceRange,
    pub text: Seq<u8>,
}

impl View for Fragment {
    type V = FragmentView;

    open spec fn view(&self) -> FragmentView {
        FragmentView { range: self.range, text: self.text@ }
    }
}

/// The item of a pickup, as it is written.
#[derive(Debug, PartialEq, Eq)]
pub struct VItem {
    pub source: Fragment,
}

/// A header command, as it is written after the two bangs.
#[derive(Debug, PartialEq, Eq)]
pub struct HeaderCommand {
    pub source: Fragment,
}

/// A trigger and the item that it grants or, with `ignore`, takes away.
#[derive(Debug, PartialEq, Eq)]
pub struct VPickup {
    pub trigger: VUberState,
    pub item: VItem,
    pub ignore: bool,
    pub skip_validation: bool,
}

/// The mathematical content of a [`VPickup`].
pub struct VPickupView {
    pub trigger: VUberStateView,
    pub item: FragmentView,
    pub ignore: bool,
    pub skip_validation: bool,
}

impl View for VPickup {
    type V = VPickupView;

    open spec fn view(&self) -> VPickupView {
        VPickupView {
            trigger: self.trigger@,
            item: self.item.source@,
            ignore: self.ignore,
            skip_validation: self.skip_validation,
        }
    }
}

/// One entry of a header, in the order of the source.
#[derive(Debug, PartialEq, Eq)]
pub enum HeaderContent {
    OuterDocumentation(Vec<u8>),
    InnerDocumentation(Vec<u8>),
    Annotation(Vec<u8>),
    Setup(Setup),
    Pickup(VPickup),
    Command(HeaderCommand),
}

/// The mathematical content of a [`HeaderContent`].
pub enum HeaderContentView {
    OuterDocumentation(Seq<u8>),
    InnerDocumentation(Seq<u8>),
    Annotation(Seq<u8>),
    Setup(Setup),
    Pickup(VPickupView),
    Command(FragmentView),
}

impl View for HeaderContent {
    type V = HeaderContentView;

    open spec fn view(&self) -> HeaderContentView {
        match self {
            HeaderContent::OuterDocumentation(text) => HeaderContentView::OuterDocumentation(text@),
            HeaderContent::InnerDocumentation(text) => HeaderContentView::InnerDocumentation(text@),
            HeaderContent::Annotation(name) => HeaderContentView::Annotation(name@),
            HeaderContent::Setup(setup) => HeaderContentView::Setup(*setup),
            HeaderContent::Pickup(pickup) => HeaderContentView::Pickup(pickup@),
            HeaderContent::Command(command) => HeaderContentView::Command(command.source@),
        }
    }
}

/// The mathematical content of a sequence of entries.
pub open spec fn contents_view(contents: Seq<HeaderContent>) -> Seq<HeaderContentView> {
    contents.map_values(|content: HeaderContent| content@)
}

/// Appends an entry; the earlier ones stay as they are.
pub fn push_content(contents: &mut Vec<HeaderContent>, content: HeaderContent)
    ensures
        contents_view(final(contents)@) == contents_view(old(contents)@).push(content@),
{
    contents.push(content);
    assert(contents_view(contents@) =~= contents_view(old(contents)@).push(content@));
}

} // verus!
