use vstd::prelude::*;

verus! {

/// Mathematical view of a tertiary test case: every text field is a
/// sequence of characters, every list an ordered sequence.
pub struct TertiaryItemView {
    pub title: Seq<char>,
    pub operations: Seq<Seq<char>>,
    pub confirmations: Seq<Seq<char>>,
    pub remarks: Seq<Seq<char>>,
}

/// Mathematical view of a secondary item: a title and its ordered
/// tertiary children.
pub struct SecondaryItemView {
    pub title: Seq<char>,
    pub children: Seq<TertiaryItemView>,
}

/// Mathematical view of a primary item (category).
pub struct PrimaryItemView {
    pub title: Seq<char>,
    pub children: Seq<SecondaryItemView>,
}

/// Mathematical view of a whole specification document.
pub struct TestSpecView {
    pub title: Seq<char>,
    pub cases: Seq<PrimaryItemView>,
}

/// A leaf test case. It carries three independent ordered lists of
/// free text: the numbered procedure, the checklist of confirmations,
/// and plain remarks. Absent lists are represented as empty vectors.
#[derive(Debug, PartialEq, Eq, Clone)]
pub struct TertiaryItem {
    pub title: String,
    pub operations: Vec<String>,
    pub confirmations: Vec<String>,
    pub remarks: Vec<String>,
}

/// The middle level of the tree: a titled, ordered group of tertiary
/// test cases. The child list may be empty.
#[derive(Debug, PartialEq, Eq, Clone)]
pub struct SecondaryItem {
    pub title: String,
    pub children: Vec<TertiaryItem>,
}

/// The top grouping level (category): a titled, ordered group of
/// secondary items. The child list may be empty.
#[derive(Debug, PartialEq, Eq, Clone)]
pub struct PrimaryItem {
    pub title: String,
    pub children: Vec<SecondaryItem>,
}

/// The root of the document tree: a title and the ordered categories.
/// Construction enforces nothing; every shape of tree is renderable.
#[derive(Debug, PartialEq, Eq, Clone)]
pub struct TestSpec {
    pub title: String,
    pub cases: Vec<PrimaryItem>,
}

impl View for TertiaryItem {
    type V = TertiaryItemView;

    open spec fn view(&self) -> TertiaryItemView {
        TertiaryItemView {
            title: self.title@,
            operations: self.operations.deep_view(),
            confirmations: self.confirmations.deep_view(),
            remarks: self.remarks.deep_view(),
        }
    }
}

impl DeepView for TertiaryItem {
    type V = TertiaryItemView;

    open spec fn deep_view(&self) -> TertiaryItemView {
        self.view()
    }
}

impl View for SecondaryItem {
    type V = SecondaryItemView;

    open spec fn view(&self) -> SecondaryItemView {
        SecondaryItemView { title: self.title@, children: self.children.deep_view() }
    }
}

impl DeepView for SecondaryItem {
    type V = SecondaryItemView;

    open spec fn deep_view(&self) -> SecondaryItemView {
        self.view()
    }
}

impl View for PrimaryItem {
    type V = PrimaryItemView;

    open spec fn view(&self) -> PrimaryItemView {
        PrimaryItemView { title: self.title@, children: self.children.deep_view() }
    }
}

impl DeepView for PrimaryItem {
    type V = PrimaryItemView;

    open spec fn deep_view(&self) -> PrimaryItemView {
        self.view()
    }
}

impl View for TestSpec {
    type V = TestSpecView;

    open spec fn view(&self) -> TestSpecView {
        TestSpecView { title: self.title@, cases: self.cases.deep_view() }
    }
}

impl DeepView for TestSpec {
    type V = TestSpecView;

    open spec fn deep_view(&self) -> TestSpecView {
        self.view()
    }
}

} // verus!
