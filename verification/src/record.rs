use vstd::prelude::*;

verus! {

/// One matching line: its 1-based line number and its original, un-folded
/// text. Created only by the matcher and never mutated after creation.
#[derive(Debug)]
pub struct Record {
    pub line_number: usize,
    pub data: String,
}

/// The mathematical value of a [`Record`].
#[verifier::ext_equal]
pub struct RecordView {
    pub line_number: int,
    pub data: Seq<char>,
}

impl View for Record {
    type V = RecordView;

    open spec fn view(&self) -> RecordView {
        RecordView { line_number: self.line_number as int, data: self.data@ }
    }
}

impl DeepView for Record {
    type V = RecordView;

    open spec fn deep_view(&self) -> RecordView {
        self.view()
    }
}

} // verus!
