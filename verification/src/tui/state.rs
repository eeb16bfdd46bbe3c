//! Generic selection state over closed option sets.

use vstd::prelude::*;
use crate::config::{ClassificationRule, FileOperation, MonthFormat, ProcessingMode};

verus! {

/// An enumeration usable as a selectable option set: a fixed count,
/// an index per variant, and a variant per index.
pub trait EnumOption: Sized + Clone + Copy {
    /// The number of variants.
    spec fn count_spec() -> nat;

    /// The index of this variant.
    spec fn index_spec(self) -> nat;

    /// The number of variants.
    fn count() -> (r: usize)
        ensures
            r == Self::count_spec(),
            r >= 1,
    ;

    /// The index of this variant.
    fn to_index(&self) -> (r: usize)
        ensures
            r == self.index_spec(),
            r < Self::count_spec(),
    ;

    /// The variant at an index; out-of-range indexes yield the first
    /// variant.
    fn from_index(index: usize) -> (r: Self)
        ensures
            index < Self::count_spec() ==> r.index_spec() == index,
    ;

    /// The variant selections start from.
    fn default_choice() -> (r: Self)
        ensures
            r.index_spec() < Self::count_spec(),
    ;

    /// All variants, in index order.
    fn variants() -> (r: Vec<Self>)
        ensures
            r@.len() == Self::count_spec(),
            forall|i: int| 0 <= i < r@.len() ==> (#[trigger] r@[i]).index_spec() == i,
    ;
}

impl EnumOption for ProcessingMode {
    open spec fn count_spec() -> nat {
        3
    }

    open spec fn index_spec(self) -> nat {
        match self {
            ProcessingMode::Full => 0,
            ProcessingMode::Supplement => 1,
            ProcessingMode::Incremental => 2,
        }
    }

    fn count() -> usize {
        3
    }

    fn to_index(&self) -> usize {
        match self {
            ProcessingMode::Full => 0,
            ProcessingMode::Supplement => 1,
            ProcessingMode::Incremental => 2,
        }
    }

    fn from_index(index: usize) -> Self {
        match index {
            0 => ProcessingMode::Full,
            1 => ProcessingMode::Supplement,
            2 => ProcessingMode::Incremental,
            _ => ProcessingMode::Full,
        }
    }

    fn default_choice() -> Self {
        ProcessingMode::Incremental
    }

    fn variants() -> (r: Vec<Self>) {
        let v: Vec<ProcessingMode> = vec![
            ProcessingMode::Full,
            ProcessingMode::Supplement,
            ProcessingMode::Incremental,
        ];
        proof {
            assert(forall|i: int|
                0 <= i < v@.len() ==> (#[trigger] v@[i]).index_spec() == i) by {
                assert(v@[0] == ProcessingMode::Full);
                assert(v@[1] == ProcessingMode::Supplement);
                assert(v@[2] == ProcessingMode::Incremental);
            }
        }
        v
    }
}

impl EnumOption for ClassificationRule {
    open spec fn count_spec() -> nat {
        3
    }

    open spec fn index_spec(self) -> nat {
        match self {
            ClassificationRule::YearMonth => 0,
            ClassificationRule::Year => 1,
            ClassificationRule::NoClassification => 2,
        }
    }

    fn count() -> usize {
        3
    }

    fn to_index(&self) -> usize {
        match self {
            ClassificationRule::YearMonth => 0,
            ClassificationRule::Year => 1,
            ClassificationRule::NoClassification => 2,
        }
    }

    fn from_index(index: usize) -> Self {
        match index {
            0 => ClassificationRule::YearMonth,
            1 => ClassificationRule::Year,
            2 => ClassificationRule::NoClassification,
            _ => ClassificationRule::YearMonth,
        }
    }

    fn default_choice() -> Self {
        ClassificationRule::YearMonth
    }

    fn variants() -> (r: Vec<Self>) {
        let v: Vec<ClassificationRule> = vec![
            ClassificationRule::YearMonth,
            ClassificationRule::Year,
            ClassificationRule::NoClassification,
        ];
        proof {
            assert(forall|i: int|
                0 <= i < v@.len() ==> (#[trigger] v@[i]).index_spec() == i) by {
                assert(v@[0] == ClassificationRule::YearMonth);
                assert(v@[1] == ClassificationRule::Year);
                assert(v@[2] == ClassificationRule::NoClassification);
            }
        }
        v
    }
}

impl EnumOption for MonthFormat {
    open spec fn count_spec() -> nat {
        2
    }

    open spec fn index_spec(self) -> nat {
        match self {
            MonthFormat::Nested => 0,
            MonthFormat::Combined => 1,
        }
    }

    fn count() -> usize {
        2
    }

    fn to_index(&self) -> usize {
        match self {
            MonthFormat::Nested => 0,
            MonthFormat::Combined => 1,
        }
    }

    fn from_index(index: usize) -> Self {
        match index {
            0 => MonthFormat::Nested,
            1 => MonthFormat::Combined,
            _ => MonthFormat::Nested,
        }
    }

    fn default_choice() -> Self {
        MonthFormat::Nested
    }

    fn variants() -> (r: Vec<Self>) {
        let v: Vec<MonthFormat> = vec![MonthFormat::Nested, MonthFormat::Combined];
        proof {
            assert(forall|i: int|
                0 <= i < v@.len() ==> (#[trigger] v@[i]).index_spec() == i) by {
                assert(v@[0] == MonthFormat::Nested);
                assert(v@[1] == MonthFormat::Combined);
            }
        }
        v
    }
}

impl EnumOption for FileOperation {
    open spec fn count_spec() -> nat {
        4
    }

    open spec fn index_spec(self) -> nat {
        match self {
            FileOperation::Copy => 0,
            FileOperation::Move => 1,
            FileOperation::Symlink => 2,
            FileOperation::Hardlink => 3,
        }
    }

    fn count() -> usize {
        4
    }

    fn to_index(&self) -> usize {
        match self {
            FileOperation::Copy => 0,
            FileOperation::Move => 1,
            FileOperation::Symlink => 2,
            FileOperation::Hardlink => 3,
        }
    }

    fn from_index(index: usize) -> Self {
        match index {
            0 => FileOperation::Copy,
            1 => FileOperation::Move,
            2 => FileOperation::Symlink,
            3 => FileOperation::Hardlink,
            _ => FileOperation::Copy,
        }
    }

    fn default_choice() -> Self {
        FileOperation::Copy
    }

    fn variants() -> (r: Vec<Self>) {
        let v: Vec<FileOperation> = vec![
            FileOperation::Copy,
            FileOperation::Move,
            FileOperation::Symlink,
            FileOperation::Hardlink,
        ];
        proof {
            assert(forall|i: int|
                0 <= i < v@.len() ==> (#[trigger] v@[i]).index_spec() == i) by {
                assert(v@[0] == FileOperation::Copy);
                assert(v@[1] == FileOperation::Move);
                assert(v@[2] == FileOperation::Symlink);
                assert(v@[3] == FileOperation::Hardlink);
            }
        }
        v
    }
}

/// Selection state over an option enumeration, with wrap-around
/// stepping.
#[derive(Debug, Clone, Copy)]
pub struct EnumSelection<E: EnumOption> {
    selected: E,
}

impl<E: EnumOption> EnumSelection<E> {
    /// The current selection.
    pub closed spec fn selected_spec(self) -> E {
        self.selected
    }

    /// Start from the option set's default.
    pub fn new() -> (r: Self)
        ensures
            r.selected_spec().index_spec() < E::count_spec(),
    {
        EnumSelection { selected: E::default_choice() }
    }

    /// Start from a given option.
    pub fn with_selected(selected: E) -> (r: Self)
        ensures
            r.selected_spec() == selected,
    {
        EnumSelection { selected }
    }

    /// The current option.
    pub fn selected(&self) -> (r: E)
        ensures
            r == self.selected_spec(),
    {
        self.selected
    }

    /// The current option's index.
    pub fn index(&self) -> (r: usize)
        ensures
            r == self.selected_spec().index_spec(),
            r < E::count_spec(),
    {
        self.selected.to_index()
    }

    /// Select a given option.
    pub fn select(&mut self, value: E)
        ensures
            final(self).selected_spec() == value,
    {
        self.selected = value;
    }

    /// Select by index; out-of-range indexes fall back to the first
    /// option.
    pub fn select_by_index(&mut self, index: usize)
        ensures
            index < E::count_spec() ==> final(self).selected_spec().index_spec() == index,
    {
        self.selected = E::from_index(index);
    }

    /// The number of options.
    pub fn count(&self) -> (r: usize)
        ensures
            r == E::count_spec(),
            r >= 1,
    {
        E::count()
    }

    /// Step to the next option, wrapping past the last.
    pub fn next(&mut self)
        ensures
            final(self).selected_spec().index_spec() as int == (old(
                self,
            ).selected_spec().index_spec() as int + 1) % (E::count_spec() as int),
    {
        let count = E::count();
        let new_index = (self.selected.to_index() + 1) % count;
        self.selected = E::from_index(new_index);
    }

    /// Step to the previous option, wrapping past the first.
    pub fn prev(&mut self)
        ensures
            final(self).selected_spec().index_spec() == (if old(
                self,
            ).selected_spec().index_spec() == 0 {
                E::count_spec() - 1
            } else {
                old(self).selected_spec().index_spec() - 1
            }),
    {
        let count = E::count();
        let cur = self.selected.to_index();
        let new_index = if cur == 0 {
            count - 1
        } else {
            cur - 1
        };
        self.selected = E::from_index(new_index);
    }
}

/// A yes-or-no selection.
#[derive(Debug, Clone, Copy)]
pub struct BoolSelection {
    value: bool,
}

impl BoolSelection {
    /// The current value.
    pub closed spec fn value_spec(self) -> bool {
        self.value
    }

    /// Start from a given value.
    pub fn new(value: bool) -> (r: Self)
        ensures
            r.value_spec() == value,
    {
        BoolSelection { value }
    }

    /// The current value.
    pub fn value(&self) -> (r: bool)
        ensures
            r == self.value_spec(),
    {
        self.value
    }

    /// Flip the value.
    pub fn toggle(&mut self)
        ensures
            final(self).value_spec() == !old(self).value_spec(),
    {
        self.value = !self.value;
    }

    /// The number of options: always two.
    pub fn count(&self) -> (r: usize)
        ensures
            r == 2,
    {
        2
    }

    /// The current index: one for yes, zero for no.
    pub fn index(&self) -> (r: usize)
        ensures
            r == (if self.value_spec() {
                1int
            } else {
                0int
            }),
    {
        if self.value {
            1
        } else {
            0
        }
    }

    /// Set by index: one selects yes, everything else no.
    pub fn select_by_index(&mut self, index: usize)
        ensures
            final(self).value_spec() == (index == 1),
    {
        self.value = index == 1;
    }

    /// Step forward: with two options, a flip.
    pub fn next(&mut self)
        ensures
            final(self).value_spec() == !old(self).value_spec(),
    {
        self.toggle();
    }

    /// Step backward: with two options, a flip.
    pub fn prev(&mut self)
        ensures
            final(self).value_spec() == !old(self).value_spec(),
    {
        self.toggle();
    }
}

} // verus!
