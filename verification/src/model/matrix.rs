//! The masked comparison matrix, as plain data.

use vstd::prelude::*;

verus! {

/// How one Entry compares across the Environments.
#[derive(Debug, Clone, Copy, PartialEq, Eq, Structural)]
pub enum EntryState {
    Aligned,
    Drift,
    Gap,
}

/// What kind of leaf an Entry's Value is.
#[derive(Debug, Clone, Copy, PartialEq, Eq, Structural)]
pub enum LeafKind {
    String,
    Number,
    Bool,
    Null,
    Json,
}

/// Which row of the matrix: one Entry, by its rendered name, or the whole Set.
#[derive(Debug, PartialEq, Eq)]
pub enum RowKey {
    Entry(String),
    WholeSet,
}

/// One masked cell.
#[derive(Debug, PartialEq, Eq)]
pub enum MatrixCell {
    Present { len: usize, group: u32, hex: String, kind: Option<LeafKind> },
    Absent,
}

/// One row of the matrix.
#[derive(Debug, PartialEq, Eq)]
pub struct MatrixRow {
    pub key: RowKey,
    pub name: String,
    pub state: EntryState,
    pub kind: Option<LeafKind>,
    pub cells: Vec<MatrixCell>,
}

/// The masked matrix of one Application.
#[derive(Debug, PartialEq, Eq)]
pub struct MatrixView {
    pub environments: Vec<String>,
    pub rows: Vec<MatrixRow>,
}

/// One line of the matrix list: a group header or a row.
#[derive(Debug, PartialEq, Eq)]
pub enum MatrixItem {
    Header { label: String, count: usize },
    Row { index: usize, zebra: bool, group_label: Option<String> },
}

/// One line of the sidebar.
#[derive(Debug, PartialEq, Eq)]
pub struct SidebarApp {
    pub name: String,
    pub subtitle: String,
    pub drift: String,
    pub selected: bool,
}

/// Which pane the main area shows.
#[derive(Debug, Clone, Copy, PartialEq, Eq, Structural)]
pub enum MainPane {
    SignIn,
    Signing,
    Loading,
    EmptyApps,
    Matrix,
    Error,
}

/// How far the selected Application's load has come.
#[derive(Debug, Clone, Copy, PartialEq, Eq, Structural)]
pub enum LoadStatus {
    Idle,
    SigningIn,
    Loading,
    Loaded,
    Failed,
}

/// An Entry name parted for display.
#[derive(Debug, PartialEq, Eq)]
pub struct NameParts {
    pub prefix: String,
    pub leaf: String,
}

} // verus!
