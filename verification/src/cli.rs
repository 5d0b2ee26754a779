use vstd::prelude::*;

verus! {

/// Shell history file format, as given on the command line.
#[derive(Debug, Clone, Copy, PartialEq, Eq, Structural)]
pub enum HistoryFormat {
    Bash,
    Zsh,
    ZshExtended,
    Fish,
}

impl Default for HistoryFormat {
    fn default() -> (r: HistoryFormat)
        ensures
            r == HistoryFormat::Bash,
    {
        HistoryFormat::Bash
    }
}

/// Shell to print the start-up code for.
#[derive(Debug, Clone, Copy, PartialEq, Eq, Structural)]
pub enum InitMode {
    Bash,
    Zsh,
    Fish,
    Powershell,
}

/// Order in which dumped commands are listed.
#[derive(Debug, Clone, Copy, PartialEq, Eq, Structural)]
pub enum SortOrder {
    Asc,
    Desc,
}

impl Default for SortOrder {
    fn default() -> (r: SortOrder)
        ensures
            r == SortOrder::Asc,
    {
        SortOrder::Asc
    }
}

/// Output format of a dump.
#[derive(Debug, Clone, Copy, PartialEq, Eq, Structural)]
pub enum DumpFormat {
    Json,
    Csv,
}

impl Default for DumpFormat {
    fn default() -> (r: DumpFormat)
        ensures
            r == DumpFormat::Json,
    {
        DumpFormat::Json
    }
}

impl SortOrder {
    /// The SQL keyword for this order.
    pub fn to_str(&self) -> (r: &'static str)
        ensures
            r@ == (match self {
                SortOrder::Asc => "ASC"@,
                SortOrder::Desc => "DESC"@,
            }),
    {
        match self {
            SortOrder::Asc => "ASC",
            SortOrder::Desc => "DESC",
        }
    }
}

} // verus!
