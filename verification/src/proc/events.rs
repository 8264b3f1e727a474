//! Structured events derived from a process's output.
use vstd::prelude::*;

verus! {

#[derive(Debug, Clone, Copy, PartialEq, Eq)]
pub enum Severity {
    Error,
    Warning,
    Note,
}

#[derive(Debug, Clone, Copy, PartialEq, Eq)]
pub enum DefectSource {
    Compiler,
    Linker,
    Check,
}

#[derive(Debug, Clone)]
pub struct Defect {
    pub file: String,
    pub line: u32,
    pub column: Option<u32>,
    pub severity: Severity,
    pub message: String,
    pub source: DefectSource,
    pub raw: String,
}

#[derive(Debug, Clone, Copy, PartialEq, Eq)]
pub struct SizeUsage {
    pub ram_used: u64,
    pub ram_total: u64,
    pub flash_used: u64,
    pub flash_total: u64,
    pub ram_delta: Option<i64>,
    pub flash_delta: Option<i64>,
}

#[derive(Debug, Clone, Copy, PartialEq, Eq)]
pub enum TestStatus {
    Passed,
    Failed,
    Errored,
    Skipped,
}

} // verus!
