//! Reading a `pio run`'s output line by line: each line goes to the diagnostic parser, the
//! size parser and the stage detection, and what they find is reported in that order.
use crate::diag::parser::{
    defect_model, feed_spec, DefectModel, DiagnosticParser, BARE_FILE_LINE, COMPILER_FORM, LINKER_BARE_SYMBOL,
    LINKER_COMBINED,
};
use crate::diag::size::{size_line_spec, size_step, SizeParser, SIZE_LINE};
use crate::matching::regex_captures_result;
use crate::pio::pipeline::{detect_stage, stage_spec};
use crate::proc::events::{Defect, SizeUsage};
use vstd::prelude::*;

verus! {

/// What one line of a run says beyond its text.
#[derive(Debug, Clone)]
pub enum RunFinding {
    Defect(Defect),
    Size(SizeUsage),
    Stage(String),
}

pub enum FindingModel {
    Defect(DefectModel),
    Size(SizeUsage),
    Stage(Seq<char>),
}

pub open spec fn finding_model(f: RunFinding) -> FindingModel {
    match f {
        RunFinding::Defect(d) => FindingModel::Defect(defect_model(d)),
        RunFinding::Size(u) => FindingModel::Size(u),
        RunFinding::Stage(s) => FindingModel::Stage(s@),
    }
}

pub open spec fn findings_model(v: Seq<RunFinding>) -> Seq<FindingModel> {
    v.map_values(|f: RunFinding| finding_model(f))
}

/// The line's findings: its defect, then its size report, then its stage, each if any.
pub open spec fn line_findings(d: Option<DefectModel>, u: Option<SizeUsage>, st: Option<Seq<char>>) -> Seq<
    FindingModel,
> {
    (match d {
        Some(x) => seq![FindingModel::Defect(x)],
        None => Seq::empty(),
    }) + (match u {
        Some(x) => seq![FindingModel::Size(x)],
        None => Seq::empty(),
    }) + (match st {
        Some(x) => seq![FindingModel::Stage(x)],
        None => Seq::empty(),
    })
}

pub struct RunAnalyzer {
    pub diag: DiagnosticParser,
    pub size: SizeParser,
}

impl RunAnalyzer {
    pub fn new() -> (r: RunAnalyzer)
        ensures
            r.diag.pending() is None,
            r.size.ram() is None && r.size.flash() is None && !r.size.reported(),
    {
        RunAnalyzer { diag: DiagnosticParser::new(), size: SizeParser::new() }
    }

    /// Feeds one line to both parsers and the stage detection.
    pub fn feed(&mut self, line: &str) -> (r: Vec<RunFinding>)
        ensures
            ({
                let (p, d) = feed_spec(
                    old(self).diag.pending(),
                    line@,
                    regex_captures_result(COMPILER_FORM@, line@),
                    regex_captures_result(LINKER_COMBINED@, line@),
                    regex_captures_result(LINKER_BARE_SYMBOL@, line@),
                    regex_captures_result(BARE_FILE_LINE@, line@),
                );
                let (ram, flash, reported, u) = size_step(
                    old(self).size.ram(),
                    old(self).size.flash(),
                    old(self).size.reported(),
                    size_line_spec(regex_captures_result(SIZE_LINE@, line@)),
                );
                &&& final(self).diag.pending() == p
                &&& final(self).size.ram() == ram && final(self).size.flash() == flash
                &&& final(self).size.reported() == reported
                &&& findings_model(r@) == line_findings(d, u, stage_spec(line@))
            }),
    {
        let mut out: Vec<RunFinding> = Vec::new();
        let d = self.diag.feed_line(line);
        let u = self.size.feed_line(line);
        let st = detect_stage(line);
        let ghost m0 = findings_model(out@);
        match d {
            Some(x) => out.push(RunFinding::Defect(x)),
            None => {},
        }
        let ghost m1 = findings_model(out@);
        match u {
            Some(x) => out.push(RunFinding::Size(x)),
            None => {},
        }
        let ghost m2 = findings_model(out@);
        match st {
            Some(x) => out.push(RunFinding::Stage(x)),
            None => {},
        }
        proof {
            assert(m0 =~= Seq::<FindingModel>::empty());
            assert(m1 =~= m0 + match d {
                Some(x) => seq![FindingModel::Defect(defect_model(x))],
                None => Seq::<FindingModel>::empty(),
            });
            assert(m2 =~= m1 + match u {
                Some(x) => seq![FindingModel::Size(x)],
                None => Seq::<FindingModel>::empty(),
            });
            assert(findings_model(out@) =~= m2 + match st {
                Some(x) => seq![FindingModel::Stage(x@)],
                None => Seq::<FindingModel>::empty(),
            });
        }
        out
    }
}

} // verus!
