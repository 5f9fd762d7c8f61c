use vstd::prelude::*;
use crate::bill_extractor::{self, spec_date_config, SubjectType};
use crate::datetime::{Date, DateTime};
use crate::reporter::{Config, Reporter, ReportType};

verus! {

/// The window arguments of one report command.
#[derive(Clone, Copy, Debug, PartialEq, Eq, Structural)]
pub struct ReportArgs {
    pub date_start: Option<Date>,
    pub date_end: Option<Date>,
}

impl ReportArgs {
    pub open spec fn wf(self) -> bool {
        &&& (self.date_start matches Some(d) ==> d.wf())
        &&& (self.date_end matches Some(d) ==> d.wf())
    }

    /// Runtime check of `wf`, for callers outside verified code.
    pub fn check_wf(&self) -> (r: bool)
        ensures
            r == self.wf(),
    {
        let start_ok = match self.date_start {
            Some(d) => d.check_wf(),
            None => true,
        };
        let end_ok = match self.date_end {
            Some(d) => d.check_wf(),
            None => true,
        };
        start_ok && end_ok
    }
}

/// Which field a report command sums, with its window arguments.
#[derive(Clone, Copy, Debug, PartialEq, Eq, Structural)]
pub enum ReportTypeSubCommand {
    Total(ReportArgs),
    Subtotal(ReportArgs),
    Iva(ReportArgs),
    Isr(ReportArgs),
}

impl ReportTypeSubCommand {
    pub open spec fn spec_args(self) -> ReportArgs {
        match self {
            ReportTypeSubCommand::Total(a) => a,
            ReportTypeSubCommand::Subtotal(a) => a,
            ReportTypeSubCommand::Iva(a) => a,
            ReportTypeSubCommand::Isr(a) => a,
        }
    }

    pub open spec fn spec_kind(self) -> ReportType {
        match self {
            ReportTypeSubCommand::Total(_) => ReportType::Total,
            ReportTypeSubCommand::Subtotal(_) => ReportType::Subtotal,
            ReportTypeSubCommand::Iva(_) => ReportType::Iva,
            ReportTypeSubCommand::Isr(_) => ReportType::Isr,
        }
    }

    pub open spec fn wf(self) -> bool {
        self.spec_args().wf()
    }

    /// The window arguments of this command.
    pub fn args(&self) -> (r: ReportArgs)
        ensures
            r == self.spec_args(),
    {
        match self {
            ReportTypeSubCommand::Total(a) => *a,
            ReportTypeSubCommand::Subtotal(a) => *a,
            ReportTypeSubCommand::Iva(a) => *a,
            ReportTypeSubCommand::Isr(a) => *a,
        }
    }

    /// The selector this command sums.
    pub fn kind(&self) -> (r: ReportType)
        ensures
            r == self.spec_kind(),
    {
        match self {
            ReportTypeSubCommand::Total(_) => ReportType::Total,
            ReportTypeSubCommand::Subtotal(_) => ReportType::Subtotal,
            ReportTypeSubCommand::Iva(_) => ReportType::Iva,
            ReportTypeSubCommand::Isr(_) => ReportType::Isr,
        }
    }
}

/// The party a report queries, with its command.
#[derive(Clone, Debug)]
pub enum Subject {
    Emisor { emisor_rfc: String, report_type: ReportTypeSubCommand },
    Receptor { receptor_rfc: String, report_type: ReportTypeSubCommand },
}

impl Subject {
    pub open spec fn spec_sub_command(self) -> ReportTypeSubCommand {
        match self {
            Subject::Emisor { report_type, .. } => report_type,
            Subject::Receptor { report_type, .. } => report_type,
        }
    }

    pub open spec fn spec_rfc(self) -> Seq<char> {
        match self {
            Subject::Emisor { emisor_rfc, .. } => emisor_rfc@,
            Subject::Receptor { receptor_rfc, .. } => receptor_rfc@,
        }
    }

    pub open spec fn spec_subject_type(self) -> SubjectType {
        match self {
            Subject::Emisor { .. } => SubjectType::Emisor,
            Subject::Receptor { .. } => SubjectType::Receptor,
        }
    }

    pub open spec fn wf(self) -> bool {
        self.spec_sub_command().wf()
    }

    /// The report command of this subject.
    pub fn sub_command(&self) -> (r: &ReportTypeSubCommand)
        ensures
            *r == self.spec_sub_command(),
    {
        match self {
            Subject::Emisor { report_type, .. } => report_type,
            Subject::Receptor { report_type, .. } => report_type,
        }
    }
}

/// Builds a configured report engine from a parsed subject command.
pub struct ReporterFactory;

impl ReporterFactory {
    /// Assemble the report engine a subject command asks for: the
    /// subject's RFC and party kind, the selected field, and the date
    /// window with absent bounds resolved against `now`.
    pub fn from_subject(subject: Subject, now: DateTime) -> (r: Reporter)
        requires
            subject.wf(),
            now.wf(),
        ensures
            r.config.report_type == subject.spec_sub_command().spec_kind(),
            r.config.extractor_config@.subject_rfc == subject.spec_rfc(),
            r.config.extractor_config.subject_type == subject.spec_subject_type(),
            r.config.extractor_config.dates == spec_date_config(
                subject.spec_sub_command().spec_args().date_start,
                subject.spec_sub_command().spec_args().date_end,
                now,
            ),
            r.wf(),
    {
        let config = match subject {
            Subject::Emisor { emisor_rfc, report_type } => {
                let args = report_type.args();
                Config {
                    report_type: report_type.kind(),
                    extractor_config: bill_extractor::Config::init(
                        emisor_rfc,
                        SubjectType::Emisor,
                        args.date_start,
                        args.date_end,
                        now,
                    ),
                }
            },
            Subject::Receptor { receptor_rfc, report_type } => {
                let args = report_type.args();
                Config {
                    report_type: report_type.kind(),
                    extractor_config: bill_extractor::Config::init(
                        receptor_rfc,
                        SubjectType::Receptor,
                        args.date_start,
                        args.date_end,
                        now,
                    ),
                }
            },
        };
        Reporter::new(config)
    }
}

} // verus!
