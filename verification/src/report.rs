//! Analysis results: gap records, layout reports, and the check against an
//! externally observed size.

use vstd::prelude::*;

verus! {

/// One run of padding bytes inside or after an aggregate.
#[derive(Clone, Debug)]
pub struct Gap {
    /// Name of the field the padding precedes; `None` for trailing padding
    /// at the end of the aggregate.
    pub before_field: Option<String>,
    /// Byte offset at which the padding starts.
    pub offset: usize,
    /// Number of padding bytes.
    pub length: usize,
}

/// Mathematical image of a `Gap`.
#[verifier::ext_equal]
pub struct GapModel {
    pub before_field: Option<Seq<char>>,
    pub offset: nat,
    pub length: nat,
}

impl View for Gap {
    type V = GapModel;

    open spec fn view(&self) -> GapModel {
        GapModel {
            before_field: match self.before_field {
                Option::Some(name) => Option::Some(name@),
                Option::None => Option::None,
            },
            offset: self.offset as nat,
            length: self.length as nat,
        }
    }
}

/// The computed layout of one aggregate.
#[derive(Clone, Debug)]
pub struct LayoutReport {
    /// Total size of the aggregate in bytes, end padding included.
    pub total_size: usize,
    /// The aggregate's own alignment: the largest member alignment, at least 1.
    pub alignment: usize,
    /// Every padding run, in order of ascending offset.
    pub gaps: Vec<Gap>,
}

/// Mathematical image of a `LayoutReport`.
#[verifier::ext_equal]
pub struct ReportModel {
    pub total_size: nat,
    pub alignment: nat,
    pub gaps: Seq<GapModel>,
}

impl View for LayoutReport {
    type V = ReportModel;

    open spec fn view(&self) -> ReportModel {
        ReportModel {
            total_size: self.total_size as nat,
            alignment: self.alignment as nat,
            gaps: self.gaps@.map_values(|g: Gap| g@),
        }
    }
}

/// The two failure kinds of the engine.
#[derive(Clone, Copy, Debug, PartialEq, Eq, Structural)]
pub enum LayoutError {
    /// Malformed input: an empty field list, or a field whose alignment is
    /// zero or not a power of two.
    InvalidSpec,
    /// The computed total size disagrees with the externally observed size.
    SizeMismatch { computed: usize, observed: usize },
}

/// Compares a computed layout against a ground-truth size obtained
/// externally; a disagreement is always surfaced, never absorbed.
pub fn verify(report: &LayoutReport, observed_size: usize) -> (r: Result<(), LayoutError>)
    ensures
        r == (if report.total_size == observed_size {
            Result::<(), LayoutError>::Ok(())
        } else {
            Result::<(), LayoutError>::Err(LayoutError::SizeMismatch {
                computed: report.total_size,
                observed: observed_size,
            })
        }),
{
    if report.total_size == observed_size {
        Ok(())
    } else {
        Err(LayoutError::SizeMismatch { computed: report.total_size, observed: observed_size })
    }
}

} // verus!
