//! Field descriptions handed to the analyzers, and the conventional
//! filter for ignorable field names.

use vstd::prelude::*;

verus! {

use vstd::string::StrSliceExecFns;
use crate::align::{is_pow2, is_power_of_two};

/// One field of an aggregate: its name, byte size, and required alignment.
#[derive(Clone, Debug)]
pub struct FieldSpec {
    pub name: String,
    pub size: usize,
    pub alignment: usize,
}

/// Mathematical image of a `FieldSpec`.
#[verifier::ext_equal]
pub struct FieldModel {
    pub name: Seq<char>,
    pub size: nat,
    pub alignment: nat,
}

impl View for FieldSpec {
    type V = FieldModel;

    open spec fn view(&self) -> FieldModel {
        FieldModel { name: self.name@, size: self.size as nat, alignment: self.alignment as nat }
    }
}

/// A field is well-formed when its alignment is a power of two (hence >= 1).
pub open spec fn field_ok(f: FieldModel) -> bool {
    is_pow2(f.alignment)
}

/// Every field in the list is well-formed.
pub open spec fn fields_ok(fs: Seq<FieldModel>) -> bool {
    forall|i: int| 0 <= i < fs.len() ==> field_ok(#[trigger] fs[i])
}

/// Valid analyzer input: a non-empty list of well-formed fields.
pub open spec fn valid_fields(fs: Seq<FieldModel>) -> bool {
    fs.len() > 0 && fields_ok(fs)
}

/// The mathematical images of a list of fields.
pub open spec fn models(fs: Seq<FieldSpec>) -> Seq<FieldModel> {
    fs.map_values(|f: FieldSpec| f@)
}

impl FieldSpec {
    /// Bundles a field description.
    pub fn new(name: String, size: usize, alignment: usize) -> (f: FieldSpec)
        ensures
            f@ == (FieldModel {
                name: name@,
                size: size as nat,
                alignment: alignment as nat,
            }),
    {
        FieldSpec { name, size, alignment }
    }

    /// Whether this field may be handed to the analyzers.
    pub fn is_well_formed(&self) -> (r: bool)
        ensures
            r == field_ok(self@),
    {
        is_power_of_two(self.alignment)
    }
}

/// By convention, a name beginning with an underscore marks a field whose
/// padding is not meaningful to report.
pub open spec fn spec_ignored_name(name: Seq<char>) -> bool {
    name.len() > 0 && name[0] == '_'
}

/// Decides whether a field name is ignorable by the underscore convention.
pub fn is_ignored_name(name: &str) -> (r: bool)
    ensures
        r == spec_ignored_name(name@),
{
    let n = name.unicode_len();
    if n == 0 {
        false
    } else {
        name.get_char(0) == '_'
    }
}

/// Drops every ignorable field, keeping the order of the rest.
pub fn filter_fields(fields: &Vec<FieldSpec>) -> (r: Vec<FieldSpec>)
    ensures
        r@ == fields@.filter(|f: FieldSpec| !spec_ignored_name(f@.name)),
{
    let mut out: Vec<FieldSpec> = Vec::new();
    let mut i: usize = 0;
    proof {
        reveal(Seq::filter);
        assert(fields@.take(0) =~= Seq::<FieldSpec>::empty());
    }
    while i < fields.len()
        invariant
            i <= fields.len(),
            out@ == fields@.take(i as int).filter(|f: FieldSpec| !spec_ignored_name(f@.name)),
        decreases fields.len() - i,
    {
        let f = &fields[i];
        let keep = !is_ignored_name(f.name.as_str());
        if keep {
            out.push(FieldSpec { name: f.name.clone(), size: f.size, alignment: f.alignment });
        }
        proof {
            reveal(Seq::filter);
            assert(fields@.take(i + 1).drop_last() =~= fields@.take(i as int));
            assert(fields@.take(i + 1).last() == fields@[i as int]);
            if keep {
                assert(out@.last() == fields@[i as int]);
                assert(out@.drop_last() =~= fields@.take(i as int).filter(
                    |f: FieldSpec| !spec_ignored_name(f@.name),
                ));
                assert(out@ =~= fields@.take(i + 1).filter(
                    |f: FieldSpec| !spec_ignored_name(f@.name),
                ));
            } else {
                assert(out@ =~= fields@.take(i + 1).filter(
                    |f: FieldSpec| !spec_ignored_name(f@.name),
                ));
            }
        }
        i = i + 1;
    }
    proof {
        assert(fields@.take(fields@.len() as int) =~= fields@);
    }
    out
}

} // verus!
