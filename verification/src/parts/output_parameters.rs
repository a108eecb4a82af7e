//! The output parameters of a procedure call.

use crate::error::HdbError;
use crate::parts::hdb_value::{parse_from_reply, value_at, HdbValue, ValueView};
use crate::parts::parameter_descriptor::{ParameterDescriptor, ParameterDescriptorView};
use crate::repeat::{ifold_at, lemma_ifold_failure, lemma_ifold_step, views};
use vstd::prelude::*;

verus! {

/// An output parameter: its descriptor and its value.
pub type Output = (ParameterDescriptorView, ValueView);

/// The descriptors and the values of the parameters that a procedure call
/// gave back.
#[derive(Debug, PartialEq, Eq)]
pub struct OutputParameters {
    descriptors: Vec<ParameterDescriptor>,
    values: Vec<HdbValue>,
}

/// Descriptors and values, pair by pair.
pub open spec fn pairs(descriptors: Seq<ParameterDescriptor>, values: Seq<HdbValue>) -> Seq<
    Output,
> {
    Seq::new(descriptors.len(), |i: int| (descriptors[i]@, values[i]@))
}

impl View for OutputParameters {
    type V = Seq<Output>;

    closed spec fn view(&self) -> Seq<Output> {
        pairs(self.descriptors@, self.values@)
    }
}

/// The value of the parameter at index `i`, if it is an output parameter.
pub open spec fn output_reader(descs: Seq<ParameterDescriptorView>) -> spec_fn(
    int,
    Seq<u8>,
    int,
) -> Result<(Option<Output>, int), HdbError> {
    |i: int, s: Seq<u8>, p: int|
        if descs[i].is_output() {
            match value_at(descs[i].type_id, descs[i].nullable(), s, p) {
                Err(e) => Err(e),
                Ok((v, q)) => Ok((Some((descs[i], v)), q)),
            }
        } else {
            Ok((None, p))
        }
}

/// Keeps a value that was read and passes over a parameter that is none.
pub open spec fn output_taker() -> spec_fn(Seq<Output>, Option<Output>) -> Seq<Output> {
    |acc: Seq<Output>, x: Option<Output>|
        match x {
            Some(y) => acc.push(y),
            None => acc,
        }
}

/// What the bytes at `pos` say of the output parameters of a statement with
/// these parameters: a value for each parameter that is not input only.
pub open spec fn output_parameters_at(
    descs: Seq<ParameterDescriptorView>,
    s: Seq<u8>,
    pos: int,
) -> Result<(Seq<Output>, int), HdbError> {
    ifold_at(output_reader(descs), output_taker(), Seq::<Output>::empty(), s, pos, descs.len())
}

impl OutputParameters {
    /// Every descriptor has its value.
    #[verifier::type_invariant]
    closed spec fn inv(self) -> bool {
        self.descriptors@.len() == self.values@.len()
    }

    /// Number of output parameters.
    pub fn len(&self) -> (r: usize)
        ensures
            r == self@.len(),
    {
        self.descriptors.len()
    }

    /// The descriptors of the output parameters.
    pub fn descriptors(&self) -> (r: &Vec<ParameterDescriptor>)
        ensures
            r@.len() == self@.len(),
            forall|i: int| 0 <= i < r@.len() ==> (#[trigger] r@[i])@ == self@[i].0,
    {
        &self.descriptors
    }

    /// The values of the output parameters.
    pub fn values(&self) -> (r: &Vec<HdbValue>)
        ensures
            r@.len() == self@.len(),
            forall|i: int| 0 <= i < r@.len() ==> (#[trigger] r@[i])@ == self@[i].1,
    {
        proof {
            use_type_invariant(self);
        }
        &self.values
    }

    /// Reads the output parameters of a statement whose parameters `par_md`
    /// describes.
    pub fn parse(par_md: &[ParameterDescriptor], b: &[u8], pos: usize) -> (r: Result<
        (OutputParameters, usize),
        HdbError,
    >)
        ensures
            crate::wire::agrees_view(r, output_parameters_at(views(par_md@), b@, pos as int)),
    {
        let ghost descs = views(par_md@);
        let ghost empty = Seq::<Output>::empty();
        let mut descriptors: Vec<ParameterDescriptor> = Vec::new();
        let mut values: Vec<HdbValue> = Vec::new();
        let mut p: usize = pos;
        let mut i: usize = 0;
        proof {
            assert(pairs(descriptors@, values@) =~= empty);
        }
        while i < par_md.len()
            invariant
                i <= par_md@.len(),
                descs == views(par_md@),
                empty == Seq::<Output>::empty(),
                descriptors@.len() == values@.len(),
                ifold_at(output_reader(descs), output_taker(), empty, b@, pos as int, i as nat)
                    == Ok::<_, HdbError>((pairs(descriptors@, values@), p as int)),
            decreases par_md@.len() - i,
        {
            proof {
                lemma_ifold_step(
                    output_reader(descs),
                    output_taker(),
                    empty,
                    b@,
                    pos as int,
                    i as nat,
                );
                assert(descs[i as int] == par_md@[i as int]@);
            }
            let ghost next = ifold_at(
                output_reader(descs),
                output_taker(),
                empty,
                b@,
                pos as int,
                (i + 1) as nat,
            );
            let d = &par_md[i];
            if d.direction().is_output() {
                let (value, q) = match parse_from_reply(d.type_id(), d.nullable(), b, p) {
                    Ok(t) => t,
                    Err(e) => {
                        proof {
                            assert(next == Err::<(Seq<Output>, int), _>(e));
                            lemma_ifold_failure(
                                output_reader(descs),
                                output_taker(),
                                empty,
                                b@,
                                pos as int,
                                (i + 1) as nat,
                                descs.len(),
                            );
                        }
                        return Err(e);
                    },
                };
                let copy: ParameterDescriptor = d.duplicate();
                proof {
                    assert(pairs(descriptors@.push(copy), values@.push(value)) =~= pairs(
                        descriptors@,
                        values@,
                    ).push((copy@, value@)));
                }
                descriptors.push(copy);
                values.push(value);
                p = q;
            }
            i = i + 1;
        }
        Ok((OutputParameters { descriptors, values }, p))
    }
}

} // verus!
