//! How the table of a statement is partitioned.

use crate::error::{HdbError, ImplError};
use crate::repeat::{lemma_repeat_failure, lemma_repeat_step, repeat_at};
use crate::wire::{
    agrees_view, get_i32, get_i8, get_skip, skip_bytes, take_i32, take_i8,
};
use vstd::prelude::*;

verus! {

/// How the rows of a table are spread over its partitions.
#[derive(Debug, Clone, Copy, PartialEq, Eq, Structural)]
pub enum PartitionMethod {
    Invalid,
    RoundRobin,
    Hash,
}

/// The method that a number stands for.
pub open spec fn partition_method_of(val: i8) -> Result<PartitionMethod, HdbError> {
    if val == 0 {
        Ok(PartitionMethod::Invalid)
    } else if val == 1 {
        Ok(PartitionMethod::RoundRobin)
    } else if val == 2 {
        Ok(PartitionMethod::Hash)
    } else {
        Err(HdbError::Impl(ImplError::UnknownPartitionMethod(val)))
    }
}

impl PartitionMethod {
    /// The method with this number; another number is an error of the implementation.
    pub fn from_i8(val: i8) -> (r: Result<PartitionMethod, HdbError>)
        ensures
            match r {
                Ok(m) => partition_method_of(val) == Ok::<_, HdbError>(m),
                Err(e) => partition_method_of(val) == Err::<PartitionMethod, _>(e),
            },
    {
        match val {
            0 => Ok(PartitionMethod::Invalid),
            1 => Ok(PartitionMethod::RoundRobin),
            2 => Ok(PartitionMethod::Hash),
            _ => Err(HdbError::Impl(ImplError::UnknownPartitionMethod(val))),
        }
    }
}

/// What is applied to a parameter before it selects a partition.
#[derive(Debug, Clone, Copy, PartialEq, Eq, Structural)]
pub enum ParameterFunction {
    Invalid,
    Year,
    Month,
}

/// The function that a number stands for.
pub open spec fn parameter_function_of(val: i8) -> Result<ParameterFunction, HdbError> {
    if val == 0 {
        Ok(ParameterFunction::Invalid)
    } else if val == 1 {
        Ok(ParameterFunction::Year)
    } else if val == 2 {
        Ok(ParameterFunction::Month)
    } else {
        Err(HdbError::Impl(ImplError::UnknownParameterFunction(val)))
    }
}

impl ParameterFunction {
    /// The function with this number; another number is an error of the implementation.
    pub fn from_i8(val: i8) -> (r: Result<ParameterFunction, HdbError>)
        ensures
            match r {
                Ok(m) => parameter_function_of(val) == Ok::<_, HdbError>(m),
                Err(e) => parameter_function_of(val) == Err::<ParameterFunction, _>(e),
            },
    {
        match val {
            0 => Ok(ParameterFunction::Invalid),
            1 => Ok(ParameterFunction::Year),
            2 => Ok(ParameterFunction::Month),
            _ => Err(HdbError::Impl(ImplError::UnknownParameterFunction(val))),
        }
    }
}

/// A parameter by which the table is partitioned.
#[derive(Debug, Clone, Copy, PartialEq, Eq, Structural)]
pub struct ParameterDescriptor {
    pub parameter_index: i32,
    pub parameter_function: ParameterFunction,
    pub attribute_type: i8,
}

/// One partition.
#[derive(Debug, Clone, Copy, PartialEq, Eq, Structural)]
pub struct Partitions {
    pub val1: i32,
    pub val2: i32,
}

/// Method, parameters and partitions of a table.
#[derive(Debug, PartialEq, Eq)]
pub struct PartitionInformation {
    partition_method: PartitionMethod,
    parameter_descriptor: Vec<ParameterDescriptor>,
    partitions: Vec<Partitions>,
}

/// The partitioning of a table as the model sees it.
pub struct PartitionInformationView {
    pub partition_method: PartitionMethod,
    pub parameter_descriptor: Seq<ParameterDescriptor>,
    pub partitions: Seq<Partitions>,
}

impl View for PartitionInformation {
    type V = PartitionInformationView;

    closed spec fn view(&self) -> PartitionInformationView {
        PartitionInformationView {
            partition_method: self.partition_method,
            parameter_descriptor: self.parameter_descriptor@,
            partitions: self.partitions@,
        }
    }
}

/// Index, function, attribute type, and two unused bytes.
pub open spec fn descriptor_at(s: Seq<u8>, pos: int) -> Result<
    (ParameterDescriptor, int),
    HdbError,
> {
    match get_i32(s, pos) {
        Err(e) => Err(e),
        Ok((parameter_index, p1)) => match get_i8(s, p1) {
            Err(e) => Err(e),
            Ok((f, p2)) => match parameter_function_of(f) {
                Err(e) => Err(e),
                Ok(parameter_function) => match get_i8(s, p2) {
                    Err(e) => Err(e),
                    Ok((attribute_type, p3)) => match get_skip(s, p3, 2) {
                        Err(e) => Err(e),
                        Ok(p4) => Ok(
                            (
                                ParameterDescriptor {
                                    parameter_index,
                                    parameter_function,
                                    attribute_type,
                                },
                                p4,
                            ),
                        ),
                    },
                },
            },
        },
    }
}

/// Two numbers.
pub open spec fn partition_at(s: Seq<u8>, pos: int) -> Result<(Partitions, int), HdbError> {
    match get_i32(s, pos) {
        Err(e) => Err(e),
        Ok((val1, p1)) => match get_i32(s, p1) {
            Err(e) => Err(e),
            Ok((val2, p2)) => Ok((Partitions { val1, val2 }, p2)),
        },
    }
}

/// Reads one parameter descriptor of a list.
pub open spec fn descriptor_reader() -> spec_fn(Seq<u8>, int) -> Result<
    (ParameterDescriptor, int),
    HdbError,
> {
    |s: Seq<u8>, p: int| descriptor_at(s, p)
}

/// Reads one partition of a list.
pub open spec fn partition_reader() -> spec_fn(Seq<u8>, int) -> Result<
    (Partitions, int),
    HdbError,
> {
    |s: Seq<u8>, p: int| partition_at(s, p)
}

/// A count that the server sends as a signed number; a negative one counts
/// nothing.
pub open spec fn count_of(n: i32) -> nat {
    if n > 0 {
        n as nat
    } else {
        0
    }
}

/// What the bytes at `pos` say of a partitioning: the method, seven unused
/// bytes, the number of parameters and of partitions, the parameters, the
/// partitions.
pub open spec fn partition_information_at(s: Seq<u8>, pos: int) -> Result<
    (PartitionInformationView, int),
    HdbError,
> {
    match get_i8(s, pos) {
        Err(e) => Err(e),
        Ok((m, p1)) => match partition_method_of(m) {
            Err(e) => Err(e),
            Ok(partition_method) => match get_skip(s, p1, 7) {
                Err(e) => Err(e),
                Ok(p2) => match get_i32(s, p2) {
                    Err(e) => Err(e),
                    Ok((num_parameters, p3)) => match get_i32(s, p3) {
                        Err(e) => Err(e),
                        Ok((num_partitions, p4)) => match repeat_at(
                            descriptor_reader(),
                            s,
                            p4,
                            count_of(num_parameters),
                        ) {
                            Err(e) => Err(e),
                            Ok((parameter_descriptor, p5)) => match repeat_at(
                                partition_reader(),
                                s,
                                p5,
                                count_of(num_partitions),
                            ) {
                                Err(e) => Err(e),
                                Ok((partitions, p6)) => Ok(
                                    (
                                        PartitionInformationView {
                                            partition_method,
                                            parameter_descriptor,
                                            partitions,
                                        },
                                        p6,
                                    ),
                                ),
                            },
                        },
                    },
                },
            },
        },
    }
}

/// Reads one parameter.
fn parse_descriptor(b: &[u8], pos: usize) -> (r: Result<(ParameterDescriptor, usize), HdbError>)
    ensures
        crate::wire::agrees(r, descriptor_at(b@, pos as int)),
{
    let (parameter_index, p1) = take_i32(b, pos)?;
    let (f, p2) = take_i8(b, p1)?;
    let parameter_function: ParameterFunction = ParameterFunction::from_i8(f)?;
    let (attribute_type, p3) = take_i8(b, p2)?;
    let p4: usize = skip_bytes(b, p3, 2)?;
    Ok((ParameterDescriptor { parameter_index, parameter_function, attribute_type }, p4))
}

/// Reads one partition.
fn parse_partition(b: &[u8], pos: usize) -> (r: Result<(Partitions, usize), HdbError>)
    ensures
        crate::wire::agrees(r, partition_at(b@, pos as int)),
{
    let (val1, p1) = take_i32(b, pos)?;
    let (val2, p2) = take_i32(b, p1)?;
    Ok((Partitions { val1, val2 }, p2))
}

/// Reads `count` parameters.
fn parse_descriptors(count: usize, b: &[u8], pos: usize) -> (r: Result<
    (Vec<ParameterDescriptor>, usize),
    HdbError,
>)
    ensures
        agrees_view(r, repeat_at(descriptor_reader(), b@, pos as int, count as nat)),
{
    let mut out: Vec<ParameterDescriptor> = Vec::new();
    let mut p: usize = pos;
    let mut i: usize = 0;
    while i < count
        invariant
            i <= count,
            repeat_at(descriptor_reader(), b@, pos as int, i as nat) == Ok::<_, HdbError>(
                (out@, p as int),
            ),
        decreases count - i,
    {
        proof {
            lemma_repeat_step(descriptor_reader(), b@, pos as int, i as nat);
            assert(descriptor_reader()(b@, p as int) == descriptor_at(b@, p as int));
        }
        let ghost next = repeat_at(descriptor_reader(), b@, pos as int, (i + 1) as nat);
        let (x, q) = match parse_descriptor(b, p) {
            Ok(t) => t,
            Err(e) => {
                proof {
                    assert(next == Err::<(Seq<ParameterDescriptor>, int), _>(e));
                    lemma_repeat_failure(
                        descriptor_reader(),
                        b@,
                        pos as int,
                        (i + 1) as nat,
                        count as nat,
                    );
                }
                return Err(e);
            },
        };
        out.push(x);
        p = q;
        i = i + 1;
    }
    Ok((out, p))
}

/// Reads `count` partitions.
fn parse_partitions(count: usize, b: &[u8], pos: usize) -> (r: Result<
    (Vec<Partitions>, usize),
    HdbError,
>)
    ensures
        agrees_view(r, repeat_at(partition_reader(), b@, pos as int, count as nat)),
{
    let mut out: Vec<Partitions> = Vec::new();
    let mut p: usize = pos;
    let mut i: usize = 0;
    while i < count
        invariant
            i <= count,
            repeat_at(partition_reader(), b@, pos as int, i as nat) == Ok::<_, HdbError>(
                (out@, p as int),
            ),
        decreases count - i,
    {
        proof {
            lemma_repeat_step(partition_reader(), b@, pos as int, i as nat);
            assert(partition_reader()(b@, p as int) == partition_at(b@, p as int));
        }
        let ghost next = repeat_at(partition_reader(), b@, pos as int, (i + 1) as nat);
        let (x, q) = match parse_partition(b, p) {
            Ok(t) => t,
            Err(e) => {
                proof {
                    assert(next == Err::<(Seq<Partitions>, int), _>(e));
                    lemma_repeat_failure(
                        partition_reader(),
                        b@,
                        pos as int,
                        (i + 1) as nat,
                        count as nat,
                    );
                }
                return Err(e);
            },
        };
        out.push(x);
        p = q;
        i = i + 1;
    }
    Ok((out, p))
}

/// A signed count as a number of items.
fn to_count(n: i32) -> (r: usize)
    ensures
        r == count_of(n),
{
    if n > 0 {
        n as usize
    } else {
        0
    }
}

impl PartitionInformation {
    /// How the rows are spread.
    pub fn partition_method(&self) -> (r: PartitionMethod)
        ensures
            r == self@.partition_method,
    {
        self.partition_method
    }

    /// The parameters that select a partition.
    pub fn parameter_descriptors(&self) -> (r: &Vec<ParameterDescriptor>)
        ensures
            r@ == self@.parameter_descriptor,
    {
        &self.parameter_descriptor
    }

    /// The partitions.
    pub fn partitions(&self) -> (r: &Vec<Partitions>)
        ensures
            r@ == self@.partitions,
    {
        &self.partitions
    }

    /// Reads the partitioning of a table.
    pub fn parse(b: &[u8], pos: usize) -> (r: Result<(PartitionInformation, usize), HdbError>)
        ensures
            agrees_view(r, partition_information_at(b@, pos as int)),
    {
        let (m, p1) = take_i8(b, pos)?;
        let partition_method: PartitionMethod = PartitionMethod::from_i8(m)?;
        let p2: usize = skip_bytes(b, p1, 7)?;
        let (num_parameters, p3) = take_i32(b, p2)?;
        let (num_partitions, p4) = take_i32(b, p3)?;
        let (parameter_descriptor, p5) = parse_descriptors(to_count(num_parameters), b, p4)?;
        let (partitions, p6) = parse_partitions(to_count(num_partitions), b, p5)?;
        Ok((PartitionInformation { partition_method, parameter_descriptor, partitions }, p6))
    }
}

} // verus!
