//! The descriptors of the parameters of a prepared statement.

use crate::error::{HdbError, ProtocolError};
use crate::repeat::{
    irepeat_at, lemma_irepeat_failure, lemma_irepeat_step, lemma_repeat_failure,
    lemma_repeat_step, lemma_views_empty, lemma_views_push, repeat_at, views,
};
use crate::text::{cesu8_to_string, decoded_text};
use crate::wire::{get_bytes, get_i16, get_skip, get_u8, parse_bytes, skip_bytes, take_i16, take_u8};
use vstd::prelude::*;

verus! {

/// Set in the options of a parameter that may be NULL.
pub const PARAMETER_NULLABLE: u8 = 0b0000_0010;

/// The name offset of a parameter without a name.
pub const NO_NAME: i16 = -1;

/// Whether a parameter goes in, comes out, or both.
#[allow(non_camel_case_types)]
#[derive(Clone, Copy, Debug, PartialEq, Eq, Structural)]
pub enum ParameterDirection {
    IN,
    INOUT,
    OUT,
}

/// The direction that a mode byte stands for.
pub open spec fn direction_of(mode: u8) -> Result<ParameterDirection, HdbError> {
    if mode == 1 {
        Ok(ParameterDirection::IN)
    } else if mode == 2 {
        Ok(ParameterDirection::INOUT)
    } else if mode == 4 {
        Ok(ParameterDirection::OUT)
    } else {
        Err(HdbError::Protocol(ProtocolError::UnknownParameterMode(mode)))
    }
}

impl ParameterDirection {
    /// The direction that the byte stands for; any other byte is a protocol error.
    pub fn from_u8(mode: u8) -> (r: Result<ParameterDirection, HdbError>)
        ensures
            match r {
                Ok(d) => direction_of(mode) == Ok::<_, HdbError>(d),
                Err(e) => direction_of(mode) == Err::<ParameterDirection, _>(e),
            },
    {
        if mode == 1 {
            Ok(ParameterDirection::IN)
        } else if mode == 2 {
            Ok(ParameterDirection::INOUT)
        } else if mode == 4 {
            Ok(ParameterDirection::OUT)
        } else {
            Err(HdbError::Protocol(ProtocolError::UnknownParameterMode(mode)))
        }
    }

    /// Whether a value for the parameter is sent with an execute.
    pub fn is_input(&self) -> (r: bool)
        ensures
            r == (*self != ParameterDirection::OUT),
    {
        match self {
            ParameterDirection::IN | ParameterDirection::INOUT => true,
            ParameterDirection::OUT => false,
        }
    }

    /// Whether a value for the parameter comes back from a procedure call.
    pub fn is_output(&self) -> (r: bool)
        ensures
            r == (*self != ParameterDirection::IN),
    {
        match self {
            ParameterDirection::OUT | ParameterDirection::INOUT => true,
            ParameterDirection::IN => false,
        }
    }
}

/// The descriptor of one parameter.
#[derive(Clone, Debug, PartialEq, Eq)]
pub struct ParameterDescriptor {
    pub options: u8,
    pub type_id: u8,
    pub direction: ParameterDirection,
    pub length: i16,
    pub fraction: i16,
    pub name: Option<String>,
}

/// The fixed part of a descriptor, and where its name is.
pub struct RawDescriptor {
    pub options: u8,
    pub type_id: u8,
    pub direction: ParameterDirection,
    pub name_offset: i16,
    pub length: i16,
    pub fraction: i16,
}

/// A descriptor as the model sees it.
pub struct ParameterDescriptorView {
    pub options: u8,
    pub type_id: u8,
    pub direction: ParameterDirection,
    pub length: i16,
    pub fraction: i16,
    pub name: Option<Seq<char>>,
}

impl View for ParameterDescriptor {
    type V = ParameterDescriptorView;

    open spec fn view(&self) -> ParameterDescriptorView {
        ParameterDescriptorView {
            options: self.options,
            type_id: self.type_id,
            direction: self.direction,
            length: self.length,
            fraction: self.fraction,
            name: match self.name {
                Some(n) => Some(n@),
                None => None,
            },
        }
    }
}

impl ParameterDescriptorView {
    /// Whether the parameter may be NULL.
    pub open spec fn nullable(self) -> bool {
        self.options & PARAMETER_NULLABLE != 0
    }

    /// Whether the caller gives the parameter a value.
    pub open spec fn is_input(self) -> bool {
        self.direction != ParameterDirection::OUT
    }

    /// Whether the server gives the parameter a value.
    pub open spec fn is_output(self) -> bool {
        self.direction != ParameterDirection::IN
    }
}

impl ParameterDescriptor {
    /// Whether the parameter may be NULL.
    pub fn nullable(&self) -> (r: bool)
        ensures
            r == self@.nullable(),
    {
        (self.options & PARAMETER_NULLABLE) != 0
    }

    /// The type code of the parameter.
    pub fn type_id(&self) -> (r: u8)
        ensures
            r == self@.type_id,
    {
        self.type_id
    }

    /// Which way the parameter goes.
    pub fn direction(&self) -> (r: ParameterDirection)
        ensures
            r == self@.direction,
    {
        self.direction
    }

    /// The name of the parameter, if it has one.
    pub fn name(&self) -> (r: Option<&String>)
        ensures
            match r {
                Some(n) => self@.name == Some(n@),
                None => self@.name is None,
            },
    {
        self.name.as_ref()
    }

    /// A copy of the descriptor.
    pub fn duplicate(&self) -> (r: ParameterDescriptor)
        ensures
            r@ == self@,
    {
        ParameterDescriptor {
            options: self.options,
            type_id: self.type_id,
            direction: self.direction,
            length: self.length,
            fraction: self.fraction,
            name: match &self.name {
                Some(n) => Some(n.clone()),
                None => None,
            },
        }
    }
}

/// The fixed part of a descriptor: options, type, mode, an unused byte, name
/// offset, length, fraction, two unused bytes.
pub open spec fn raw_descriptor_at(s: Seq<u8>, pos: int) -> Result<(RawDescriptor, int), HdbError> {
    match get_u8(s, pos) {
        Err(e) => Err(e),
        Ok((options, p1)) => match get_u8(s, p1) {
            Err(e) => Err(e),
            Ok((type_id, p2)) => match get_u8(s, p2) {
                Err(e) => Err(e),
                Ok((mode, p3)) => match direction_of(mode) {
                    Err(e) => Err(e),
                    Ok(direction) => match get_skip(s, p3, 1) {
                        Err(e) => Err(e),
                        Ok(p4) => match get_i16(s, p4) {
                            Err(e) => Err(e),
                            Ok((name_offset, p5)) => match get_i16(s, p5) {
                                Err(e) => Err(e),
                                Ok((length, p6)) => match get_i16(s, p6) {
                                    Err(e) => Err(e),
                                    Ok((fraction, p7)) => match get_skip(s, p7, 2) {
                                        Err(e) => Err(e),
                                        Ok(p8) => Ok(
                                            (
                                                RawDescriptor {
                                                    options,
                                                    type_id,
                                                    direction,
                                                    name_offset,
                                                    length,
                                                    fraction,
                                                },
                                                p8,
                                            ),
                                        ),
                                    },
                                },
                            },
                        },
                    },
                },
            },
        },
    }
}

/// A name in a table of names: one byte of length, then the text.
pub open spec fn name_at(s: Seq<u8>, pos: int) -> Result<(Seq<char>, int), HdbError> {
    match get_u8(s, pos) {
        Err(e) => Err(e),
        Ok((n, p)) => match get_bytes(s, p, n as int) {
            Err(e) => Err(e),
            Ok((d, q)) => match decoded_text(d) {
                Err(e) => Err(e),
                Ok(t) => Ok((t, q)),
            },
        },
    }
}

/// Reads a name of a table of names.
pub fn parse_name(b: &[u8], pos: usize) -> (r: Result<(String, usize), HdbError>)
    ensures
        crate::wire::agrees_view(r, name_at(b@, pos as int)),
{
    let (n, p) = take_u8(b, pos)?;
    let (d, q) = parse_bytes(b, p, n as usize)?;
    let t: String = cesu8_to_string(d.as_slice())?;
    Ok((t, q))
}

/// A descriptor with its name resolved: the names of the parameters that
/// have one follow the table of descriptors in the order of the parameters.
pub open spec fn named_at(raw: RawDescriptor, s: Seq<u8>, pos: int) -> Result<
    (ParameterDescriptorView, int),
    HdbError,
> {
    if raw.name_offset == NO_NAME {
        Ok(
            (
                ParameterDescriptorView {
                    options: raw.options,
                    type_id: raw.type_id,
                    direction: raw.direction,
                    length: raw.length,
                    fraction: raw.fraction,
                    name: None,
                },
                pos,
            ),
        )
    } else {
        match name_at(s, pos) {
            Err(e) => Err(e),
            Ok((t, q)) => Ok(
                (
                    ParameterDescriptorView {
                        options: raw.options,
                        type_id: raw.type_id,
                        direction: raw.direction,
                        length: raw.length,
                        fraction: raw.fraction,
                        name: Some(t),
                    },
                    q,
                ),
            ),
        }
    }
}

/// Reads the fixed part of one descriptor.
pub open spec fn raw_descriptor_reader() -> spec_fn(Seq<u8>, int) -> Result<
    (RawDescriptor, int),
    HdbError,
> {
    |s: Seq<u8>, p: int| raw_descriptor_at(s, p)
}

/// Reads the name of the descriptor at an index.
pub open spec fn named_reader(raws: Seq<RawDescriptor>) -> spec_fn(int, Seq<u8>, int) -> Result<
    (ParameterDescriptorView, int),
    HdbError,
> {
    |i: int, s: Seq<u8>, p: int| named_at(raws[i], s, p)
}

/// What the bytes at `pos` say of the descriptors of `count` parameters:
/// the table of the fixed parts, then the names.
pub open spec fn parameter_metadata_at(s: Seq<u8>, pos: int, count: nat) -> Result<
    (Seq<ParameterDescriptorView>, int),
    HdbError,
> {
    match repeat_at(raw_descriptor_reader(), s, pos, count) {
        Err(e) => Err(e),
        Ok((raws, p)) => irepeat_at(named_reader(raws), s, p, count),
    }
}

/// The fixed part of a descriptor as it was read.
struct RawParts {
    options: u8,
    type_id: u8,
    direction: ParameterDirection,
    name_offset: i16,
    length: i16,
    fraction: i16,
}

impl View for RawParts {
    type V = RawDescriptor;

    closed spec fn view(&self) -> RawDescriptor {
        RawDescriptor {
            options: self.options,
            type_id: self.type_id,
            direction: self.direction,
            name_offset: self.name_offset,
            length: self.length,
            fraction: self.fraction,
        }
    }
}

/// Reads the fixed part of a descriptor.
fn parse_raw(b: &[u8], pos: usize) -> (r: Result<(RawParts, usize), HdbError>)
    ensures
        crate::wire::agrees_view(r, raw_descriptor_at(b@, pos as int)),
{
    let (options, p1) = take_u8(b, pos)?;
    let (type_id, p2) = take_u8(b, p1)?;
    let (mode, p3) = take_u8(b, p2)?;
    let direction: ParameterDirection = ParameterDirection::from_u8(mode)?;
    let p4: usize = skip_bytes(b, p3, 1)?;
    let (name_offset, p5) = take_i16(b, p4)?;
    let (length, p6) = take_i16(b, p5)?;
    let (fraction, p7) = take_i16(b, p6)?;
    let p8: usize = skip_bytes(b, p7, 2)?;
    Ok((RawParts { options, type_id, direction, name_offset, length, fraction }, p8))
}

/// Reads the table of the fixed parts.
fn parse_raws(count: usize, b: &[u8], pos: usize) -> (r: Result<(Vec<RawParts>, usize), HdbError>)
    ensures
        match r {
            Ok((v, p)) => repeat_at(raw_descriptor_reader(), b@, pos as int, count as nat)
                == Ok::<_, HdbError>((views(v@), p as int)) && v@.len() == count,
            Err(e) => repeat_at(raw_descriptor_reader(), b@, pos as int, count as nat) == Err::<
                (Seq<RawDescriptor>, int),
                _,
            >(e),
        },
{
    let mut out: Vec<RawParts> = Vec::new();
    let mut p: usize = pos;
    let mut i: usize = 0;
    proof {
        lemma_views_empty(out@);
    }
    while i < count
        invariant
            i <= count,
            out@.len() == i,
            repeat_at(raw_descriptor_reader(), b@, pos as int, i as nat) == Ok::<_, HdbError>(
                (views(out@), p as int),
            ),
        decreases count - i,
    {
        proof {
            lemma_repeat_step(raw_descriptor_reader(), b@, pos as int, i as nat);
            assert(raw_descriptor_reader()(b@, p as int) == raw_descriptor_at(b@, p as int));
        }
        let ghost next = repeat_at(raw_descriptor_reader(), b@, pos as int, (i + 1) as nat);
        let (x, q) = match parse_raw(b, p) {
            Ok(t) => t,
            Err(e) => {
                proof {
                    assert(next == Err::<(Seq<RawDescriptor>, int), _>(e));
                    lemma_repeat_failure(
                        raw_descriptor_reader(),
                        b@,
                        pos as int,
                        (i + 1) as nat,
                        count as nat,
                    );
                }
                return Err(e);
            },
        };
        proof {
            lemma_views_push(out@, x);
        }
        out.push(x);
        p = q;
        i = i + 1;
    }
    Ok((out, p))
}

impl ParameterDescriptor {
    /// Reads the descriptors of `count` parameters.
    pub fn parse(count: usize, b: &[u8], pos: usize) -> (r: Result<
        (Vec<ParameterDescriptor>, usize),
        HdbError,
    >)
        ensures
            match r {
                Ok((v, p)) => parameter_metadata_at(b@, pos as int, count as nat) == Ok::<
                    _,
                    HdbError,
                >((views(v@), p as int)) && v@.len() == count,
                Err(e) => parameter_metadata_at(b@, pos as int, count as nat) == Err::<
                    (Seq<ParameterDescriptorView>, int),
                    _,
                >(e),
            },
    {
        let (raws, start) = parse_raws(count, b, pos)?;
        let ghost rv = views(raws@);
        let mut out: Vec<ParameterDescriptor> = Vec::new();
        let mut p: usize = start;
        let mut i: usize = 0;
        proof {
            lemma_views_empty(out@);
        }
        while i < count
            invariant
                i <= count,
                out@.len() == i,
                raws@.len() == count,
                rv == views(raws@),
                repeat_at(raw_descriptor_reader(), b@, pos as int, count as nat) == Ok::<
                    _,
                    HdbError,
                >((rv, start as int)),
                irepeat_at(named_reader(rv), b@, start as int, i as nat) == Ok::<_, HdbError>(
                    (views(out@), p as int),
                ),
            decreases count - i,
        {
            proof {
                lemma_irepeat_step(named_reader(rv), b@, start as int, i as nat);
                assert(named_reader(rv)(i as int, b@, p as int) == named_at(
                    rv[i as int],
                    b@,
                    p as int,
                ));
                assert(rv[i as int] == raws@[i as int]@);
            }
            let ghost next = irepeat_at(named_reader(rv), b@, start as int, (i + 1) as nat);
            let raw = &raws[i];
            let (name, q) = if raw.name_offset == NO_NAME {
                (None, p)
            } else {
                match parse_name(b, p) {
                    Ok((t, q)) => (Some(t), q),
                    Err(e) => {
                        proof {
                            assert(next == Err::<(Seq<ParameterDescriptorView>, int), _>(e));
                            lemma_irepeat_failure(
                                named_reader(rv),
                                b@,
                                start as int,
                                (i + 1) as nat,
                                count as nat,
                            );
                        }
                        return Err(e);
                    },
                }
            };
            let x = ParameterDescriptor {
                options: raw.options,
                type_id: raw.type_id,
                direction: raw.direction,
                length: raw.length,
                fraction: raw.fraction,
                name,
            };
            proof {
                lemma_views_push(out@, x);
            }
            out.push(x);
            p = q;
            i = i + 1;
        }
        Ok((out, p))
    }
}

} // verus!
